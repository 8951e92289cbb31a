//! The tile manager and the renderer agree on what is resident.

use crate::render::frame::{tile_after, MapCallback};
use crate::render::{TileId, TileKey};
use crate::tiles::manager::{
    books_after_all, is_resident, kept, keys_from_back, promoted_all, pushed,
    pushed_out, uploads, uploads_of, Books, Resident, TileResult,
};
use crate::tiles::residency::{
    distinct, fetches_keep_tiles_distinct, leads, lemma_absent, lemma_kept_is_prefix,
    lemma_promoted_all, lemma_split_at,
};
use vstd::prelude::*;

verus! {

/// The tile that a fetch was for.
pub open spec fn key_of(r: TileResult) -> TileKey {
    match r {
        TileResult::Fetched(t) => (t.style, t.id),
        TileResult::Failed(key) => key,
    }
}

/// A tile is among those to be uploaded.
pub open spec fn is_uploaded(due: Seq<TileResult>, k: TileKey) -> bool {
    exists|i: int| 0 <= i < due.len() && key_of(#[trigger] due[i]) == k
}

/// Every tile that was fetched was missing, and none was fetched twice.
pub open spec fn were_missing(es: Seq<Resident>, rs: Seq<TileResult>) -> bool {
    &&& forall|i: int|
        0 <= i < rs.len() && (#[trigger] rs[i]) is Fetched ==> !is_resident(es, key_of(rs[i]))
    &&& forall|i: int, j: int|
        0 <= i < j < rs.len() && (#[trigger] rs[i]) is Fetched && (#[trigger] rs[j]) is Fetched
            ==> key_of(rs[i]) != key_of(rs[j])
}

/// The same tiles, in whatever order.
pub open spec fn same_tiles(a: Seq<Resident>, b: Seq<Resident>) -> bool {
    &&& a.len() == b.len()
    &&& distinct(a)
    &&& forall|k: TileKey| #[trigger] is_resident(a, k) <==> is_resident(b, k)
}

/// Pushing a tile that is not resident adds it, and takes away what had to make room.
proof fn lemma_push(es: Seq<Resident>, cap: nat, key: TileKey, bytes: u32, k: TileKey)
    requires
        distinct(es),
        !is_resident(es, key),
    ensures
        is_resident(pushed(es, cap, key, bytes), k) <==> (k == key || is_resident(es, k))
            && pushed_out(es, cap, key) != Some(k),
        pushed_out(es, cap, key) is Some ==> is_resident(es, pushed_out(es, cap, key)->0),
{
    lemma_absent(es, key);
    let now = pushed(es, cap, key, bytes);
    let out = pushed_out(es, cap, key);
    if out is Some {
        assert(es.last().0 == out->0);
        assert(is_resident(es, out->0));
        assert(now =~= seq![(key, bytes)] + es.drop_last());
        if is_resident(es, k) && out != Some(k) {
            let p = choose|p: int| 0 <= p < es.len() && (#[trigger] es[p]).0 == k;
            assert(p < es.len() - 1);
            assert(now[p + 1] == es[p]);
        }
        if is_resident(now, k) {
            let p = choose|p: int| 0 <= p < now.len() && (#[trigger] now[p]).0 == k;
            if p > 0 {
                assert(now[p] == es[p - 1]);
                assert(es[p - 1].0 != es[es.len() - 1].0);
            }
        }
        if k == key {
            assert(now[0].0 == k);
        }
    } else {
        assert(now =~= seq![(key, bytes)] + es);
        if is_resident(es, k) {
            let p = choose|p: int| 0 <= p < es.len() && (#[trigger] es[p]).0 == k;
            assert(now[p + 1] == es[p]);
        }
        if is_resident(now, k) {
            let p = choose|p: int| 0 <= p < now.len() && (#[trigger] now[p]).0 == k;
            if p > 0 {
                assert(now[p] == es[p - 1]);
            }
        }
        if k == key {
            assert(now[0].0 == k);
        }
    }
}

proof fn lemma_pushed_uploads(due: Seq<TileResult>, r: TileResult, k: TileKey)
    ensures
        is_uploaded(due.push(r), k) <==> is_uploaded(due, k) || key_of(r) == k,
{
    let all = due.push(r);
    if is_uploaded(due, k) {
        let i = choose|i: int| 0 <= i < due.len() && key_of(#[trigger] due[i]) == k;
        assert(all[i] == due[i]);
    }
    if key_of(r) == k {
        assert(all[due.len() as int] == r);
    }
    if is_uploaded(all, k) {
        let i = choose|i: int| 0 <= i < all.len() && key_of(#[trigger] all[i]) == k;
        if i < due.len() {
            assert(all[i] == due[i]);
        }
    }
}

/// The uploads of a batch are of tiles that were fetched in it.
proof fn lemma_uploads_were_fetched(b: Books, cap: nat, rs: Seq<TileResult>, now: u64, k: TileKey)
    requires
        is_uploaded(uploads_of(b, cap, rs, now), k),
    ensures
        exists|i: int| 0 <= i < rs.len() && (#[trigger] rs[i]) is Fetched && key_of(rs[i]) == k,
    decreases rs.len(),
{
    if rs.len() > 0 {
        let front = rs.drop_last();
        let due = uploads_of(b, cap, front, now);
        if uploads(books_after_all(b, cap, front, now), rs.last()) {
            lemma_pushed_uploads(due, rs.last(), k);
            if key_of(rs.last()) == k {
                assert(rs[rs.len() - 1] is Fetched);
            }
        }
        if is_uploaded(due, k) {
            lemma_uploads_were_fetched(b, cap, front, now, k);
            let i = choose|i: int|
                0 <= i < front.len() && (#[trigger] front[i]) is Fetched && key_of(front[i]) == k;
            assert(rs[i] == front[i]);
        }
    }
}

/// A batch of fetches: what is resident after it was resident before or is to be uploaded, and did
/// not have to make room.
proof fn lemma_batch(b: Books, cap: nat, rs: Seq<TileResult>, now: u64)
    requires
        distinct(b.resident),
        b.evicted.len() == 0,
        were_missing(b.resident, rs),
    ensures
        distinct(books_after_all(b, cap, rs, now).resident),
        forall|k: TileKey|
            #[trigger] is_resident(books_after_all(b, cap, rs, now).resident, k) <==> (is_resident(
                b.resident,
                k,
            ) || is_uploaded(uploads_of(b, cap, rs, now), k)) && !books_after_all(
                b,
                cap,
                rs,
                now,
            ).evicted.contains(k),
        forall|k: TileKey|
            #[trigger] books_after_all(b, cap, rs, now).evicted.contains(k) ==> is_resident(
                b.resident,
                k,
            ) || is_uploaded(uploads_of(b, cap, rs, now), k),
    decreases rs.len(),
{
    let b1 = books_after_all(b, cap, rs, now);
    let due1 = uploads_of(b, cap, rs, now);
    if rs.len() > 0 {
        let front = rs.drop_last();
        let r = rs.last();
        assert(were_missing(b.resident, front)) by {
            assert forall|i: int| 0 <= i < front.len() && (#[trigger] front[i]) is Fetched implies
                !is_resident(b.resident, key_of(front[i])) by {
                assert(rs[i] == front[i]);
            }
            assert forall|i: int, j: int|
                0 <= i < j < front.len() && (#[trigger] front[i]) is Fetched && (
                #[trigger] front[j]) is Fetched implies key_of(front[i]) != key_of(front[j]) by {
                assert(rs[i] == front[i] && rs[j] == front[j]);
            }
        }
        lemma_batch(b, cap, front, now);
        let b0 = books_after_all(b, cap, front, now);
        let due0 = uploads_of(b, cap, front, now);
        fetches_keep_tiles_distinct(b0, cap, r, now);
        match r {
            TileResult::Failed(_) => {
                assert(b1.resident == b0.resident && b1.evicted == b0.evicted);
            },
            TileResult::Fetched(t) => {
                let key = (t.style, t.id);
                assert(rs[rs.len() - 1] is Fetched);
                assert(!is_resident(b.resident, key));
                if is_uploaded(due0, key) {
                    lemma_uploads_were_fetched(b, cap, front, now, key);
                    let i = choose|i: int|
                        0 <= i < front.len() && (#[trigger] front[i]) is Fetched && key_of(front[i])
                            == key;
                    assert(rs[i] == front[i]);
                    assert(key_of(rs[i]) != key_of(rs[rs.len() - 1]));
                }
                assert(!is_uploaded(due0, key));
                assert(!is_resident(b0.resident, key));
                assert(!b0.evicted.contains(key));
                let bytes = (t.width * t.height * 4) as u32;
                let out = pushed_out(b0.resident, cap, key);
                lemma_push(b0.resident, cap, key, bytes, key);
                assert(out != Some(key));
                assert forall|k: TileKey|
                    #[trigger] is_resident(b1.resident, k) <==> (is_resident(b.resident, k)
                        || is_uploaded(due1, k)) && !b1.evicted.contains(k) by {
                    lemma_push(b0.resident, cap, key, bytes, k);
                    lemma_pushed_uploads(due0, r, k);
                    assert(is_resident(b0.resident, k) <==> (is_resident(b.resident, k)
                        || is_uploaded(due0, k)) && !b0.evicted.contains(k));
                    if out is Some {
                        lemma_pushed_key(b0.evicted, out->0, k);
                    }
                }
                assert forall|k: TileKey| #[trigger] b1.evicted.contains(k) implies is_resident(
                    b.resident,
                    k,
                ) || is_uploaded(due1, k) by {
                    lemma_pushed_uploads(due0, r, k);
                    if out is Some {
                        lemma_pushed_key(b0.evicted, out->0, k);
                        assert(is_resident(b0.resident, out->0));
                    }
                }
            },
        }
    } else {
        assert forall|k: TileKey| !#[trigger] b1.evicted.contains(k) by {}
        assert forall|k: TileKey| !#[trigger] is_uploaded(due1, k) by {}
    }
}

proof fn lemma_pushed_key(keys: Seq<TileKey>, key: TileKey, k: TileKey)
    ensures
        keys.push(key).contains(k) <==> keys.contains(k) || k == key,
{
    let all = keys.push(key);
    if keys.contains(k) {
        let i = choose|i: int| 0 <= i < keys.len() && keys[i] == k;
        assert(all[i] == k);
    }
    if k == key {
        assert(all[keys.len() as int] == k);
    }
}

/// A tile that is resident either stays or falls out.
proof fn lemma_stay_or_fall(es: Seq<Resident>, n: nat, k: TileKey)
    requires
        distinct(es),
        n <= es.len(),
    ensures
        is_resident(es.take(n as int), k) <==> is_resident(es, k) && !keys_from_back(
            es,
            n,
        ).contains(k),
        keys_from_back(es, n).contains(k) ==> is_resident(es, k),
    decreases es.len(),
{
    let fell = keys_from_back(es, n);
    if es.len() == n {
        assert(es.take(n as int) =~= es);
        assert(!fell.contains(k));
    } else {
        let front = es.drop_last();
        assert(distinct(front));
        lemma_stay_or_fall(front, n, k);
        assert(front.take(n as int) =~= es.take(n as int));
        let rest = keys_from_back(front, n);
        assert(fell == seq![es.last().0] + rest);
        if rest.contains(k) {
            let i = choose|i: int| 0 <= i < rest.len() && rest[i] == k;
            assert(fell[i + 1] == k);
        }
        if fell.contains(k) && es.last().0 != k {
            let i = choose|i: int| 0 <= i < fell.len() && fell[i] == k;
            assert(i > 0);
            assert(rest[i - 1] == k);
        }
        if es.last().0 == k {
            assert(fell[0] == k);
            assert(es[es.len() - 1].0 == k);
            if is_resident(front, k) {
                let p = choose|p: int| 0 <= p < front.len() && (#[trigger] front[p]).0 == k;
                assert(es[p].0 != es[es.len() - 1].0);
            }
        }
        if is_resident(front, k) {
            let p = choose|p: int| 0 <= p < front.len() && (#[trigger] front[p]).0 == k;
            assert(es[p].0 == k);
        }
        if is_resident(es, k) && es.last().0 != k {
            let p = choose|p: int| 0 <= p < es.len() && (#[trigger] es[p]).0 == k;
            assert(front[p].0 == k);
        }
    }
}

/// Marking a pane's tiles as used moves tiles, and neither adds nor loses one.
pub proof fn promotions_keep_the_tiles(es: Seq<Resident>, style: u8, ids: Seq<TileId>)
    requires
        distinct(es),
    ensures
        same_tiles(promoted_all(es, style, ids), es),
    decreases ids.len(),
{
    lemma_promoted_all(es, style, ids);
    let r = promoted_all(es, style, ids);
    if ids.len() == 0 {
        assert(r == es);
    } else {
        let m = promoted_all(es, style, ids.drop_last());
        let key = (style, ids.last());
        promotions_keep_the_tiles(es, style, ids.drop_last());
        assert forall|k: TileKey| #[trigger] is_resident(r, k) <==> is_resident(es, k) by {
            assert(is_resident(m, k) <==> is_resident(es, k));
            if is_resident(es, k) {
                let q = choose|q: int| 0 <= q < es.len() && (#[trigger] es[q]).0 == k;
                assert(leads(r, es[q].0, q + ids.len()));
            }
            if is_resident(r, k) {
                if is_resident(m, key) {
                    let p = choose|p: int| 0 <= p < m.len() && (#[trigger] m[p]).0 == key;
                    lemma_split_at(m, key, p);
                    let w = choose|w: int| 0 <= w < r.len() && (#[trigger] r[w]).0 == k;
                    assert(r =~= seq![m[p]] + m.remove(p));
                    if w > 0 {
                        let v = if w - 1 < p {
                            w - 1
                        } else {
                            w
                        };
                        assert(r[w] == m[v]);
                        assert(m[v].0 == k);
                    }
                } else {
                    lemma_absent(m, key);
                    assert(r =~= m);
                }
            }
        }
    }
}

/// The tile manager and the renderer agree on what is resident: when a frame hands the renderer
/// what was fetched and what fell out, it holds the texture of exactly the tiles that the manager
/// counts as resident after the frame, if that was so before it.
pub proof fn manager_and_renderer_agree(
    b: Books,
    cap: nat,
    rs: Seq<TileResult>,
    now: u64,
    drawn: Seq<Resident>,
    visible: nat,
    cb: MapCallback,
    k: TileKey,
)
    requires
        distinct(b.resident),
        b.evicted.len() == 0,
        were_missing(b.resident, rs),
        // The order after every pane was counted.
        same_tiles(drawn, books_after_all(b, cap, rs, now).resident),
        !cb.clear_tiles,
        cb.new_tiles@.contains(k) <==> is_uploaded(uploads_of(b, cap, rs, now), k),
        cb.drop_tiles@ == books_after_all(b, cap, rs, now).evicted + keys_from_back(
            drawn,
            kept(drawn, visible).len(),
        ),
    ensures
        tile_after(is_resident(b.resident, k), cb, k) <==> is_resident(kept(drawn, visible), k),
{
    lemma_batch(b, cap, rs, now);
    let b1 = books_after_all(b, cap, rs, now);
    let stay = kept(drawn, visible);
    lemma_kept_is_prefix(drawn, visible);
    let fell = keys_from_back(drawn, stay.len());
    lemma_stay_or_fall(drawn, stay.len(), k);
    let gone = b1.evicted + fell;
    assert(gone.contains(k) <==> b1.evicted.contains(k) || fell.contains(k)) by {
        if b1.evicted.contains(k) {
            let i = choose|i: int| 0 <= i < b1.evicted.len() && b1.evicted[i] == k;
            assert(gone[i] == k);
        }
        if fell.contains(k) {
            let i = choose|i: int| 0 <= i < fell.len() && fell[i] == k;
            assert(gone[b1.evicted.len() + i] == k);
        }
    }
    assert(is_resident(drawn, k) <==> is_resident(b1.resident, k));
}

} // verus!
