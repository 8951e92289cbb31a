//! Finished fetches become resident tiles, and resident tiles make room again.

use crate::render::{TileId, TileKey};
use crate::tiles::manager::{
    all_but, at_most_first, books_after, books_after_all, bytes_of, failed_lately, is_resident,
    is_upload_of, kept, keys_from_back, not_failed, only, promoted, promoted_all, remove_failed,
    remove_key, resident, resting_size, room, tiles_pop, tiles_promote, tiles_push, tiles_resize,
    tiles_sizes, uploads, uploads_of, within_budget, without_all, without_key, Books, FetchedTile,
    Knobs, PendingTile, Resident, TileManager, TileResult, MAX_INFLIGHT, MAX_THUMBS_LOADING,
    RASTER_TILE_BYTES, RASTER_TILE_CACHE, RETRY_AFTER_MS,
};
use crate::tiles::style::BasemapStyle;
use vstd::prelude::*;

verus! {

/// The bytes of a fetched tile can be counted in 32 bits.
pub open spec fn countable(r: TileResult) -> bool {
    match r {
        TileResult::Fetched(t) => t.width * t.height * 4 <= u32::MAX,
        TileResult::Failed(_) => true,
    }
}

/// `p` is the upload of the fetched tile `r`.
pub open spec fn uploads_result(p: PendingTile, r: TileResult) -> bool {
    match r {
        TileResult::Fetched(t) => is_upload_of(p, t),
        TileResult::Failed(_) => false,
    }
}

impl TileManager {
    /// Take in one finished fetch, and say what is to be uploaded for it.
    fn accept(&mut self, r: TileResult, now: u64) -> (p: Option<PendingTile>)
        requires
            old(self).well_formed(),
            countable(r),
        ensures
            final(self).well_formed(),
            final(self).knobs() == old(self).knobs(),
            final(self).books() == books_after(
                old(self).books(),
                room(old(self).uploaded),
                r,
                now,
            ),
            p is Some <==> uploads(old(self).books(), r),
            p is Some ==> uploads_result(p->0, r),
    {
        match r {
            TileResult::Failed(key) => {
                remove_key(&mut self.requested, key);
                remove_failed(&mut self.failed, key);
                self.failed.push((key, now));
                None
            },
            TileResult::Fetched(t) => {
                let FetchedTile { id, style, rgba, width, height } = t;
                let key: TileKey = (style, id);
                remove_failed(&mut self.failed, key);
                proof {
                    assert(width * height <= width * height * 4) by (nonlinear_arith)
                        requires
                            width >= 0,
                            height >= 0,
                    ;
                }
                let bytes: u32 = width * height * 4;
                let out = tiles_push(&mut self.uploaded, key, bytes);
                match out {
                    Some(k) => {
                        if k.0 == key.0 && k.1.0 == key.1.0 && k.1.1 == key.1.1 && k.1.2 == key.1.2 {
                            assert(k == key);
                            proof {
                                lemma_out_means_resident(
                                    old(self).books().resident,
                                    room(old(self).uploaded),
                                    key,
                                );
                            }
                            return None;
                        }
                        remove_key(&mut self.requested, k);
                        self.evicted.push(k);
                    },
                    None => {},
                }
                Some(PendingTile { id, style, rgba, width, height })
            },
        }
    }

    /// Take in finished fetches, and say what is to be uploaded (each exactly once).
    pub fn drain_ready(&mut self, results: Vec<TileResult>, now: u64) -> (ready: Vec<PendingTile>)
        requires
            old(self).well_formed(),
            forall|i: int| 0 <= i < results@.len() ==> countable(#[trigger] results@[i]),
        ensures
            final(self).well_formed(),
            final(self).knobs() == old(self).knobs(),
            final(self).books() == books_after_all(
                old(self).books(),
                room(old(self).uploaded),
                results@,
                now,
            ),
            ({
                let due = uploads_of(old(self).books(), room(old(self).uploaded), results@, now);
                &&& ready@.len() == due.len()
                &&& forall|i: int|
                    0 <= i < due.len() ==> uploads_result(#[trigger] ready@[i], due[i])
            }),
    {
        let ghost rs = results@;
        let ghost b0 = self.books();
        let ghost cap = room(self.uploaded);
        let mut ready: Vec<PendingTile> = Vec::new();
        let mut rest = results;
        let ghost mut done: int = 0;
        // Reversed, so that each result can be taken off the end in turn.
        let mut turned: Vec<TileResult> = Vec::new();
        while rest.len() > 0
            invariant
                rest@.len() + turned@.len() == rs.len(),
                forall|i: int| 0 <= i < rest@.len() ==> rest@[i] == rs[i],
                forall|i: int| 0 <= i < turned@.len() ==> turned@[i] == rs[rs.len() - 1 - i],
            decreases rest@.len(),
        {
            let r = rest.pop().unwrap();
            turned.push(r);
        }
        assert(rs.take(0) =~= Seq::<TileResult>::empty());
        while turned.len() > 0
            invariant
                0 <= done <= rs.len(),
                turned@.len() == rs.len() - done,
                forall|i: int| 0 <= i < turned@.len() ==> turned@[i] == rs[rs.len() - 1 - i],
                forall|i: int| 0 <= i < rs.len() ==> countable(#[trigger] rs[i]),
                self.well_formed(),
                self.knobs() == old(self).knobs(),
                room(self.uploaded) == cap,
                self.books() == books_after_all(b0, cap, rs.take(done), now),
                ready@.len() == uploads_of(b0, cap, rs.take(done), now).len(),
                forall|i: int|
                    0 <= i < ready@.len() ==> uploads_result(
                        #[trigger] ready@[i],
                        uploads_of(b0, cap, rs.take(done), now)[i],
                    ),
            decreases turned@.len(),
        {
            let ghost next = rs.take(done + 1);
            proof {
                assert(next.drop_last() =~= rs.take(done));
                assert(next.last() == rs[done]);
                assert(turned@.last() == rs[done]);
            }
            let r = turned.pop().unwrap();
            assert(r == rs[done]);
            match self.accept(r, now) {
                Some(p) => {
                    ready.push(p);
                },
                None => {},
            }
            proof {
                done = done + 1;
            }
        }
        assert(rs.take(rs.len() as int) =~= rs);
        ready
    }

    /// Mark this frame's tiles as most recently used. Called once per pane, because panes can show
    /// different basemaps and each pane's tiles must survive the others' eviction pass. Eviction
    /// itself runs once per frame, after every pane has been counted.
    pub fn promote_visible(&mut self, style: BasemapStyle, visible: &[TileId])
        requires
            old(self).well_formed(),
            old(self).frame_visible + visible@.len() <= usize::MAX,
        ensures
            final(self).well_formed(),
            final(self).knobs() == (Knobs {
                frame_visible: (old(self).frame_visible + visible@.len()) as usize,
                ..old(self).knobs()
            }),
            final(self).books() == (Books {
                resident: promoted_all(old(self).books().resident, style.place() as u8, visible@),
                ..old(self).books()
            }),
    {
        let skey = style.key();
        let ghost es = resident(self.uploaded);
        let mut i: usize = 0;
        assert(visible@.take(0) =~= Seq::<TileId>::empty());
        while i < visible.len()
            invariant
                i <= visible.len(),
                skey == style.place(),
                self.well_formed(),
                self.knobs() == old(self).knobs(),
                self.books() == (Books {
                    resident: promoted_all(es, style.place() as u8, visible@.take(i as int)),
                    ..old(self).books()
                }),
            decreases visible.len() - i,
        {
            proof {
                assert(visible@.take(i + 1).drop_last() =~= visible@.take(i as int));
                assert(visible@.take(i + 1).last() == visible@[i as int]);
            }
            tiles_promote(&mut self.uploaded, &(skey, visible[i]));
            i = i + 1;
        }
        assert(visible@.take(visible@.len() as int) =~= visible@);
        self.frame_visible = self.frame_visible + visible.len();
    }

    /// How many bytes the resident tiles take, and how many there are.
    fn weigh(&self) -> (r: (u128, usize))
        ensures
            r.0 == bytes_of(resident(self.uploaded)),
            r.1 == resident(self.uploaded).len(),
    {
        let sizes = tiles_sizes(&self.uploaded);
        let ghost es = resident(self.uploaded);
        let mut sum: u128 = 0;
        let mut i: usize = 0;
        assert(es.take(0) =~= Seq::<Resident>::empty());
        while i < sizes.len()
            invariant
                i <= sizes.len(),
                es == resident(self.uploaded),
                sizes@.len() == es.len(),
                forall|i: int| 0 <= i < sizes@.len() ==> #[trigger] sizes@[i] == es[i].1,
                sum == bytes_of(es.take(i as int)),
                sum <= i * 0xffff_ffff,
            decreases sizes.len() - i,
        {
            proof {
                assert(es.take(i + 1).drop_last() =~= es.take(i as int));
                assert(es.take(i + 1).last() == es[i as int]);
            }
            sum = sum + sizes[i] as u128;
            i = i + 1;
        }
        assert(es.take(es.len() as int) =~= es);
        (sum, sizes.len())
    }

    /// The tile used longest ago makes room.
    fn drop_last(&mut self)
        requires
            old(self).well_formed(),
            old(self).books().resident.len() > 0,
        ensures
            final(self).well_formed(),
            final(self).knobs() == old(self).knobs(),
            final(self).books() == dropped_last(old(self).books()),
    {
        match tiles_pop(&mut self.uploaded) {
            Some(key) => {
                remove_key(&mut self.requested, key);
                self.evicted.push(key);
            },
            None => {},
        }
    }

    /// Shrink the cache back to its resting size and return what fell out, so the renderer can
    /// free those textures. Run after the last pane was counted.
    ///
    /// What this frame drew survives both the byte budget and the entry cap. An evicted tile is no
    /// longer counted as requested, so revisiting that area re-fetches it instead of leaving a
    /// black square.
    pub fn evict_excess(&mut self) -> (gone: Vec<TileKey>)
        requires
            old(self).well_formed(),
            old(self).frame_visible <= usize::MAX - 16,
        ensures
            final(self).well_formed(),
            final(self).knobs() == (Knobs {
                frame_visible: 0,
                room: resting_size(old(self).frame_visible as nat),
                ..old(self).knobs()
            }),
            ({
                let es = old(self).books().resident;
                let stay = kept(es, old(self).frame_visible as nat);
                let fell = keys_from_back(es, stay.len());
                &&& gone@ == old(self).books().evicted + fell
                &&& final(self).books() == (Books {
                    requested: without_all(old(self).books().requested, fell),
                    failed: old(self).books().failed,
                    resident: stay,
                    evicted: Seq::empty(),
                })
            }),
    {
        let ghost start = self.books();
        let ghost es = start.resident;
        let visible: usize = self.frame_visible;
        let want: usize = if visible + 16 > RASTER_TILE_CACHE {
            visible + 16
        } else {
            RASTER_TILE_CACHE
        };
        let floor: usize = if visible >= 1 {
            visible
        } else {
            1
        };
        self.frame_visible = 0;
        let ghost knobs = self.knobs();
        assert(es.take(es.len() as int) =~= es);
        assert(keys_from_back(es, es.len()) =~= Seq::<TileKey>::empty());
        assert(start.evicted + Seq::<TileKey>::empty() =~= start.evicted);
        loop
            invariant
                self.well_formed(),
                self.knobs() == knobs,
                es == start.resident,
                self.books().resident.len() <= es.len(),
                self.books() == fell_to(start, self.books().resident.len()),
                within_budget(self.books().resident, floor as nat) == within_budget(
                    es,
                    floor as nat,
                ),
            ensures
                self.books().resident == within_budget(es, floor as nat),
            decreases self.books().resident.len(),
        {
            let (bytes, count) = self.weigh();
            if count > floor && bytes > RASTER_TILE_BYTES as u128 {
                proof {
                    lemma_fall(start, self.books().resident.len());
                }
                self.drop_last();
            } else {
                break;
            }
        }
        let ghost light = self.books().resident;
        loop
            invariant
                self.well_formed(),
                self.knobs() == knobs,
                es == start.resident,
                self.books().resident.len() <= light.len(),
                light.len() <= es.len(),
                light == es.take(light.len() as int),
                self.books().resident.len() >= want || self.books().resident == light,
                self.books() == fell_to(start, self.books().resident.len()),
            ensures
                self.books().resident.len() <= want,
            decreases self.books().resident.len(),
        {
            let (_, count) = self.weigh();
            if count > want {
                proof {
                    lemma_fall(start, self.books().resident.len());
                }
                self.drop_last();
            } else {
                break;
            }
        }
        assert(self.books().resident =~= at_most_first(light, want as nat));
        tiles_resize(&mut self.uploaded, want);
        let mut gone: Vec<TileKey> = Vec::new();
        std::mem::swap(&mut gone, &mut self.evicted);
        assert(self.evicted@ =~= Seq::<TileKey>::empty());
        gone
    }
}

/// The books after the last resident tile made room.
pub open spec fn dropped_last(b: Books) -> Books {
    let key = b.resident.last().0;
    Books {
        requested: crate::tiles::manager::without_key(b.requested, key),
        resident: b.resident.drop_last(),
        evicted: b.evicted.push(key),
        ..b
    }
}

/// The books after all but the first `n` resident tiles made room, the last first.
pub open spec fn fell_to(b: Books, n: nat) -> Books {
    let fell = keys_from_back(b.resident, n);
    Books {
        requested: without_all(b.requested, fell),
        resident: b.resident.take(n as int),
        evicted: b.evicted + fell,
        ..b
    }
}

proof fn lemma_keys_from_back(es: Seq<Resident>, n: nat)
    requires
        0 < n <= es.len(),
    ensures
        keys_from_back(es, (n - 1) as nat) == keys_from_back(es, n).push(es[n - 1].0),
    decreases es.len(),
{
    if es.len() == n {
        assert(keys_from_back(es, n) =~= Seq::<TileKey>::empty());
        assert(keys_from_back(es.drop_last(), (n - 1) as nat) =~= Seq::<TileKey>::empty());
        assert(keys_from_back(es, (n - 1) as nat) =~= seq![es.last().0]);
    } else {
        lemma_keys_from_back(es.drop_last(), n);
        assert(es.drop_last()[n - 1] == es[n - 1]);
        assert(keys_from_back(es, (n - 1) as nat) =~= keys_from_back(es, n).push(es[n - 1].0));
    }
}

proof fn lemma_fall(b: Books, n: nat)
    requires
        0 < n <= b.resident.len(),
    ensures
        dropped_last(fell_to(b, n)) == fell_to(b, (n - 1) as nat),
{
    lemma_keys_from_back(b.resident, n);
    let fell = keys_from_back(b.resident, n);
    let more = keys_from_back(b.resident, (n - 1) as nat);
    assert(more.drop_last() =~= fell);
    assert(more.last() == b.resident[n - 1].0);
    assert(b.resident.take(n as int).drop_last() =~= b.resident.take(n - 1));
    assert((b.evicted + fell).push(more.last()) =~= b.evicted + more);
}

proof fn lemma_out_means_resident(es: Seq<Resident>, cap: nat, key: TileKey)
    requires
        crate::tiles::manager::pushed_out(es, cap, key) == Some(key),
    ensures
        is_resident(es, key),
{
    if !is_resident(es, key) {
        assert(es[es.len() - 1].0 == key);
    }
}

// ---------------------------------------------------------------------------------------------
// What holds of every frame.

/// No tile is resident twice.
pub open spec fn distinct(es: Seq<Resident>) -> bool {
    forall|i: int, j: int| 0 <= i < j < es.len() ==> (#[trigger] es[i]).0 != (#[trigger] es[j]).0
}

pub(crate) proof fn lemma_split_at(es: Seq<Resident>, key: TileKey, p: int)
    requires
        distinct(es),
        0 <= p < es.len(),
        es[p].0 == key,
    ensures
        all_but(es, key) == es.remove(p),
        only(es, key) == seq![es[p]],
    decreases es.len(),
{
    reveal(Seq::filter);
    let t = es.drop_last();
    assert(distinct(t));
    if p == es.len() - 1 {
        lemma_absent(t, key);
        assert(all_but(es, key) =~= es.remove(p));
        assert(only(es, key) =~= seq![es[p]]);
    } else {
        lemma_split_at(t, key, p);
        assert(es.last().0 != key);
        assert(all_but(es, key) =~= es.remove(p));
    }
}

pub(crate) proof fn lemma_absent(es: Seq<Resident>, key: TileKey)
    requires
        forall|i: int| 0 <= i < es.len() ==> (#[trigger] es[i]).0 != key,
    ensures
        all_but(es, key) == es,
        only(es, key) == Seq::<Resident>::empty(),
    decreases es.len(),
{
    reveal(Seq::filter);
    if es.len() > 0 {
        let t = es.drop_last();
        lemma_absent(t, key);
        assert(es.last().0 != key);
        assert(all_but(es, key) =~= es);
    } else {
        assert(all_but(es, key) =~= es);
    }
}

/// Promoting a tile moves it to the front and every other by at most one place.
proof fn lemma_promoted(es: Seq<Resident>, key: TileKey)
    requires
        distinct(es),
    ensures
        distinct(promoted(es, key)),
        promoted(es, key).len() == es.len(),
        is_resident(es, key) ==> promoted(es, key)[0].0 == key,
        forall|q: int|
            0 <= q < es.len() ==> (promoted(es, key)[q] == #[trigger] es[q] || (q + 1 < es.len()
                && promoted(es, key)[q + 1] == es[q]) || es[q].0 == key),
{
    let r = promoted(es, key);
    if is_resident(es, key) {
        let p = choose|p: int| 0 <= p < es.len() && (#[trigger] es[p]).0 == key;
        lemma_split_at(es, key, p);
        assert(r =~= seq![es[p]] + es.remove(p));
        assert forall|q: int| 0 <= q < es.len() implies (r[q] == #[trigger] es[q] || (q + 1
            < es.len() && r[q + 1] == es[q]) || es[q].0 == key) by {
            if q < p {
                assert(r[q + 1] == es[q]);
            } else if q > p {
                assert(r[q] == es[q]);
            }
        }
        assert forall|i: int, j: int| 0 <= i < j < r.len() implies (#[trigger] r[i]).0 != (
        #[trigger] r[j]).0 by {
            let jj = if j - 1 < p {
                j - 1
            } else {
                j
            };
            assert(r[j] == es[jj]);
            if i == 0 {
                assert(r[0] == es[p]);
                assert(es[p].0 != es[jj].0);
            } else {
                let ii = if i - 1 < p {
                    i - 1
                } else {
                    i
                };
                assert(r[i] == es[ii]);
                assert(es[ii].0 != es[jj].0);
            }
        }
    } else {
        lemma_absent(es, key);
        assert(r =~= es);
    }
}

/// A tile at place `q` is at most `n` places further back after `n` tiles were promoted, and a tile
/// that was promoted is among the first `n`.
pub(crate) proof fn lemma_promoted_all(es: Seq<Resident>, style: u8, ids: Seq<TileId>)
    requires
        distinct(es),
    ensures
        distinct(promoted_all(es, style, ids)),
        promoted_all(es, style, ids).len() == es.len(),
        forall|q: int|
            0 <= q < es.len() ==> leads(
                promoted_all(es, style, ids),
                (#[trigger] es[q]).0,
                q + ids.len(),
            ),
        forall|i: int|
            0 <= i < ids.len() && is_resident(es, (style, ids[i])) ==> leads(
                promoted_all(es, style, ids),
                (style, #[trigger] ids[i]),
                ids.len() - 1,
            ),
    decreases ids.len(),
{
    if ids.len() == 0 {
        assert forall|q: int| 0 <= q < es.len() implies leads(
            promoted_all(es, style, ids),
            (#[trigger] es[q]).0,
            q + ids.len(),
        ) by {
            assert(promoted_all(es, style, ids)[q].0 == es[q].0);
        }
    } else {
        let front = ids.drop_last();
        let key = (style, ids.last());
        lemma_promoted_all(es, style, front);
        let m = promoted_all(es, style, front);
        lemma_promoted(m, key);
        let r = promoted_all(es, style, ids);
        assert(r == promoted(m, key));
        assert forall|q: int| 0 <= q < es.len() implies leads(
            r,
            (#[trigger] es[q]).0,
            q + ids.len(),
        ) by {
            assert(leads(m, es[q].0, q + front.len()));
            lemma_step_back(m, r, key, es[q].0, q + front.len());
        }
        assert forall|i: int| 0 <= i < ids.len() && is_resident(es, (style, ids[i])) implies leads(
            r,
            (style, #[trigger] ids[i]),
            ids.len() - 1,
        ) by {
            let k = (style, ids[i]);
            let p = choose|p: int| 0 <= p < es.len() && (#[trigger] es[p]).0 == k;
            assert(leads(m, es[p].0, p + front.len()));
            if i < front.len() {
                assert(front[i] == ids[i]);
                assert(leads(m, (style, front[i]), front.len() - 1));
                lemma_step_back(m, r, key, k, front.len() - 1);
            } else {
                let w = choose|w: int|
                    0 <= w < m.len() && w <= p + front.len() && (#[trigger] m[w]).0 == k;
                assert(m[w].0 == key);
                assert(r[0].0 == key);
            }
        }
    }
}

/// The tile `key` is resident at place `n` or before it.
pub open spec fn leads(es: Seq<Resident>, key: TileKey, n: int) -> bool {
    exists|w: int| 0 <= w < es.len() && w <= n && (#[trigger] es[w]).0 == key
}

proof fn lemma_step_back(m: Seq<Resident>, r: Seq<Resident>, moved: TileKey, key: TileKey, n: int)
    requires
        distinct(m),
        r == promoted(m, moved),
        leads(m, key, n),
        n >= 0,
    ensures
        leads(r, key, n + 1),
{
    lemma_promoted(m, moved);
    let w = choose|w: int| 0 <= w < m.len() && w <= n && (#[trigger] m[w]).0 == key;
    if key == moved {
        assert(is_resident(m, moved));
        assert(r[0].0 == key);
    } else if r[w] == m[w] {
        assert(r[w].0 == key);
    } else {
        assert(r[w + 1] == m[w]);
        assert(r[w + 1].0 == key);
    }
}

/// The tiles that a pane draws lead the cache once they were counted: each that is resident stands
/// among the first as many as the pane draws.
pub proof fn drawn_tiles_lead(es: Seq<Resident>, style: u8, ids: Seq<TileId>, i: int)
    requires
        distinct(es),
        0 <= i < ids.len(),
        is_resident(es, (style, ids[i])),
    ensures
        leads(promoted_all(es, style, ids), (style, ids[i]), ids.len() - 1),
        distinct(promoted_all(es, style, ids)),
{
    lemma_promoted_all(es, style, ids);
    assert(leads(promoted_all(es, style, ids), (style, ids[i]), ids.len() - 1));
}

/// A pane that is counted later pushes what earlier panes draw back by no more than what it draws
/// itself.
pub proof fn earlier_panes_stay_in_front(
    es: Seq<Resident>,
    style: u8,
    ids: Seq<TileId>,
    key: TileKey,
    counted: int,
)
    requires
        distinct(es),
        leads(es, key, counted - 1),
    ensures
        leads(promoted_all(es, style, ids), key, counted + ids.len() - 1),
{
    lemma_promoted_all(es, style, ids);
    let w = choose|w: int| 0 <= w < es.len() && w <= counted - 1 && (#[trigger] es[w]).0 == key;
    assert(leads(promoted_all(es, style, ids), es[w].0, w + ids.len()));
}

proof fn lemma_within_budget(es: Seq<Resident>, floor: nat)
    ensures
        within_budget(es, floor).len() <= es.len(),
        within_budget(es, floor) == es.take(within_budget(es, floor).len() as int),
        es.len() >= floor ==> within_budget(es, floor).len() >= floor,
        es.len() < floor ==> within_budget(es, floor) == es,
        within_budget(es, floor).len() > floor ==> bytes_of(within_budget(es, floor))
            <= RASTER_TILE_BYTES,
    decreases es.len(),
{
    if es.len() > floor && bytes_of(es) > RASTER_TILE_BYTES {
        lemma_within_budget(es.drop_last(), floor);
        let n = within_budget(es, floor).len() as int;
        assert(es.drop_last().take(n) =~= es.take(n));
    } else {
        assert(es.take(es.len() as int) =~= es);
    }
}

pub(crate) proof fn lemma_kept_is_prefix(es: Seq<Resident>, visible: nat)
    ensures
        kept(es, visible).len() <= es.len(),
        kept(es, visible) == es.take(kept(es, visible).len() as int),
{
    let floor = if visible >= 1 {
        visible
    } else {
        1
    };
    lemma_within_budget(es, floor);
    let w = within_budget(es, floor);
    let n = kept(es, visible).len() as int;
    assert(kept(es, visible) =~= es.take(n));
}

/// What a frame drew survives its eviction: a tile among the first `visible` stays resident.
pub proof fn drawn_tiles_survive(es: Seq<Resident>, visible: nat, key: TileKey)
    requires
        leads(es, key, visible - 1),
    ensures
        is_resident(kept(es, visible), key),
{
    let floor = if visible >= 1 {
        visible
    } else {
        1
    };
    lemma_within_budget(es, floor);
    let w = choose|w: int| 0 <= w < es.len() && w <= visible - 1 && (#[trigger] es[w]).0 == key;
    assert(kept(es, visible)[w] == es[w]);
}

/// After an eviction the byte budget and the entry cap hold, unless what the frame drew alone is
/// over the budget.
pub proof fn budget_holds_after_eviction(es: Seq<Resident>, visible: nat)
    ensures
        kept(es, visible).len() <= resting_size(visible),
        bytes_of(kept(es, visible)) <= RASTER_TILE_BYTES || kept(es, visible).len() <= visible
            || kept(es, visible).len() <= 1,
{
    let floor = if visible >= 1 {
        visible
    } else {
        1
    };
    lemma_within_budget(es, floor);
    let w = within_budget(es, floor);
    let n = resting_size(visible);
    if w.len() > floor {
        lemma_fewer_bytes(w, kept(es, visible).len());
        assert(w.take(kept(es, visible).len() as int) =~= kept(es, visible));
    }
}

proof fn lemma_fewer_bytes(es: Seq<Resident>, n: nat)
    requires
        n <= es.len(),
    ensures
        bytes_of(es.take(n as int)) <= bytes_of(es),
    decreases es.len(),
{
    if n == es.len() {
        assert(es.take(n as int) =~= es);
    } else {
        lemma_fewer_bytes(es.drop_last(), n);
        assert(es.drop_last().take(n as int) =~= es.take(n as int));
    }
}

proof fn lemma_without_key(keys: Seq<TileKey>, key: TileKey)
    ensures
        !crate::tiles::manager::without_key(keys, key).contains(key),
        forall|k: TileKey|
            !keys.contains(k) ==> !(#[trigger] crate::tiles::manager::without_key(
                keys,
                key,
            ).contains(k)),
    decreases keys.len(),
{
    let r = crate::tiles::manager::without_key(keys, key);
    if keys.len() > 0 {
        let t = keys.drop_last();
        let q = crate::tiles::manager::without_key(t, key);
        lemma_without_key(t, key);
        assert forall|k: TileKey| r.contains(k) implies keys.contains(k) && k != key by {
            let i = r.index_of(k);
            if i < q.len() {
                assert(q[i] == k);
                assert(q.contains(k));
                assert(t.contains(k));
                assert(keys[t.index_of(k)] == k);
            } else {
                assert(keys[keys.len() - 1] == k);
            }
        }
    }
}

/// An evicted tile is not counted as requested any more, so a later view fetches it again.
pub proof fn evicted_tiles_are_fetched_again(
    requested: Seq<TileKey>,
    fell: Seq<TileKey>,
    key: TileKey,
)
    requires
        fell.contains(key),
    ensures
        !without_all(requested, fell).contains(key),
    decreases fell.len(),
{
    let front = fell.drop_last();
    let before = without_all(requested, front);
    lemma_without_key(before, fell.last());
    if fell.last() != key {
        assert(front[fell.index_of(key)] == key);
        evicted_tiles_are_fetched_again(requested, front, key);
    }
}

/// A finished fetch keeps every tile resident at most once.
pub proof fn fetches_keep_tiles_distinct(b: Books, cap: nat, r: TileResult, now: u64)
    requires
        distinct(b.resident),
    ensures
        distinct(books_after(b, cap, r, now).resident),
{
    match r {
        TileResult::Failed(_) => {},
        TileResult::Fetched(t) => {
            let key = (t.style, t.id);
            let es = b.resident;
            if is_resident(es, key) {
                let p = choose|p: int| 0 <= p < es.len() && (#[trigger] es[p]).0 == key;
                lemma_split_at(es, key, p);
                let rest = es.remove(p);
                assert forall|i: int| 0 <= i < rest.len() implies (#[trigger] rest[i]).0
                    != key by {
                    let ii = if i < p {
                        i
                    } else {
                        i + 1
                    };
                    assert(rest[i] == es[ii]);
                    if ii < p {
                        assert(es[ii].0 != es[p].0);
                    } else {
                        assert(es[p].0 != es[ii].0);
                    }
                }
            } else {
                lemma_absent(es, key);
            }
        },
    }
}

// ---------------------------------------------------------------------------------------------
// What a finished fetch changes.

/// Holds of every key but this one.
pub open spec fn another(key: TileKey) -> spec_fn(TileKey) -> bool {
    |k: TileKey| k != key
}

/// Holds of every failure but those of this tile.
pub open spec fn another_failure(key: TileKey) -> spec_fn((TileKey, u64)) -> bool {
    |f: (TileKey, u64)| f.0 != key
}

proof fn lemma_kept_by_filter<A>(s: Seq<A>, p: spec_fn(A) -> bool, a: A)
    requires
        s.contains(a),
        p(a),
    ensures
        s.filter(p).contains(a),
{
    let i = s.index_of(a);
    s.lemma_filter_contains(p, i);
}

/// Taking a tile off a list leaves every other, in order.
pub proof fn other_tiles_are_left(keys: Seq<TileKey>, failed: Seq<(TileKey, u64)>, key: TileKey)
    ensures
        without_key(keys, key) == keys.filter(another(key)),
        not_failed(failed, key) == failed.filter(another_failure(key)),
    decreases keys.len() + failed.len(),
{
    reveal(Seq::filter);
    if keys.len() > 0 {
        other_tiles_are_left(keys.drop_last(), failed, key);
    }
    if failed.len() > 0 {
        other_tiles_are_left(keys, failed.drop_last(), key);
    }
    if keys.len() == 0 {
        assert(without_key(keys, key) =~= keys.filter(another(key)));
    }
    if failed.len() == 0 {
        assert(not_failed(failed, key) =~= failed.filter(another_failure(key)));
    }
}

/// A tile whose fetch failed may be asked for again, but not within five seconds; no other tile is
/// held up by it, and what is resident stays.
pub proof fn failed_tiles_wait_for_their_retry(
    b: Books,
    cap: nat,
    key: TileKey,
    now: u64,
    other: TileKey,
    later: u64,
)
    requires
        now <= later,
    ensures
        ({
            let c = books_after(b, cap, TileResult::Failed(key), now);
            &&& !c.requested.contains(key)
            &&& other != key && b.requested.contains(other) ==> c.requested.contains(other)
            &&& failed_lately(c.failed, key, later) <==> later - now < 5_000
            &&& other != key ==> (failed_lately(c.failed, other, later) <==> failed_lately(
                b.failed,
                other,
                later,
            ))
            &&& c.resident == b.resident
            &&& c.evicted == b.evicted
        }),
{
    let c = books_after(b, cap, TileResult::Failed(key), now);
    other_tiles_are_left(b.requested, b.failed, key);
    lemma_without_key(b.requested, key);
    if b.requested.contains(other) && other != key {
        lemma_kept_by_filter(b.requested, another(key), other);
    }
    let kept = b.failed.filter(another_failure(key));
    assert(c.failed == kept.push((key, now)));
    assert(c.failed[kept.len() as int] == (key, now));
    assert forall|i: int| 0 <= i < kept.len() implies (#[trigger] c.failed[i]).0 != key
        && b.failed.contains(c.failed[i]) by {
        assert(c.failed[i] == kept[i]);
        b.failed.lemma_filter_pred(another_failure(key), i);
        b.failed.lemma_filter_contains_rev(another_failure(key), kept[i]);
    }
    if other != key {
        if failed_lately(b.failed, other, later) {
            let i = choose|i: int|
                0 <= i < b.failed.len() && (#[trigger] b.failed[i]).0 == other && later
                    - b.failed[i].1 < RETRY_AFTER_MS;
            let f = b.failed[i];
            lemma_kept_by_filter(b.failed, another_failure(key), f);
            let k = kept.index_of(f);
            assert(c.failed[k] == f);
        }
        if failed_lately(c.failed, other, later) {
            let i = choose|i: int|
                0 <= i < c.failed.len() && (#[trigger] c.failed[i]).0 == other && later
                    - c.failed[i].1 < RETRY_AFTER_MS;
            assert(i < kept.len());
            let k = b.failed.index_of(c.failed[i]);
            assert(b.failed[k] == c.failed[i]);
        }
    }
}

/// A fetched tile becomes the most recently used, with four bytes for each of its pixels, and has
/// not failed any more. In a full cache the least recently used one makes room for a new one: it is
/// told to have gone, and may be asked for again. Otherwise nothing goes.
pub proof fn fetched_tiles_come_first(b: Books, cap: nat, t: FetchedTile, now: u64)
    requires
        distinct(b.resident),
        t.width * t.height * 4 <= u32::MAX,
        0 < cap,
        b.resident.len() <= cap,
    ensures
        ({
            let key = (t.style, t.id);
            let c = books_after(b, cap, TileResult::Fetched(t), now);
            let full = b.resident.len() == cap && !is_resident(b.resident, key);
            &&& c.resident.len() > 0 && c.resident[0] == (key, (t.width * t.height * 4) as u32)
            &&& c.resident.len() <= cap
            &&& !failed_lately(c.failed, key, now)
            &&& !full ==> c.evicted == b.evicted && c.requested == b.requested
            &&& full ==> c.evicted == b.evicted.push(b.resident.last().0)
            &&& full ==> !c.requested.contains(b.resident.last().0)
            &&& forall|i: int|
                0 <= i < b.resident.len() - (if full {
                    1int
                } else {
                    0int
                }) ==> is_resident(c.resident, (#[trigger] b.resident[i]).0)
        }),
{
    let key = (t.style, t.id);
    let es = b.resident;
    let c = books_after(b, cap, TileResult::Fetched(t), now);
    let full = es.len() == cap && !is_resident(es, key);
    other_tiles_are_left(b.requested, b.failed, key);
    assert forall|i: int| 0 <= i < c.failed.len() implies (#[trigger] c.failed[i]).0 != key by {
        b.failed.lemma_filter_pred(another_failure(key), i);
    }
    let one = (key, (t.width * t.height * 4) as u32);
    if is_resident(es, key) {
        let p = choose|p: int| 0 <= p < es.len() && (#[trigger] es[p]).0 == key;
        lemma_split_at(es, key, p);
        let rest = es.remove(p);
        assert(c.resident =~= seq![one] + rest);
        assert forall|i: int| 0 <= i < es.len() implies is_resident(
            c.resident,
            (#[trigger] es[i]).0,
        ) by {
            if i < p {
                assert(c.resident[i + 1] == es[i]);
            } else if i == p {
                assert(c.resident[0].0 == es[i].0);
            } else {
                assert(c.resident[i] == es[i]);
            }
        }
    } else {
        lemma_absent(es, key);
        assert forall|i: int|
            0 <= i < es.len() - (if full {
                1int
            } else {
                0int
            }) implies is_resident(c.resident, (#[trigger] es[i]).0) by {
            assert(c.resident[i + 1] == es[i]);
        }
        if full {
            lemma_without_key(b.requested, es.last().0);
        }
    }
}

/// Fetches that finish one after the other are taken one after the other: a failed one is never
/// uploaded, a tile is uploaded where it was not resident yet.
pub proof fn fetches_are_taken_in_order(
    b: Books,
    cap: nat,
    first: Seq<TileResult>,
    after: Seq<TileResult>,
    now: u64,
)
    ensures
        books_after_all(b, cap, first + after, now) == books_after_all(
            books_after_all(b, cap, first, now),
            cap,
            after,
            now,
        ),
        uploads_of(b, cap, first + after, now) == uploads_of(b, cap, first, now) + uploads_of(
            books_after_all(b, cap, first, now),
            cap,
            after,
            now,
        ),
        first.len() == 0 ==> books_after_all(b, cap, first, now) == b,
        first.len() == 1 ==> books_after_all(b, cap, first, now) == books_after(
            b,
            cap,
            first[0],
            now,
        ),
        first.len() == 1 && first[0] is Failed ==> uploads_of(b, cap, first, now).len() == 0,
        first.len() == 1 && first[0] is Fetched ==> uploads_of(b, cap, first, now) == (
        if is_resident(b.resident, (first[0]->Fetched_0.style, first[0]->Fetched_0.id)) {
            Seq::empty()
        } else {
            first
        }),
    decreases after.len(),
{
    let none = Seq::<TileResult>::empty();
    if first.len() == 1 {
        assert(first.drop_last() =~= none);
        assert(books_after_all(b, cap, none, now) == b);
        assert(uploads_of(b, cap, none, now) == none);
        assert(none.push(first[0]) =~= first);
    }
    let mid = books_after_all(b, cap, first, now);
    if after.len() == 0 {
        assert(first + after =~= first);
        assert(uploads_of(mid, cap, after, now) =~= none);
        assert(uploads_of(b, cap, first, now) + none =~= uploads_of(b, cap, first, now));
    } else {
        let rest = after.drop_last();
        assert((first + after).drop_last() =~= first + rest);
        assert((first + after).last() == after.last());
        fetches_are_taken_in_order(b, cap, first, rest, now);
        let a = uploads_of(b, cap, first, now);
        let c = uploads_of(mid, cap, rest, now);
        assert((a + c).push(after.last()) =~= a + c.push(after.last()));
    }
}

// ---------------------------------------------------------------------------------------------
// What an eviction takes.

/// The bytes of tiles add up.
pub proof fn bytes_add_up(a: Seq<Resident>, b: Seq<Resident>)
    ensures
        a.len() == 0 ==> bytes_of(a) == 0,
        a.len() == 1 ==> bytes_of(a) == a[0].1,
        bytes_of(a + b) == bytes_of(a) + bytes_of(b),
    decreases b.len(),
{
    if a.len() == 1 {
        assert(a.drop_last() =~= Seq::<Resident>::empty());
        assert(bytes_of(a.drop_last()) == 0);
    }
    if b.len() == 0 {
        assert(a + b =~= a);
    } else {
        assert((a + b).drop_last() =~= a + b.drop_last());
        bytes_add_up(a, b.drop_last());
    }
}

proof fn lemma_longest(es: Seq<Resident>, floor: nat)
    ensures
        ({
            let n = within_budget(es, floor).len();
            n < es.len() ==> n >= floor && bytes_of(es.take(n as int + 1)) > RASTER_TILE_BYTES
        }),
    decreases es.len(),
{
    lemma_within_budget(es, floor);
    if es.len() > floor && bytes_of(es) > RASTER_TILE_BYTES {
        let t = es.drop_last();
        lemma_longest(t, floor);
        lemma_within_budget(t, floor);
        let n = within_budget(t, floor).len();
        if n < t.len() {
            assert(t.take(n as int + 1) =~= es.take(n as int + 1));
        } else {
            assert(es.take(n as int + 1) =~= es);
        }
    }
}

/// Nothing is evicted without need: the tiles that stay are the most recently used, and one more
/// would be over a hundred and thirty-four megabytes, or more than five hundred and twelve tiles
/// and sixteen beyond those drawn.
pub proof fn nothing_goes_without_need(es: Seq<Resident>, visible: nat)
    ensures
        ({
            let n = kept(es, visible).len();
            &&& n <= es.len()
            &&& kept(es, visible) == es.take(n as int)
            &&& n < es.len() ==> bytes_of(es.take(n as int + 1)) > 134 * 1_024 * 1_024 || (n >= 512 && n
                >= visible + 16)
            &&& n <= 512 || n <= visible + 16
        }),
{
    let floor = if visible >= 1 {
        visible
    } else {
        1
    };
    lemma_kept_is_prefix(es, visible);
    lemma_within_budget(es, floor);
    lemma_longest(es, floor);
}

/// What goes is told from the least recently used on.
pub proof fn the_oldest_goes_first(es: Seq<Resident>, n: nat, i: int)
    requires
        n <= es.len(),
    ensures
        keys_from_back(es, n).len() == es.len() - n,
        0 <= i < es.len() - n ==> keys_from_back(es, n)[i] == es[es.len() - 1 - i].0,
    decreases es.len(),
{
    if es.len() > n {
        the_oldest_goes_first(es.drop_last(), n, i - 1);
        the_oldest_goes_first(es.drop_last(), n, 0);
    }
}

/// Only what goes may be asked for again: every other request stands.
pub proof fn other_requests_stand(requested: Seq<TileKey>, fell: Seq<TileKey>, key: TileKey)
    requires
        requested.contains(key),
        !fell.contains(key),
    ensures
        without_all(requested, fell).contains(key),
    decreases fell.len(),
{
    if fell.len() > 0 {
        let front = fell.drop_last();
        assert(fell[fell.len() - 1] == fell.last());
        assert forall|i: int| 0 <= i < front.len() implies #[trigger] front[i] != key by {
            assert(fell[i] == front[i]);
        }
        other_requests_stand(requested, front, key);
        let before = without_all(requested, front);
        other_tiles_are_left(before, Seq::empty(), fell.last());
        lemma_kept_by_filter(before, another(fell.last()), key);
    }
}

/// Forgetting empties what was asked for and what is resident, and keeps the failures and what has
/// gone.
pub proof fn forgetting_keeps_the_failures(b: Books)
    ensures
        b.forgotten().requested.len() == 0,
        b.forgotten().resident.len() == 0,
        b.forgotten().failed == b.failed,
        b.forgotten().evicted == b.evicted,
{
}

/// Six fetches run at once, and four thumbnails.
pub proof fn few_fetches_run_at_once()
    ensures
        MAX_INFLIGHT == 6,
        MAX_THUMBS_LOADING == 4,
{
}

} // verus!
