//! Answers kept for reuse: a bounded cache that forgets what was used longest ago, and the rules
//! for what may still be served from it.

use lru::LruCache;
use std::num::NonZeroUsize;
use vstd::prelude::*;

verus! {

/// `lru::LruCache`, as it stands.
#[verifier::external_type_specification]
#[verifier::external_body]
#[verifier::reject_recursive_types(K)]
#[verifier::reject_recursive_types(V)]
#[verifier::reject_recursive_types(S)]
pub struct ExLruCache<K, V, S>(LruCache<K, V, S>);

/// `lru::DefaultHasher`, the hasher of every cache here.
#[verifier::external_type_specification]
#[verifier::external_body]
pub struct ExDefaultHasher(lru::DefaultHasher);

/// How many built answers are kept. The snapshot key carries size and zoom, which the client
/// picks, so this cannot be a map that only grows.
pub const ANSWER_CACHE: usize = 64;

/// How many proxied responses are kept, and how many bytes they may take between them. An archive
/// volume is a few MB, so the byte bound is what actually binds; the entry count stops a run of
/// tiny tiles from holding a long tail.
pub const PROXY_CACHE_ENTRIES: usize = 64;

pub const PROXY_CACHE_BYTES: usize = 268_435_456;

/// One answer, kept for its time to live.
#[derive(Debug)]
pub struct ProxyHit {
    /// When it was built, in milliseconds of the caller's clock.
    pub at: u64,
    pub ctype: &'static str,
    pub body: Vec<u8>,
    /// Hashed once at insert, so a client that already holds these bytes can be told so.
    pub etag: String,
}

/// An answer and the text it is kept under.
pub type Entry = (Seq<char>, ProxyHit);

/// What a cache holds, the most recently used answer first.
pub uninterp spec fn held(c: LruCache<String, ProxyHit>) -> Seq<(Seq<char>, ProxyHit)>;

/// How many answers a cache was made to hold at most.
pub uninterp spec fn capacity(c: LruCache<String, ProxyHit>) -> nat;

/// Whether an answer is kept under `key`.
pub open spec fn has(es: Seq<Entry>, key: Seq<char>) -> bool {
    exists|i: int| 0 <= i < es.len() && (#[trigger] es[i]).0 == key
}

/// `es` without what is kept under `key`.
pub open spec fn without(es: Seq<Entry>, key: Seq<char>) -> Seq<Entry> {
    es.filter(|e: Entry| e.0 != key)
}

/// What is left when room has been made for one more: all, or all but the last.
pub open spec fn with_room(es: Seq<Entry>, cap: nat) -> Seq<Entry> {
    if es.len() >= cap && es.len() > 0 {
        es.drop_last()
    } else {
        es
    }
}

/// What is held after `value` was put under `key`: it comes first; a full cache forgets the last.
pub open spec fn put_entries(es: Seq<Entry>, cap: nat, key: Seq<char>, value: ProxyHit) -> Seq<
    Entry,
> {
    seq![(key, value)] + with_room(without(es, key), cap)
}

/// What `es` has under `key`.
pub open spec fn only(es: Seq<Entry>, key: Seq<char>) -> Seq<Entry> {
    es.filter(|e: Entry| e.0 == key)
}

/// What is held after `key` was asked for: the answer under it comes first.
pub open spec fn get_entries(es: Seq<Entry>, key: Seq<char>) -> Seq<Entry> {
    if has(es, key) {
        only(es, key) + without(es, key)
    } else {
        es
    }
}

/// `lru::LruCache::new`: an empty cache with room for `cap` answers.
#[verifier::external_body]
pub(crate) fn lru_new(cap: usize) -> (c: LruCache<String, ProxyHit>)
    requires
        cap > 0,
    ensures
        held(c) == Seq::<(Seq<char>, ProxyHit)>::empty(),
        capacity(c) == cap,
{
    LruCache::new(NonZeroUsize::new(cap).unwrap())
}

/// `lru::LruCache::put`: the answer comes first; one that was kept under the same text goes, and
/// else a full cache forgets the answer used longest ago.
#[verifier::external_body]
pub(crate) fn lru_put(c: &mut LruCache<String, ProxyHit>, key: String, value: ProxyHit)
    ensures
        held(*final(c)) == put_entries(held(*old(c)), capacity(*old(c)), key@, value),
        capacity(*final(c)) == capacity(*old(c)),
{
    c.put(key, value);
}

/// `lru::LruCache::get`: the answer under `key`, which comes first from now on.
#[verifier::external_body]
pub(crate) fn lru_get<'a>(c: &'a mut LruCache<String, ProxyHit>, key: &str) -> (r: Option<
    &'a ProxyHit,
>)
    ensures
        held(*final(c)) == get_entries(held(*old(c)), key@),
        capacity(*final(c)) == capacity(*old(c)),
        r is Some <==> has(held(*old(c)), key@),
        r is Some ==> held(*old(c)).contains((key@, *r->0)),
{
    c.get(key)
}

/// `lru::LruCache::peek`: the answer under `key`, with nothing moved.
#[verifier::external_body]
pub(crate) fn lru_peek<'a>(c: &'a LruCache<String, ProxyHit>, key: &str) -> (r: Option<
    &'a ProxyHit,
>)
    ensures
        r is Some <==> has(held(*c), key@),
        r is Some ==> held(*c).contains((key@, *r->0)),
{
    c.peek(key)
}

/// `lru::LruCache::pop_lru`: the answer used longest ago goes.
#[verifier::external_body]
pub(crate) fn lru_pop(c: &mut LruCache<String, ProxyHit>)
    ensures
        held(*final(c)) == if held(*old(c)).len() > 0 {
            held(*old(c)).drop_last()
        } else {
            held(*old(c))
        },
        capacity(*final(c)) == capacity(*old(c)),
{
    c.pop_lru();
}

/// `lru::LruCache::iter`, which goes from the most recently used answer to the least: how many
/// bytes each has.
#[verifier::external_body]
pub(crate) fn lru_sizes(c: &LruCache<String, ProxyHit>) -> (r: Vec<usize>)
    ensures
        r@.len() == held(*c).len(),
        forall|i: int| 0 <= i < r@.len() ==> #[trigger] r@[i] == held(*c)[i].1.body@.len(),
{
    c.iter().map(|e| e.1.body.len()).collect()
}

/// `lru::LruCache::iter`, which goes from the most recently used answer to the least: the text each
/// is kept under.
#[verifier::external_body]
pub(crate) fn lru_keys(c: &LruCache<String, ProxyHit>) -> (r: Vec<String>)
    ensures
        r@.len() == held(*c).len(),
        forall|i: int| 0 <= i < r@.len() ==> (#[trigger] r@[i])@ == held(*c)[i].0,
{
    c.iter().map(|e| e.0.clone()).collect()
}

/// How many answers are kept under a text that starts so.
pub open spec fn count_under(es: Seq<Entry>, start: Seq<char>) -> nat
    decreases es.len(),
{
    if es.len() == 0 {
        0
    } else {
        count_under(es.drop_last(), start) + if crate::text::starts(es.last().0, start) {
            1nat
        } else {
            0
        }
    }
}

/// How many answers are kept under a text that starts so. Looking does not count as use.
pub fn kept_under(c: &LruCache<String, ProxyHit>, start: &str) -> (n: usize)
    ensures
        n == count_under(held(*c), start@),
{
    let keys = lru_keys(c);
    let mut n: usize = 0;
    let mut i: usize = 0;
    while i < keys.len()
        invariant
            i <= keys.len(),
            n <= i,
            keys@.len() == held(*c).len(),
            forall|j: int| 0 <= j < keys@.len() ==> (#[trigger] keys@[j])@ == held(*c)[j].0,
            n == count_under(held(*c).take(i as int), start@),
        decreases keys.len() - i,
    {
        if crate::text::starts_with(keys[i].as_str(), start) {
            n = n + 1;
        }
        i = i + 1;
        assert(held(*c).take(i as int).drop_last() =~= held(*c).take(i - 1));
        assert(held(*c).take(i as int).last() == held(*c)[i - 1]);
    }
    assert(held(*c).take(i as int) =~= held(*c));
    n
}

/// How many bytes the answers take between them.
pub open spec fn total_bytes(es: Seq<Entry>) -> nat
    decreases es.len(),
{
    if es.len() == 0 {
        0
    } else {
        total_bytes(es.drop_last()) + es.last().1.body@.len()
    }
}

/// The longest run from the front that fits in `limit` bytes, and at least the first.
pub open spec fn within_bytes(es: Seq<Entry>, limit: nat) -> Seq<Entry>
    decreases es.len(),
{
    if total_bytes(es) > limit && es.len() > 1 {
        within_bytes(es.drop_last(), limit)
    } else {
        es
    }
}

/// How many bytes a cache holds, and in how many answers.
pub fn held_bytes(c: &LruCache<String, ProxyHit>) -> (r: (u128, usize))
    ensures
        r.0 == total_bytes(held(*c)),
        r.1 == held(*c).len(),
{
    let sizes = lru_sizes(c);
    let ghost es = held(*c);
    let mut sum: u128 = 0;
    let mut i: usize = 0;
    assert(es.take(0) =~= Seq::<Entry>::empty());
    while i < sizes.len()
        invariant
            i <= sizes.len(),
            es == held(*c),
            sizes@.len() == es.len(),
            forall|i: int| 0 <= i < sizes@.len() ==> #[trigger] sizes@[i] == es[i].1.body@.len(),
            sum == total_bytes(es.take(i as int)),
            sum <= i * usize::MAX,
        decreases sizes.len() - i,
    {
        proof {
            assert(es.take(i + 1).drop_last() =~= es.take(i as int));
            assert(es.take(i + 1).last() == es[i as int]);
            assert(i * usize::MAX + usize::MAX == (i + 1) * usize::MAX) by (nonlinear_arith);
            assert((i + 1) * usize::MAX <= usize::MAX * usize::MAX) by (nonlinear_arith)
                requires
                    i + 1 <= usize::MAX,
            ;
            assert(usize::MAX * usize::MAX <= u128::MAX) by (nonlinear_arith)
                requires
                    usize::MAX <= u64::MAX,
            ;
        }
        sum = sum + sizes[i] as u128;
        i = i + 1;
    }
    assert(es.take(es.len() as int) =~= es);
    (sum, sizes.len())
}

/// Keep a proxied response, and forget the ones used longest ago until the byte bound holds again.
/// The newest always stays.
pub fn keep_proxied(c: &mut LruCache<String, ProxyHit>, url: String, hit: ProxyHit)
    ensures
        held(*final(c)) == within_bytes(
            put_entries(held(*old(c)), capacity(*old(c)), url@, hit),
            PROXY_CACHE_BYTES as nat,
        ),
        capacity(*final(c)) == capacity(*old(c)),
{
    lru_put(c, url, hit);
    let ghost all = held(*c);
    loop
        invariant
            capacity(*c) == capacity(*old(c)),
            all == put_entries(held(*old(c)), capacity(*old(c)), url@, hit),
            within_bytes(held(*c), PROXY_CACHE_BYTES as nat) == within_bytes(
                all,
                PROXY_CACHE_BYTES as nat,
            ),
        decreases held(*c).len(),
    {
        let (bytes, count) = held_bytes(c);
        if bytes > PROXY_CACHE_BYTES as u128 && count > 1 {
            lru_pop(c);
        } else {
            return ;
        }
    }
}

/// The byte bound holds after every response that is kept, unless that one alone breaks it, and the
/// response just kept is there.
pub proof fn byte_bound_holds(es: Seq<Entry>, cap: nat, key: Seq<char>, value: ProxyHit)
    ensures
        ({
            let after = within_bytes(put_entries(es, cap, key, value), PROXY_CACHE_BYTES as nat);
            &&& after.len() >= 1
            &&& after[0] == (key, value)
            &&& total_bytes(after) <= PROXY_CACHE_BYTES || after.len() == 1
        }),
{
    lemma_within_bytes(put_entries(es, cap, key, value), PROXY_CACHE_BYTES as nat);
}

proof fn lemma_within_bytes(es: Seq<Entry>, limit: nat)
    requires
        es.len() >= 1,
    ensures
        1 <= within_bytes(es, limit).len() <= es.len(),
        within_bytes(es, limit) == es.take(within_bytes(es, limit).len() as int),
        total_bytes(within_bytes(es, limit)) <= limit || within_bytes(es, limit).len() == 1,
    decreases es.len(),
{
    if total_bytes(es) > limit && es.len() > 1 {
        lemma_within_bytes(es.drop_last(), limit);
        let n = within_bytes(es, limit).len() as int;
        assert(es.drop_last().take(n) =~= es.take(n));
    } else {
        assert(es.take(es.len() as int) =~= es);
    }
}

/// No text is kept twice.
pub open spec fn keys_differ(es: Seq<Entry>) -> bool {
    forall|i: int, j: int| 0 <= i < j < es.len() ==> (#[trigger] es[i]).0 != (#[trigger] es[j]).0
}

/// Putting an answer keeps the entry count within what the cache was made for, and keeps the
/// texts apart.
pub proof fn entry_bound_holds(es: Seq<Entry>, cap: nat, key: Seq<char>, value: ProxyHit)
    requires
        cap > 0,
        es.len() <= cap,
        keys_differ(es),
    ensures
        put_entries(es, cap, key, value).len() <= cap,
        keys_differ(put_entries(es, cap, key, value)),
{
    lemma_without(es, key);
}

proof fn lemma_without(es: Seq<Entry>, key: Seq<char>)
    requires
        keys_differ(es),
    ensures
        without(es, key).len() <= es.len(),
        keys_differ(without(es, key)),
        forall|i: int| 0 <= i < without(es, key).len() ==> (#[trigger] without(es, key)[i]).0 != key,
        forall|i: int|
            0 <= i < without(es, key).len() ==> es.contains(#[trigger] without(es, key)[i]),
    decreases es.len(),
{
    reveal(Seq::filter);
    if es.len() > 0 {
        let t = es.drop_last();
        lemma_without(t, key);
        assert forall|i: int| 0 <= i < without(es, key).len() implies es.contains(
            #[trigger] without(es, key)[i],
        ) by {
            if i < without(t, key).len() {
                let e = without(t, key)[i];
                assert(t.contains(e));
                assert(es[t.index_of(e)] == e);
            } else {
                assert(es[es.len() - 1] == without(es, key)[i]);
            }
        }
        assert forall|i: int, j: int| 0 <= i < j < without(es, key).len() implies (
        #[trigger] without(es, key)[i]).0 != (#[trigger] without(es, key)[j]).0 by {
            if j == without(t, key).len() {
                let e = without(t, key)[i];
                assert(t.contains(e));
                let k = t.index_of(e);
                assert(es[k].0 != es[es.len() - 1].0);
            }
        }
    }
}

/// A cache for built answers.
pub fn answer_cache() -> (c: LruCache<String, ProxyHit>)
    ensures
        held(c) == Seq::<(Seq<char>, ProxyHit)>::empty(),
        capacity(c) == ANSWER_CACHE,
{
    lru_new(ANSWER_CACHE)
}

/// A cache for proxied responses.
pub fn proxy_cache() -> (c: LruCache<String, ProxyHit>)
    ensures
        held(c) == Seq::<(Seq<char>, ProxyHit)>::empty(),
        capacity(c) == PROXY_CACHE_ENTRIES,
{
    lru_new(PROXY_CACHE_ENTRIES)
}

/// Whether an answer built at `at` may still be given out at `now`.
pub open spec fn is_fresh(at: u64, now: u64, ttl_ms: int) -> bool {
    now - at < ttl_ms
}

/// Whether an answer built at `at` may still be given out at `now`, in milliseconds.
pub fn fresh(at: u64, now: u64, ttl_ms: u64) -> (r: bool)
    ensures
        r == is_fresh(at, now, ttl_ms as int),
{
    if now >= at {
        now - at < ttl_ms
    } else {
        true
    }
}

/// `r` is the body of an answer kept under `key` that is fresh; `None` is given only where none is
/// kept, or one that is not fresh.
pub open spec fn reused(es: Seq<Entry>, key: Seq<char>, now: u64, ttl_ms: int, r: Option<Seq<u8>>) -> bool {
    if has(es, key) {
        exists|hit: ProxyHit|
            {
                &&& #[trigger] es.contains((key, hit))
                &&& r == if is_fresh(hit.at, now, ttl_ms) {
                    Some(hit.body@)
                } else {
                    None
                }
            }
    } else {
        r is None
    }
}

/// The answer under `key`, if it is young enough. Asking counts as use, fresh or not.
pub fn reuse(c: &mut LruCache<String, ProxyHit>, key: &str, now: u64, ttl_ms: u64) -> (r: Option<
    Vec<u8>,
>)
    ensures
        held(*final(c)) == get_entries(held(*old(c)), key@),
        capacity(*final(c)) == capacity(*old(c)),
        reused(
            held(*old(c)),
            key@,
            now,
            ttl_ms as int,
            match r {
                Some(b) => Some(b@),
                None => None,
            },
        ),
{
    let ghost es = held(*c);
    match lru_get(c, key) {
        Some(hit) => {
            assert(es.contains((key@, *hit)));
            if fresh(hit.at, now, ttl_ms) {
                let body = hit.body.clone();
                assert(body@ =~= hit.body@);
                Some(body)
            } else {
                None
            }
        },
        None => None,
    }
}

/// Keep an answer that was built at `now`.
pub fn keep(c: &mut LruCache<String, ProxyHit>, key: &str, body: &Vec<u8>, now: u64)
    ensures
        capacity(*final(c)) == capacity(*old(c)),
        exists|hit: ProxyHit|
            {
                &&& hit.at == now
                &&& hit.body@ == body@
                &&& held(*final(c)) == #[trigger] put_entries(
                    held(*old(c)),
                    capacity(*old(c)),
                    key@,
                    hit,
                )
            },
{
    let copy = body.clone();
    assert(copy@ =~= body@);
    let hit = ProxyHit { at: now, ctype: "", body: copy, etag: String::new() };
    let ghost kept = hit;
    lru_put(c, key.to_owned(), hit);
    assert(held(*c) == put_entries(held(*old(c)), capacity(*old(c)), key@, kept));
}

/// How long ago the answer under `key` was built, in milliseconds. Looking does not count as use.
pub fn age(c: &LruCache<String, ProxyHit>, key: &str, now: u64) -> (r: Option<u64>)
    ensures
        r is Some <==> has(held(*c), key@),
        r is Some ==> exists|hit: ProxyHit|
            {
                &&& #[trigger] held(*c).contains((key@, hit))
                &&& r->0 == if now >= hit.at {
                    (now - hit.at) as u64
                } else {
                    0
                }
            },
{
    match lru_peek(c, key) {
        Some(hit) => {
            assert(held(*c).contains((key@, *hit)));
            Some(
                if now >= hit.at {
                    now - hit.at
                } else {
                    0
                },
            )
        },
        None => None,
    }
}

// ---------------------------------------------------------------------------------------------
// What is kept and given back.

/// What was just kept is given back while it is young enough, byte for byte, and not after; what is
/// kept under another text does not change it.
pub proof fn what_was_kept_is_given_back(
    es: Seq<Entry>,
    cap: nat,
    key: Seq<char>,
    value: ProxyHit,
    now: u64,
    ttl_ms: int,
    r: Option<Seq<u8>>,
)
    requires
        reused(put_entries(es, cap, key, value), key, now, ttl_ms, r),
    ensures
        now < value.at + ttl_ms ==> r == Some(value.body@),
        now >= value.at + ttl_ms ==> r is None,
{
    let all = put_entries(es, cap, key, value);
    assert(all[0] == (key, value));
    let hit = choose|hit: ProxyHit|
        {
            &&& #[trigger] all.contains((key, hit))
            &&& r == if is_fresh(hit.at, now, ttl_ms) {
                Some(hit.body@)
            } else {
                None
            }
        };
    let k = all.index_of((key, hit));
    if k > 0 {
        let rest = with_room(without(es, key), cap);
        assert(rest[k - 1] == (key, hit));
        assert(without(es, key)[k - 1] == (key, hit));
        es.lemma_filter_pred(|e: Entry| e.0 != key, k - 1);
    }
}

/// What is used is forgotten last: keeping an answer in a full cache forgets the one used longest
/// ago and nothing else, and in a cache with room nothing. Asking for an answer brings it to the
/// front and keeps the others in order.
pub proof fn what_is_used_stays(es: Seq<Entry>, cap: nat, key: Seq<char>, value: ProxyHit, i: int)
    requires
        0 <= i < es.len(),
        es[i].0 != key,
        keys_differ(es),
    ensures
        !(has(es, key)) && es.len() < cap ==> put_entries(es, cap, key, value) == seq![(key, value)]
            + es,
        !(has(es, key)) && es.len() >= cap ==> put_entries(es, cap, key, value) == seq![(key, value)]
            + es.drop_last(),
        has(es, key) && es.len() <= cap ==> put_entries(es, cap, key, value).contains(es[i]),
        get_entries(es, key).contains(es[i]),
        get_entries(es, key).len() == es.len(),
        has(es, key) ==> get_entries(es, key)[0].0 == key,
        !(has(es, key)) ==> get_entries(es, key) == es,
{
    lemma_filters(es, key);
    lemma_other_stays(es, key, i);
    let w = without(es, key);
    let k = w.index_of(es[i]);
    assert(w[k] == es[i]);
    if has(es, key) {
        let o = only(es, key);
        assert(o.len() == 1);
        assert((o + w)[1 + k] == w[k]);
        assert((o + w)[0] == o[0]);
        if es.len() <= cap {
            assert(with_room(w, cap) == w);
            assert((seq![(key, value)] + w)[1 + k] == w[k]);
        }
    }
}

proof fn lemma_other_stays(es: Seq<Entry>, key: Seq<char>, i: int)
    requires
        0 <= i < es.len(),
        es[i].0 != key,
    ensures
        without(es, key).contains(es[i]),
{
    es.lemma_filter_contains(|e: Entry| e.0 != key, i);
}

/// Of entries whose texts differ, at most one has a text, and the rest are the others.
proof fn lemma_filters(es: Seq<Entry>, key: Seq<char>)
    requires
        keys_differ(es),
    ensures
        has(es, key) ==> only(es, key).len() == 1 && without(es, key).len() == es.len() - 1 && only(
            es,
            key,
        )[0].0 == key,
        !(has(es, key)) ==> only(es, key).len() == 0 && without(es, key) == es,
    decreases es.len(),
{
    reveal(Seq::filter);
    if es.len() > 0 {
        let t = es.drop_last();
        lemma_filters(t, key);
        let n = es.len() - 1;
        if has(t, key) {
            let k = choose|k: int| 0 <= k < t.len() && (#[trigger] t[k]).0 == key;
            assert(es[k].0 == key);
            assert(es[n].0 != key);
        }
        if es[n].0 == key {
            assert(has(es, key));
        } else if has(es, key) {
            let k = choose|k: int| 0 <= k < es.len() && (#[trigger] es[k]).0 == key;
            assert(t[k].0 == key);
        }
        if !(has(es, key)) {
            assert(es[n].0 != key);
            if has(t, key) {
                let k = choose|k: int| 0 <= k < t.len() && (#[trigger] t[k]).0 == key;
                assert(es[k].0 == key);
            }
            assert(without(es, key) =~= es);
        }
    } else {
        assert(without(es, key) =~= es);
    }
}

/// The entries under texts that start so.
pub open spec fn under(start: Seq<char>) -> spec_fn(Entry) -> bool {
    |e: Entry| crate::text::starts(e.0, start)
}

/// Counting counts exactly the answers under such a text, and the bytes add up.
pub proof fn counts_are_of_what_is_held(
    a: Seq<Entry>,
    b: Seq<Entry>,
    e: Entry,
    start: Seq<char>,
)
    ensures
        count_under(a, start) == a.filter(under(start)).len(),
        total_bytes(a + b) == total_bytes(a) + total_bytes(b),
        total_bytes(seq![e]) == e.1.body@.len(),
        total_bytes(Seq::empty()) == 0,
{
    lemma_count_under(a, start);
    lemma_bytes_add(a, b);
    assert(seq![e].drop_last() =~= Seq::<Entry>::empty());
    assert(total_bytes(seq![e].drop_last()) == 0);
}

proof fn lemma_count_under(es: Seq<Entry>, start: Seq<char>)
    ensures
        count_under(es, start) == es.filter(under(start)).len(),
    decreases es.len(),
{
    reveal(Seq::filter);
    if es.len() > 0 {
        lemma_count_under(es.drop_last(), start);
    }
}

proof fn lemma_bytes_add(a: Seq<Entry>, b: Seq<Entry>)
    ensures
        total_bytes(a + b) == total_bytes(a) + total_bytes(b),
    decreases b.len(),
{
    if b.len() == 0 {
        assert(a + b =~= a);
    } else {
        assert((a + b).drop_last() =~= a + b.drop_last());
        lemma_bytes_add(a, b.drop_last());
    }
}

/// Nothing is forgotten for its bytes while they fit: 256 MB and 64 responses are kept.
pub proof fn what_fits_is_kept(es: Seq<Entry>)
    ensures
        total_bytes(es) <= 268_435_456 ==> within_bytes(es, PROXY_CACHE_BYTES as nat) == es,
        es.len() > 1 && total_bytes(es) > 268_435_456 ==> within_bytes(
            es,
            PROXY_CACHE_BYTES as nat,
        ).len() < es.len(),
        PROXY_CACHE_ENTRIES == 64,
        ANSWER_CACHE == 64,
{
    if es.len() > 1 && total_bytes(es) > 268_435_456 {
        lemma_within_bytes(es.drop_last(), PROXY_CACHE_BYTES as nat);
    }
}

} // verus!
