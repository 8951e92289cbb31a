//! How large the caches on disk may get, and what goes first when one is over.

use vstd::prelude::*;

verus! {

/// Largest the on-disk tile cache may get, unless the user says otherwise.
pub const DISK_CACHE_BYTES: u64 = 524_288_000;

/// Largest the on-disk volume cache may get, unless the user says otherwise.
pub const VOLUME_CACHE_BYTES: u64 = 2_147_483_648;

/// Largest each of the small caches may get: zone geometry, soundings, server snapshots, icons.
pub const SMALL_CACHE_BYTES: u64 = 52_428_800;

/// User overrides for the two disk caps, in bytes; 0 means the default.
#[derive(Clone, Copy, Debug, PartialEq, Eq, Structural)]
pub struct CacheCaps {
    pub tile: u64,
    pub volume: u64,
}

impl CacheCaps {
    /// No override.
    pub fn new() -> (r: CacheCaps)
        ensures
            r.tile == 0,
            r.volume == 0,
    {
        CacheCaps { tile: 0, volume: 0 }
    }
}

/// `bytes`, or the default where there is no override.
pub open spec fn cap_or(bytes: u64, default_bytes: u64) -> u64 {
    if bytes == 0 {
        default_bytes
    } else {
        bytes
    }
}

/// Apply the user's cap settings (in MB, 0 = default).
pub fn set_cache_caps(caps: &mut CacheCaps, tile_mb: u32, volume_mb: u32)
    ensures
        final(caps).tile == tile_mb * 1_048_576,
        final(caps).volume == volume_mb * 1_048_576,
{
    caps.tile = tile_mb as u64 * 1_048_576;
    caps.volume = volume_mb as u64 * 1_048_576;
}

/// Cap for each on-disk tile cache (raster and vector are swept separately, to this same figure).
pub fn tile_cache_bytes(caps: &CacheCaps) -> (r: u64)
    ensures
        r == cap_or(caps.tile, DISK_CACHE_BYTES),
{
    if caps.tile == 0 {
        DISK_CACHE_BYTES
    } else {
        caps.tile
    }
}

/// Cap for the on-disk radar-volume cache.
pub fn volume_cache_bytes(caps: &CacheCaps) -> (r: u64)
    ensures
        r == cap_or(caps.volume, VOLUME_CACHE_BYTES),
{
    if caps.volume == 0 {
        VOLUME_CACHE_BYTES
    } else {
        caps.volume
    }
}

/// A file of a cache: when it was last touched, on any clock, and how large it is.
#[derive(Clone, Copy, Debug, PartialEq, Eq, Structural)]
pub struct CacheFile {
    pub touched: u64,
    pub bytes: u64,
}

/// How many bytes the files take.
pub open spec fn total(files: Seq<CacheFile>) -> nat
    decreases files.len(),
{
    if files.len() == 0 {
        0
    } else {
        total(files.drop_last()) + files.last().bytes as nat
    }
}

/// File `a` goes before file `b`: it was touched longer ago, or at the same time and found before.
pub open spec fn goes_before(files: Seq<CacheFile>, a: usize, b: usize) -> bool {
    files[a as int].touched < files[b as int].touched || (files[a as int].touched
        == files[b as int].touched && a < b)
}

/// Each of the first `n` files stands in `order` once, those that go first standing first.
pub open spec fn is_sweep_order(files: Seq<CacheFile>, n: int, order: Seq<usize>) -> bool {
    &&& order.len() == n
    &&& forall|i: int| 0 <= i < order.len() ==> (#[trigger] order[i]) < n
    &&& forall|i: int, j: int|
        0 <= i < j < order.len() ==> goes_before(files, #[trigger] order[i], #[trigger] order[j])
}

/// How many bytes the files named by `which` take between them.
pub open spec fn sum_of(sizes: Seq<u64>, which: Seq<usize>) -> nat
    decreases which.len(),
{
    if which.len() == 0 {
        0
    } else {
        sizes[which[0] as int] as nat + sum_of(sizes, which.drop_first())
    }
}

/// The sizes of the files.
pub open spec fn sizes_of(files: Seq<CacheFile>) -> Seq<u64> {
    files.map_values(|f: CacheFile| f.bytes)
}

proof fn lemma_sum_insert(sizes: Seq<u64>, which: Seq<usize>, k: int, i: usize)
    requires
        0 <= k <= which.len(),
    ensures
        sum_of(sizes, which.insert(k, i)) == sum_of(sizes, which) + sizes[i as int] as nat,
    decreases k,
{
    let w = which.insert(k, i);
    if k == 0 {
        assert(w.drop_first() =~= which);
    } else {
        lemma_sum_insert(sizes, which.drop_first(), k - 1, i);
        assert(w.drop_first() =~= which.drop_first().insert(k - 1, i));
        assert(w[0] == which[0]);
    }
}

/// A sweep of one cache: the files in the order they go, what they take, and how much was freed.
#[derive(Debug)]
pub struct Sweep {
    pub order: Vec<usize>,
    pub sizes: Vec<u64>,
    pub total: u128,
    pub freed: u128,
    pub cap: u64,
    pub at: usize,
}

impl Sweep {
    /// The sweep of these files, oldest-touched first.
    pub open spec fn sweeps(self, files: Seq<CacheFile>) -> bool {
        &&& is_sweep_order(files, files.len() as int, self.order@)
        &&& self.sizes@ == sizes_of(files)
        &&& self.total == total(files)
    }

    /// Every file named is known, and what was freed and what is still to be tried are no more
    /// than what there was.
    pub open spec fn well_formed(self) -> bool {
        &&& self.at <= self.order@.len()
        &&& forall|i: int|
            0 <= i < self.order@.len() ==> (#[trigger] self.order@[i]) < self.sizes@.len()
        &&& self.freed + sum_of(self.sizes@, self.order@.skip(self.at as int)) <= self.total
    }

    /// What is left is no more than the cap.
    pub open spec fn is_done(self) -> bool {
        self.total - self.freed <= self.cap || self.at >= self.order@.len()
    }

    /// Plan to trim a cache to `cap` bytes, oldest-touched files first.
    pub fn new(files: &Vec<CacheFile>, cap: u64) -> (s: Sweep)
        ensures
            s.well_formed(),
            s.sweeps(files@),
            s.freed == 0,
            s.cap == cap,
            s.at == 0,
    {
        let mut order: Vec<usize> = Vec::new();
        let mut sizes: Vec<u64> = Vec::new();
        let mut sum: u128 = 0;
        let mut i: usize = 0;
        let ghost all = sizes_of(files@);
        assert(files@.take(0) =~= Seq::<CacheFile>::empty());
        while i < files.len()
            invariant
                i <= files.len(),
                is_sweep_order(files@, i as int, order@),
                all == sizes_of(files@),
                sizes@ == all.take(i as int),
                sum == total(files@.take(i as int)),
                sum == sum_of(all, order@),
                sum <= i * 0xffff_ffff_ffff_ffff,
            decreases files.len() - i,
        {
            proof {
                assert(files@.take(i + 1).drop_last() =~= files@.take(i as int));
                assert(files@.take(i + 1).last() == files@[i as int]);
            }
            let t: u64 = files[i].touched;
            let mut k: usize = order.len();
            while k > 0 && files[order[k - 1]].touched > t
                invariant
                    i < files.len(),
                    t == files@[i as int].touched,
                    k <= order.len(),
                    is_sweep_order(files@, i as int, order@),
                    forall|j: int| k <= j < order@.len() ==> files@[(#[trigger] order@[j]) as int].touched > t,
                decreases k,
            {
                k = k - 1;
            }
            let ghost before = order@;
            order.insert(k, i);
            proof {
                lemma_sum_insert(all, before, k as int, i);
                assert(order@ == before.insert(k as int, i));
                assert forall|a: int, b: int| 0 <= a < b < order@.len() implies goes_before(
                    files@,
                    #[trigger] order@[a],
                    #[trigger] order@[b],
                ) by {
                    if b < k {
                        assert(goes_before(files@, before[a], before[b]));
                    } else if b == k {
                        assert(order@[a] == before[a]);
                        assert(before[a] < i);
                        if a < k - 1 {
                            assert(goes_before(files@, before[a], before[k - 1]));
                        }
                        assert(files@[before[k - 1] as int].touched <= t);
                    } else if a == k {
                        assert(order@[b] == before[b - 1]);
                        assert(files@[before[b - 1] as int].touched > t);
                    } else if a < k {
                        assert(goes_before(files@, before[a], before[b - 1]));
                    } else {
                        assert(goes_before(files@, before[a - 1], before[b - 1]));
                    }
                }
                assert forall|a: int| 0 <= a < order@.len() implies (#[trigger] order@[a]) < i
                    + 1 by {
                    if a < k {
                        assert(order@[a] == before[a]);
                    } else if a > k {
                        assert(order@[a] == before[a - 1]);
                    }
                }
            }
            sizes.push(files[i].bytes);
            sum = sum + files[i].bytes as u128;
            i = i + 1;
            assert(sizes@ =~= all.take(i as int));
        }
        assert(files@.take(files@.len() as int) =~= files@);
        assert(all.take(all.len() as int) =~= all);
        assert(order@.skip(0) =~= order@);
        Sweep { order, sizes, total: sum, freed: 0, cap, at: 0 }
    }

    /// The next file to remove, or `None` once what is left is no more than the cap.
    pub fn next(&self) -> (r: Option<usize>)
        requires
            self.well_formed(),
        ensures
            r is None <==> self.is_done(),
            r is Some ==> r->0 == self.order@[self.at as int],
    {
        if self.total - self.freed <= self.cap as u128 || self.at >= self.order.len() {
            None
        } else {
            Some(self.order[self.at])
        }
    }

    /// The file that [`Self::next`] named was tried: its bytes are free only if it is gone.
    pub fn tried(&mut self, removed: bool)
        requires
            old(self).well_formed(),
            !old(self).is_done(),
        ensures
            final(self).well_formed(),
            *final(self) == (Sweep {
                at: (old(self).at + 1) as usize,
                freed: (if removed {
                    old(self).freed + old(self).sizes@[old(self).order@[old(self).at as int] as int]
                } else {
                    old(self).freed as int
                }) as u128,
                ..*old(self)
            }),
    {
        let last: usize = self.order.len();
        let ghost rest = self.order@.skip(self.at as int);
        proof {
            assert(self.at < last);
            assert(rest[0] == self.order@[self.at as int]);
            assert(rest.drop_first() =~= self.order@.skip(self.at + 1));
        }
        if removed {
            let n: u64 = self.sizes[self.order[self.at]];
            self.freed = self.freed + n as u128;
        }
        self.at = self.at + 1;
    }
}

/// A cache that is within its cap loses nothing.
pub proof fn small_caches_are_left_alone(s: Sweep, files: Seq<CacheFile>)
    requires
        s.sweeps(files),
        s.freed == 0,
        total(files) <= s.cap,
    ensures
        s.is_done(),
{
}

/// Bytes add up file by file.
pub proof fn sizes_add_up(a: Seq<CacheFile>, b: Seq<CacheFile>)
    ensures
        a.len() == 0 ==> total(a) == 0,
        a.len() == 1 ==> total(a) == a[0].bytes,
        total(a + b) == total(a) + total(b),
    decreases b.len(),
{
    if a.len() == 1 {
        assert(a.drop_last() =~= Seq::<CacheFile>::empty());
        assert(total(a.drop_last()) == 0);
    }
    if b.len() == 0 {
        assert(a + b =~= a);
    } else {
        assert((a + b).drop_last() =~= a + b.drop_last());
        sizes_add_up(a, b.drop_last());
    }
}

/// What was touched longest ago goes first, and no file is named twice.
pub proof fn the_longest_untouched_goes_first(s: Sweep, files: Seq<CacheFile>, i: int, j: int)
    requires
        s.sweeps(files),
        0 <= i < s.order@.len(),
        0 <= j < s.order@.len(),
    ensures
        s.order@.len() == files.len(),
        files[s.order@[i] as int].touched < files[s.order@[j] as int].touched ==> i < j,
        s.order@[i] == s.order@[j] ==> i == j,
{
}

/// A sweep ends as soon as what is left is within the cap, and not before unless every file was
/// tried.
pub proof fn sweeps_stop_at_the_cap(s: Sweep)
    ensures
        s.total - s.freed <= s.cap ==> s.is_done(),
        s.is_done() && s.at < s.order@.len() ==> s.total - s.freed <= s.cap,
{
}

/// Without a setting the tiles may take five hundred megabytes, the volumes two gigabytes, and a
/// small cache fifty megabytes.
pub proof fn caches_have_their_caps(bytes: u64)
    ensures
        cap_or(0, DISK_CACHE_BYTES) == 500 * 1_024 * 1_024,
        cap_or(0, VOLUME_CACHE_BYTES) == 2 * 1_024 * 1_024 * 1_024,
        SMALL_CACHE_BYTES == 50 * 1_024 * 1_024,
        bytes > 0 ==> cap_or(bytes, DISK_CACHE_BYTES) == bytes && cap_or(bytes, VOLUME_CACHE_BYTES)
            == bytes,
{
}

} // verus!
