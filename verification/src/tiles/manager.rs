//! Which tiles are fetched, which are resident, and which have to make room.

use crate::clock::{stamp_text, write_stamp, Stamp, ISO, TAG};
use crate::render::fallback::same_id;
use crate::render::{TileId, TileKey};
use crate::text;
use crate::tiles::style::BasemapStyle;
use lru::LruCache;
use std::num::NonZeroUsize;
use vstd::prelude::*;

verus! {

/// How many tile fetches may be in flight at once. Firing a screenful at a server at once means as
/// many handshakes competing for the same radio: the first tile lands later than it would have with
/// a queue behind it.
pub const MAX_INFLIGHT: usize = 6;

/// How long a failed tile is left alone before the next visibility pass retries it, in
/// milliseconds.
pub const RETRY_AFTER_MS: u64 = 5_000;

/// How much memory the uploaded raster tiles may rest at.
pub const RASTER_TILE_BYTES: u64 = 140_509_184;

/// How many uploaded raster tiles to keep, whatever their size.
pub const RASTER_TILE_CACHE: usize = 512;

/// How many picker thumbnails may be in flight at once: a small separate budget, so the picker
/// opening does not stall the map's own tile fetches.
pub const MAX_THUMBS_LOADING: usize = 4;

// ---------------------------------------------------------------------------------------------
// The cache of resident tiles.

/// A resident tile and how many bytes it takes.
pub type Resident = (TileKey, u32);

/// What a cache of tiles holds, the most recently used tile first.
pub uninterp spec fn resident(c: LruCache<(u8, (u8, u32, u32)), u32>) -> Seq<
    ((u8, (u8, u32, u32)), u32),
>;

/// How many tiles a cache has room for.
pub uninterp spec fn room(c: LruCache<(u8, (u8, u32, u32)), u32>) -> nat;

/// The tile is resident.
pub open spec fn is_resident(es: Seq<Resident>, key: TileKey) -> bool {
    exists|i: int| 0 <= i < es.len() && (#[trigger] es[i]).0 == key
}

/// `es` without the tile `key`.
pub open spec fn all_but(es: Seq<Resident>, key: TileKey) -> Seq<Resident> {
    es.filter(|e: Resident| e.0 != key)
}

/// What `es` has of the tile `key`.
pub open spec fn only(es: Seq<Resident>, key: TileKey) -> Seq<Resident> {
    es.filter(|e: Resident| e.0 == key)
}

/// What is resident after a tile was pushed: it comes first; a full cache forgets the last.
pub open spec fn pushed(es: Seq<Resident>, cap: nat, key: TileKey, bytes: u32) -> Seq<Resident> {
    let rest = all_but(es, key);
    seq![(key, bytes)] + if !is_resident(es, key) && es.len() >= cap && es.len() > 0 {
        rest.drop_last()
    } else {
        rest
    }
}

/// The tile that a push replaces or pushes out.
pub open spec fn pushed_out(es: Seq<Resident>, cap: nat, key: TileKey) -> Option<TileKey> {
    if is_resident(es, key) {
        Some(key)
    } else if es.len() >= cap && es.len() > 0 {
        Some(es.last().0)
    } else {
        None
    }
}

/// What is resident after a tile was promoted: it comes first, if it is there.
pub open spec fn promoted(es: Seq<Resident>, key: TileKey) -> Seq<Resident> {
    only(es, key) + all_but(es, key)
}

/// `lru::LruCache::new`: an empty cache with room for `cap` tiles.
#[verifier::external_body]
fn tiles_new(cap: usize) -> (c: LruCache<TileKey, u32>)
    requires
        cap > 0,
    ensures
        resident(c) == Seq::<((u8, (u8, u32, u32)), u32)>::empty(),
        room(c) == cap,
{
    LruCache::new(NonZeroUsize::new(cap).unwrap())
}

/// `lru::LruCache::push`: the tile comes first. Gives back the key of the entry that was replaced
/// or that had to make room, if there was one.
#[verifier::external_body]
pub(crate) fn tiles_push(c: &mut LruCache<TileKey, u32>, key: TileKey, bytes: u32) -> (r: Option<TileKey>)
    ensures
        resident(*final(c)) == pushed(resident(*old(c)), room(*old(c)), key, bytes),
        room(*final(c)) == room(*old(c)),
        r == pushed_out(resident(*old(c)), room(*old(c)), key),
{
    c.push(key, bytes).map(|e| e.0)
}

/// `lru::LruCache::promote`: the tile comes first, if it is there.
#[verifier::external_body]
pub(crate) fn tiles_promote(c: &mut LruCache<TileKey, u32>, key: &TileKey)
    ensures
        resident(*final(c)) == promoted(resident(*old(c)), *key),
        room(*final(c)) == room(*old(c)),
{
    c.promote(key);
}

/// `lru::LruCache::pop_lru`: the tile used longest ago goes, and its key is given back.
#[verifier::external_body]
pub(crate) fn tiles_pop(c: &mut LruCache<TileKey, u32>) -> (r: Option<TileKey>)
    ensures
        resident(*old(c)).len() > 0 ==> {
            &&& r == Some(resident(*old(c)).last().0)
            &&& resident(*final(c)) == resident(*old(c)).drop_last()
        },
        resident(*old(c)).len() == 0 ==> r is None && resident(*final(c)) == resident(*old(c)),
        room(*final(c)) == room(*old(c)),
{
    c.pop_lru().map(|e| e.0)
}

/// `lru::LruCache::iter`, which goes from the most recently used tile to the least: the bytes of
/// each.
#[verifier::external_body]
pub(crate) fn tiles_sizes(c: &LruCache<TileKey, u32>) -> (r: Vec<u32>)
    ensures
        r@.len() == resident(*c).len(),
        forall|i: int| 0 <= i < r@.len() ==> #[trigger] r@[i] == resident(*c)[i].1,
{
    c.iter().map(|e| *e.1).collect()
}

/// `lru::LruCache::resize`: room for `cap` tiles from now on; what is past it is forgotten.
#[verifier::external_body]
pub(crate) fn tiles_resize(c: &mut LruCache<TileKey, u32>, cap: usize)
    requires
        cap > 0,
    ensures
        room(*final(c)) == cap,
        resident(*final(c)) == if resident(*old(c)).len() > cap {
            resident(*old(c)).take(cap as int)
        } else {
            resident(*old(c))
        },
{
    c.resize(NonZeroUsize::new(cap).unwrap());
}

/// `lru::LruCache::clear`: everything is forgotten, and the room stays.
#[verifier::external_body]
fn tiles_clear(c: &mut LruCache<TileKey, u32>)
    ensures
        resident(*final(c)) == Seq::<((u8, (u8, u32, u32)), u32)>::empty(),
        room(*final(c)) == room(*old(c)),
{
    c.clear();
}

// ---------------------------------------------------------------------------------------------
// Decoding.

/// What `image` makes of an encoded picture: its width, its height and its pixels, four bytes each.
pub uninterp spec fn decoded(bytes: Seq<u8>) -> Option<(u32, u32, Seq<u8>)>;

/// `image::load_from_memory`, as RGBA bytes. `None` where the bytes are no picture that it reads.
#[verifier::external_body]
pub(crate) fn decode_rgba(bytes: &[u8]) -> (r: Option<(u32, u32, Vec<u8>)>)
    ensures
        match decoded(bytes@) {
            Some((w, h, px)) => r is Some && (r->0).0 == w && (r->0).1 == h && (r->0).2@ == px,
            None => r is None,
        },
{
    image::load_from_memory(bytes).ok().map(|img| img.to_rgba8()).map(
        |px| (px.width(), px.height(), px.into_raw()),
    )
}

/// A decoded tile.
#[derive(Debug)]
pub struct FetchedTile {
    pub id: TileId,
    pub style: u8,
    pub rgba: Vec<u8>,
    pub width: u32,
    pub height: u32,
}

/// A decoded tile, ready to be uploaded.
#[derive(Debug)]
pub struct PendingTile {
    pub id: TileId,
    /// Basemap style this tile was fetched for.
    pub style: u8,
    pub rgba: Vec<u8>,
    pub width: u32,
    pub height: u32,
}

/// A finished fetch, or the id of one that failed (so it can be retried).
#[derive(Debug)]
pub enum TileResult {
    Fetched(FetchedTile),
    Failed(TileKey),
}

/// What becomes of a fetch: a tile if its bytes are a picture, else a failure. `bytes` is `None`
/// where the fetch itself failed.
pub open spec fn is_result(key: TileKey, bytes: Option<Seq<u8>>, r: TileResult) -> bool {
    match bytes {
        None => r == TileResult::Failed(key),
        Some(b) => match decoded(b) {
            None => r == TileResult::Failed(key),
            Some((w, h, px)) => match r {
                TileResult::Fetched(t) => t.style == key.0 && t.id == key.1 && t.width == w
                    && t.height == h && t.rgba@ == px,
                TileResult::Failed(_) => false,
            },
        },
    }
}

/// What becomes of a fetch: a tile if its bytes are a picture, else a failure.
pub fn finish_fetch(key: TileKey, bytes: Option<Vec<u8>>) -> (r: TileResult)
    ensures
        is_result(
            key,
            match bytes {
                Some(b) => Some(b@),
                None => None,
            },
            r,
        ),
{
    match bytes {
        None => TileResult::Failed(key),
        Some(b) => match decode_rgba(b.as_slice()) {
            None => TileResult::Failed(key),
            Some((width, height, rgba)) => TileResult::Fetched(
                FetchedTile { id: key.1, style: key.0, rgba, width, height },
            ),
        },
    }
}

// ---------------------------------------------------------------------------------------------
// The manager.

/// A frame of a timed layer: its instant, and the two ways it is written.
#[derive(Debug)]
pub struct Frame {
    pub at: Stamp,
    /// As the servers take it.
    pub iso: String,
    /// As it stands in the name of a directory.
    pub tag: String,
}

impl Frame {
    /// The instant is one that a calendar holds, and it is written as such.
    pub open spec fn well_formed(self) -> bool {
        &&& stamp_text(self.at, "%Y-%m-%dT%H:%M:%SZ"@) == Some(self.iso@)
        &&& stamp_text(self.at, "%Y%m%dT%H%M"@) == Some(self.tag@)
    }

    /// The frame of an instant, if a calendar holds it.
    pub fn at(t: Stamp) -> (r: Option<Frame>)
        ensures
            r matches Some(f) ==> f.at == t && f.well_formed(),
            r is None <==> stamp_text(t, "%Y-%m-%dT%H:%M:%SZ"@) is None || stamp_text(
                t,
                "%Y%m%dT%H%M"@,
            ) is None,
    {
        let iso = write_stamp(t, ISO);
        let tag = write_stamp(t, TAG);
        match (iso, tag) {
            (Some(iso), Some(tag)) => Some(Frame { at: t, iso, tag }),
            _ => None,
        }
    }
}

/// A picker thumbnail's state.
#[derive(Clone, Copy, Debug, PartialEq, Eq, Structural)]
pub enum Thumb {
    Unasked,
    Loading,
    Ready,
    Failed,
}

/// A tile to fetch: where from, and the path under the tile cache that it is kept at.
#[derive(Debug)]
pub struct TileJob {
    pub key: TileKey,
    pub url: String,
    pub path: String,
}

/// Which tiles are fetched and which are resident. The renderer's tile map mirrors what is resident
/// here: this side decides what gets evicted and says so, so the two can never disagree about
/// whether a tile still exists.
pub struct TileManager {
    /// Fetches currently in flight.
    pub inflight: usize,
    /// Tiles whose fetch failed, and when, in milliseconds of the caller's clock.
    pub failed: Vec<(TileKey, u64)>,
    pub requested: Vec<TileKey>,
    /// Resident tiles, with the bytes of each.
    pub uploaded: LruCache<TileKey, u32>,
    /// Tiles evicted since the renderer was last told.
    pub evicted: Vec<TileKey>,
    /// Tiles counted visible across all panes this frame.
    pub frame_visible: usize,
    pub mapbox_key: String,
    pub maptiler_key: String,
    /// Selected frame (`None` = latest). Only affects timed styles.
    pub goes_time: Option<Frame>,
    /// Ask sources that serve them for double-resolution tiles.
    pub retina: bool,
    /// Template of the custom source. Empty until the user sets one.
    pub custom_template: String,
    /// Deepest zoom the custom source is configured to serve.
    pub custom_max_z: u8,
    /// Picker thumbnails, by the key of their style.
    pub thumbs: Vec<Thumb>,
}

/// `keys` without `key`.
pub open spec fn without_key(keys: Seq<TileKey>, key: TileKey) -> Seq<TileKey>
    decreases keys.len(),
{
    if keys.len() == 0 {
        keys
    } else if keys.last() == key {
        without_key(keys.drop_last(), key)
    } else {
        without_key(keys.drop_last(), key).push(keys.last())
    }
}

/// `failed` without `key`.
pub open spec fn not_failed(failed: Seq<(TileKey, u64)>, key: TileKey) -> Seq<(TileKey, u64)>
    decreases failed.len(),
{
    if failed.len() == 0 {
        failed
    } else if failed.last().0 == key {
        not_failed(failed.drop_last(), key)
    } else {
        not_failed(failed.drop_last(), key).push(failed.last())
    }
}

/// The tile failed less than a while ago.
pub open spec fn failed_lately(failed: Seq<(TileKey, u64)>, key: TileKey, now: u64) -> bool {
    exists|i: int|
        0 <= i < failed.len() && (#[trigger] failed[i]).0 == key && now - failed[i].1
            < RETRY_AFTER_MS
}

pub(crate) fn same_key(a: TileKey, b: TileKey) -> (r: bool)
    ensures
        r == (a == b),
{
    a.0 == b.0 && same_id(a.1, b.1)
}

pub(crate) fn remove_key(keys: &mut Vec<TileKey>, key: TileKey)
    ensures
        final(keys)@ == without_key(old(keys)@, key),
{
    let mut kept: Vec<TileKey> = Vec::new();
    let mut i: usize = 0;
    assert(kept@ =~= keys@.take(0));
    while i < keys.len()
        invariant
            i <= keys.len(),
            kept@ == without_key(keys@.take(i as int), key),
        decreases keys.len() - i,
    {
        proof {
            assert(keys@.take(i + 1).drop_last() =~= keys@.take(i as int));
            assert(keys@.take(i + 1).last() == keys@[i as int]);
        }
        if !same_key(keys[i], key) {
            kept.push(keys[i]);
        }
        i = i + 1;
    }
    assert(keys@.take(keys.len() as int) =~= keys@);
    *keys = kept;
}

pub(crate) fn remove_failed(failed: &mut Vec<(TileKey, u64)>, key: TileKey)
    ensures
        final(failed)@ == not_failed(old(failed)@, key),
{
    let mut kept: Vec<(TileKey, u64)> = Vec::new();
    let mut i: usize = 0;
    assert(kept@ =~= failed@.take(0));
    while i < failed.len()
        invariant
            i <= failed.len(),
            kept@ == not_failed(failed@.take(i as int), key),
        decreases failed.len() - i,
    {
        proof {
            assert(failed@.take(i + 1).drop_last() =~= failed@.take(i as int));
            assert(failed@.take(i + 1).last() == failed@[i as int]);
        }
        if !same_key(failed[i].0, key) {
            kept.push(failed[i]);
        }
        i = i + 1;
    }
    assert(failed@.take(failed.len() as int) =~= failed@);
    *failed = kept;
}

pub(crate) fn lately(failed: &Vec<(TileKey, u64)>, key: TileKey, now: u64) -> (r: bool)
    ensures
        r == failed_lately(failed@, key, now),
{
    let mut i: usize = 0;
    while i < failed.len()
        invariant
            i <= failed.len(),
            forall|j: int|
                0 <= j < i ==> !((#[trigger] failed@[j]).0 == key && now - failed@[j].1
                    < RETRY_AFTER_MS),
        decreases failed.len() - i,
    {
        let (k, at) = failed[i];
        if same_key(k, key) && (now < at || now - at < RETRY_AFTER_MS) {
            assert(failed@[i as int].0 == key);
            return true;
        }
        i = i + 1;
    }
    false
}

// ---- what the operations do -----------------------------------------------------------------

/// The bookkeeping of fetched and resident tiles.
pub struct Books {
    pub requested: Seq<TileKey>,
    pub failed: Seq<(TileKey, u64)>,
    pub resident: Seq<Resident>,
    pub evicted: Seq<TileKey>,
}

/// What the manager was told, what is in flight, and how much it counted and may hold.
pub struct Knobs {
    pub inflight: usize,
    pub frame_visible: usize,
    pub room: nat,
    pub mapbox: Seq<char>,
    pub maptiler: Seq<char>,
    pub frame: Option<Stamp>,
    pub retina: bool,
    pub custom: Seq<char>,
    pub custom_max_z: u8,
    pub thumbs: Seq<Thumb>,
}

/// The books after a fetch finished. A failed tile leaves the requested ones, so the next
/// visibility pass is the retry, and is remembered, so that pass isn't the very next frame.
pub open spec fn books_after(b: Books, cap: nat, r: TileResult, now: u64) -> Books {
    match r {
        TileResult::Failed(key) => Books {
            requested: without_key(b.requested, key),
            failed: not_failed(b.failed, key).push((key, now)),
            ..b
        },
        TileResult::Fetched(t) => {
            let key = (t.style, t.id);
            let out = pushed_out(b.resident, cap, key);
            let resident = pushed(b.resident, cap, key, (t.width * t.height * 4) as u32);
            let failed = not_failed(b.failed, key);
            if out is Some && out != Some(key) {
                Books {
                    requested: without_key(b.requested, out->0),
                    failed,
                    resident,
                    evicted: b.evicted.push(out->0),
                }
            } else {
                Books { failed, resident, ..b }
            }
        },
    }
}

/// Whether a finished fetch is to be uploaded: a tile that is not resident already.
pub open spec fn uploads(b: Books, r: TileResult) -> bool {
    match r {
        TileResult::Failed(_) => false,
        TileResult::Fetched(t) => !is_resident(b.resident, (t.style, t.id)),
    }
}

/// The upload of a tile.
pub open spec fn is_upload_of(p: PendingTile, t: FetchedTile) -> bool {
    p.id == t.id && p.style == t.style && p.rgba@ == t.rgba@ && p.width == t.width && p.height
        == t.height
}

/// The books after several fetches finished, one after the other.
pub open spec fn books_after_all(b: Books, cap: nat, rs: Seq<TileResult>, now: u64) -> Books
    decreases rs.len(),
{
    if rs.len() == 0 {
        b
    } else {
        books_after(books_after_all(b, cap, rs.drop_last(), now), cap, rs.last(), now)
    }
}

/// The finished fetches that are to be uploaded, in order.
pub open spec fn uploads_of(b: Books, cap: nat, rs: Seq<TileResult>, now: u64) -> Seq<TileResult>
    decreases rs.len(),
{
    if rs.len() == 0 {
        Seq::empty()
    } else {
        let before = books_after_all(b, cap, rs.drop_last(), now);
        let so_far = uploads_of(b, cap, rs.drop_last(), now);
        if uploads(before, rs.last()) {
            so_far.push(rs.last())
        } else {
            so_far
        }
    }
}

/// How many bytes the resident tiles take.
pub open spec fn bytes_of(es: Seq<Resident>) -> nat
    decreases es.len(),
{
    if es.len() == 0 {
        0
    } else {
        bytes_of(es.drop_last()) + es.last().1 as nat
    }
}

/// The longest run from the front that fits the byte budget, but never fewer than `floor`.
pub open spec fn within_budget(es: Seq<Resident>, floor: nat) -> Seq<Resident>
    decreases es.len(),
{
    if es.len() > floor && bytes_of(es) > RASTER_TILE_BYTES {
        within_budget(es.drop_last(), floor)
    } else {
        es
    }
}

/// The first `n` of a list, or all of it.
pub open spec fn at_most_first(es: Seq<Resident>, n: nat) -> Seq<Resident> {
    if es.len() > n {
        es.take(n as int)
    } else {
        es
    }
}

/// How many tiles the cache rests at after a frame that drew `visible`: the cap is a resting size,
/// not a per-frame limit.
pub open spec fn resting_size(visible: nat) -> nat {
    if visible + 16 > RASTER_TILE_CACHE {
        visible + 16
    } else {
        RASTER_TILE_CACHE as nat
    }
}

/// What stays resident after a frame that drew `visible` tiles.
pub open spec fn kept(es: Seq<Resident>, visible: nat) -> Seq<Resident> {
    at_most_first(
        within_budget(
            es,
            if visible >= 1 {
                visible
            } else {
                1
            },
        ),
        resting_size(visible),
    )
}

/// The keys of the tiles from place `n` on, the last first.
pub open spec fn keys_from_back(es: Seq<Resident>, n: nat) -> Seq<TileKey>
    decreases es.len(),
{
    if es.len() <= n {
        Seq::empty()
    } else {
        seq![es.last().0] + keys_from_back(es.drop_last(), n)
    }
}

/// `keys` without any of `gone`.
pub open spec fn without_all(keys: Seq<TileKey>, gone: Seq<TileKey>) -> Seq<TileKey>
    decreases gone.len(),
{
    if gone.len() == 0 {
        keys
    } else {
        without_key(without_all(keys, gone.drop_last()), gone.last())
    }
}

/// What is resident after the tiles `ids` of a style were promoted, one after the other.
pub open spec fn promoted_all(es: Seq<Resident>, style: u8, ids: Seq<TileId>) -> Seq<Resident>
    decreases ids.len(),
{
    if ids.len() == 0 {
        es
    } else {
        promoted(promoted_all(es, style, ids.drop_last()), (style, ids.last()))
    }
}

impl TileManager {
    /// The bookkeeping of fetched and resident tiles.
    pub open spec fn books(self) -> Books {
        Books {
            requested: self.requested@,
            failed: self.failed@,
            resident: resident(self.uploaded),
            evicted: self.evicted@,
        }
    }

    /// Everything beside the bookkeeping.
    pub open spec fn knobs(self) -> Knobs {
        Knobs {
            inflight: self.inflight,
            frame_visible: self.frame_visible,
            room: room(self.uploaded),
            mapbox: self.mapbox_key@,
            maptiler: self.maptiler_key@,
            frame: frame_at(self.goes_time),
            retina: self.retina,
            custom: self.custom_template@,
            custom_max_z: self.custom_max_z,
            thumbs: self.thumbs@,
        }
    }

    /// The state every operation keeps: there is a thumbnail state for every style, the custom
    /// depth is within what a grid may have, and the selected frame is written as it should be.
    pub open spec fn well_formed(self) -> bool {
        &&& self.thumbs@.len() == 59
        &&& 1 <= self.custom_max_z <= 22
        &&& self.goes_time matches Some(f) ==> f.well_formed()
        &&& room(self.uploaded) >= 1
        &&& self.inflight <= MAX_INFLIGHT
    }

    pub fn new() -> (m: TileManager)
        ensures
            m.well_formed(),
            m.inflight == 0,
            m.books() == (Books {
                requested: Seq::empty(),
                failed: Seq::empty(),
                resident: Seq::empty(),
                evicted: Seq::empty(),
            }),
            room(m.uploaded) == RASTER_TILE_CACHE,
            m.frame_visible == 0,
            m.mapbox_key@.len() == 0,
            m.maptiler_key@.len() == 0,
            m.goes_time is None,
            !m.retina,
            m.custom_template@.len() == 0,
            m.custom_max_z == 19,
            forall|i: int| 0 <= i < 59 ==> #[trigger] m.thumbs@[i] == Thumb::Unasked,
    {
        let mut thumbs: Vec<Thumb> = Vec::new();
        let mut i: usize = 0;
        while i < 59
            invariant
                i <= 59,
                thumbs@.len() == i,
                forall|j: int| 0 <= j < i ==> #[trigger] thumbs@[j] == Thumb::Unasked,
            decreases 59 - i,
        {
            thumbs.push(Thumb::Unasked);
            i = i + 1;
        }
        let m = TileManager {
            inflight: 0,
            failed: Vec::new(),
            requested: Vec::new(),
            uploaded: tiles_new(RASTER_TILE_CACHE),
            evicted: Vec::new(),
            frame_visible: 0,
            mapbox_key: String::new(),
            maptiler_key: String::new(),
            goes_time: None,
            retina: false,
            custom_template: String::new(),
            custom_max_z: 19,
            thumbs,
        };
        assert(m.requested@ =~= Seq::<TileKey>::empty());
        assert(m.failed@ =~= Seq::<(TileKey, u64)>::empty());
        assert(m.evicted@ =~= Seq::<TileKey>::empty());
        m
    }

    /// Forget what was asked for and what is resident: the same tile ids now mean other imagery.
    fn forget_fetched(&mut self)
        ensures
            final(self).knobs() == old(self).knobs(),
            final(self).goes_time == old(self).goes_time,
            final(self).books() == old(self).books().forgotten(),
    {
        self.requested.clear();
        tiles_clear(&mut self.uploaded);
        assert(self.requested@ =~= Seq::<TileKey>::empty());
    }

    /// Select a frame of the timed layers (`None` = latest). Returns true if it changed (the caller
    /// clears the renderer's tiles).
    pub fn set_goes_time(&mut self, t: Option<Frame>) -> (changed: bool)
        requires
            old(self).well_formed(),
            t matches Some(f) ==> f.well_formed(),
        ensures
            final(self).well_formed(),
            changed == (frame_at(old(self).goes_time) != frame_at(t)),
            final(self).knobs() == (Knobs { frame: frame_at(t), ..old(self).knobs() }),
            final(self).books() == if changed {
                old(self).books().forgotten()
            } else {
                old(self).books()
            },
    {
        let same = match (&self.goes_time, &t) {
            (Some(a), Some(b)) => a.at == b.at,
            (None, None) => true,
            _ => false,
        };
        if same {
            return false;
        }
        self.forget_fetched();
        self.goes_time = t;
        true
    }

    /// Turn double-resolution tiles on or off (high-DPI screen, and not on a metered link). Returns
    /// true if it changed, so the caller can clear the renderer's tiles: the old ones are a
    /// different size.
    pub fn set_retina(&mut self, retina: bool) -> (changed: bool)
        requires
            old(self).well_formed(),
        ensures
            final(self).well_formed(),
            changed == (old(self).retina != retina),
            final(self).knobs() == (Knobs { retina, ..old(self).knobs() }),
            final(self).books() == if changed {
                old(self).books().forgotten()
            } else {
                old(self).books()
            },
    {
        if self.retina == retina {
            return false;
        }
        self.forget_fetched();
        self.retina = retina;
        true
    }

    /// Whether `style` is being fetched at double resolution right now: the caller drops its
    /// zoom bias when this is true, since the extra pixels are already in the tile.
    pub fn is_retina(&self, style: BasemapStyle) -> (r: bool)
        ensures
            r == (self.retina && style.double()),
    {
        self.retina && style.has_2x()
    }

    /// Update the provider API keys. Forgets what was fetched if a key changed, so the active
    /// provider style refetches.
    pub fn set_keys(&mut self, mapbox: &str, maptiler: &str)
        requires
            old(self).well_formed(),
        ensures
            final(self).well_formed(),
            final(self).knobs() == (Knobs {
                mapbox: mapbox@,
                maptiler: maptiler@,
                ..old(self).knobs()
            }),
            final(self).books() == if old(self).mapbox_key@ != mapbox@ || old(self).maptiler_key@
                != maptiler@ {
                old(self).books().forgotten()
            } else {
                old(self).books()
            },
    {
        if !text::same(self.mapbox_key.as_str(), mapbox) || !text::same(
            self.maptiler_key.as_str(),
            maptiler,
        ) {
            self.forget_fetched();
            self.mapbox_key = mapbox.to_owned();
            self.maptiler_key = maptiler.to_owned();
        }
    }

    /// Set how deep the custom source serves. Clamped rather than trusted: a view's grid has four
    /// times the tiles at each level, and a typo in the settings file should not turn into an
    /// unbounded fetch loop.
    pub fn set_custom_max_z(&mut self, z: u8)
        requires
            old(self).well_formed(),
        ensures
            final(self).well_formed(),
            final(self).knobs() == (Knobs {
                custom_max_z: if z < 1 {
                    1
                } else if z > 22 {
                    22
                } else {
                    z
                },
                ..old(self).knobs()
            }),
            final(self).books() == old(self).books(),
    {
        self.custom_max_z = if z < 1 {
            1
        } else if z > 22 {
            22
        } else {
            z
        };
    }

    /// Point the custom source at a template. Forgets what was fetched on change: the same tile ids
    /// now mean a different server's imagery.
    pub fn set_custom_template(&mut self, template: &str)
        requires
            old(self).well_formed(),
        ensures
            final(self).well_formed(),
            final(self).knobs() == (Knobs { custom: template@, ..old(self).knobs() }),
            final(self).books() == if old(self).custom_template@ != template@ {
                old(self).books().forgotten()
            } else {
                old(self).books()
            },
    {
        if !text::same(self.custom_template.as_str(), template) {
            self.forget_fetched();
            self.custom_template = template.to_owned();
        }
    }

    /// Deepest zoom to fetch for a style.
    pub open spec fn deepest(self, style: BasemapStyle) -> u8 {
        if style == BasemapStyle::CustomXyz {
            self.custom_max_z
        } else {
            style.deepest()
        }
    }

    /// Deepest zoom to fetch for `style`: what the provider serves, except for the custom source
    /// where only the user knows.
    pub fn max_z(&self, style: BasemapStyle) -> (r: u8)
        ensures
            r == self.deepest(style),
    {
        if style == BasemapStyle::CustomXyz {
            self.custom_max_z
        } else {
            style.max_raster_z()
        }
    }

    /// The zoom whose tiles cover a view at `zoom`, rounded to a whole level: no coarser than the
    /// second level, unless the style is served no deeper than the first, and never deeper than the
    /// style is served.
    pub fn visible_zoom(&self, style: BasemapStyle, zoom: i64) -> (r: u8)
        ensures
            r == {
                let wanted = if zoom < 2 {
                    2
                } else {
                    zoom as int
                };
                if wanted > self.deepest(style) {
                    self.deepest(style) as int
                } else {
                    wanted
                }
            },
            r <= self.deepest(style),
            2 <= zoom <= self.deepest(style) ==> r == zoom,
            r < 2 ==> r == self.deepest(style),
            r < zoom ==> r == self.deepest(style),
    {
        let deepest: u8 = self.max_z(style);
        let wanted: i64 = if zoom < 2 {
            2
        } else {
            zoom
        };
        if wanted > deepest as i64 {
            deepest
        } else {
            wanted as u8
        }
    }

    /// Max zoom `style` serves (for the depth cap of packs).
    pub fn max_pack_z(&self, style: BasemapStyle) -> (r: u8)
        ensures
            r == self.deepest(style),
    {
        self.max_z(style)
    }
}

impl Books {
    /// The books with what was asked for and what is resident forgotten.
    pub open spec fn forgotten(self) -> Books {
        Books { requested: Seq::empty(), resident: Seq::empty(), ..self }
    }
}

/// The instant of a selected frame.
pub open spec fn frame_at(f: Option<Frame>) -> Option<Stamp> {
    match f {
        Some(f) => Some(f.at),
        None => None,
    }
}

/// What comes of a fetch is of the tile that was fetched: a failure of it where there were no bytes
/// or no picture in them, else its picture.
pub proof fn results_are_of_their_tile(key: TileKey, bytes: Option<Seq<u8>>, r: TileResult)
    requires
        is_result(key, bytes, r),
    ensures
        r matches TileResult::Failed(k) ==> k == key,
        r matches TileResult::Fetched(t) ==> (t.style, t.id) == key && bytes is Some && decoded(
            bytes->0,
        ) == Some((t.width, t.height, t.rgba@)),
        r is Failed <==> bytes is None || decoded(bytes->0) is None,
{
}

/// A custom source is fetched as deep as the user says, any other as deep as its provider serves.
pub proof fn depth_is_the_providers(m: TileManager, style: BasemapStyle)
    ensures
        m.deepest(BasemapStyle::CustomXyz) == m.custom_max_z,
        style != BasemapStyle::CustomXyz ==> m.deepest(style) == style.deepest(),
{
}

} // verus!
