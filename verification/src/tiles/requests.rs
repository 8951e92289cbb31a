//! What is fetched for a view, for the style picker, and for a pack to take along.

use crate::render::fallback::has_key;
use crate::render::{TileId, TileKey};
use crate::text;
use crate::tiles::cover::{cover_rows, pack_cover, pack_tile_ids, CoverTile, TileBox};
use crate::tiles::manager::{
    failed_lately, lately, resident, room, Books, Frame, Knobs, Thumb, TileJob, TileManager,
    MAX_INFLIGHT, MAX_THUMBS_LOADING,
};
use crate::tiles::style::BasemapStyle;
use crate::tiles::url::{
    path3, paths_tell_their_numbers, retina_has_its_own_directory, same_text, tile_path,
    timed_addresses_tell_their_frame,
};
use vstd::prelude::*;

verus! {

/// A tile to fetch, as texts.
pub struct JobText {
    pub key: TileKey,
    pub url: Seq<char>,
    pub path: Seq<char>,
}

/// The jobs as texts.
pub open spec fn job_texts(jobs: Seq<TileJob>) -> Seq<JobText> {
    jobs.map_values(|j: TileJob| JobText { key: j.key, url: j.url@, path: j.path@ })
}

/// The path of a tile under the tile cache.
pub open spec fn cache_path(dir: Seq<char>, tag: Seq<char>, id: TileId) -> Seq<char> {
    dir + "/"@ + tag + "/"@ + path3(id.0 as int, id.1 as int, id.2 as int)
}

fn cache_path_of(dir: &str, tag: &str, id: TileId) -> (r: String)
    ensures
        r@ == cache_path(dir@, tag@, id),
{
    let mut s = dir.to_owned();
    s.append("/");
    s.append(tag);
    s.append("/");
    let p = tile_path(id.0 as u64, id.1 as u64, id.2 as u64);
    s.append(p.as_str());
    s
}

/// What is asked for so far in one pass over a view.
pub struct Pass {
    pub requested: Seq<TileKey>,
    pub inflight: nat,
    pub jobs: Seq<JobText>,
}

impl TileManager {
    /// The job for one tile: where it is fetched from, with the selected frame for a timed style,
    /// and where it is kept. `None` for a style that has no tiles to fetch.
    pub open spec fn job_for(self, style: BasemapStyle, id: TileId) -> Option<JobText> {
        let key: TileKey = (style.place() as u8, id);
        let dir = style.provider_text(self.retina, self.custom_template@);
        match self.goes_time {
            Some(f) => if style.is_timed() {
                match style.timed_url_text(id.0, id.1, id.2, f.iso@) {
                    Some(url) => Some(JobText { key, url, path: cache_path(dir, f.tag@, id) }),
                    None => None,
                }
            } else {
                self.latest_job(style, id)
            },
            None => self.latest_job(style, id),
        }
    }

    /// The job for one tile of the latest frame.
    pub open spec fn latest_job(self, style: BasemapStyle, id: TileId) -> Option<JobText> {
        match style.url_text(
            id.0,
            id.1,
            id.2,
            self.retina,
            self.mapbox_key@,
            self.maptiler_key@,
            self.custom_template@,
        ) {
            Some(url) => Some(
                JobText {
                    key: (style.place() as u8, id),
                    url,
                    path: cache_path(
                        style.provider_text(self.retina, self.custom_template@),
                        "default"@,
                        id,
                    ),
                },
            ),
            None => None,
        }
    }

    /// One tile of the view is looked at: it is asked for unless it was already, failed just now,
    /// there is enough in flight, or there is nowhere to get it from.
    pub open spec fn look_at(self, style: BasemapStyle, id: TileId, now: u64, p: Pass) -> Pass {
        let key: TileKey = (style.place() as u8, id);
        if p.requested.contains(key) || failed_lately(self.failed@, key, now) || p.inflight
            >= MAX_INFLIGHT {
            p
        } else {
            match self.job_for(style, id) {
                Some(job) => Pass {
                    requested: p.requested.push(key),
                    inflight: p.inflight + 1,
                    jobs: p.jobs.push(job),
                },
                None => p,
            }
        }
    }

    /// The tiles of a view are looked at in turn.
    pub open spec fn look_at_all(self, style: BasemapStyle, ids: Seq<TileId>, now: u64) -> Pass
        decreases ids.len(),
    {
        if ids.len() == 0 {
            Pass {
                requested: self.requested@,
                inflight: self.inflight as nat,
                jobs: Seq::empty(),
            }
        } else {
            self.look_at(style, ids.last(), now, self.look_at_all(style, ids.drop_last(), now))
        }
    }

    fn job(&self, style: BasemapStyle, id: TileId) -> (r: Option<TileJob>)
        ensures
            match self.job_for(style, id) {
                Some(j) => r is Some && (r->0).key == j.key && (r->0).url@ == j.url && (r->0).path@
                    == j.path,
                None => r is None,
            },
    {
        let key: TileKey = (style.key(), id);
        let dir = style.provider(self.retina, self.custom_template.as_str());
        if let Some(f) = &self.goes_time {
            if style.timed() {
                return match style.timed_url(id.0, id.1, id.2, f.iso.as_str()) {
                    Some(url) => Some(
                        TileJob {
                            key,
                            url,
                            path: cache_path_of(dir.as_str(), f.tag.as_str(), id),
                        },
                    ),
                    None => None,
                };
            }
        }
        match style.url(
            id.0,
            id.1,
            id.2,
            self.retina,
            self.mapbox_key.as_str(),
            self.maptiler_key.as_str(),
            self.custom_template.as_str(),
        ) {
            Some(url) => Some(
                TileJob { key, url, path: cache_path_of(dir.as_str(), "default", id) },
            ),
            None => None,
        }
    }

    /// The fetches to start for visible tiles not yet requested. What is over the limit waits for a
    /// later pass rather than dumping a whole screenful on the radio.
    pub fn request_missing(
        &mut self,
        style: BasemapStyle,
        visible: &[TileId],
        now: u64,
    ) -> (jobs: Vec<TileJob>)
        requires
            old(self).well_formed(),
        ensures
            final(self).well_formed(),
            ({
                let pass = old(self).look_at_all(style, visible@, now);
                &&& job_texts(jobs@) == pass.jobs
                &&& final(self).books() == (Books {
                    requested: pass.requested,
                    ..old(self).books()
                })
                &&& final(self).knobs() == (Knobs {
                    inflight: pass.inflight as usize,
                    ..old(self).knobs()
                })
            }),
    {
        let ghost start = *self;
        let skey = style.key();
        let mut jobs: Vec<TileJob> = Vec::new();
        let mut i: usize = 0;
        assert(visible@.take(0) =~= Seq::<TileId>::empty());
        assert(job_texts(jobs@) =~= Seq::<JobText>::empty());
        while i < visible.len()
            invariant
                i <= visible.len(),
                skey == style.place(),
                start == *old(self),
                self.well_formed(),
                self.failed@ == start.failed@,
                self.evicted@ == start.evicted@,
                resident(self.uploaded) == resident(start.uploaded),
                self.goes_time == start.goes_time,
                self.knobs() == (Knobs { inflight: self.inflight, ..start.knobs() }),
                ({
                    let pass = start.look_at_all(style, visible@.take(i as int), now);
                    &&& job_texts(jobs@) == pass.jobs
                    &&& self.requested@ == pass.requested
                    &&& self.inflight == pass.inflight
                }),
            decreases visible.len() - i,
        {
            let id = visible[i];
            let key: TileKey = (skey, id);
            proof {
                assert(visible@.take(i + 1).drop_last() =~= visible@.take(i as int));
                assert(visible@.take(i + 1).last() == id);
            }
            if !has_key(self.requested.as_slice(), key) && !lately(&self.failed, key, now)
                && self.inflight < MAX_INFLIGHT {
                let made = self.job(style, id);
                assert(self.job_for(style, id) == start.job_for(style, id));
                if let Some(job) = made {
                    let ghost before = job_texts(jobs@);
                    self.requested.push(key);
                    self.inflight = self.inflight + 1;
                    jobs.push(job);
                    assert(job_texts(jobs@) =~= before.push(start.job_for(style, id)->0));
                }
            }
            i = i + 1;
        }
        assert(visible@.take(visible@.len() as int) =~= visible@);
        jobs
    }

    /// One fetch is over, however it ended.
    pub fn fetch_finished(&mut self)
        requires
            old(self).well_formed(),
            old(self).inflight > 0,
        ensures
            final(self).well_formed(),
            final(self).books() == old(self).books(),
            final(self).knobs() == (Knobs {
                inflight: (old(self).inflight - 1) as usize,
                ..old(self).knobs()
            }),
    {
        self.inflight = self.inflight - 1;
    }
}

proof fn lemma_pass_bound(m: TileManager, style: BasemapStyle, ids: Seq<TileId>, now: u64)
    requires
        m.inflight <= MAX_INFLIGHT,
    ensures
        m.inflight <= m.look_at_all(style, ids, now).inflight <= MAX_INFLIGHT,
        m.look_at_all(style, ids, now).jobs.len() == m.look_at_all(style, ids, now).inflight
            - m.inflight,
    decreases ids.len(),
{
    if ids.len() > 0 {
        lemma_pass_bound(m, style, ids.drop_last(), now);
    }
}

/// However many tiles a view has, no more than the limit are ever in flight.
pub proof fn flights_are_limited(m: TileManager, style: BasemapStyle, ids: Seq<TileId>, now: u64)
    requires
        m.well_formed(),
    ensures
        m.inflight + m.look_at_all(style, ids, now).jobs.len() <= MAX_INFLIGHT,
{
    lemma_pass_bound(m, style, ids, now);
}

/// A tile that was asked for is not asked for again: a second pass over the same view starts
/// nothing for it.
pub proof fn tiles_are_asked_for_once(
    m: TileManager,
    style: BasemapStyle,
    ids: Seq<TileId>,
    now: u64,
    i: int,
    j: int,
)
    requires
        0 <= i < j < m.look_at_all(style, ids, now).jobs.len(),
    ensures
        m.look_at_all(style, ids, now).jobs[i].key != m.look_at_all(style, ids, now).jobs[j].key,
{
    lemma_asked(m, style, ids, now);
}

proof fn lemma_asked(m: TileManager, style: BasemapStyle, ids: Seq<TileId>, now: u64)
    ensures
        ({
            let p = m.look_at_all(style, ids, now);
            &&& forall|i: int, j: int|
                0 <= i < j < p.jobs.len() ==> (#[trigger] p.jobs[i]).key != (
                #[trigger] p.jobs[j]).key
            &&& forall|i: int|
                0 <= i < p.jobs.len() ==> p.requested.contains((#[trigger] p.jobs[i]).key)
            &&& forall|i: int|
                0 <= i < p.jobs.len() ==> !m.requested@.contains((#[trigger] p.jobs[i]).key)
            &&& forall|k: TileKey| m.requested@.contains(k) ==> #[trigger] p.requested.contains(k)
        }),
    decreases ids.len(),
{
    if ids.len() > 0 {
        lemma_asked(m, style, ids.drop_last(), now);
        let q = m.look_at_all(style, ids.drop_last(), now);
        let p = m.look_at_all(style, ids, now);
        let key: TileKey = (style.place() as u8, ids.last());
        if p.requested != q.requested {
            assert(p.requested == q.requested.push(key));
            assert(p.jobs == q.jobs.push(m.job_for(style, ids.last())->0));
            assert(p.jobs.last().key == key);
            assert forall|k: TileKey| q.requested.contains(k) implies p.requested.contains(k) by {
                assert(p.requested[q.requested.index_of(k)] == k);
            }
            assert(p.requested[q.requested.len() as int] == key);
            assert forall|i: int| 0 <= i < p.jobs.len() implies p.requested.contains(
                (#[trigger] p.jobs[i]).key,
            ) by {
                if i < q.jobs.len() {
                    assert(p.jobs[i] == q.jobs[i]);
                }
            }
        }
    }
}

// ---------------------------------------------------------------------------------------------
// Thumbnails.

/// What to do about a style's picker thumbnail.
#[derive(Debug)]
pub enum ThumbStep {
    /// It is there.
    Show,
    /// Paint a swatch: it is in flight, failed, or cannot be had now.
    Swatch,
    /// Paint a swatch and fetch it.
    Fetch { url: String, path: String },
}

/// How many thumbnails are in flight.
pub open spec fn loading(thumbs: Seq<Thumb>) -> nat
    decreases thumbs.len(),
{
    if thumbs.len() == 0 {
        0
    } else {
        loading(thumbs.drop_last()) + if thumbs.last() == Thumb::Loading {
            1nat
        } else {
            0nat
        }
    }
}

fn count_loading(thumbs: &Vec<Thumb>) -> (r: usize)
    ensures
        r == loading(thumbs@),
{
    let mut n: usize = 0;
    let mut i: usize = 0;
    assert(thumbs@.take(0) =~= Seq::<Thumb>::empty());
    while i < thumbs.len()
        invariant
            i <= thumbs.len(),
            n <= i,
            n == loading(thumbs@.take(i as int)),
        decreases thumbs.len() - i,
    {
        proof {
            assert(thumbs@.take(i + 1).drop_last() =~= thumbs@.take(i as int));
            assert(thumbs@.take(i + 1).last() == thumbs@[i as int]);
        }
        if thumbs[i] == Thumb::Loading {
            n = n + 1;
        }
        i = i + 1;
    }
    assert(thumbs@.take(thumbs.len() as int) =~= thumbs@);
    n
}

impl TileManager {
    /// The thumbnail's URL.
    pub open spec fn thumb_url_text(self, style: BasemapStyle) -> Option<Seq<char>> {
        style.url_text(
            6,
            14,
            24,
            false,
            self.mapbox_key@,
            self.maptiler_key@,
            self.custom_template@,
        )
    }

    /// The thumbnail of a style is fetched now: it was not asked for yet, the link is not metered,
    /// there are not too many in flight, and there is somewhere to get it from.
    pub open spec fn fetches_thumb(self, style: BasemapStyle, metered: bool) -> bool {
        &&& self.thumbs@[style.place()] == Thumb::Unasked
        &&& !metered
        &&& loading(self.thumbs@) < MAX_THUMBS_LOADING
        &&& self.thumb_url_text(style) is Some
    }

    /// This style's picker thumbnail, fetched the first time it is asked for.
    ///
    /// One tile over the middle of CONUS per style, through the same disk cache as any other tile.
    /// The picker paints a palette swatch until it is there, so nothing ever waits on a network
    /// round trip to draw. A metered link does not spend a screenful of tiles on decoration.
    pub fn thumb(&mut self, style: BasemapStyle, metered: bool) -> (step: ThumbStep)
        requires
            old(self).well_formed(),
        ensures
            final(self).well_formed(),
            final(self).books() == old(self).books(),
            match step {
                ThumbStep::Show => old(self).thumbs@[style.place()] == Thumb::Ready,
                ThumbStep::Swatch => old(self).thumbs@[style.place()] != Thumb::Ready && !old(
                    self).fetches_thumb(style, metered),
                ThumbStep::Fetch { url, path } => {
                    &&& old(self).fetches_thumb(style, metered)
                    &&& url@ == old(self).thumb_url_text(style)->0
                    &&& path@ == cache_path(
                        style.provider_text(false, old(self).custom_template@),
                        "default"@,
                        (6u8, 14u32, 24u32),
                    )
                },
            },
            final(self).knobs() == (Knobs {
                thumbs: if step is Fetch {
                    old(self).thumbs@.update(style.place(), Thumb::Loading)
                } else {
                    old(self).thumbs@
                },
                ..old(self).knobs()
            }),
    {
        let key: usize = style.key() as usize;
        let state = self.thumbs[key];
        if state == Thumb::Ready {
            return ThumbStep::Show;
        }
        if state != Thumb::Unasked || metered {
            return ThumbStep::Swatch;
        }
        if count_loading(&self.thumbs) >= MAX_THUMBS_LOADING {
            return ThumbStep::Swatch;
        }
        match style.thumb_url(
            self.mapbox_key.as_str(),
            self.maptiler_key.as_str(),
            self.custom_template.as_str(),
        ) {
            None => ThumbStep::Swatch,
            Some(url) => {
                let dir = style.provider(false, self.custom_template.as_str());
                let path = cache_path_of(dir.as_str(), "default", (6, 14, 24));
                self.thumbs.set(key, Thumb::Loading);
                ThumbStep::Fetch { url, path }
            },
        }
    }

    /// A thumbnail's fetch is over.
    pub fn thumb_finished(&mut self, style: BasemapStyle, ok: bool)
        requires
            old(self).well_formed(),
        ensures
            final(self).well_formed(),
            final(self).books() == old(self).books(),
            final(self).knobs() == (Knobs {
                thumbs: old(self).thumbs@.update(
                    style.place(),
                    if ok {
                        Thumb::Ready
                    } else {
                        Thumb::Failed
                    },
                ),
                ..old(self).knobs()
            }),
            ok <==> final(self).thumbs@[style.place()] == Thumb::Ready,
            forall|i: int|
                0 <= i < old(self).thumbs@.len() && i != style.place()
                    ==> #[trigger] final(self).thumbs@[i] == old(self).thumbs@[i],
    {
        let key: usize = style.key() as usize;
        self.thumbs.set(
            key,
            if ok {
                Thumb::Ready
            } else {
                Thumb::Failed
            },
        );
    }
}

// ---------------------------------------------------------------------------------------------
// Packs.

/// A tile of a pack: where it is fetched from and where it is kept.
pub struct PackText {
    pub url: Seq<char>,
    pub path: Seq<char>,
}

/// The jobs of a pack as texts.
pub open spec fn pack_texts(jobs: Seq<(String, String)>) -> Seq<PackText> {
    jobs.map_values(|j: (String, String)| PackText { url: j.0@, path: j.1@ })
}

impl TileManager {
    /// Whether `style` has raster tiles that a pack can download ahead: a URL, and no time
    /// dimension.
    pub fn packable(&self, style: BasemapStyle) -> (r: bool)
        ensures
            r == (!style.is_timed() && style.url_text(
                0,
                0,
                0,
                false,
                self.mapbox_key@,
                self.maptiler_key@,
                self.custom_template@,
            ) is Some),
    {
        !style.timed() && style.url(
            0,
            0,
            0,
            false,
            self.mapbox_key.as_str(),
            self.maptiler_key.as_str(),
            self.custom_template.as_str(),
        ).is_some()
    }

    /// The pack's job for one tile. Packs are always at plain resolution: a pack is written once
    /// and read on whatever device opens it later.
    pub open spec fn pack_job(self, style: BasemapStyle, id: TileId) -> Option<PackText> {
        match style.url_text(
            id.0,
            id.1,
            id.2,
            false,
            self.mapbox_key@,
            self.maptiler_key@,
            self.custom_template@,
        ) {
            Some(url) => Some(
                PackText {
                    url,
                    path: cache_path(
                        style.provider_text(false, self.custom_template@),
                        "default"@,
                        id,
                    ),
                },
            ),
            None => None,
        }
    }

    /// The jobs for the tiles that have one, in order.
    pub open spec fn pack_of(self, style: BasemapStyle, tiles: Seq<CoverTile>) -> Seq<PackText>
        decreases tiles.len(),
    {
        if tiles.len() == 0 {
            Seq::empty()
        } else {
            let rest = self.pack_of(style, tiles.drop_last());
            match self.pack_job(style, tiles.last().id) {
                Some(j) => rest.push(j),
                None => rest,
            }
        }
    }

    /// The levels of a pack that the style serves.
    pub open spec fn served(self, style: BasemapStyle, z_lo: u8, levels: Seq<TileBox>) -> Seq<
        TileBox,
    > {
        let n = self.deepest(style) - z_lo + 1;
        if n <= 0 {
            Seq::empty()
        } else if n < levels.len() {
            levels.take(n)
        } else {
            levels
        }
    }

    /// The `(url, path)` jobs for a pack of `style` over the ground of `levels`, from zoom `z_lo`
    /// on and no deeper than the style serves. Empty for styles without a URL and for timed ones.
    /// Paths match the live read-through cache, so what was downloaded ahead is found.
    pub fn pack_jobs(&self, style: BasemapStyle, z_lo: u8, levels: &Vec<TileBox>) -> (r: Vec<
        (String, String),
    >)
        requires
            z_lo as int + levels@.len() <= 255,
            forall|i: int| 0 <= i < levels@.len() ==> (#[trigger] levels@[i]).in_range(),
        ensures
            pack_texts(r@) == if style.is_timed() {
                Seq::empty()
            } else {
                self.pack_of(style, pack_cover(z_lo as int, self.served(style, z_lo, levels@)))
            },
    {
        let mut out: Vec<(String, String)> = Vec::new();
        assert(pack_texts(out@) =~= Seq::<PackText>::empty());
        if style.timed() {
            return out;
        }
        let deepest = self.max_z(style);
        let mut part: Vec<TileBox> = Vec::new();
        let ghost want = self.served(style, z_lo, levels@);
        let mut i: usize = 0;
        while i < levels.len() && z_lo + i as u8 <= deepest
            invariant
                i <= levels.len(),
                z_lo as int + levels@.len() <= 255,
                part@ == levels@.take(i as int),
                forall|i: int| 0 <= i < levels@.len() ==> (#[trigger] levels@[i]).in_range(),
                i > 0 ==> z_lo + i - 1 <= deepest,
            decreases levels.len() - i,
        {
            part.push(levels[i]);
            i = i + 1;
            assert(part@ =~= levels@.take(i as int));
        }
        assert(part@ =~= want);
        assert forall|i: int| 0 <= i < part@.len() implies (#[trigger] part@[i]).in_range() by {
            assert(part@[i] == levels@[i]);
        }
        let tiles = pack_tile_ids(z_lo, &part);
        let dir = style.provider(false, self.custom_template.as_str());
        let mut i: usize = 0;
        assert(tiles@.take(0) =~= Seq::<CoverTile>::empty());
        while i < tiles.len()
            invariant
                i <= tiles.len(),
                dir@ == style.provider_text(false, self.custom_template@),
                pack_texts(out@) == self.pack_of(style, tiles@.take(i as int)),
            decreases tiles.len() - i,
        {
            let id = tiles[i].id;
            let ghost before = pack_texts(out@);
            proof {
                assert(tiles@.take(i + 1).drop_last() =~= tiles@.take(i as int));
                assert(tiles@.take(i + 1).last() == tiles@[i as int]);
            }
            match style.url(
                id.0,
                id.1,
                id.2,
                false,
                self.mapbox_key.as_str(),
                self.maptiler_key.as_str(),
                self.custom_template.as_str(),
            ) {
                Some(url) => {
                    out.push((url, cache_path_of(dir.as_str(), "default", id)));
                    assert(pack_texts(out@) =~= before.push(self.pack_job(style, id)->0));
                },
                None => {},
            }
            i = i + 1;
        }
        assert(tiles@.take(tiles@.len() as int) =~= tiles@);
        out
    }
}

// ---------------------------------------------------------------------------------------------
// What is asked for.

/// The tiles of a timed style are fetched in the frame that was picked, and kept apart from those of
/// any other frame; with no frame picked, in the latest one.
pub proof fn tiles_are_fetched_in_the_frame_picked(m: TileManager, style: BasemapStyle, id: TileId)
    requires
        style.is_timed(),
    ensures
        m.goes_time matches Some(f) ==> m.job_for(style, id) is Some && text::holds_text(
            (m.job_for(style, id)->0).url,
            f.iso@,
        ) && text::holds_text((m.job_for(style, id)->0).path, "/"@ + f.tag@ + "/"@),
        m.goes_time is None && m.job_for(style, id) is Some ==> text::holds_text(
            (m.job_for(style, id)->0).path,
            "/default/"@,
        ),
{
    let dir = style.provider_text(m.retina, m.custom_template@);
    let p = path3(id.0 as int, id.1 as int, id.2 as int);
    if let Some(f) = m.goes_time {
        timed_addresses_tell_their_frame(style, id.0, id.1, id.2, f.iso@, f.iso@);
        assert(cache_path(dir, f.tag@, id) =~= dir + ("/"@ + f.tag@ + "/"@) + p);
        text::lemma_holds_join(dir, "/"@ + f.tag@ + "/"@, p);
    } else {
        reveal_strlit("/default/");
        reveal_strlit("default");
        reveal_strlit("/");
        assert("/default/"@ =~= "/"@ + "default"@ + "/"@);
        assert(cache_path(dir, "default"@, id) =~= dir + "/default/"@ + p);
        text::lemma_holds_join(dir, "/default/"@, p);
    }
}

/// A frame of a timed style changes nothing about the others.
pub proof fn frames_are_of_timed_styles(
    m: TileManager,
    n: TileManager,
    style: BasemapStyle,
    id: TileId,
)
    requires
        !style.is_timed(),
        n.retina == m.retina,
        n.custom_template@ == m.custom_template@,
        n.mapbox_key@ == m.mapbox_key@,
        n.maptiler_key@ == m.maptiler_key@,
    ensures
        m.job_for(style, id) == n.job_for(style, id),
{
}

/// A tile is kept in a file of its own: no two tiles of a style and a frame share one.
pub proof fn tiles_have_their_own_files(dir: Seq<char>, tag: Seq<char>, a: TileId, b: TileId)
    requires
        cache_path(dir, tag, a) == cache_path(dir, tag, b),
    ensures
        a == b,
{
    let start = dir + "/"@ + tag + "/"@;
    let p = path3(a.0 as int, a.1 as int, a.2 as int);
    let q = path3(b.0 as int, b.1 as int, b.2 as int);
    assert((start + p).skip(start.len() as int) =~= p);
    assert((start + q).skip(start.len() as int) =~= q);
    paths_tell_their_numbers(
        a.0 as nat,
        a.1 as nat,
        a.2 as nat,
        b.0 as nat,
        b.1 as nat,
        b.2 as nat,
    );
}

/// The job is for the tile of the style.
pub open spec fn is_job_of(m: TileManager, style: BasemapStyle, id: TileId, j: JobText) -> bool {
    &&& j.key == (style.place() as u8, id)
    &&& m.job_for(style, id) == Some(j)
}

/// Every tile of a view is asked for that was not asked for before, did not fail in the last five
/// seconds, and can be had, unless six fetches are in flight; and nothing is asked for but tiles of
/// the view, each for its own style and place.
#[verifier::spinoff_prover]
#[verifier::rlimit(80)]
pub proof fn every_missing_tile_is_asked_for(
    m: TileManager,
    style: BasemapStyle,
    ids: Seq<TileId>,
    now: u64,
)
    requires
        m.inflight <= 6,
    ensures
        ({
            let pass = m.look_at_all(style, ids, now);
            &&& forall|i: int|
                0 <= i < pass.jobs.len() ==> exists|k: int|
                    0 <= k < ids.len() && is_job_of(
                        m,
                        style,
                        #[trigger] ids[k],
                        #[trigger] pass.jobs[i],
                    )
            &&& forall|k: int|
                0 <= k < ids.len() && !m.requested@.contains(
                    (style.place() as u8, #[trigger] ids[k]),
                ) && m.job_for(style, ids[k]) is Some && (forall|i: int|
                    0 <= i < m.failed@.len() && (#[trigger] m.failed@[i]).0 == (
                        style.place() as u8,
                        ids[k],
                    ) ==> now >= m.failed@[i].1 + 5000) ==> pass.inflight >= 6
                    || pass.jobs.contains(m.job_for(style, ids[k])->0)
            &&& pass.inflight == m.inflight + pass.jobs.len()
            &&& pass.inflight <= 6
        }),
    decreases ids.len(),
{
    if ids.len() > 0 {
        let t = ids.drop_last();
        every_missing_tile_is_asked_for(m, style, t, now);
        lemma_asked_by_view(m, style, t, now);
        let q = m.look_at_all(style, t, now);
        let p = m.look_at_all(style, ids, now);
        let id = ids.last();
        let key: TileKey = (style.place() as u8, id);
        assert forall|i: int| 0 <= i < p.jobs.len() implies exists|k: int|
            0 <= k < ids.len() && is_job_of(m, style, #[trigger] ids[k], #[trigger] p.jobs[i]) by {
            if i < q.jobs.len() {
                assert(p.jobs[i] == q.jobs[i]);
                let k = choose|k: int|
                    0 <= k < t.len() && is_job_of(m, style, #[trigger] t[k], q.jobs[i]);
                assert(ids[k] == t[k]);
            } else {
                assert(is_job_of(m, style, ids[ids.len() - 1], p.jobs[i]));
            }
        }
        assert forall|k: int|
            0 <= k < ids.len() && !m.requested@.contains((style.place() as u8, #[trigger] ids[k]))
                && m.job_for(style, ids[k]) is Some && (forall|i: int|
                0 <= i < m.failed@.len() && (#[trigger] m.failed@[i]).0 == (
                    style.place() as u8,
                    ids[k],
                ) ==> now >= m.failed@[i].1 + 5000) implies p.inflight >= 6 || p.jobs.contains(
            m.job_for(style, ids[k])->0,
        ) by {
            let job = m.job_for(style, ids[k])->0;
            if k < t.len() {
                assert(t[k] == ids[k]);
                if q.jobs.contains(job) {
                    assert(p.jobs[q.jobs.index_of(job)] == job);
                }
            } else {
                assert(!failed_lately(m.failed@, key, now));
                if q.requested.contains(key) {
                    assert(q.jobs.contains(job));
                    assert(p.jobs[q.jobs.index_of(job)] == job);
                } else if q.inflight < 6 {
                    assert(p.jobs.last() == job);
                }
            }
        }
    }
}

/// What a pass counts as asked for was asked for before, or is among its jobs.
proof fn lemma_asked_by_view(m: TileManager, style: BasemapStyle, ids: Seq<TileId>, now: u64)
    ensures
        forall|id: TileId|
            #[trigger] m.look_at_all(style, ids, now).requested.contains((style.place() as u8, id))
                ==> m.requested@.contains((style.place() as u8, id)) || (m.job_for(
                style,
                id,
            ) is Some && m.look_at_all(style, ids, now).jobs.contains(m.job_for(style, id)->0)),
    decreases ids.len(),
{
    if ids.len() > 0 {
        let t = ids.drop_last();
        lemma_asked_by_view(m, style, t, now);
        let q = m.look_at_all(style, t, now);
        let p = m.look_at_all(style, ids, now);
        assert forall|id: TileId|
            #[trigger] p.requested.contains((style.place() as u8, id)) implies m.requested@.contains(
            (style.place() as u8, id),
        ) || (m.job_for(style, id) is Some && p.jobs.contains(m.job_for(style, id)->0)) by {
            let key: TileKey = (style.place() as u8, id);
            let k = p.requested.index_of(key);
            if k < q.requested.len() {
                assert(q.requested[k] == key);
                assert(q.requested.contains(key));
                if !m.requested@.contains(key) {
                    let job = m.job_for(style, id)->0;
                    assert(p.jobs[q.jobs.index_of(job)] == job);
                }
            } else {
                assert(id == ids.last());
                assert(p.jobs.last() == m.job_for(style, id)->0);
            }
        }
    }
}

/// The thumbnails that are in flight.
pub open spec fn in_flight() -> spec_fn(Thumb) -> bool {
    |t: Thumb| t == Thumb::Loading
}

proof fn lemma_loading(thumbs: Seq<Thumb>)
    ensures
        loading(thumbs) == thumbs.filter(in_flight()).len(),
    decreases thumbs.len(),
{
    reveal(Seq::filter);
    if thumbs.len() > 0 {
        lemma_loading(thumbs.drop_last());
    }
}

/// A thumbnail is fetched where it was never asked for, the link is not metered, fewer than four are
/// in flight, and there is somewhere to get it from; never twice, and never over a metered link.
pub proof fn thumbnails_are_fetched_sparingly(m: TileManager, style: BasemapStyle, metered: bool)
    ensures
        m.fetches_thumb(style, metered) <==> (m.thumbs@[style.place()] == Thumb::Unasked && !metered
            && m.thumbs@.filter(in_flight()).len() < 4 && style.url_text(
            6,
            14,
            24,
            false,
            m.mapbox_key@,
            m.maptiler_key@,
            m.custom_template@,
        ) is Some),
{
    lemma_loading(m.thumbs@);
}

/// What is downloaded ahead is found: a pack's tile lies where the live view looks for the latest
/// frame of it, and comes from the same address, wherever plain resolution is shown.
pub proof fn packs_are_found_by_the_view(m: TileManager, style: BasemapStyle, id: TileId)
    requires
        !m.retina || !style.double(),
    ensures
        m.pack_job(style, id) is Some <==> m.latest_job(style, id) is Some,
        m.pack_job(style, id) is Some ==> (m.pack_job(style, id)->0).path == (m.latest_job(
            style,
            id,
        )->0).path && (m.pack_job(style, id)->0).url == (m.latest_job(style, id)->0).url,
{
    retina_has_its_own_directory(style, m.custom_template@);
}

/// A pack holds a job for every tile that has one, in order.
pub proof fn packs_hold_every_tile(
    m: TileManager,
    style: BasemapStyle,
    a: Seq<CoverTile>,
    b: Seq<CoverTile>,
    t: CoverTile,
)
    ensures
        m.pack_of(style, a + b) == m.pack_of(style, a) + m.pack_of(style, b),
        m.pack_of(style, seq![t]) == match m.pack_job(style, t.id) {
            Some(j) => seq![j],
            None => Seq::empty(),
        },
        m.pack_of(style, Seq::empty()) == Seq::<PackText>::empty(),
    decreases b.len(),
{
    let one = seq![t];
    assert(one.drop_last() =~= Seq::<CoverTile>::empty());
    assert(m.pack_of(style, one.drop_last()) =~= Seq::<PackText>::empty());
    assert(m.pack_of(style, one) =~= match m.pack_job(style, t.id) {
        Some(j) => seq![j],
        None => Seq::empty(),
    });
    if b.len() == 0 {
        assert(a + b =~= a);
        assert(m.pack_of(style, a + b) =~= m.pack_of(style, a) + m.pack_of(style, b));
    } else {
        assert((a + b).drop_last() =~= a + b.drop_last());
        packs_hold_every_tile(m, style, a, b.drop_last(), t);
        assert(m.pack_of(style, a + b) =~= m.pack_of(style, a) + m.pack_of(style, b));
    }
}

/// A pack goes as deep as the style is served and no deeper: a level of the request is kept exactly
/// where the style has it.
pub proof fn packs_go_as_deep_as_the_style(
    m: TileManager,
    style: BasemapStyle,
    z_lo: u8,
    levels: Seq<TileBox>,
    i: int,
)
    requires
        0 <= i < levels.len(),
    ensures
        m.served(style, z_lo, levels).len() <= levels.len(),
        i < m.served(style, z_lo, levels).len() <==> z_lo + i <= m.deepest(style),
        i < m.served(style, z_lo, levels).len() ==> m.served(style, z_lo, levels)[i] == levels[i],
{
}

/// The thumbnails that load are counted one by one.
pub proof fn loading_thumbnails_are_counted(a: Seq<Thumb>, b: Seq<Thumb>)
    ensures
        a.len() == 0 ==> loading(a) == 0,
        a.len() == 1 ==> (loading(a) == 1 <==> a[0] == Thumb::Loading),
        loading(a + b) == loading(a) + loading(b),
        loading(b) <= b.len(),
    decreases b.len(),
{
    if a.len() == 1 {
        assert(a.drop_last() =~= Seq::<Thumb>::empty());
        assert(loading(a.drop_last()) == 0);
    }
    if b.len() == 0 {
        assert(a + b =~= a);
    } else {
        assert((a + b).drop_last() =~= a + b.drop_last());
        loading_thumbnails_are_counted(a, b.drop_last());
    }
}

proof fn lemma_job_key(m: TileManager, style: BasemapStyle, id: TileId)
    ensures
        m.job_for(style, id) matches Some(j) ==> j.key == (style.place() as u8, id),
{
}

/// Nothing is asked for that is on its way already, that failed in the last five seconds, or that
/// the same pass has asked for.
pub proof fn nothing_is_asked_for_twice(
    m: TileManager,
    style: BasemapStyle,
    ids: Seq<TileId>,
    now: u64,
)
    ensures
        ({
            let pass = m.look_at_all(style, ids, now);
            &&& forall|i: int|
                0 <= i < pass.jobs.len() ==> !m.requested@.contains((#[trigger] pass.jobs[i]).key)
            &&& forall|i: int, k: int|
                0 <= i < pass.jobs.len() && 0 <= k < m.failed@.len() && (#[trigger] m.failed@[k]).0
                    == (#[trigger] pass.jobs[i]).key ==> now >= m.failed@[k].1 + 5_000
            &&& forall|i: int, j: int|
                0 <= i < j < pass.jobs.len() ==> (#[trigger] pass.jobs[i]).key != (
                #[trigger] pass.jobs[j]).key
            &&& forall|i: int|
                0 <= i < pass.jobs.len() ==> pass.requested.contains((#[trigger] pass.jobs[i]).key)
            &&& forall|k: TileKey|
                m.requested@.contains(k) ==> #[trigger] pass.requested.contains(k)
        }),
    decreases ids.len(),
{
    if ids.len() > 0 {
        let t = ids.drop_last();
        nothing_is_asked_for_twice(m, style, t, now);
        let q = m.look_at_all(style, t, now);
        let p = m.look_at_all(style, ids, now);
        let id = ids.last();
        let key: TileKey = (style.place() as u8, id);
        lemma_job_key(m, style, id);
        let job = m.job_for(style, id);
        lemma_looked(m, style, id, now, q, p, key, job);
    }
}

proof fn lemma_looked(
    m: TileManager,
    style: BasemapStyle,
    id: TileId,
    now: u64,
    q: Pass,
    p: Pass,
    key: TileKey,
    job: Option<JobText>,
)
    requires
        p == m.look_at(style, id, now, q),
        key == (style.place() as u8, id),
        job == m.job_for(style, id),
        job matches Some(j) ==> j.key == key,
        forall|i: int|
            0 <= i < q.jobs.len() ==> !m.requested@.contains((#[trigger] q.jobs[i]).key),
        forall|i: int, k: int|
            0 <= i < q.jobs.len() && 0 <= k < m.failed@.len() && (#[trigger] m.failed@[k]).0 == (
            #[trigger] q.jobs[i]).key ==> now >= m.failed@[k].1 + 5_000,
        forall|i: int, j: int|
            0 <= i < j < q.jobs.len() ==> (#[trigger] q.jobs[i]).key != (#[trigger] q.jobs[j]).key,
        forall|i: int|
            0 <= i < q.jobs.len() ==> q.requested.contains((#[trigger] q.jobs[i]).key),
        forall|k: TileKey| m.requested@.contains(k) ==> #[trigger] q.requested.contains(k),
    ensures
        forall|i: int|
            0 <= i < p.jobs.len() ==> !m.requested@.contains((#[trigger] p.jobs[i]).key),
        forall|i: int, k: int|
            0 <= i < p.jobs.len() && 0 <= k < m.failed@.len() && (#[trigger] m.failed@[k]).0 == (
            #[trigger] p.jobs[i]).key ==> now >= m.failed@[k].1 + 5_000,
        forall|i: int, j: int|
            0 <= i < j < p.jobs.len() ==> (#[trigger] p.jobs[i]).key != (#[trigger] p.jobs[j]).key,
        forall|i: int|
            0 <= i < p.jobs.len() ==> p.requested.contains((#[trigger] p.jobs[i]).key),
        forall|k: TileKey| m.requested@.contains(k) ==> #[trigger] p.requested.contains(k),
{
    if p != q {
        let j = job->0;
        assert(p.jobs == q.jobs.push(j));
        assert(p.requested == q.requested.push(key));
        assert(!q.requested.contains(key));
        assert(!failed_lately(m.failed@, key, now));
        assert(p.requested[q.requested.len() as int] == key);
        assert forall|k: TileKey| q.requested.contains(k) implies #[trigger] p.requested.contains(
            k,
        ) by {
            assert(p.requested[q.requested.index_of(k)] == k);
        }
        assert forall|i: int| 0 <= i < p.jobs.len() implies p.requested.contains(
            (#[trigger] p.jobs[i]).key,
        ) by {
            if i < q.jobs.len() {
                assert(p.jobs[i] == q.jobs[i]);
            }
        }
        assert forall|i: int, k: int| 0 <= i < k < p.jobs.len() implies (#[trigger] p.jobs[i]).key
            != (#[trigger] p.jobs[k]).key by {
            assert(p.jobs[i] == q.jobs[i]);
            assert(q.requested.contains(q.jobs[i].key));
        }
    }
}

} // verus!
