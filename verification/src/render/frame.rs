//! One frame of the map: what becomes of the cached tiles, layers and panes when a frame is
//! staged, and in which order a pane is painted.

use crate::render::fallback::{
    capped, frame_quads, has_children, has_id, has_key, same_id, shift_defined,
    tile_verts, vector_draw_tiles, TileQuad, draws_vector_tiles,
};
use crate::render::{FieldLayer, TileId, TileKey};
use std::collections::HashMap;
use vstd::prelude::*;

verus! {

// ---------------------------------------------------------------------------------------------
// The radar sweep of a pane.

/// A binned sweep to show in a pane: the size of its gate texture, the precipitation-type grid
/// that goes with it, and whether only the color table changed.
#[derive(Debug)]
pub struct RadarUpload {
    pub az_bins: u32,
    pub gate_count: u32,
    /// The grid size that the sweep declares for its precipitation types.
    pub flag_nx: u32,
    pub flag_ny: u32,
    /// Surface precipitation-type classes, one byte per cell. Empty when the tint is off.
    pub precip_flag: Vec<u8>,
    /// Only the color table changed: the retained textures keep their contents.
    pub lut_only: bool,
}

impl RadarUpload {
    /// The declared grid can be counted in 32 bits.
    pub open spec fn countable(self) -> bool {
        self.flag_nx * self.flag_ny <= u32::MAX
    }

    /// The precipitation grid that is bound: the declared one when the bytes match it, else the
    /// single cell that every binding needs.
    pub open spec fn flag_grid(self) -> (u32, u32) {
        if self.precip_flag@.len() == self.flag_nx * self.flag_ny && self.flag_nx > 0 {
            (self.flag_nx, self.flag_ny)
        } else {
            (1u32, 1u32)
        }
    }

    /// The textures that hold this sweep.
    pub open spec fn textures(self) -> RadarTextures {
        RadarTextures { dims: (self.gate_count, self.az_bins), flag_dims: self.flag_grid() }
    }
}

/// The textures retained for a pane's sweep: `(gate_count, az_bins)` and the precipitation grid.
#[derive(Clone, Copy, Debug, PartialEq, Eq)]
pub struct RadarTextures {
    pub dims: (u32, u32),
    pub flag_dims: (u32, u32),
}

/// The precipitation-flag grid size for an upload: the grid it declares when the tint is on and
/// the bytes match it, else the 1×1 dummy every binding needs whether or not it is read.
pub fn flag_dims(r: &RadarUpload) -> (d: (u32, u32))
    requires
        r.countable(),
    ensures
        d == r.flag_grid(),
{
    let (nx, ny) = (r.flag_nx, r.flag_ny);
    if r.precip_flag.len() == (nx * ny) as usize && nx > 0 {
        (nx, ny)
    } else {
        (1, 1)
    }
}

/// The precipitation-flag bytes to write for a grid of `dims`: the dummy grid is a single zero.
pub open spec fn flag_data(flags: Seq<u8>, dims: (u32, u32)) -> Seq<u8> {
    if dims == (1u32, 1u32) && flags.len() != 1 {
        seq![0u8]
    } else {
        flags
    }
}

/// The precipitation-flag bytes to write for `dims`.
pub fn flag_bytes(r: &RadarUpload, dims: (u32, u32)) -> (b: Vec<u8>)
    ensures
        b@ == flag_data(r.precip_flag@, dims),
{
    if dims.0 == 1 && dims.1 == 1 && r.precip_flag.len() != 1 {
        let mut one: Vec<u8> = Vec::new();
        one.push(0);
        assert(one@ =~= seq![0u8]);
        one
    } else {
        let b = r.precip_flag.clone();
        assert(b@ =~= r.precip_flag@);
        b
    }
}

/// The bytes written for an upload fill the grid that is bound for it, whatever was declared.
pub proof fn flag_bytes_fill_the_grid(r: RadarUpload)
    ensures
        flag_data(r.precip_flag@, r.flag_grid()).len() == r.flag_grid().0 * r.flag_grid().1,
{
}

/// What has to be done on the GPU for a radar upload.
#[derive(Clone, Copy, Debug, PartialEq, Eq)]
pub enum RadarStep {
    /// Nothing was uploaded, or a color table came with nothing of its shape to write into.
    Keep,
    /// Write the color table and the uniform into the retained textures.
    Recolor,
    /// Write everything into the retained textures.
    Rewrite,
    /// Make new textures and a new bind group.
    Build(RadarTextures),
}

/// What an upload `r` does in a pane that retains `existing`.
pub open spec fn radar_step(r: RadarUpload, existing: Option<RadarTextures>) -> RadarStep {
    if existing == Some(r.textures()) {
        if r.lut_only {
            RadarStep::Recolor
        } else {
            RadarStep::Rewrite
        }
    } else if r.lut_only {
        RadarStep::Keep
    } else {
        RadarStep::Build(r.textures())
    }
}

/// The textures retained after the step.
pub open spec fn radar_after(step: RadarStep, existing: Option<RadarTextures>) -> Option<
    RadarTextures,
> {
    match step {
        RadarStep::Build(t) => Some(t),
        _ => existing,
    }
}

/// How to show one sweep in a pane, reusing `existing` when it is the same shape.
///
/// Dimensions are the only thing a bind group depends on, so textures of the same shape are
/// written into and nothing else can go stale. A color-table upload with nothing to write into
/// leaves the pane's radar alone.
pub fn build_radar(r: &RadarUpload, existing: Option<RadarTextures>) -> (step: RadarStep)
    requires
        r.countable(),
    ensures
        step == radar_step(*r, existing),
{
    let flag = flag_dims(r);
    let fits = match existing {
        Some(g) => {
            g.dims.0 == r.gate_count && g.dims.1 == r.az_bins && g.flag_dims.0 == flag.0
                && g.flag_dims.1 == flag.1
        },
        None => false,
    };
    assert(fits == (existing == Some(r.textures())));
    if fits {
        if r.lut_only {
            RadarStep::Recolor
        } else {
            RadarStep::Rewrite
        }
    } else if r.lut_only {
        RadarStep::Keep
    } else {
        RadarStep::Build(RadarTextures { dims: (r.gate_count, r.az_bins), flag_dims: flag })
    }
}

/// Showing the same sweep shape twice builds textures at most once.
pub proof fn same_shape_builds_once(r: RadarUpload, again: RadarUpload, existing: Option<
    RadarTextures,
>)
    requires
        !r.lut_only,
        again.textures() == r.textures(),
    ensures
        radar_step(again, radar_after(radar_step(r, existing), existing)) == RadarStep::Recolor
            || radar_step(again, radar_after(radar_step(r, existing), existing))
            == RadarStep::Rewrite,
{
}

// ---------------------------------------------------------------------------------------------
// Staging a frame.

/// Per-frame draw instructions, as far as they decide what is cached and what is drawn.
#[derive(Debug)]
pub struct MapCallback {
    /// Which pane this frame draws.
    pub pane: u32,
    /// The bits of the camera's center and scale.
    pub camera_center: (u32, u32),
    pub camera_scale: (u32, u32),
    pub new_tiles: Vec<TileKey>,
    pub visible: Vec<TileId>,
    /// Which basemap style this pane draws.
    pub basemap_key: u8,
    /// Draw the vector basemap *after* the raster tiles instead of under them: the hybrid
    /// satellite style, where the vector geometry is roads over imagery.
    pub vector_over_raster: bool,
    pub radar_upload: Option<RadarUpload>,
    pub draw_radar: bool,
    /// Whether new observed-gate geometry comes with this frame.
    pub observed_upload: bool,
    pub draw_observed: bool,
    /// `Some` only when the overlay geometry changed: how many indices it has.
    pub overlay_upload: Option<usize>,
    pub draw_overlay: bool,
    /// Drop all cached tiles before uploading (basemap style changed).
    pub clear_tiles: bool,
    /// Individual tiles the tile manager evicted. Eviction is decided there, not here, so both
    /// sides agree on what is resident.
    pub drop_tiles: Vec<TileKey>,
    /// Field layers whose grid changed this frame; others reuse the last upload.
    pub field_uploads: Vec<FieldLayer>,
    /// Which field layers to paint this frame.
    pub field_draws: Vec<FieldLayer>,
    /// Field layers the app has stopped drawing for long enough to free.
    pub drop_fields: Vec<FieldLayer>,
    /// Newly tessellated vector basemap tiles, each with how many indices it has.
    pub new_vector_tiles: Vec<(TileId, usize)>,
    /// Vector tile ids to draw this frame.
    pub visible_vector: Vec<TileId>,
    /// Drop all cached vector tiles before uploading (style or tessellation zoom changed).
    pub clear_vector: bool,
    /// Individual vector tiles the manager evicted; freed before this frame's uploads.
    pub drop_vector_tiles: Vec<TileId>,
    /// Whether a wind field comes with this frame.
    pub wind_upload: bool,
    /// Whether the wind particles are advanced and drawn with this frame.
    pub wind: bool,
}

/// What a pane's tile quads were built from: tile-cache generation, basemap, camera and visible
/// count. Unchanged means the quads are still the right ones, so a still map uploads nothing.
#[derive(Clone, Copy, Debug, PartialEq, Eq, Structural)]
pub struct QuadsKey {
    pub generation: u64,
    pub basemap: u8,
    pub center_x: u32,
    pub center_y: u32,
    pub scale_x: u32,
    pub scale_y: u32,
    pub visible: usize,
}

/// What one pane holds and draws.
#[derive(Debug)]
pub struct PaneState {
    pub radar: Option<RadarTextures>,
    pub observed: bool,
    /// The textures this frame's quads draw, in quad order. Not the same as the visible list: a
    /// missing tile is stood in for by resident children or an ancestor.
    pub frame_visible: Vec<TileKey>,
    pub quads_key: Option<QuadsKey>,
    pub frame_visible_vector: Vec<TileId>,
    pub vector_over_raster: bool,
    pub frame_draw_radar: bool,
    pub frame_draw_observed: bool,
    pub frame_draw_overlay: bool,
    /// Field layers this pane draws. Per pane, not shared: two panes are how you look at two
    /// fields at once.
    pub field_draws: Vec<FieldLayer>,
}

impl PaneState {
    /// A pane that holds and draws nothing.
    pub open spec fn is_blank(self) -> bool {
        &&& self.radar is None
        &&& !self.observed
        &&& self.frame_visible@.len() == 0
        &&& self.quads_key is None
        &&& self.frame_visible_vector@.len() == 0
        &&& !self.vector_over_raster
        &&& !self.frame_draw_radar
        &&& !self.frame_draw_observed
        &&& !self.frame_draw_overlay
        &&& self.field_draws@.len() == 0
    }

    pub fn new() -> (p: PaneState)
        ensures
            p.is_blank(),
    {
        PaneState {
            radar: None,
            observed: false,
            frame_visible: Vec::new(),
            quads_key: None,
            frame_visible_vector: Vec::new(),
            vector_over_raster: false,
            frame_draw_radar: false,
            frame_draw_observed: false,
            frame_draw_overlay: false,
            field_draws: Vec::new(),
        }
    }
}

/// What is cached for drawing, shared across panes, and the state of each pane.
#[derive(Debug)]
pub struct RenderResources {
    pub tiles: Vec<TileKey>,
    pub vector_tiles: Vec<TileId>,
    pub overlay: bool,
    pub fields: Vec<FieldLayer>,
    pub panes: HashMap<u32, PaneState>,
    /// Bumped whenever the shared tile cache gains or loses a texture, so a pane can tell that its
    /// quad list is still current.
    pub tiles_gen: u64,
    /// Wind particles are there, built on first use.
    pub wind: bool,
}

/// What is done about the wind particles for a frame: build their layer, give it the field that
/// came, and advance them, in this order.
#[derive(Clone, Copy, Debug, PartialEq, Eq, Structural)]
pub struct WindStep {
    pub build: bool,
    pub upload: bool,
    pub advance: bool,
}

/// What has to be sent to the GPU for a frame, beyond the uploads that came with it.
#[derive(Debug)]
pub struct FramePlan {
    pub radar: RadarStep,
    /// New tile quads for the pane, or `None` where those it has are still right. Each comes with
    /// the place in `visible` of the tile whose ground it covers.
    pub quads: Option<Vec<(usize, TileQuad)>>,
}

// ---- small sets kept in lists -------------------------------------------------------------

fn insert_key(keys: &mut Vec<TileKey>, key: TileKey)
    ensures
        forall|k: TileKey|
            #[trigger] final(keys)@.contains(k) <==> old(keys)@.contains(k) || k == key,
{
    let ghost before = keys@;
    if !has_key(keys.as_slice(), key) {
        keys.push(key);
        assert(keys@ == before.push(key));
        assert forall|k: TileKey| #[trigger] keys@.contains(k) <==> before.contains(k) || k
            == key by {
            if before.contains(k) {
                assert(keys@[before.index_of(k)] == k);
            }
            assert(keys@[before.len() as int] == key);
        }
    }
}

fn remove_keys(keys: &mut Vec<TileKey>, gone: &Vec<TileKey>)
    ensures
        forall|k: TileKey|
            #[trigger] final(keys)@.contains(k) <==> old(keys)@.contains(k) && !gone@.contains(k),
{
    let mut kept: Vec<TileKey> = Vec::new();
    let mut i: usize = 0;
    while i < keys.len()
        invariant
            i <= keys.len(),
            forall|k: TileKey|
                #[trigger] kept@.contains(k) <==> keys@.take(i as int).contains(k)
                    && !gone@.contains(k),
        decreases keys.len() - i,
    {
        let key = keys[i];
        let ghost before = kept@;
        let ghost seen = keys@.take(i as int);
        if !has_key(gone.as_slice(), key) {
            kept.push(key);
        }
        proof {
            assert(keys@.take(i + 1) =~= seen.push(key));
            assert forall|k: TileKey| #[trigger] kept@.contains(k) <==> keys@.take(i + 1).contains(
                k,
            ) && !gone@.contains(k) by {
                lemma_push_contains(seen, key, k);
                lemma_push_contains(before, key, k);
            }
        }
        i = i + 1;
    }
    assert(keys@.take(keys.len() as int) =~= keys@);
    *keys = kept;
}

proof fn lemma_push_contains<A>(s: Seq<A>, x: A, y: A)
    ensures
        s.push(x).contains(y) <==> s.contains(y) || x == y,
{
    if s.contains(y) {
        assert(s.push(x)[s.index_of(y)] == y);
    }
    assert(s.push(x)[s.len() as int] == x);
}

fn insert_id(ids: &mut Vec<TileId>, id: TileId)
    ensures
        forall|t: TileId|
            #[trigger] final(ids)@.contains(t) <==> old(ids)@.contains(t) || t == id,
{
    let ghost before = ids@;
    if !has_id(ids.as_slice(), id) {
        ids.push(id);
        assert forall|t: TileId| #[trigger] ids@.contains(t) <==> before.contains(t) || t == id by {
            lemma_push_contains(before, id, t);
        }
    }
}

fn remove_id(ids: &mut Vec<TileId>, id: TileId)
    ensures
        forall|t: TileId|
            #[trigger] final(ids)@.contains(t) <==> old(ids)@.contains(t) && t != id,
{
    let mut kept: Vec<TileId> = Vec::new();
    let mut i: usize = 0;
    while i < ids.len()
        invariant
            i <= ids.len(),
            forall|t: TileId|
                #[trigger] kept@.contains(t) <==> ids@.take(i as int).contains(t) && t != id,
        decreases ids.len() - i,
    {
        let ghost before = kept@;
        let ghost seen = ids@.take(i as int);
        let next = ids[i];
        if !same_id(next, id) {
            kept.push(next);
        }
        proof {
            assert(ids@.take(i + 1) =~= seen.push(next));
            assert forall|t: TileId| #[trigger] kept@.contains(t) <==> ids@.take(i + 1).contains(t)
                && t != id by {
                lemma_push_contains(seen, next, t);
                lemma_push_contains(before, next, t);
            }
        }
        i = i + 1;
    }
    assert(ids@.take(ids.len() as int) =~= ids@);
    *ids = kept;
}

fn has_field(fields: &Vec<FieldLayer>, f: FieldLayer) -> (r: bool)
    ensures
        r == fields@.contains(f),
{
    let mut i: usize = 0;
    while i < fields.len()
        invariant
            i <= fields.len(),
            forall|j: int| 0 <= j < i ==> fields@[j] != f,
        decreases fields.len() - i,
    {
        if fields[i] == f {
            assert(fields@[i as int] == f);
            return true;
        }
        i = i + 1;
    }
    false
}

fn insert_field(fields: &mut Vec<FieldLayer>, f: FieldLayer)
    ensures
        forall|g: FieldLayer|
            #[trigger] final(fields)@.contains(g) <==> old(fields)@.contains(g) || g == f,
{
    let ghost before = fields@;
    if !has_field(fields, f) {
        fields.push(f);
        assert forall|g: FieldLayer|
            #[trigger] fields@.contains(g) <==> before.contains(g) || g == f by {
            lemma_push_contains(before, f, g);
        }
    }
}

fn remove_fields(fields: &mut Vec<FieldLayer>, gone: &Vec<FieldLayer>)
    ensures
        forall|g: FieldLayer|
            #[trigger] final(fields)@.contains(g) <==> old(fields)@.contains(g) && !gone@.contains(
                g,
            ),
{
    let mut kept: Vec<FieldLayer> = Vec::new();
    let mut i: usize = 0;
    while i < fields.len()
        invariant
            i <= fields.len(),
            forall|g: FieldLayer|
                #[trigger] kept@.contains(g) <==> fields@.take(i as int).contains(g)
                    && !gone@.contains(g),
        decreases fields.len() - i,
    {
        let f = fields[i];
        let ghost before = kept@;
        let ghost seen = fields@.take(i as int);
        if !has_field(gone, f) {
            kept.push(f);
        }
        proof {
            assert(fields@.take(i + 1) =~= seen.push(f));
            assert forall|g: FieldLayer| #[trigger] kept@.contains(g) <==> fields@.take(
                i + 1,
            ).contains(g) && !gone@.contains(g) by {
                lemma_push_contains(seen, f, g);
                lemma_push_contains(before, f, g);
            }
        }
        i = i + 1;
    }
    assert(fields@.take(fields.len() as int) =~= fields@);
    *fields = kept;
}

// ---- what a frame changes -----------------------------------------------------------------

/// Whether the raster tile `k` is cached after the frame.
pub open spec fn tile_after(had: bool, cb: MapCallback, k: TileKey) -> bool {
    ((had && !cb.clear_tiles) || cb.new_tiles@.contains(k)) && !cb.drop_tiles@.contains(k)
}

/// Whether the vector tile `id` is cached after the uploads `news`: the last of them that is for
/// `id` decides, and one without geometry frees it.
pub open spec fn vector_after_uploads(had: bool, news: Seq<(TileId, usize)>, id: TileId) -> bool
    decreases news.len(),
{
    if news.len() == 0 {
        had
    } else if news.last().0 == id {
        news.last().1 > 0
    } else {
        vector_after_uploads(had, news.drop_last(), id)
    }
}

/// Whether the vector tile `id` is cached after the frame.
pub open spec fn vector_after(had: bool, cb: MapCallback, id: TileId) -> bool {
    vector_after_uploads(
        had && !cb.clear_vector && !cb.drop_vector_tiles@.contains(id),
        cb.new_vector_tiles@,
        id,
    )
}

/// Whether the field layer `f` is cached after the frame.
pub open spec fn field_after(had: bool, cb: MapCallback, f: FieldLayer) -> bool {
    (had && !cb.drop_fields@.contains(f)) || cb.field_uploads@.contains(f)
}

/// Whether an overlay is there after the frame.
pub open spec fn overlay_after(had: bool, cb: MapCallback) -> bool {
    match cb.overlay_upload {
        Some(n) => n > 0,
        None => had,
    }
}

/// The tile-cache generation after the frame.
pub open spec fn generation_after(generation: u64, cb: MapCallback) -> u64 {
    if cb.clear_tiles || cb.new_tiles@.len() > 0 || cb.drop_tiles@.len() > 0 {
        if generation == u64::MAX {
            0
        } else {
            (generation + 1) as u64
        }
    } else {
        generation
    }
}

/// What the pane's tile quads are built from this frame.
pub open spec fn quads_key_of(generation: u64, cb: MapCallback) -> QuadsKey {
    QuadsKey {
        generation,
        basemap: cb.basemap_key,
        center_x: cb.camera_center.0,
        center_y: cb.camera_center.1,
        scale_x: cb.camera_scale.0,
        scale_y: cb.camera_scale.1,
        visible: cb.visible@.len() as usize,
    }
}

/// The requested layers that are cached, in the order they were asked for.
pub open spec fn drawable(fields: Seq<FieldLayer>, asked: Seq<FieldLayer>) -> Seq<FieldLayer>
    decreases asked.len(),
{
    if asked.len() == 0 {
        Seq::empty()
    } else if fields.contains(asked.last()) {
        drawable(fields, asked.drop_last()).push(asked.last())
    } else {
        drawable(fields, asked.drop_last())
    }
}

/// The textures of a list of quads.
pub open spec fn quad_keys(quads: Seq<(usize, TileQuad)>) -> Seq<TileKey> {
    quads.map_values(|q: (usize, TileQuad)| q.1.key)
}

impl RenderResources {
    /// Nothing is cached and no pane is there.
    pub fn new() -> (r: RenderResources)
        ensures
            r.tiles@.len() == 0,
            r.vector_tiles@.len() == 0,
            !r.overlay,
            r.fields@.len() == 0,
            r.panes@ == Map::<u32, PaneState>::empty(),
            r.tiles_gen == 0,
            !r.wind,
    {
        broadcast use vstd::std_specs::hash::group_hash_axioms;

        RenderResources {
            tiles: Vec::new(),
            vector_tiles: Vec::new(),
            overlay: false,
            fields: Vec::new(),
            panes: HashMap::new(),
            tiles_gen: 0,
            wind: false,
        }
    }

    /// The caches after staging `cb`.
    pub open spec fn caches_follow(self, was: RenderResources, cb: MapCallback) -> bool {
        &&& forall|k: TileKey|
            #[trigger] self.tiles@.contains(k) <==> tile_after(was.tiles@.contains(k), cb, k)
        &&& forall|id: TileId|
            #[trigger] self.vector_tiles@.contains(id) <==> vector_after(
                was.vector_tiles@.contains(id),
                cb,
                id,
            )
        &&& forall|f: FieldLayer|
            #[trigger] self.fields@.contains(f) <==> field_after(was.fields@.contains(f), cb, f)
        &&& self.overlay == overlay_after(was.overlay, cb)
        &&& self.tiles_gen == generation_after(was.tiles_gen, cb)
        &&& self.wind == was.wind
    }

    /// The pane `p` after staging `cb` over the pane `was`, with the plan `plan`.
    pub open spec fn pane_follows(
        self,
        was: PaneState,
        cb: MapCallback,
        p: PaneState,
        plan: FramePlan,
    ) -> bool {
        let key = quads_key_of(self.tiles_gen, cb);
        &&& plan.radar == match cb.radar_upload {
            Some(r) => radar_step(r, was.radar),
            None => RadarStep::Keep,
        }
        &&& p.radar == radar_after(plan.radar, was.radar)
        &&& p.observed == (was.observed || cb.observed_upload)
        &&& match plan.quads {
            Some(quads) => {
                &&& was.quads_key != Some(key)
                &&& quads@ == capped(
                    frame_quads(self.tiles@, cb.basemap_key, cb.visible@, cb.visible@.len()),
                )
                &&& p.frame_visible@ == quad_keys(quads@)
                &&& p.quads_key == Some(key)
            },
            None => {
                &&& was.quads_key == Some(key)
                &&& p.quads_key == was.quads_key
                &&& p.frame_visible@ == was.frame_visible@
            },
        }
        &&& draws_vector_tiles(
            cb.visible_vector@,
            self.vector_tiles@,
            p.frame_visible_vector@,
        )
        &&& p.vector_over_raster == cb.vector_over_raster
        &&& p.frame_draw_radar == (cb.draw_radar && p.radar is Some)
        &&& p.frame_draw_observed == (cb.draw_observed && p.observed)
        &&& p.frame_draw_overlay == (cb.draw_overlay && self.overlay)
        &&& p.field_draws@ == drawable(self.fields@, cb.field_draws@)
    }

    /// All that staging `cb` changes: the shared caches, and the one pane that it is for.
    pub open spec fn staged(self, was: RenderResources, cb: MapCallback, plan: FramePlan) -> bool {
        &&& self.caches_follow(was, cb)
        &&& self.panes@.dom() == was.panes@.dom().insert(cb.pane)
        &&& forall|id: u32|
            id != cb.pane && was.panes@.contains_key(id) ==> #[trigger] self.panes@[id]
                == was.panes@[id]
        &&& exists|pane_was: PaneState|
            {
                &&& if was.panes@.contains_key(cb.pane) {
                    pane_was == was.panes@[cb.pane]
                } else {
                    pane_was.is_blank()
                }
                &&& #[trigger] self.pane_follows(pane_was, cb, self.panes@[cb.pane], plan)
            }
    }

    /// The tiles of the frame lie where their neighbours in the pyramid can be numbered.
    pub open spec fn can_stage(self, cb: MapCallback) -> bool {
        &&& cb.radar_upload is Some ==> cb.radar_upload->0.countable()
        &&& forall|i: int|
            0 <= i < cb.visible@.len() ==> tile_after(
                self.tiles@.contains((cb.basemap_key, #[trigger] cb.visible@[i])),
                cb,
                (cb.basemap_key, cb.visible@[i]),
            ) || has_children(cb.visible@[i])
        &&& forall|i: int, t: TileId|
            0 <= i < cb.visible_vector@.len() && #[trigger] vector_after(
                self.vector_tiles@.contains(t),
                cb,
                t,
            ) && !vector_after(
                self.vector_tiles@.contains(cb.visible_vector@[i]),
                cb,
                cb.visible_vector@[i],
            ) ==> shift_defined(t, #[trigger] cb.visible_vector@[i])
    }

    /// Update the caches that all panes share.
    fn update_caches(&mut self, cb: &MapCallback)
        ensures
            final(self).caches_follow(*old(self), *cb),
            final(self).panes@ == old(self).panes@,
    {
        if cb.clear_tiles {
            self.tiles.clear();
        }
        if cb.clear_vector {
            self.vector_tiles.clear();
        }
        let ghost vector0 = self.vector_tiles@;
        let mut i: usize = 0;
        while i < cb.drop_vector_tiles.len()
            invariant
                i <= cb.drop_vector_tiles.len(),
                self.tiles@ == if cb.clear_tiles {
                    Seq::<TileKey>::empty()
                } else {
                    old(self).tiles@
                },
                self.overlay == old(self).overlay,
                self.fields == old(self).fields,
                self.panes == old(self).panes,
                self.tiles_gen == old(self).tiles_gen,
                self.wind == old(self).wind,
                forall|t: TileId|
                    #[trigger] self.vector_tiles@.contains(t) <==> vector0.contains(t)
                        && !cb.drop_vector_tiles@.take(i as int).contains(t),
            decreases cb.drop_vector_tiles.len() - i,
        {
            let ghost seen = cb.drop_vector_tiles@.take(i as int);
            remove_id(&mut self.vector_tiles, cb.drop_vector_tiles[i]);
            proof {
                assert(cb.drop_vector_tiles@.take(i + 1) =~= seen.push(
                    cb.drop_vector_tiles@[i as int],
                ));
                assert forall|t: TileId|
                    #[trigger] self.vector_tiles@.contains(t) <==> vector0.contains(t)
                        && !cb.drop_vector_tiles@.take(i + 1).contains(t) by {
                    lemma_push_contains(seen, cb.drop_vector_tiles@[i as int], t);
                }
            }
            i = i + 1;
        }
        let ghost vector1 = self.vector_tiles@;
        assert(cb.drop_vector_tiles@.take(cb.drop_vector_tiles.len() as int)
            =~= cb.drop_vector_tiles@);
        let mut i: usize = 0;
        while i < cb.new_vector_tiles.len()
            invariant
                i <= cb.new_vector_tiles.len(),
                self.tiles@ == if cb.clear_tiles {
                    Seq::<TileKey>::empty()
                } else {
                    old(self).tiles@
                },
                self.overlay == old(self).overlay,
                self.fields == old(self).fields,
                self.panes == old(self).panes,
                self.tiles_gen == old(self).tiles_gen,
                self.wind == old(self).wind,
                forall|t: TileId|
                    #[trigger] self.vector_tiles@.contains(t) <==> vector_after_uploads(
                        vector1.contains(t),
                        cb.new_vector_tiles@.take(i as int),
                        t,
                    ),
            decreases cb.new_vector_tiles.len() - i,
        {
            let (id, indices) = cb.new_vector_tiles[i];
            let ghost seen = cb.new_vector_tiles@.take(i as int);
            if indices == 0 {
                remove_id(&mut self.vector_tiles, id);
            } else {
                insert_id(&mut self.vector_tiles, id);
            }
            proof {
                let next = cb.new_vector_tiles@.take(i + 1);
                assert(next =~= seen.push(cb.new_vector_tiles@[i as int]));
                assert(next.drop_last() =~= seen);
                assert(next.last() == (id, indices));
            }
            i = i + 1;
        }
        assert(cb.new_vector_tiles@.take(cb.new_vector_tiles.len() as int)
            =~= cb.new_vector_tiles@);
        let ghost vector2 = self.vector_tiles@;
        let ghost tiles0 = self.tiles@;
        let mut i: usize = 0;
        while i < cb.new_tiles.len()
            invariant
                i <= cb.new_tiles.len(),
                self.vector_tiles@ == vector2,
                self.overlay == old(self).overlay,
                self.fields == old(self).fields,
                self.panes == old(self).panes,
                self.tiles_gen == old(self).tiles_gen,
                self.wind == old(self).wind,
                forall|k: TileKey|
                    #[trigger] self.tiles@.contains(k) <==> tiles0.contains(k)
                        || cb.new_tiles@.take(i as int).contains(k),
            decreases cb.new_tiles.len() - i,
        {
            let ghost seen = cb.new_tiles@.take(i as int);
            insert_key(&mut self.tiles, cb.new_tiles[i]);
            proof {
                assert(cb.new_tiles@.take(i + 1) =~= seen.push(cb.new_tiles@[i as int]));
                assert forall|k: TileKey| #[trigger] self.tiles@.contains(k) <==> tiles0.contains(k)
                    || cb.new_tiles@.take(i + 1).contains(k) by {
                    lemma_push_contains(seen, cb.new_tiles@[i as int], k);
                }
            }
            i = i + 1;
        }
        assert(cb.new_tiles@.take(cb.new_tiles.len() as int) =~= cb.new_tiles@);
        if let Some(indices) = cb.overlay_upload {
            self.overlay = indices > 0;
        }
        remove_keys(&mut self.tiles, &cb.drop_tiles);
        if cb.clear_tiles || cb.new_tiles.len() > 0 || cb.drop_tiles.len() > 0 {
            self.tiles_gen = self.tiles_gen.wrapping_add(1);
        }
        remove_fields(&mut self.fields, &cb.drop_fields);
        let ghost fields0 = self.fields@;
        let ghost this = *self;
        let mut i: usize = 0;
        while i < cb.field_uploads.len()
            invariant
                i <= cb.field_uploads.len(),
                self.tiles == this.tiles,
                self.vector_tiles == this.vector_tiles,
                self.overlay == this.overlay,
                self.panes == this.panes,
                self.tiles_gen == this.tiles_gen,
                self.wind == this.wind,
                forall|f: FieldLayer|
                    #[trigger] self.fields@.contains(f) <==> fields0.contains(f)
                        || cb.field_uploads@.take(i as int).contains(f),
            decreases cb.field_uploads.len() - i,
        {
            let ghost seen = cb.field_uploads@.take(i as int);
            insert_field(&mut self.fields, cb.field_uploads[i]);
            proof {
                assert(cb.field_uploads@.take(i + 1) =~= seen.push(cb.field_uploads@[i as int]));
                assert forall|f: FieldLayer|
                    #[trigger] self.fields@.contains(f) <==> fields0.contains(f)
                        || cb.field_uploads@.take(i + 1).contains(f) by {
                    lemma_push_contains(seen, cb.field_uploads@[i as int], f);
                }
            }
            i = i + 1;
        }
        assert(cb.field_uploads@.take(cb.field_uploads.len() as int) =~= cb.field_uploads@);
    }

    /// Draw only the requested layers that are actually cached.
    fn drawable_fields(&self, asked: &Vec<FieldLayer>) -> (r: Vec<FieldLayer>)
        ensures
            r@ == drawable(self.fields@, asked@),
    {
        let mut out: Vec<FieldLayer> = Vec::new();
        let mut i: usize = 0;
        while i < asked.len()
            invariant
                i <= asked.len(),
                out@ == drawable(self.fields@, asked@.take(i as int)),
            decreases asked.len() - i,
        {
            proof {
                let next = asked@.take(i + 1);
                assert(next.drop_last() =~= asked@.take(i as int));
                assert(next.last() == asked@[i as int]);
            }
            if has_field(&self.fields, asked[i]) {
                out.push(asked[i]);
            }
            i = i + 1;
        }
        assert(asked@.take(asked.len() as int) =~= asked@);
        out
    }

    /// Stage one pane's frame: update the caches that all panes share, then the pane itself.
    fn upload_frame(&mut self, cb: &MapCallback) -> (plan: FramePlan)
        requires
            old(self).can_stage(*cb),
        ensures
            final(self).staged(*old(self), *cb, plan),
    {
        broadcast use vstd::std_specs::hash::group_hash_axioms;

        self.update_caches(cb);
        assert forall|i: int, j: int|
            0 <= i < cb.visible_vector@.len() && 0 <= j < self.vector_tiles@.len()
                && !self.vector_tiles@.contains(cb.visible_vector@[i]) implies shift_defined(
            #[trigger] self.vector_tiles@[j],
            #[trigger] cb.visible_vector@[i],
        ) by {
            let t = self.vector_tiles@[j];
            assert(self.vector_tiles@.contains(t));
            assert(vector_after(old(self).vector_tiles@.contains(t), *cb, t));
        }
        let field_draws = self.drawable_fields(&cb.field_draws);
        let was = match self.panes.remove(&cb.pane) {
            Some(p) => p,
            None => PaneState::new(),
        };
        let ghost pane_was = was;
        let step = match &cb.radar_upload {
            Some(r) => build_radar(r, was.radar),
            None => RadarStep::Keep,
        };
        let radar = match step {
            RadarStep::Build(t) => Some(t),
            _ => was.radar,
        };
        let key = QuadsKey {
            generation: self.tiles_gen,
            basemap: cb.basemap_key,
            center_x: cb.camera_center.0,
            center_y: cb.camera_center.1,
            scale_x: cb.camera_scale.0,
            scale_y: cb.camera_scale.1,
            visible: cb.visible.len(),
        };
        let current = match was.quads_key {
            Some(k) => k == key,
            None => false,
        };
        let quads = if current {
            None
        } else {
            Some(tile_verts(self.tiles.as_slice(), cb.basemap_key, cb.visible.as_slice()))
        };
        let frame_visible_vector = vector_draw_tiles(
            cb.visible_vector.as_slice(),
            self.vector_tiles.as_slice(),
        );
        let observed = was.observed || cb.observed_upload;
        let frame_draw_radar = cb.draw_radar && radar.is_some();
        let frame_visible = match &quads {
            Some(q) => keys_of_quads(q),
            None => was.frame_visible,
        };
        let quads_key = match &quads {
            Some(_) => Some(key),
            None => was.quads_key,
        };
        let pane = PaneState {
            radar,
            observed,
            frame_visible,
            quads_key,
            frame_visible_vector,
            vector_over_raster: cb.vector_over_raster,
            frame_draw_radar,
            frame_draw_observed: cb.draw_observed && observed,
            frame_draw_overlay: cb.draw_overlay && self.overlay,
            field_draws,
        };
        let ghost pane_is = pane;
        self.panes.insert(cb.pane, pane);
        let plan = FramePlan { radar: step, quads };
        assert(self.pane_follows(pane_was, *cb, self.panes@[cb.pane], plan));
        assert(self.panes@.dom() =~= old(self).panes@.dom().insert(cb.pane));
        plan
    }

    /// Advance the wind particles, building the layer on first use. Separate from staging: the
    /// advection is a render pass of its own, which a frame without a window does not have.
    pub fn step_wind(&mut self, cb: &MapCallback) -> (step: WindStep)
        ensures
            *final(self) == (RenderResources {
                wind: old(self).wind || cb.wind_upload || cb.wind,
                ..*old(self)
            }),
            step == (WindStep {
                build: !old(self).wind && (cb.wind_upload || cb.wind),
                upload: cb.wind_upload,
                advance: cb.wind,
            }),
    {
        let asked = cb.wind_upload || cb.wind;
        let build = asked && !self.wind;
        if asked {
            self.wind = true;
        }
        WindStep { build, upload: cb.wind_upload, advance: cb.wind }
    }

    /// Stage a pane's frame. Other panes keep what they hold.
    pub fn prepare_pane(&mut self, cb: &MapCallback) -> (plan: FramePlan)
        requires
            old(self).can_stage(*cb),
        ensures
            final(self).staged(*old(self), *cb, plan),
    {
        self.upload_frame(cb)
    }
}

/// A map that stands still uploads nothing: a frame of a pane that brings no tiles, under the same
/// camera and basemap and with as many tiles in view, keeps the quads of the frame before it.
pub proof fn a_still_map_uploads_nothing(
    start: RenderResources,
    first: RenderResources,
    second: RenderResources,
    a: MapCallback,
    b: MapCallback,
    plan_a: FramePlan,
    plan_b: FramePlan,
)
    requires
        first.staged(start, a, plan_a),
        second.staged(first, b, plan_b),
        b.pane == a.pane,
        b.camera_center == a.camera_center,
        b.camera_scale == a.camera_scale,
        b.basemap_key == a.basemap_key,
        b.visible@.len() == a.visible@.len(),
        !b.clear_tiles,
        b.new_tiles@.len() == 0,
        b.drop_tiles@.len() == 0,
        b.radar_upload is None,
    ensures
        plan_b.quads is None,
        plan_b.radar == RadarStep::Keep,
        second.panes@[b.pane].frame_visible@ == first.panes@[b.pane].frame_visible@,
        second.panes@[b.pane].radar == first.panes@[b.pane].radar,
{
    let was = choose|was: PaneState|
        {
            &&& if start.panes@.contains_key(a.pane) {
                was == start.panes@[a.pane]
            } else {
                was.is_blank()
            }
            &&& #[trigger] first.pane_follows(was, a, first.panes@[a.pane], plan_a)
        };
    assert(first.pane_follows(was, a, first.panes@[a.pane], plan_a));
    assert(first.panes@.dom().contains(a.pane));
    assert(first.panes@[a.pane].quads_key == Some(quads_key_of(first.tiles_gen, a)));
}

fn keys_of_quads(quads: &Vec<(usize, TileQuad)>) -> (r: Vec<TileKey>)
    ensures
        r@ == quad_keys(quads@),
{
    let mut out: Vec<TileKey> = Vec::new();
    let mut i: usize = 0;
    while i < quads.len()
        invariant
            i <= quads.len(),
            out@ == quad_keys(quads@.take(i as int)),
        decreases quads.len() - i,
    {
        out.push(quads[i].1.key);
        assert(out@ =~= quad_keys(quads@.take(i + 1)));
        i = i + 1;
    }
    assert(quads@.take(quads.len() as int) =~= quads@);
    out
}

// ---------------------------------------------------------------------------------------------
// What a staged frame means.

/// A frame's raster tiles: what it brings is cached unless it is dropped with the same frame, what
/// it drops is not, and everything else is cached as before, or not at all where all was cleared.
pub proof fn raster_tiles_follow_the_frame(
    after: RenderResources,
    was: RenderResources,
    cb: MapCallback,
    k: TileKey,
)
    requires
        after.caches_follow(was, cb),
    ensures
        cb.drop_tiles@.contains(k) ==> !after.tiles@.contains(k),
        cb.new_tiles@.contains(k) && !cb.drop_tiles@.contains(k) ==> after.tiles@.contains(k),
        !cb.new_tiles@.contains(k) && !cb.drop_tiles@.contains(k) && !cb.clear_tiles ==> (
        after.tiles@.contains(k) <==> was.tiles@.contains(k)),
        !cb.new_tiles@.contains(k) && cb.clear_tiles ==> !after.tiles@.contains(k),
        after.tiles_gen != was.tiles_gen <==> cb.clear_tiles || cb.new_tiles@.len() > 0
            || cb.drop_tiles@.len() > 0,
{
}

/// A frame's vector tiles: the last upload of a tile decides, and one without geometry frees it; a
/// tile that is not uploaded stays unless it is dropped or all are.
pub proof fn vector_tiles_follow_the_frame(
    after: RenderResources,
    was: RenderResources,
    cb: MapCallback,
    id: TileId,
    i: int,
)
    requires
        after.caches_follow(was, cb),
    ensures
        0 <= i < cb.new_vector_tiles@.len() && cb.new_vector_tiles@[i].0 == id && (forall|j: int|
            i < j < cb.new_vector_tiles@.len() ==> (#[trigger] cb.new_vector_tiles@[j]).0 != id)
            ==> (after.vector_tiles@.contains(id) <==> cb.new_vector_tiles@[i].1 > 0),
        (forall|j: int|
            0 <= j < cb.new_vector_tiles@.len() ==> (#[trigger] cb.new_vector_tiles@[j]).0 != id)
            ==> (after.vector_tiles@.contains(id) <==> was.vector_tiles@.contains(id)
            && !cb.clear_vector && !cb.drop_vector_tiles@.contains(id)),
{
    let had = was.vector_tiles@.contains(id) && !cb.clear_vector
        && !cb.drop_vector_tiles@.contains(id);
    lemma_last_upload(had, cb.new_vector_tiles@, id, i);
}

proof fn lemma_last_upload(had: bool, news: Seq<(TileId, usize)>, id: TileId, i: int)
    ensures
        0 <= i < news.len() && news[i].0 == id && (forall|j: int|
            i < j < news.len() ==> (#[trigger] news[j]).0 != id) ==> (vector_after_uploads(
            had,
            news,
            id,
        ) <==> news[i].1 > 0),
        (forall|j: int| 0 <= j < news.len() ==> (#[trigger] news[j]).0 != id)
            ==> vector_after_uploads(had, news, id) == had,
    decreases news.len(),
{
    if news.len() > 0 {
        let t = news.drop_last();
        lemma_last_upload(had, t, id, i);
        let n = news.len() - 1;
        if 0 <= i < n && news[i].0 == id && (forall|j: int|
            i < j < news.len() ==> (#[trigger] news[j]).0 != id) {
            assert(news[n].0 != id);
            assert(t[i] == news[i]);
            assert forall|j: int| i < j < t.len() implies (#[trigger] t[j]).0 != id by {
                assert(t[j] == news[j]);
            }
        }
        if forall|j: int| 0 <= j < news.len() ==> (#[trigger] news[j]).0 != id {
            assert(news[n].0 != id);
            assert forall|j: int| 0 <= j < t.len() implies (#[trigger] t[j]).0 != id by {
                assert(t[j] == news[j]);
            }
        }
    }
}

/// A frame's field layers: what is uploaded is cached, what is dropped and not uploaded is not, and
/// the rest stays as it is. The overlay is what was last uploaded, if that has any geometry. Wind
/// particles stay as they are.
pub proof fn layers_follow_the_frame(
    after: RenderResources,
    was: RenderResources,
    cb: MapCallback,
    f: FieldLayer,
)
    requires
        after.caches_follow(was, cb),
    ensures
        cb.field_uploads@.contains(f) ==> after.fields@.contains(f),
        cb.drop_fields@.contains(f) && !cb.field_uploads@.contains(f) ==> !after.fields@.contains(
            f,
        ),
        !cb.drop_fields@.contains(f) && !cb.field_uploads@.contains(f) ==> (after.fields@.contains(
            f,
        ) <==> was.fields@.contains(f)),
        cb.overlay_upload is None ==> after.overlay == was.overlay,
        cb.overlay_upload == Some(0usize) ==> !after.overlay,
        cb.overlay_upload matches Some(n) && n > 0 ==> after.overlay,
        after.wind == was.wind,
{
}

/// The layers that are cached.
pub open spec fn cached_layers(fields: Seq<FieldLayer>) -> spec_fn(FieldLayer) -> bool {
    |f: FieldLayer| fields.contains(f)
}

proof fn lemma_drawable(fields: Seq<FieldLayer>, asked: Seq<FieldLayer>)
    ensures
        drawable(fields, asked) == asked.filter(cached_layers(fields)),
    decreases asked.len(),
{
    reveal(Seq::filter);
    if asked.len() > 0 {
        lemma_drawable(fields, asked.drop_last());
    } else {
        assert(drawable(fields, asked) =~= asked.filter(cached_layers(fields)));
    }
}

/// A pane shows what its last frame asked for, as far as it is there, and a frame of one pane
/// changes no other.
pub proof fn panes_show_what_was_asked(
    after: RenderResources,
    was: RenderResources,
    cb: MapCallback,
    plan: FramePlan,
)
    requires
        after.staged(was, cb, plan),
    ensures
        after.panes@.contains_key(cb.pane),
        ({
            let p = after.panes@[cb.pane];
            &&& p.frame_draw_radar <==> cb.draw_radar && p.radar is Some
            &&& p.frame_draw_observed <==> cb.draw_observed && p.observed
            &&& p.frame_draw_overlay <==> cb.draw_overlay && after.overlay
            &&& p.vector_over_raster == cb.vector_over_raster
            &&& p.field_draws@ == cb.field_draws@.filter(cached_layers(after.fields@))
            &&& cb.observed_upload ==> p.observed
        }),
        forall|id: u32|
            id != cb.pane ==> (#[trigger] after.panes@.contains_key(id)
                <==> was.panes@.contains_key(id)),
        forall|id: u32|
            id != cb.pane && was.panes@.contains_key(id) ==> #[trigger] after.panes@[id]
                == was.panes@[id],
{
    lemma_drawable(after.fields@, cb.field_draws@);
    assert(after.panes@.dom().contains(cb.pane));
    assert forall|id: u32| id != cb.pane implies (#[trigger] after.panes@.contains_key(id)
        <==> was.panes@.contains_key(id)) by {
        assert(after.panes@.dom().contains(id) <==> was.panes@.dom().insert(cb.pane).contains(id));
    }
}

/// A map that moved is drawn anew: a frame of a pane that differs from the one before in its camera,
/// its basemap, how many tiles it sees, or which tiles are cached builds its quads again.
pub proof fn a_moved_map_is_drawn_anew(
    start: RenderResources,
    first: RenderResources,
    second: RenderResources,
    a: MapCallback,
    b: MapCallback,
    plan_a: FramePlan,
    plan_b: FramePlan,
)
    requires
        first.staged(start, a, plan_a),
        second.staged(first, b, plan_b),
        b.pane == a.pane,
        a.visible@.len() <= usize::MAX,
        b.visible@.len() <= usize::MAX,
        b.camera_center != a.camera_center || b.camera_scale != a.camera_scale || b.basemap_key
            != a.basemap_key || b.visible@.len() != a.visible@.len() || b.clear_tiles
            || b.new_tiles@.len() > 0 || b.drop_tiles@.len() > 0,
    ensures
        plan_b.quads is Some,
{
    let was = choose|was: PaneState|
        {
            &&& if start.panes@.contains_key(a.pane) {
                was == start.panes@[a.pane]
            } else {
                was.is_blank()
            }
            &&& #[trigger] first.pane_follows(was, a, first.panes@[a.pane], plan_a)
        };
    assert(first.pane_follows(was, a, first.panes@[a.pane], plan_a));
    assert(first.panes@.dom().contains(a.pane));
    assert(first.panes@[a.pane].quads_key == Some(quads_key_of(first.tiles_gen, a)));
    let was_b = choose|was: PaneState|
        {
            &&& if first.panes@.contains_key(b.pane) {
                was == first.panes@[b.pane]
            } else {
                was.is_blank()
            }
            &&& #[trigger] second.pane_follows(was, b, second.panes@[b.pane], plan_b)
        };
    assert(second.pane_follows(was_b, b, second.panes@[b.pane], plan_b));
    let ka = quads_key_of(first.tiles_gen, a);
    let kb = quads_key_of(second.tiles_gen, b);
    assert(ka != kb);
}

/// The quads that a pane draws are those of the tiles in view: their textures, in the same order.
pub proof fn panes_draw_their_quads(
    after: RenderResources,
    was: RenderResources,
    cb: MapCallback,
    plan: FramePlan,
)
    requires
        after.staged(was, cb, plan),
        plan.quads is Some,
    ensures
        ({
            let quads = (plan.quads->0)@;
            let p = after.panes@[cb.pane];
            &&& p.frame_visible@.len() == quads.len()
            &&& forall|i: int|
                0 <= i < quads.len() ==> #[trigger] p.frame_visible@[i] == quads[i].1.key
            &&& quads == capped(
                frame_quads(after.tiles@, cb.basemap_key, cb.visible@, cb.visible@.len()),
            )
        }),
{
}

/// A sweep is held in textures of its own shape: gates across and azimuths down. A color table alone
/// never makes or unmakes textures; a sweep that fits is written into what is there, and one that
/// does not gets new ones.
pub proof fn sweeps_fit_their_textures(r: RadarUpload, existing: Option<RadarTextures>)
    ensures
        ({
            let step = radar_step(r, existing);
            let now = radar_after(step, existing);
            let shape = RadarTextures {
                dims: (r.gate_count, r.az_bins),
                flag_dims: r.flag_grid(),
            };
            &&& !r.lut_only ==> now == Some(shape)
            &&& r.lut_only ==> now == existing && !(step is Build) && !(step is Rewrite)
            &&& step is Build ==> existing != now
            &&& step is Rewrite || step is Recolor ==> existing == Some(shape)
            &&& r.lut_only && existing == Some(shape) ==> step is Recolor
        }),
        r.precip_flag@.len() > 0 && r.precip_flag@.len() == r.flag_nx * r.flag_ny ==> r.flag_grid()
            == (r.flag_nx, r.flag_ny) && flag_data(r.precip_flag@, r.flag_grid()) == r.precip_flag@,
        r.precip_flag@.len() == 0 && r.flag_ny > 0 ==> r.flag_grid() == (1u32, 1u32) && flag_data(
            r.precip_flag@,
            r.flag_grid(),
        ) == seq![0u8],
{
    if r.precip_flag@.len() == 0 && r.flag_ny > 0 && r.flag_nx > 0 {
        assert(r.flag_nx * r.flag_ny > 0) by (nonlinear_arith)
            requires
                r.flag_nx > 0,
                r.flag_ny > 0,
        ;
    }
    if r.precip_flag@.len() > 0 && r.precip_flag@.len() == r.flag_nx * r.flag_ny {
        assert(r.flag_nx > 0) by (nonlinear_arith)
            requires
                r.flag_nx * r.flag_ny > 0,
        ;
        if r.flag_nx == 1 && r.flag_ny == 1 {
            assert(r.flag_nx * r.flag_ny == 1) by (nonlinear_arith)
                requires
                    r.flag_nx == 1,
                    r.flag_ny == 1,
            ;
        }
    }
}

} // verus!
