//! The order in which a staged pane is painted.

use crate::render::fallback::{detail_is_drawn_over_stand_ins, has_id, has_key};
use crate::render::field_layer::draw_order_holds_every_layer;
use crate::render::frame::{
    cached_layers, layers_follow_the_frame, panes_show_what_was_asked, FramePlan, MapCallback,
    PaneState, RenderResources,
};
use crate::render::{FieldLayer, TileId, TileKey};
use vstd::prelude::*;

verus! {

/// One thing painted, on top of everything before it.
#[derive(Clone, Copy, Debug, PartialEq, Eq)]
pub enum DrawOp {
    /// A tile of the vector basemap.
    Vector(TileId),
    /// The raster quad at this place in the pane's quads, with this texture.
    Tile(usize, TileKey),
    Field(FieldLayer),
    Radar,
    Observed,
    Wind,
    Overlay,
}

/// The vector tiles that are cached, in the pane's order.
pub open spec fn vector_ops(resident: Seq<TileId>, staged: Seq<TileId>) -> Seq<DrawOp>
    decreases staged.len(),
{
    if staged.len() == 0 {
        Seq::empty()
    } else if resident.contains(staged.last()) {
        vector_ops(resident, staged.drop_last()).push(DrawOp::Vector(staged.last()))
    } else {
        vector_ops(resident, staged.drop_last())
    }
}

/// The raster quads whose texture is cached, in the pane's order.
pub open spec fn tile_ops(resident: Seq<TileKey>, staged: Seq<TileKey>) -> Seq<DrawOp>
    decreases staged.len(),
{
    if staged.len() == 0 {
        Seq::empty()
    } else if resident.contains(staged.last()) {
        tile_ops(resident, staged.drop_last()).push(
            DrawOp::Tile((staged.len() - 1) as usize, staged.last()),
        )
    } else {
        tile_ops(resident, staged.drop_last())
    }
}

/// Of the layers `order`, those of the band asked for that the pane draws and that are cached.
pub open spec fn field_ops(
    order: Seq<FieldLayer>,
    below: bool,
    staged: Seq<FieldLayer>,
    resident: Seq<FieldLayer>,
) -> Seq<DrawOp>
    decreases order.len(),
{
    if order.len() == 0 {
        Seq::empty()
    } else {
        let rest = field_ops(order.drop_last(), below, staged, resident);
        let layer = order.last();
        if layer.is_context() == below && staged.contains(layer) && resident.contains(layer) {
            rest.push(DrawOp::Field(layer))
        } else {
            rest
        }
    }
}

/// The basemap: vector geometry under the raster tiles, or over them for the hybrid style.
pub open spec fn basemap_ops(res: RenderResources, pane: PaneState) -> Seq<DrawOp> {
    let vector = vector_ops(res.vector_tiles@, pane.frame_visible_vector@);
    let raster = tile_ops(res.tiles@, pane.frame_visible@);
    if pane.vector_over_raster {
        raster + vector
    } else {
        vector + raster
    }
}

/// `op` if `on`, else nothing.
pub open spec fn op_if(on: bool, op: DrawOp) -> Seq<DrawOp> {
    if on {
        seq![op]
    } else {
        Seq::empty()
    }
}

/// Everything up to and with the context band under the radar.
pub open spec fn ground_ops(res: RenderResources, pane: PaneState) -> Seq<DrawOp> {
    basemap_ops(res, pane) + field_ops(
        FieldLayer::DRAW_ORDER@,
        true,
        pane.field_draws@,
        res.fields@,
    )
}

/// The radar itself, flat and in three dimensions.
pub open spec fn radar_ops(pane: PaneState) -> Seq<DrawOp> {
    op_if(pane.frame_draw_radar && pane.radar is Some, DrawOp::Radar) + op_if(
        pane.frame_draw_observed && pane.observed,
        DrawOp::Observed,
    )
}

/// What comes over the radar: severe-signal layers, wind particles, the overlay.
pub open spec fn signal_ops(res: RenderResources, pane: PaneState) -> Seq<DrawOp> {
    field_ops(FieldLayer::DRAW_ORDER@, false, pane.field_draws@, res.fields@) + op_if(
        res.wind,
        DrawOp::Wind,
    ) + op_if(pane.frame_draw_overlay && res.overlay, DrawOp::Overlay)
}

/// How a pane is painted, bottom to top.
pub open spec fn pane_ops(res: RenderResources, pane: PaneState) -> Seq<DrawOp> {
    ground_ops(res, pane) + radar_ops(pane) + signal_ops(res, pane)
}

impl RenderResources {
    fn push_vector_basemap(&self, pane: &PaneState, out: &mut Vec<DrawOp>)
        ensures
            final(out)@ == old(out)@ + vector_ops(self.vector_tiles@, pane.frame_visible_vector@),
    {
        let ghost before = out@;
        let staged = &pane.frame_visible_vector;
        let mut i: usize = 0;
        assert(out@ =~= before + vector_ops(self.vector_tiles@, staged@.take(0)));
        while i < staged.len()
            invariant
                i <= staged.len(),
                out@ == before + vector_ops(self.vector_tiles@, staged@.take(i as int)),
            decreases staged.len() - i,
        {
            proof {
                let next = staged@.take(i + 1);
                assert(next.drop_last() =~= staged@.take(i as int));
                assert(next.last() == staged@[i as int]);
            }
            if has_id(self.vector_tiles.as_slice(), staged[i]) {
                out.push(DrawOp::Vector(staged[i]));
            }
            assert(out@ =~= before + vector_ops(self.vector_tiles@, staged@.take(i + 1)));
            i = i + 1;
        }
        assert(staged@.take(staged.len() as int) =~= staged@);
    }

    fn push_tiles(&self, pane: &PaneState, out: &mut Vec<DrawOp>)
        ensures
            final(out)@ == old(out)@ + tile_ops(self.tiles@, pane.frame_visible@),
    {
        let ghost before = out@;
        let staged = &pane.frame_visible;
        let mut i: usize = 0;
        assert(out@ =~= before + tile_ops(self.tiles@, staged@.take(0)));
        while i < staged.len()
            invariant
                i <= staged.len(),
                out@ == before + tile_ops(self.tiles@, staged@.take(i as int)),
            decreases staged.len() - i,
        {
            proof {
                let next = staged@.take(i + 1);
                assert(next.drop_last() =~= staged@.take(i as int));
                assert(next.last() == staged@[i as int]);
            }
            if has_key(self.tiles.as_slice(), staged[i]) {
                out.push(DrawOp::Tile(i, staged[i]));
            }
            assert(out@ =~= before + tile_ops(self.tiles@, staged@.take(i + 1)));
            i = i + 1;
        }
        assert(staged@.take(staged.len() as int) =~= staged@);
    }

    /// The active field layers in the requested band (below or above the radar), in the fixed
    /// bottom-to-top order.
    fn draw_fields(&self, pane: &PaneState, below: bool, out: &mut Vec<DrawOp>)
        ensures
            final(out)@ == old(out)@ + field_ops(
                FieldLayer::DRAW_ORDER@,
                below,
                pane.field_draws@,
                self.fields@,
            ),
    {
        let ghost before = out@;
        let order = FieldLayer::DRAW_ORDER;
        let mut i: usize = 0;
        assert(out@ =~= before + field_ops(order@.take(0), below, pane.field_draws@, self.fields@));
        while i < 41
            invariant
                order@.len() == 41,
                i <= 41,
                out@ == before + field_ops(
                    order@.take(i as int),
                    below,
                    pane.field_draws@,
                    self.fields@,
                ),
            decreases 41 - i,
        {
            proof {
                let next = order@.take(i + 1);
                assert(next.drop_last() =~= order@.take(i as int));
                assert(next.last() == order@[i as int]);
            }
            let layer = order[i];
            if layer.below_radar() == below && holds(&pane.field_draws, layer) && holds(
                &self.fields,
                layer,
            ) {
                out.push(DrawOp::Field(layer));
            }
            assert(out@ =~= before + field_ops(
                order@.take(i + 1),
                below,
                pane.field_draws@,
                self.fields@,
            ));
            i = i + 1;
        }
        assert(order@.take(41) =~= order@);
    }

    /// One pane's draws, bottom to top: basemap, context fields, radar, severe signals, wind,
    /// overlay. Nothing for a pane that was never staged.
    ///
    /// The vector basemap comes first (opaque, under everything), unless it is the hybrid overlay:
    /// then it is roads drawn *onto* the raster imagery and has to come after it. Wind particles
    /// come under the overlay, so that no warning polygon disappears under a trail.
    fn record_pane(&self, id: u32) -> (ops: Vec<DrawOp>)
        ensures
            ops@ == if self.panes@.contains_key(id) {
                pane_ops(*self, self.panes@[id])
            } else {
                Seq::empty()
            },
    {
        broadcast use vstd::std_specs::hash::group_hash_axioms;

        let mut out: Vec<DrawOp> = Vec::new();
        let pane = match self.panes.get(&id) {
            Some(p) => p,
            None => {
                return out;
            },
        };
        if !pane.vector_over_raster {
            self.push_vector_basemap(pane, &mut out);
        }
        self.push_tiles(pane, &mut out);
        if pane.vector_over_raster {
            self.push_vector_basemap(pane, &mut out);
        }
        assert(out@ =~= basemap_ops(*self, *pane));
        self.draw_fields(pane, true, &mut out);
        if pane.frame_draw_radar && pane.radar.is_some() {
            out.push(DrawOp::Radar);
        }
        if pane.frame_draw_observed && pane.observed {
            out.push(DrawOp::Observed);
        }
        assert(out@ =~= ground_ops(*self, *pane) + radar_ops(*pane));
        self.draw_fields(pane, false, &mut out);
        if self.wind {
            out.push(DrawOp::Wind);
        }
        if pane.frame_draw_overlay && self.overlay {
            out.push(DrawOp::Overlay);
        }
        assert(out@ =~= pane_ops(*self, *pane));
        out
    }

    /// How a previously staged pane is painted.
    pub fn draw_pane(&self, pane: u32) -> (ops: Vec<DrawOp>)
        ensures
            ops@ == if self.panes@.contains_key(pane) {
                pane_ops(*self, self.panes@[pane])
            } else {
                Seq::empty()
            },
    {
        self.record_pane(pane)
    }

    /// Stage a frame and paint it.
    pub fn render_once(&mut self, cb: &MapCallback) -> (r: (FramePlan, Vec<DrawOp>))
        requires
            old(self).can_stage(*cb),
        ensures
            final(self).staged(*old(self), *cb, r.0),
            r.1@ == pane_ops(*final(self), final(self).panes@[cb.pane]),
    {
        let plan = self.prepare_pane(cb);
        let ops = self.draw_pane(cb.pane);
        (plan, ops)
    }
}

fn holds(fields: &Vec<FieldLayer>, f: FieldLayer) -> (r: bool)
    ensures
        r == fields@.contains(f),
{
    let mut i: usize = 0;
    while i < fields.len()
        invariant
            i <= fields.len(),
            forall|j: int| 0 <= j < i ==> fields@[j] != f,
        decreases fields.len() - i,
    {
        if fields[i] == f {
            assert(fields@[i as int] == f);
            return true;
        }
        i = i + 1;
    }
    false
}

proof fn vector_ops_are_vector(resident: Seq<TileId>, staged: Seq<TileId>)
    ensures
        forall|i: int|
            0 <= i < vector_ops(resident, staged).len() ==> (#[trigger] vector_ops(
                resident,
                staged,
            )[i]) is Vector,
    decreases staged.len(),
{
    if staged.len() > 0 {
        vector_ops_are_vector(resident, staged.drop_last());
    }
}

proof fn tile_ops_are_tiles(resident: Seq<TileKey>, staged: Seq<TileKey>)
    ensures
        forall|i: int|
            0 <= i < tile_ops(resident, staged).len() ==> (#[trigger] tile_ops(
                resident,
                staged,
            )[i]) is Tile,
    decreases staged.len(),
{
    if staged.len() > 0 {
        tile_ops_are_tiles(resident, staged.drop_last());
    }
}

/// The layers painted in a band are cached layers of that band that the pane draws.
proof fn field_ops_are_fields(
    order: Seq<FieldLayer>,
    below: bool,
    staged: Seq<FieldLayer>,
    resident: Seq<FieldLayer>,
)
    ensures
        forall|i: int|
            0 <= i < field_ops(order, below, staged, resident).len() ==> match #[trigger] field_ops(
                order,
                below,
                staged,
                resident,
            )[i] {
                DrawOp::Field(f) => f.is_context() == below && staged.contains(f)
                    && resident.contains(f),
                _ => false,
            },
    decreases order.len(),
{
    if order.len() > 0 {
        field_ops_are_fields(order.drop_last(), below, staged, resident);
    }
}

/// A layer that the pane draws and that is cached is painted.
proof fn field_is_painted(
    order: Seq<FieldLayer>,
    staged: Seq<FieldLayer>,
    resident: Seq<FieldLayer>,
    f: FieldLayer,
)
    requires
        order.contains(f),
        staged.contains(f),
        resident.contains(f),
    ensures
        field_ops(order, f.is_context(), staged, resident).contains(DrawOp::Field(f)),
    decreases order.len(),
{
    let below = f.is_context();
    let all = field_ops(order, below, staged, resident);
    if order.last() == f {
        assert(all.last() == DrawOp::Field(f));
    } else {
        let i = order.index_of(f);
        assert(order.drop_last()[i] == f);
        field_is_painted(order.drop_last(), staged, resident, f);
        let rest = field_ops(order.drop_last(), below, staged, resident);
        let j = rest.index_of(DrawOp::Field(f));
        assert(all[j] == DrawOp::Field(f));
    }
}

/// The context layers are painted before the radar and the severe-signal layers after it.
pub proof fn radar_separates_the_bands(
    res: RenderResources,
    pane: PaneState,
    i: int,
    j: int,
    f: FieldLayer,
)
    requires
        0 <= i < pane_ops(res, pane).len(),
        0 <= j < pane_ops(res, pane).len(),
        pane_ops(res, pane)[i] == DrawOp::Field(f),
        pane_ops(res, pane)[j] == DrawOp::Radar,
    ensures
        f.is_context() <==> i < j,
{
    let order = FieldLayer::DRAW_ORDER@;
    vector_ops_are_vector(res.vector_tiles@, pane.frame_visible_vector@);
    tile_ops_are_tiles(res.tiles@, pane.frame_visible@);
    field_ops_are_fields(order, true, pane.field_draws@, res.fields@);
    field_ops_are_fields(order, false, pane.field_draws@, res.fields@);
    let g = ground_ops(res, pane);
    let r = radar_ops(pane);
    let s = signal_ops(res, pane);
    assert forall|k: int| 0 <= k < g.len() implies match #[trigger] g[k] {
        DrawOp::Field(f) => f.is_context(),
        DrawOp::Radar => false,
        _ => true,
    } by {
        let b = basemap_ops(res, pane);
        let c = field_ops(order, true, pane.field_draws@, res.fields@);
        if k < b.len() {
            assert(g[k] == b[k]);
        } else {
            assert(g[k] == c[k - b.len()]);
        }
    }
    assert forall|k: int| 0 <= k < s.len() implies match #[trigger] s[k] {
        DrawOp::Field(f) => !f.is_context(),
        DrawOp::Radar => false,
        _ => true,
    } by {
        let c = field_ops(order, false, pane.field_draws@, res.fields@);
        if k < c.len() {
            assert(s[k] == c[k]);
        }
    }
    let all = pane_ops(res, pane);
    assert(all == g + r + s);
    assert(forall|k: int| 0 <= k < r.len() ==> !(#[trigger] r[k] is Field));
    if i < g.len() {
        assert(all[i] == g[i]);
    } else if i < g.len() + r.len() {
        assert(all[i] == r[i - g.len()]);
    } else {
        assert(all[i] == s[i - g.len() - r.len()]);
    }
    if j < g.len() {
        assert(all[j] == g[j]);
    } else if j < g.len() + r.len() {
        assert(all[j] == r[j - g.len()]);
    } else {
        assert(all[j] == s[j - g.len() - r.len()]);
    }
}

/// A staged, cached field layer is always painted: the paint order forgets none.
pub proof fn every_staged_layer_is_painted(res: RenderResources, pane: PaneState, f: FieldLayer)
    requires
        pane.field_draws@.contains(f),
        res.fields@.contains(f),
    ensures
        pane_ops(res, pane).contains(DrawOp::Field(f)),
{
    let order = FieldLayer::DRAW_ORDER@;
    draw_order_holds_every_layer(f);
    assert(order.contains(f));
    field_is_painted(order, pane.field_draws@, res.fields@, f);
    let op = DrawOp::Field(f);
    let all = pane_ops(res, pane);
    let b = basemap_ops(res, pane);
    let g = ground_ops(res, pane);
    let r = radar_ops(pane);
    let s = signal_ops(res, pane);
    let c = field_ops(order, f.is_context(), pane.field_draws@, res.fields@);
    let i = c.index_of(op);
    if f.is_context() {
        assert(g[b.len() + i] == op);
        assert(all[b.len() + i] == op);
    } else {
        assert(s[i] == op);
        assert(all[g.len() + r.len() + i] == op);
    }
}

// ---------------------------------------------------------------------------------------------
// What a painted pane shows.

/// The draws of vector tiles.
pub open spec fn vector_draws() -> spec_fn(DrawOp) -> bool {
    |op: DrawOp| op is Vector
}

/// The tiles that are among `cached`.
pub open spec fn among(cached: Seq<TileId>) -> spec_fn(TileId) -> bool {
    |t: TileId| cached.contains(t)
}

/// A vector tile's draw.
pub open spec fn draw_of() -> spec_fn(TileId) -> DrawOp {
    |t: TileId| DrawOp::Vector(t)
}

proof fn lemma_all_kept<A>(s: Seq<A>, p: spec_fn(A) -> bool)
    requires
        forall|i: int| 0 <= i < s.len() ==> p(#[trigger] s[i]),
    ensures
        s.filter(p) == s,
    decreases s.len(),
{
    reveal(Seq::filter);
    if s.len() > 0 {
        lemma_all_kept(s.drop_last(), p);
        assert(p(s[s.len() - 1]));
        assert(s =~= s.drop_last().push(s.last()));
    }
}

proof fn lemma_none_kept<A>(s: Seq<A>, p: spec_fn(A) -> bool)
    requires
        forall|i: int| 0 <= i < s.len() ==> !p(#[trigger] s[i]),
    ensures
        s.filter(p) == Seq::<A>::empty(),
    decreases s.len(),
{
    reveal(Seq::filter);
    if s.len() > 0 {
        lemma_none_kept(s.drop_last(), p);
        assert(!p(s[s.len() - 1]));
    }
}

proof fn lemma_vector_ops_are_the_cached(resident: Seq<TileId>, staged: Seq<TileId>)
    ensures
        vector_ops(resident, staged) == staged.filter(among(resident)).map_values(draw_of()),
    decreases staged.len(),
{
    reveal(Seq::filter);
    if staged.len() > 0 {
        lemma_vector_ops_are_the_cached(resident, staged.drop_last());
        let rest = staged.drop_last().filter(among(resident));
        assert(rest.push(staged.last()).map_values(draw_of()) =~= rest.map_values(draw_of()).push(
            DrawOp::Vector(staged.last()),
        ));
    } else {
        assert(vector_ops(resident, staged) =~= staged.filter(among(resident)).map_values(
            draw_of(),
        ));
    }
}

/// Adding what is not kept changes nothing of what is.
proof fn lemma_add_unkept<A>(a: Seq<A>, b: Seq<A>, p: spec_fn(A) -> bool)
    requires
        forall|i: int| 0 <= i < b.len() ==> !p(#[trigger] b[i]),
    ensures
        (a + b).filter(p) == a.filter(p),
        (b + a).filter(p) == a.filter(p),
{
    lemma_none_kept(b, p);
    Seq::filter_distributes_over_add(a, b, p);
    Seq::filter_distributes_over_add(b, a, p);
    assert(a.filter(p) + Seq::<A>::empty() =~= a.filter(p));
    assert(Seq::<A>::empty() + a.filter(p) =~= a.filter(p));
}

proof fn lemma_vector_draws(res: RenderResources, pane: PaneState)
    ensures
        pane_ops(res, pane).filter(vector_draws()) == vector_ops(
            res.vector_tiles@,
            pane.frame_visible_vector@,
        ),
{
    let p = vector_draws();
    let v = vector_ops(res.vector_tiles@, pane.frame_visible_vector@);
    assert(v.filter(p) == v) by {
        vector_ops_are_vector(res.vector_tiles@, pane.frame_visible_vector@);
        lemma_all_kept(v, p);
    }
    assert(basemap_ops(res, pane).filter(p) == v) by {
        let t = tile_ops(res.tiles@, pane.frame_visible@);
        tile_ops_are_tiles(res.tiles@, pane.frame_visible@);
        lemma_add_unkept(v, t, p);
    }
    assert(ground_ops(res, pane).filter(p) == v) by {
        let c = field_ops(FieldLayer::DRAW_ORDER@, true, pane.field_draws@, res.fields@);
        field_ops_are_fields(FieldLayer::DRAW_ORDER@, true, pane.field_draws@, res.fields@);
        lemma_add_unkept(basemap_ops(res, pane), c, p);
    }
    assert((ground_ops(res, pane) + radar_ops(pane)).filter(p) == v) by {
        lemma_add_unkept(ground_ops(res, pane), radar_ops(pane), p);
    }
    lemma_signals_are_no_tiles(res, pane);
    lemma_add_unkept(ground_ops(res, pane) + radar_ops(pane), signal_ops(res, pane), p);
}

proof fn lemma_signals_are_no_tiles(res: RenderResources, pane: PaneState)
    ensures
        forall|k: int|
            0 <= k < signal_ops(res, pane).len() ==> !vector_draws()(
                #[trigger] signal_ops(res, pane)[k],
            ),
{
    let s = field_ops(FieldLayer::DRAW_ORDER@, false, pane.field_draws@, res.fields@);
    field_ops_are_fields(FieldLayer::DRAW_ORDER@, false, pane.field_draws@, res.fields@);
    let h = signal_ops(res, pane);
    assert forall|k: int| 0 <= k < h.len() implies !vector_draws()(#[trigger] h[k]) by {
        if k < s.len() {
            assert(h[k] == s[k]);
        }
    }
}

/// The vector basemap is painted whole: the vector draws of a pane are those of its tiles that are
/// cached, every one of them, in the order the pane has them.
pub proof fn every_vector_tile_is_painted(res: RenderResources, pane: PaneState)
    ensures
        pane_ops(res, pane).filter(vector_draws()) == pane.frame_visible_vector@.filter(
            among(res.vector_tiles@),
        ).map_values(draw_of()),
        forall|i: int|
            0 <= i < pane.frame_visible_vector@.len() && res.vector_tiles@.contains(
                #[trigger] pane.frame_visible_vector@[i],
            ) ==> pane_ops(res, pane).contains(DrawOp::Vector(pane.frame_visible_vector@[i])),
{
    let staged = pane.frame_visible_vector@;
    let all = pane_ops(res, pane);
    lemma_vector_draws(res, pane);
    lemma_vector_ops_are_the_cached(res.vector_tiles@, staged);
    assert forall|i: int|
        0 <= i < staged.len() && res.vector_tiles@.contains(
            #[trigger] staged[i],
        ) implies all.contains(DrawOp::Vector(staged[i])) by {
        lemma_kept_draw(all, staged, res.vector_tiles@, i);
    }
}

proof fn lemma_kept_draw(all: Seq<DrawOp>, staged: Seq<TileId>, cached: Seq<TileId>, i: int)
    requires
        0 <= i < staged.len(),
        cached.contains(staged[i]),
        all.filter(vector_draws()) == staged.filter(among(cached)).map_values(draw_of()),
    ensures
        all.contains(DrawOp::Vector(staged[i])),
{
    let kept = staged.filter(among(cached));
    staged.lemma_filter_contains(among(cached), i);
    let k = kept.index_of(staged[i]);
    assert(kept.map_values(draw_of())[k] == DrawOp::Vector(staged[i]));
    assert(all.filter(vector_draws()).contains(DrawOp::Vector(staged[i])));
    all.lemma_filter_contains_rev(vector_draws(), DrawOp::Vector(staged[i]));
}

proof fn lemma_tile_ops(resident: Seq<TileKey>, staged: Seq<TileKey>)
    requires
        staged.len() <= usize::MAX,
    ensures
        forall|a: int|
            0 <= a < tile_ops(resident, staged).len() ==> match #[trigger] tile_ops(
                resident,
                staged,
            )[a] {
                DrawOp::Tile(i, key) => i < staged.len() && key == staged[i as int]
                    && resident.contains(key),
                _ => false,
            },
        forall|a: int, b: int|
            0 <= a < b < tile_ops(resident, staged).len() ==> (#[trigger] tile_ops(
                resident,
                staged,
            )[a])->Tile_0 < (#[trigger] tile_ops(resident, staged)[b])->Tile_0,
        forall|i: int|
            0 <= i < staged.len() && resident.contains(#[trigger] staged[i]) ==> tile_ops(
                resident,
                staged,
            ).contains(DrawOp::Tile(i as usize, staged[i])),
    decreases staged.len(),
{
    if staged.len() > 0 {
        let t = staged.drop_last();
        lemma_tile_ops(resident, t);
        let rest = tile_ops(resident, t);
        let all = tile_ops(resident, staged);
        assert forall|i: int|
            0 <= i < staged.len() && resident.contains(#[trigger] staged[i]) implies all.contains(
            DrawOp::Tile(i as usize, staged[i]),
        ) by {
            let op = DrawOp::Tile(i as usize, staged[i]);
            if i < t.len() {
                assert(t[i] == staged[i]);
                assert(all[rest.index_of(op)] == op);
            } else {
                assert(all.last() == op);
            }
        }
        assert forall|a: int, b: int| 0 <= a < b < all.len() implies (#[trigger] all[a])->Tile_0 < (
        #[trigger] all[b])->Tile_0 by {
            assert(all[a] == rest[a]);
            if b < rest.len() {
                assert(all[b] == rest[b]);
            }
        }
    }
}

proof fn lemma_field_ops_in_order(
    order: Seq<FieldLayer>,
    below: bool,
    staged: Seq<FieldLayer>,
    resident: Seq<FieldLayer>,
)
    requires
        forall|i: int| 0 <= i < order.len() ==> (#[trigger] order[i]).paint_rank() == i,
    ensures
        forall|a: int|
            0 <= a < field_ops(order, below, staged, resident).len() ==> (#[trigger] field_ops(
                order,
                below,
                staged,
                resident,
            )[a]) is Field && (field_ops(order, below, staged, resident)[a])->Field_0.paint_rank()
                < order.len(),
        forall|a: int, b: int|
            0 <= a < b < field_ops(order, below, staged, resident).len() ==> (#[trigger] field_ops(
                order,
                below,
                staged,
                resident,
            )[a])->Field_0.paint_rank() < (#[trigger] field_ops(
                order,
                below,
                staged,
                resident,
            )[b])->Field_0.paint_rank(),
    decreases order.len(),
{
    if order.len() > 0 {
        lemma_field_ops_in_order(order.drop_last(), below, staged, resident);
        let rest = field_ops(order.drop_last(), below, staged, resident);
        let all = field_ops(order, below, staged, resident);
        assert(order[order.len() - 1].paint_rank() == order.len() - 1);
        assert forall|a: int, b: int| 0 <= a < b < all.len() implies (
        #[trigger] all[a])->Field_0.paint_rank() < (#[trigger] all[b])->Field_0.paint_rank() by {
            assert(all[a] == rest[a]);
            if b < rest.len() {
                assert(all[b] == rest[b]);
            }
        }
        assert forall|a: int| 0 <= a < all.len() implies (#[trigger] all[a]) is Field
            && all[a]->Field_0.paint_rank() < order.len() by {
            if a < rest.len() {
                assert(all[a] == rest[a]);
            }
        }
    }
}

/// How high a draw lies. Vector geometry is the ground, or for a hybrid the roads on the imagery;
/// then come the context layers, the radar, flat and in three dimensions, the severe signals, the
/// wind and the overlay.
pub open spec fn height(op: DrawOp, hybrid: bool) -> int {
    match op {
        DrawOp::Vector(_) => if hybrid {
            1
        } else {
            0
        },
        DrawOp::Tile(_, _) => if hybrid {
            0
        } else {
            1
        },
        DrawOp::Field(f) => if f.is_context() {
            2
        } else {
            5
        },
        DrawOp::Radar => 3,
        DrawOp::Observed => 4,
        DrawOp::Wind => 6,
        DrawOp::Overlay => 7,
    }
}

/// What is at a place of a painted pane, by the part of the picture it belongs to.
proof fn lemma_parts(res: RenderResources, pane: PaneState, k: int)
    requires
        0 <= k < pane_ops(res, pane).len(),
    ensures
        ({
            let all = pane_ops(res, pane);
            let b = basemap_ops(res, pane).len();
            let g = ground_ops(res, pane).len();
            let r = g + radar_ops(pane).len();
            let s = r + field_ops(
                FieldLayer::DRAW_ORDER@,
                false,
                pane.field_draws@,
                res.fields@,
            ).len();
            &&& b <= g <= r <= s <= all.len()
            &&& k < b ==> all[k] == basemap_ops(res, pane)[k]
            &&& b <= k < g ==> all[k] == field_ops(
                FieldLayer::DRAW_ORDER@,
                true,
                pane.field_draws@,
                res.fields@,
            )[k - b]
            &&& g <= k < r ==> all[k] == radar_ops(pane)[k - g]
            &&& r <= k < s ==> all[k] == field_ops(
                FieldLayer::DRAW_ORDER@,
                false,
                pane.field_draws@,
                res.fields@,
            )[k - r]
            &&& s <= k ==> all[k] == (op_if(res.wind, DrawOp::Wind) + op_if(
                pane.frame_draw_overlay && res.overlay,
                DrawOp::Overlay,
            ))[k - s]
        }),
{
    let b = basemap_ops(res, pane);
    let g = ground_ops(res, pane);
    let r = radar_ops(pane);
    let h = signal_ops(res, pane);
    let all = pane_ops(res, pane);
    assert(all =~= g + r + h);
    if k < g.len() {
        assert(all[k] == g[k]);
    } else if k < g.len() + r.len() {
        assert(all[k] == r[k - g.len()]);
    } else {
        assert(all[k] == h[k - g.len() - r.len()]);
    }
}

/// The heights of the parts of a painted pane.
proof fn lemma_heights(res: RenderResources, pane: PaneState, k: int)
    requires
        0 <= k < pane_ops(res, pane).len(),
    ensures
        ({
            let b = basemap_ops(res, pane).len();
            let g = ground_ops(res, pane).len();
            let r = g + radar_ops(pane).len();
            let s = r + field_ops(
                FieldLayer::DRAW_ORDER@,
                false,
                pane.field_draws@,
                res.fields@,
            ).len();
            let h = height(pane_ops(res, pane)[k], pane.vector_over_raster);
            &&& k < b <==> h <= 1
            &&& b <= k < g <==> h == 2
            &&& g <= k < r <==> 3 <= h <= 4
            &&& r <= k < s <==> h == 5
            &&& s <= k <==> h >= 6
        }),
{
    lemma_parts(res, pane, k);
    vector_ops_are_vector(res.vector_tiles@, pane.frame_visible_vector@);
    tile_ops_are_tiles(res.tiles@, pane.frame_visible@);
    let order = FieldLayer::DRAW_ORDER@;
    field_ops_are_fields(order, true, pane.field_draws@, res.fields@);
    field_ops_are_fields(order, false, pane.field_draws@, res.fields@);
}

/// A pane is painted bottom to top: nothing is painted over what lies higher.
pub proof fn panes_are_painted_bottom_to_top(res: RenderResources, pane: PaneState, i: int, j: int)
    requires
        0 <= i < j < pane_ops(res, pane).len(),
    ensures
        height(pane_ops(res, pane)[i], pane.vector_over_raster) <= height(
            pane_ops(res, pane)[j],
            pane.vector_over_raster,
        ),
{
    lemma_parts(res, pane, i);
    lemma_parts(res, pane, j);
    lemma_heights(res, pane, i);
    lemma_heights(res, pane, j);
    let b = basemap_ops(res, pane);
    if j < b.len() {
        vector_ops_are_vector(res.vector_tiles@, pane.frame_visible_vector@);
        tile_ops_are_tiles(res.tiles@, pane.frame_visible@);
    }
}

/// Every raster quad of a pane whose texture is cached is painted once, with its own texture, and
/// the quads are painted in the pane's order.
pub proof fn every_raster_quad_is_painted(res: RenderResources, pane: PaneState)
    requires
        pane.frame_visible@.len() <= usize::MAX,
    ensures
        forall|i: int|
            0 <= i < pane.frame_visible@.len() && res.tiles@.contains(
                #[trigger] pane.frame_visible@[i],
            ) ==> pane_ops(res, pane).contains(
                DrawOp::Tile(i as usize, pane.frame_visible@[i]),
            ),
        forall|k: int|
            0 <= k < pane_ops(res, pane).len() ==> match #[trigger] pane_ops(res, pane)[k] {
                DrawOp::Tile(i, key) => i < pane.frame_visible@.len() && key
                    == pane.frame_visible@[i as int] && res.tiles@.contains(key),
                _ => true,
            },
        forall|k: int, l: int|
            0 <= k < l < pane_ops(res, pane).len() && (#[trigger] pane_ops(res, pane)[k]) is Tile
                && (#[trigger] pane_ops(res, pane)[l]) is Tile ==> pane_ops(res, pane)[k]->Tile_0
                < pane_ops(res, pane)[l]->Tile_0,
{
    let staged = pane.frame_visible@;
    let t = tile_ops(res.tiles@, staged);
    let v = vector_ops(res.vector_tiles@, pane.frame_visible_vector@);
    let b = basemap_ops(res, pane);
    let all = pane_ops(res, pane);
    lemma_tile_ops(res.tiles@, staged);
    vector_ops_are_vector(res.vector_tiles@, pane.frame_visible_vector@);
    let start: int = if pane.vector_over_raster {
        0
    } else {
        v.len() as int
    };
    assert forall|k: int| 0 <= k < all.len() && (#[trigger] all[k]) is Tile implies start <= k
        < start + t.len() && all[k] == t[k - start] by {
        lemma_parts(res, pane, k);
        lemma_heights(res, pane, k);
    }
    assert forall|i: int|
        0 <= i < staged.len() && res.tiles@.contains(#[trigger] staged[i]) implies all.contains(
        DrawOp::Tile(i as usize, staged[i]),
    ) by {
        let k = t.index_of(DrawOp::Tile(i as usize, staged[i]));
        assert(b[start + k] == t[k]);
        assert(all[start + k] == t[k]);
    }
}

/// A field layer is painted where, and only where, the pane draws it and it is cached; each once,
/// and in the paint order.
pub proof fn fields_are_painted_in_order(res: RenderResources, pane: PaneState)
    ensures
        forall|f: FieldLayer|
            #[trigger] pane_ops(res, pane).contains(DrawOp::Field(f))
                <==> pane.field_draws@.contains(f) && res.fields@.contains(f),
        forall|k: int, l: int|
            0 <= k < l < pane_ops(res, pane).len() && (#[trigger] pane_ops(res, pane)[k]) is Field
                && (#[trigger] pane_ops(res, pane)[l]) is Field ==> pane_ops(
                res,
                pane,
            )[k]->Field_0.paint_rank() < pane_ops(res, pane)[l]->Field_0.paint_rank(),
{
    let order = FieldLayer::DRAW_ORDER@;
    let all = pane_ops(res, pane);
    assert forall|i: int| 0 <= i < order.len() implies (#[trigger] order[i]).paint_rank() == i by {
        lemma_rank_at(i);
    }
    let c = field_ops(order, true, pane.field_draws@, res.fields@);
    let s = field_ops(order, false, pane.field_draws@, res.fields@);
    lemma_field_ops_in_order(order, true, pane.field_draws@, res.fields@);
    lemma_field_ops_in_order(order, false, pane.field_draws@, res.fields@);
    field_ops_are_fields(order, true, pane.field_draws@, res.fields@);
    field_ops_are_fields(order, false, pane.field_draws@, res.fields@);
    assert forall|f: FieldLayer| #[trigger] all.contains(DrawOp::Field(f)) implies
        pane.field_draws@.contains(f) && res.fields@.contains(f) by {
        let k = all.index_of(DrawOp::Field(f));
        lemma_parts(res, pane, k);
        lemma_heights(res, pane, k);
    }
    assert forall|f: FieldLayer|
        pane.field_draws@.contains(f) && res.fields@.contains(f) implies #[trigger] all.contains(
        DrawOp::Field(f),
    ) by {
        every_staged_layer_is_painted(res, pane, f);
    }
    assert forall|k: int, l: int|
        0 <= k < l < all.len() && (#[trigger] all[k]) is Field && (
        #[trigger] all[l]) is Field implies all[k]->Field_0.paint_rank()
        < all[l]->Field_0.paint_rank() by {
        lemma_parts(res, pane, k);
        lemma_parts(res, pane, l);
        lemma_heights(res, pane, k);
        lemma_heights(res, pane, l);
        let (f, g) = (all[k]->Field_0, all[l]->Field_0);
        if f.is_context() && !g.is_context() {
            crate::render::field_layer::context_is_painted_first(f, g);
        }
    }
}

proof fn lemma_rank_at(i: int)
    requires
        0 <= i < 41,
    ensures
        FieldLayer::DRAW_ORDER@[i].paint_rank() == i,
{
}

/// The radar, the gates in three dimensions, the wind and the overlay are each painted exactly when
/// they are there and shown, and once.
pub proof fn single_layers_are_painted_once(res: RenderResources, pane: PaneState)
    ensures
        pane_ops(res, pane).contains(DrawOp::Radar) <==> pane.frame_draw_radar && pane.radar is Some,
        pane_ops(res, pane).contains(DrawOp::Observed) <==> pane.frame_draw_observed
            && pane.observed,
        pane_ops(res, pane).contains(DrawOp::Wind) <==> res.wind,
        pane_ops(res, pane).contains(DrawOp::Overlay) <==> pane.frame_draw_overlay && res.overlay,
        forall|k: int, l: int|
            0 <= k < l < pane_ops(res, pane).len() && (#[trigger] pane_ops(res, pane)[k] is Radar
                || pane_ops(res, pane)[k] is Observed || pane_ops(res, pane)[k] is Wind
                || pane_ops(res, pane)[k] is Overlay) ==> #[trigger] pane_ops(res, pane)[l]
                != pane_ops(res, pane)[k],
{
    let all = pane_ops(res, pane);
    let g = ground_ops(res, pane).len() as int;
    let r = radar_ops(pane);
    let s = field_ops(FieldLayer::DRAW_ORDER@, false, pane.field_draws@, res.fields@).len();
    assert forall|k: int| 0 <= k < all.len() implies match #[trigger] all[k] {
        DrawOp::Radar => pane.frame_draw_radar && pane.radar is Some && k == g,
        DrawOp::Observed => pane.frame_draw_observed && pane.observed && k == g + r.len() - 1,
        DrawOp::Wind => res.wind && k == g + r.len() + s,
        DrawOp::Overlay => pane.frame_draw_overlay && res.overlay && k == all.len() - 1,
        _ => true,
    } by {
        lemma_parts(res, pane, k);
        lemma_heights(res, pane, k);
    }
    if pane.frame_draw_radar && pane.radar is Some {
        assert(r[0] == DrawOp::Radar);
        assert(all[g] == DrawOp::Radar);
    }
    if pane.frame_draw_observed && pane.observed {
        assert(r.last() == DrawOp::Observed);
        assert(all[g + r.len() - 1] == DrawOp::Observed);
    }
    let h = signal_ops(res, pane);
    if res.wind {
        assert(h[s as int] == DrawOp::Wind);
        assert(all[g + r.len() + s] == DrawOp::Wind);
    }
    if pane.frame_draw_overlay && res.overlay {
        assert(h.last() == DrawOp::Overlay);
        assert(all.last() == DrawOp::Overlay);
    }
}

/// What a frame brings and asks for is painted with it: a vector tile in view that comes with
/// geometry, a field layer that is uploaded and shown, a radar sweep, the gates in three dimensions,
/// and the overlay.
pub proof fn what_comes_with_a_frame_is_painted(
    after: RenderResources,
    was: RenderResources,
    cb: MapCallback,
    plan: FramePlan,
)
    requires
        after.staged(was, cb, plan),
    ensures
        forall|i: int|
            0 <= i < cb.visible_vector@.len() && after.vector_tiles@.contains(
                #[trigger] cb.visible_vector@[i],
            ) ==> pane_ops(after, after.panes@[cb.pane]).contains(
                DrawOp::Vector(cb.visible_vector@[i]),
            ),
        forall|f: FieldLayer|
            cb.field_draws@.contains(f) && cb.field_uploads@.contains(f) ==> #[trigger] pane_ops(
                after,
                after.panes@[cb.pane],
            ).contains(DrawOp::Field(f)),
        cb.draw_radar && cb.radar_upload is Some && !(cb.radar_upload->0).lut_only ==> pane_ops(
            after,
            after.panes@[cb.pane],
        ).contains(DrawOp::Radar),
        !cb.draw_radar ==> !pane_ops(after, after.panes@[cb.pane]).contains(DrawOp::Radar),
        cb.draw_observed && cb.observed_upload ==> pane_ops(
            after,
            after.panes@[cb.pane],
        ).contains(DrawOp::Observed),
        !cb.draw_observed ==> !pane_ops(after, after.panes@[cb.pane]).contains(DrawOp::Observed),
        cb.draw_overlay && (cb.overlay_upload matches Some(n) && n > 0) ==> pane_ops(
            after,
            after.panes@[cb.pane],
        ).contains(DrawOp::Overlay),
        !cb.draw_overlay ==> !pane_ops(after, after.panes@[cb.pane]).contains(DrawOp::Overlay),
{
    let pane = after.panes@[cb.pane];
    let all = pane_ops(after, pane);
    panes_show_what_was_asked(after, was, cb, plan);
    single_layers_are_painted_once(after, pane);
    fields_are_painted_in_order(after, pane);
    every_vector_tile_is_painted(after, pane);
    assert forall|f: FieldLayer|
        cb.field_draws@.contains(f) && cb.field_uploads@.contains(f) implies #[trigger] all.contains(
        DrawOp::Field(f),
    ) by {
        layers_follow_the_frame(after, was, cb, f);
        let i = cb.field_draws@.index_of(f);
        cb.field_draws@.lemma_filter_contains(cached_layers(after.fields@), i);
    }
    let staged = pane.frame_visible_vector@;
    let n = detail_is_drawn_over_stand_ins(cb.visible_vector@, after.vector_tiles@, staged);
    let keep = |t: TileId| after.vector_tiles@.contains(t);
    assert forall|i: int|
        0 <= i < cb.visible_vector@.len() && after.vector_tiles@.contains(
            #[trigger] cb.visible_vector@[i],
        ) implies all.contains(DrawOp::Vector(cb.visible_vector@[i])) by {
        let t = cb.visible_vector@[i];
        cb.visible_vector@.lemma_filter_contains(keep, i);
        let shown = cb.visible_vector@.filter(keep);
        let k = shown.index_of(t);
        assert(staged.skip(n)[k] == t);
        assert(staged[n + k] == t);
    }
}

} // verus!
