//! What the shaders of the map are handed: the slots of each pipeline, the shape of the textures
//! and vertices that go into them, and that the two agree.

use crate::render::frame::{flag_dims, RadarUpload};
use crate::settings::Number32;
use vstd::prelude::*;

verus! {

/// The pipelines that draw from a group of their own, next to the camera's.
#[derive(Clone, Copy, Debug, PartialEq, Eq, Structural)]
pub enum Pipeline {
    /// Basemap tiles.
    Tile,
    /// The sweep of one radar, on the ground.
    Radar,
    /// Observed gates, where they were measured.
    Observed,
    /// National gridded fields.
    Field,
    /// Tessellated vector geometry: nothing but the camera.
    Overlay,
    /// A volume, by marching rays through it.
    Raymarch,
}

/// What a slot takes.
#[derive(Clone, Copy, Debug, PartialEq, Eq, Structural)]
pub enum SlotKind {
    /// A uniform buffer of at least so many bytes.
    Uniform { min_size: u64 },
    /// A flat texture of whole numbers.
    Indices,
    /// A flat texture of colors, sampled between texels where it is `filtered`.
    Colors { filtered: bool },
    /// A texture with depth, sampled between texels.
    Volume,
    /// A sampler that filters.
    Sampler,
}

/// One slot of a group, and whether the vertex shader sees it; the fragment shader always does.
#[derive(Clone, Copy, Debug, PartialEq, Eq, Structural)]
pub struct Slot {
    pub kind: SlotKind,
    pub vertex: bool,
}

pub open spec fn slot(kind: SlotKind) -> Slot {
    Slot { kind, vertex: false }
}

/// The slots of a pipeline's own group, in order.
pub open spec fn slots_of(p: Pipeline) -> Seq<Slot> {
    match p {
        Pipeline::Tile => seq![
            slot(SlotKind::Colors { filtered: true }),
            slot(SlotKind::Sampler),
        ],
        Pipeline::Radar => seq![
            slot(SlotKind::Uniform { min_size: 80 }),
            slot(SlotKind::Indices),
            slot(SlotKind::Colors { filtered: false }),
            slot(SlotKind::Indices),
        ],
        Pipeline::Observed => seq![
            Slot { kind: SlotKind::Uniform { min_size: 48 }, vertex: true },
            slot(SlotKind::Colors { filtered: false }),
        ],
        Pipeline::Field => seq![
            slot(SlotKind::Uniform { min_size: 48 }),
            slot(SlotKind::Indices),
            slot(SlotKind::Colors { filtered: false }),
        ],
        Pipeline::Overlay => seq![],
        Pipeline::Raymarch => seq![
            slot(SlotKind::Uniform { min_size: 0 }),
            slot(SlotKind::Volume),
            slot(SlotKind::Colors { filtered: false }),
            slot(SlotKind::Sampler),
        ],
    }
}

/// The slots of a pipeline's own group, in order.
pub fn slots(p: Pipeline) -> (r: Vec<Slot>)
    ensures
        r@ == slots_of(p),
{
    let mut v: Vec<Slot> = Vec::new();
    match p {
        Pipeline::Tile => {
            v.push(Slot { kind: SlotKind::Colors { filtered: true }, vertex: false });
            v.push(Slot { kind: SlotKind::Sampler, vertex: false });
        },
        Pipeline::Radar => {
            v.push(Slot { kind: SlotKind::Uniform { min_size: 80 }, vertex: false });
            v.push(Slot { kind: SlotKind::Indices, vertex: false });
            v.push(Slot { kind: SlotKind::Colors { filtered: false }, vertex: false });
            v.push(Slot { kind: SlotKind::Indices, vertex: false });
        },
        Pipeline::Observed => {
            v.push(Slot { kind: SlotKind::Uniform { min_size: 48 }, vertex: true });
            v.push(Slot { kind: SlotKind::Colors { filtered: false }, vertex: false });
        },
        Pipeline::Field => {
            v.push(Slot { kind: SlotKind::Uniform { min_size: 48 }, vertex: false });
            v.push(Slot { kind: SlotKind::Indices, vertex: false });
            v.push(Slot { kind: SlotKind::Colors { filtered: false }, vertex: false });
        },
        Pipeline::Overlay => {},
        Pipeline::Raymarch => {
            v.push(Slot { kind: SlotKind::Uniform { min_size: 0 }, vertex: false });
            v.push(Slot { kind: SlotKind::Volume, vertex: false });
            v.push(Slot { kind: SlotKind::Colors { filtered: false }, vertex: false });
            v.push(Slot { kind: SlotKind::Sampler, vertex: false });
        },
    }
    assert(v@ =~= slots_of(p));
    v
}

/// Which fragment shader overlay geometry is drawn with: a target that does not encode colors
/// itself has them encoded by the shader.
pub fn overlay_entry(target_is_srgb: bool) -> (r: &'static str)
    ensures
        r@ == if target_is_srgb {
            "fs_main"@
        } else {
            "fs_main_gamma"@
        },
{
    if target_is_srgb {
        "fs_main"
    } else {
        "fs_main_gamma"
    }
}

// ---------------------------------------------------------------------------------------------
// Vertices.

/// What a vertex, or an instance, is made of: the count of 32-bit numbers of each attribute, and
/// the bytes from one to the next.
#[derive(Debug)]
pub struct VertexShape {
    pub stride: u64,
    pub attributes: Vec<u8>,
    pub per_instance: bool,
}

pub open spec fn numbers_in(attributes: Seq<u8>) -> int
    decreases attributes.len(),
{
    if attributes.len() == 0 {
        0
    } else {
        numbers_in(attributes.drop_last()) + attributes.last()
    }
}

/// The attributes of a pipeline's vertices.
pub open spec fn attributes_of(p: Pipeline) -> Seq<u8> {
    match p {
        // World position, texture position.
        Pipeline::Tile => seq![2u8, 2],
        Pipeline::Radar => seq![2u8],
        // A place in the beam, and its reading.
        Pipeline::Observed => seq![4u8, 4],
        Pipeline::Field => seq![2u8],
        // World position, color, stroke offset.
        Pipeline::Overlay => seq![2u8, 4, 3],
        Pipeline::Raymarch => seq![],
    }
}

/// The vertices of a pipeline.
pub fn vertex_shape(p: Pipeline) -> (r: VertexShape)
    ensures
        r.attributes@ == attributes_of(p),
        r.stride == 4 * numbers_in(attributes_of(p)),
        r.per_instance == (p == Pipeline::Observed),
{
    let mut v: Vec<u8> = Vec::new();
    let mut n: u64 = 0;
    match p {
        Pipeline::Tile => {
            v.push(2);
            v.push(2);
        },
        Pipeline::Radar | Pipeline::Field => {
            v.push(2);
        },
        Pipeline::Observed => {
            v.push(4);
            v.push(4);
        },
        Pipeline::Overlay => {
            v.push(2);
            v.push(4);
            v.push(3);
        },
        Pipeline::Raymarch => {},
    }
    assert(v@ =~= attributes_of(p));
    let mut i: usize = 0;
    while i < v.len()
        invariant
            i <= v.len() <= 3,
            n == numbers_in(v@.take(i as int)),
            n <= 255 * i,
        decreases v.len() - i,
    {
        n = n + v[i] as u64;
        i = i + 1;
        assert(v@.take(i as int).drop_last() =~= v@.take(i - 1));
    }
    assert(v@.take(i as int) =~= v@);
    VertexShape { stride: 4 * n, attributes: v, per_instance: p == Pipeline::Observed }
}

/// The six corners, of two triangles, that cover a field's rectangle.
pub open spec fn field_corners(min: (Number32, Number32), max: (Number32, Number32)) -> Seq<
    (Number32, Number32),
> {
    seq![min, (max.0, min.1), max, min, max, (min.0, max.1)]
}

/// The six corners, of two triangles, that cover a field's rectangle.
pub fn field_verts(min: (Number32, Number32), max: (Number32, Number32)) -> (r: Vec<
    (Number32, Number32),
>)
    ensures
        r@ == field_corners(min, max),
{
    let mut v: Vec<(Number32, Number32)> = Vec::new();
    v.push((min.0, min.1));
    v.push((max.0, min.1));
    v.push((max.0, max.1));
    v.push((min.0, min.1));
    v.push((max.0, max.1));
    v.push((min.0, max.1));
    assert(v@ =~= field_corners(min, max));
    v
}

// ---------------------------------------------------------------------------------------------
// Textures.

/// What a texel is.
#[derive(Clone, Copy, Debug, PartialEq, Eq, Structural)]
pub enum Texels {
    /// One whole number of a byte.
    Index,
    /// A value and whether it is there, a byte each.
    Pair,
    /// A color of four bytes, as it is.
    Linear,
    /// A color of four bytes, encoded for a screen.
    Encoded,
}

impl Texels {
    /// The bytes of one texel.
    pub open spec fn bytes(self) -> int {
        match self {
            Texels::Index => 1,
            Texels::Pair => 2,
            _ => 4,
        }
    }
}

/// The shape of a texture, and how its bytes lie.
#[derive(Clone, Copy, Debug, PartialEq, Eq, Structural)]
pub struct TexturePlan {
    pub width: u32,
    pub height: u32,
    pub depth: u32,
    pub texels: Texels,
    pub bytes_per_row: u32,
    pub rows_per_image: u32,
    /// It has depth, even if of one layer.
    pub solid: bool,
}

impl TexturePlan {
    /// The bytes that fill it.
    pub open spec fn size(self) -> int {
        self.width * self.height * self.depth * self.texels.bytes()
    }

    /// Its rows lie one behind the other, with nothing between them.
    pub open spec fn packed(self) -> bool {
        &&& self.bytes_per_row == self.width * self.texels.bytes()
        &&& self.rows_per_image == self.height
    }
}

/// A flat texture.
pub open spec fn flat(width: u32, height: u32, texels: Texels) -> TexturePlan {
    TexturePlan {
        width,
        height,
        depth: 1,
        texels,
        bytes_per_row: (width * texels.bytes()) as u32,
        rows_per_image: height,
        solid: false,
    }
}

/// A cube of `n` by `n` by `nz` pairs.
pub open spec fn cube(n: u32, nz: u32) -> TexturePlan {
    TexturePlan {
        width: n,
        height: n,
        depth: nz,
        texels: Texels::Pair,
        bytes_per_row: (n * 2) as u32,
        rows_per_image: n,
        solid: true,
    }
}

fn flat_plan(width: u32, height: u32, texels: Texels) -> (r: TexturePlan)
    requires
        width * texels.bytes() <= u32::MAX,
    ensures
        r == flat(width, height, texels),
        r.packed(),
{
    let bytes_per_row: u32 = match texels {
        Texels::Index => width,
        Texels::Pair => width * 2,
        Texels::Linear | Texels::Encoded => width * 4,
    };
    TexturePlan {
        width,
        height,
        depth: 1,
        texels,
        bytes_per_row,
        rows_per_image: height,
        solid: false,
    }
}

/// Something to put in a slot.
#[derive(Clone, Copy, Debug, PartialEq, Eq, Structural)]
pub enum Bound {
    /// A uniform buffer of so many bytes.
    Uniform { size: u64 },
    Texture { plan: TexturePlan },
    Sampler,
}

/// What a slot takes, it is given.
pub open spec fn fits(s: Slot, b: Bound) -> bool {
    match (s.kind, b) {
        (SlotKind::Uniform { min_size }, Bound::Uniform { size }) => size >= min_size,
        (SlotKind::Indices, Bound::Texture { plan }) => plan.texels == Texels::Index && !plan.solid,
        (SlotKind::Colors { .. }, Bound::Texture { plan }) => plan.texels != Texels::Index
            && !plan.solid,
        (SlotKind::Volume, Bound::Texture { plan }) => plan.texels != Texels::Index && plan.solid,
        (SlotKind::Sampler, Bound::Sampler) => true,
        _ => false,
    }
}

/// Every slot of a pipeline is given what it takes, and nothing is left over.
pub open spec fn group_fits(p: Pipeline, bound: Seq<Bound>) -> bool {
    &&& bound.len() == slots_of(p).len()
    &&& forall|i: int| 0 <= i < bound.len() ==> fits(slots_of(p)[i], #[trigger] bound[i])
}

/// What a basemap tile of that size binds.
pub fn upload_tile(width: u32, height: u32) -> (r: Vec<Bound>)
    requires
        4 * width <= u32::MAX,
    ensures
        r@ == seq![
            Bound::Texture { plan: flat(width, height, Texels::Encoded) },
            Bound::Sampler,
        ],
        group_fits(Pipeline::Tile, r@),
{
    let mut v: Vec<Bound> = Vec::new();
    v.push(Bound::Texture { plan: flat_plan(width, height, Texels::Encoded) });
    v.push(Bound::Sampler);
    assert(v@ =~= seq![
        Bound::Texture { plan: flat(width, height, Texels::Encoded) },
        Bound::Sampler,
    ]);
    v
}

/// What the sweep of a radar binds: its gates across and azimuths down, a color table of three
/// rows by precipitation type, and the grid of those types.
pub fn radar_bindings(r: &RadarUpload) -> (v: Vec<Bound>)
    requires
        r.countable(),
    ensures
        v@ == seq![
            Bound::Uniform { size: 80 },
            Bound::Texture { plan: flat(r.gate_count, r.az_bins, Texels::Index) },
            Bound::Texture { plan: flat(256, 3, Texels::Encoded) },
            Bound::Texture { plan: flat(r.flag_grid().0, r.flag_grid().1, Texels::Index) },
        ],
        group_fits(Pipeline::Radar, v@),
{
    let (fnx, fny) = flag_dims(r);
    let mut v: Vec<Bound> = Vec::new();
    v.push(Bound::Uniform { size: 80 });
    v.push(Bound::Texture { plan: flat_plan(r.gate_count, r.az_bins, Texels::Index) });
    v.push(Bound::Texture { plan: flat_plan(256, 3, Texels::Encoded) });
    v.push(Bound::Texture { plan: flat_plan(fnx, fny, Texels::Index) });
    assert(v@ =~= seq![
        Bound::Uniform { size: 80 },
        Bound::Texture { plan: flat(r.gate_count, r.az_bins, Texels::Index) },
        Bound::Texture { plan: flat(256, 3, Texels::Encoded) },
        Bound::Texture { plan: flat(r.flag_grid().0, r.flag_grid().1, Texels::Index) },
    ]);
    v
}

/// What the observed gates bind.
pub fn build_observed() -> (v: Vec<Bound>)
    ensures
        v@ == seq![
            Bound::Uniform { size: 48 },
            Bound::Texture { plan: flat(256, 1, Texels::Encoded) },
        ],
        group_fits(Pipeline::Observed, v@),
{
    let mut v: Vec<Bound> = Vec::new();
    v.push(Bound::Uniform { size: 48 });
    v.push(Bound::Texture { plan: flat_plan(256, 1, Texels::Encoded) });
    assert(v@ =~= seq![
        Bound::Uniform { size: 48 },
        Bound::Texture { plan: flat(256, 1, Texels::Encoded) },
    ]);
    v
}

/// What a gridded field of that size binds: its indices and its color table.
pub fn build_field_layer(nx: u32, ny: u32) -> (v: Vec<Bound>)
    ensures
        v@ == seq![
            Bound::Uniform { size: 48 },
            Bound::Texture { plan: flat(nx, ny, Texels::Index) },
            Bound::Texture { plan: flat(256, 1, Texels::Encoded) },
        ],
        group_fits(Pipeline::Field, v@),
{
    let mut v: Vec<Bound> = Vec::new();
    v.push(Bound::Uniform { size: 48 });
    v.push(Bound::Texture { plan: flat_plan(nx, ny, Texels::Index) });
    v.push(Bound::Texture { plan: flat_plan(256, 1, Texels::Encoded) });
    assert(v@ =~= seq![
        Bound::Uniform { size: 48 },
        Bound::Texture { plan: flat(nx, ny, Texels::Index) },
        Bound::Texture { plan: flat(256, 1, Texels::Encoded) },
    ]);
    v
}

/// The bytes of the raymarch's uniforms: a matrix and eleven vectors.
pub const RAYMARCH_UNIFORM: u64 = 240;

/// What a volume of `n` by `n` columns and `nz` levels binds.
pub fn volume_bindings(n: u32, nz: u32) -> (v: Vec<Bound>)
    requires
        2 * n <= u32::MAX,
    ensures
        v@ == seq![
            Bound::Uniform { size: RAYMARCH_UNIFORM },
            Bound::Texture { plan: cube(n, nz) },
            Bound::Texture { plan: flat(256, 1, Texels::Linear) },
            Bound::Sampler,
        ],
        group_fits(Pipeline::Raymarch, v@),
{
    let mut v: Vec<Bound> = Vec::new();
    v.push(Bound::Uniform { size: RAYMARCH_UNIFORM });
    v.push(
        Bound::Texture {
            plan: TexturePlan {
                width: n,
                height: n,
                depth: nz,
                texels: Texels::Pair,
                bytes_per_row: n * 2,
                rows_per_image: n,
                solid: true,
            },
        },
    );
    v.push(Bound::Texture { plan: flat_plan(256, 1, Texels::Linear) });
    v.push(Bound::Sampler);
    assert(v@ =~= seq![
        Bound::Uniform { size: RAYMARCH_UNIFORM },
        Bound::Texture { plan: cube(n, nz) },
        Bound::Texture { plan: flat(256, 1, Texels::Linear) },
        Bound::Sampler,
    ]);
    v
}

/// A grid of `n` by `n` by `nz` indices, packed in pairs, fills the texture of the volume.
pub proof fn packed_grids_fill_the_cube(n: u32, nz: u32, cells: nat)
    requires
        cells == n * n * nz,
    ensures
        2 * cells == cube(n, nz).size(),
{
    let c = n as int * n as int * nz as int;
    assert(cube(n, nz).size() == c * 2);
}

/// The precipitation grid's bytes fill the texture that is bound for it.
pub proof fn flags_fill_their_texture(r: RadarUpload)
    ensures
        crate::render::frame::flag_data(r.precip_flag@, r.flag_grid()).len() == flat(
            r.flag_grid().0,
            r.flag_grid().1,
            Texels::Index,
        ).size(),
{
    crate::render::frame::flag_bytes_fill_the_grid(r);
    let (a, b) = r.flag_grid();
    assert(a * b * 1 * 1 == a * b) by (nonlinear_arith);
}

/// The two triangles of a field share the diagonal and between them have all four corners.
pub proof fn two_triangles_cover_a_field(
    min: (Number32, Number32),
    max: (Number32, Number32),
)
    ensures
        ({
            let c = field_corners(min, max);
            &&& c.len() == 6
            &&& c[0] == (min.0, min.1) && c[2] == (max.0, max.1)
            &&& c[3] == c[0] && c[4] == c[2]
            &&& c[1].0 == max.0 && c[1].1 == min.1
            &&& c[5].0 == min.0 && c[5].1 == max.1
        }),
{
}

/// The numbers of a vertex add up attribute by attribute.
pub proof fn attributes_add_up(a: Seq<u8>, b: Seq<u8>)
    ensures
        a.len() == 0 ==> numbers_in(a) == 0,
        a.len() == 1 ==> numbers_in(a) == a[0],
        numbers_in(a + b) == numbers_in(a) + numbers_in(b),
    decreases b.len(),
{
    if a.len() == 1 {
        assert(a.drop_last() =~= Seq::<u8>::empty());
        assert(numbers_in(a.drop_last()) == 0);
    }
    if b.len() == 0 {
        assert(a + b =~= a);
    } else {
        assert((a + b).drop_last() =~= a + b.drop_last());
        attributes_add_up(a, b.drop_last());
    }
}

/// A texture takes a byte for each index, two for each pair and four for each color, row behind row.
pub proof fn textures_hold_their_texels(width: u32, height: u32, depth: u32)
    requires
        4 * width <= u32::MAX,
    ensures
        flat(width, height, Texels::Index).size() == width * height,
        flat(width, height, Texels::Linear).size() == 4 * (width * height),
        flat(width, height, Texels::Encoded).size() == 4 * (width * height),
        flat(width, height, Texels::Linear).packed(),
        flat(width, height, Texels::Index).packed(),
        cube(width, depth).size() == 2 * (width * width * depth),
        cube(width, depth).packed(),
{
    let a = width * height;
    assert(width * height * 1 * 1 == a && width * height * 1 * 4 == 4 * a) by (nonlinear_arith)
        requires
            a == width * height,
    ;
    assert(width * width * depth * 2 == 2 * (width * width * depth)) by (nonlinear_arith);
}

/// A slot takes only what it is for: a buffer as large as it asks, whole numbers for indices, colors
/// that are flat, pairs that have depth.
pub proof fn slots_take_what_they_are_for(s: Slot, b: Bound)
    requires
        fits(s, b),
    ensures
        s.kind is Uniform <==> b is Uniform,
        s.kind is Sampler <==> b is Sampler,
        s.kind is Volume ==> b->plan.solid && b->plan.texels != Texels::Index,
        s.kind is Indices ==> !b->plan.solid && b->plan.texels == Texels::Index,
        s.kind is Colors ==> !b->plan.solid && b->plan.texels != Texels::Index,
        s.kind matches SlotKind::Uniform { min_size } ==> b->size >= min_size,
{
}

} // verus!
