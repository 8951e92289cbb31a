//! What the map draws, and in which order.

use hookecho::render::fallback::{QuadPart, UvRect};
use hookecho::render::field_ramps::{
    global_dewpoint_2m, global_height_500, global_mslp, global_temp_2m, global_wind_10m, ramp_for,
    snowfall, wind, FieldScale,
};
use hookecho::render::frame::{RadarStep, RadarTextures, WindStep};
use hookecho::render::layouts::{
    build_field_layer, build_observed, field_verts, overlay_entry, radar_bindings, slots,
    upload_tile, vertex_shape, volume_bindings, Bound, Pipeline, Texels,
};
use hookecho::render::{
    ancestor_uv, build_radar, flag_bytes, flag_dims, tile_quads, tile_verts, vector_draw_tiles,
    DrawOp, FieldLayer, MapCallback, RadarUpload, RenderResources,
};
use hookecho::render3d::{pack_rg8, MapVolume3dResources, Volume3dResources};
use hookecho::settings::{Number32, TempUnit};

#[test]
fn only_the_kelvin_ramps_ask_for_temperature_conversion() {
    assert!(global_temp_2m().is_temp_kelvin, "labelled K, must convert");
    assert!(global_dewpoint_2m().is_temp_kelvin, "labelled K, must convert");
    for (name, r) in [
        ("MSLP", global_mslp()),
        ("500mb height", global_height_500()),
        ("10m wind", global_wind_10m()),
        ("wind particles", wind()),
        ("snowfall", snowfall()),
    ] {
        assert!(!r.is_temp_kelvin, "{name} is not a temperature ramp");
    }
}

/// Layers colored outside the table: the six that follow tables of their own, and the three that
/// show another source's picture.
const NO_RAMP: [FieldLayer; 9] = [
    FieldLayer::Mrms,
    FieldLayer::Mosaic,
    FieldLayer::CompositeLocal,
    FieldLayer::Hrrr,
    FieldLayer::Lightning,
    FieldLayer::ModelDiff,
    FieldLayer::CompareA,
    FieldLayer::CompareB,
    FieldLayer::GoesIr,
];

#[test]
fn every_layer_is_either_ramped_or_explicitly_exempt() {
    for l in FieldLayer::DRAW_ORDER {
        let exempt = NO_RAMP.contains(&l);
        assert_eq!(
            ramp_for(l).is_some(),
            !exempt,
            "{l:?} must have a ramp or be listed in NO_RAMP"
        );
    }
}

#[test]
fn ramps_are_labeled_and_ordered() {
    for l in FieldLayer::DRAW_ORDER {
        let Some(r) = ramp_for(l) else { continue };
        assert!(!r.label.is_empty(), "{l:?}");
        if let FieldScale::Ramp { lo, hi, .. } = r.scale {
            assert!(lo < hi, "{l:?}: lo {lo} must be below hi {hi}");
        }
    }
}

#[test]
fn a_legend_reads_in_the_readers_unit() {
    let r = global_temp_2m();
    let FieldScale::Ramp { lo, .. } = r.scale else { panic!("a ramp") };
    let (c, _, unit) = r.legend_bounds(TempUnit::Celsius);
    assert_eq!((c, unit), ((lo as i64 - 273_150) * 10, "°C"));
    let (f, _, unit) = r.legend_bounds(TempUnit::Fahrenheit);
    assert_eq!((f, unit), ((lo as i64 - 273_150) * 18 + 320_000, "°F"));
    let m = ramp_for(FieldLayer::Mesh).unwrap();
    let (lo, hi, units) = m.legend_bounds(TempUnit::Fahrenheit);
    assert_eq!((lo, hi, units), (100_000, 750_000, m.units));
    let h = ramp_for(FieldLayer::Hca).unwrap();
    assert_eq!(h.legend_bounds(TempUnit::Celsius).0, 0);
}

#[test]
fn every_layer_has_a_slug_that_parses_back() {
    for l in FieldLayer::DRAW_ORDER {
        assert_eq!(FieldLayer::from_slug(l.slug()), Some(l), "{}", l.slug());
    }
    let mut slugs: Vec<&str> = FieldLayer::DRAW_ORDER.iter().map(|l| l.slug()).collect();
    slugs.sort_unstable();
    let n = slugs.len();
    slugs.dedup();
    assert_eq!(slugs.len(), n, "two layers share a slug");
    assert_eq!(FieldLayer::from_slug("not-a-layer"), None);
}

#[test]
fn zooming_both_ways_keeps_cached_tiles_and_current_detail_wins() {
    let parent = (4, 3, 5);
    let child = (5, 6, 10);
    let sibling = (5, 7, 10);
    let far = (5, 20, 20);
    let grandparent = (3, 1, 2);
    assert_eq!(vector_draw_tiles(&[child], &[grandparent, parent]), vec![parent]);
    assert_eq!(vector_draw_tiles(&[child], &[parent, far]), vec![parent]);
    assert_eq!(vector_draw_tiles(&[parent], &[child, far]), vec![child]);
    assert_eq!(vector_draw_tiles(&[child, sibling], &[parent, child]), vec![parent, child]);
    assert_eq!(vector_draw_tiles(&[child], &[parent, child]), vec![child]);
    assert!(vector_draw_tiles(&[child], &[far]).is_empty());
}

/// A crop as fractions of the texture.
fn fractions(r: UvRect) -> ([f32; 2], [f32; 2]) {
    let n = r.of as f32;
    (
        [r.min.0 as f32 / n, r.min.1 as f32 / n],
        [r.max.0 as f32 / n, r.max.1 as f32 / n],
    )
}

#[test]
fn ancestor_uv_picks_the_right_quadrant() {
    // Direct parent: (x, y) = (3, 2) is the odd column, even row -> right/top quadrant.
    assert_eq!(fractions(ancestor_uv(3, 2, 1)), ([0.5, 0.0], [1.0, 0.5]));
    assert_eq!(fractions(ancestor_uv(2, 3, 1)), ([0.0, 0.5], [0.5, 1.0]));
    // Two levels up: sixteenths, and only the low bits matter.
    assert_eq!(fractions(ancestor_uv(0, 0, 2)), ([0.0, 0.0], [0.25, 0.25]));
    assert_eq!(fractions(ancestor_uv(7, 5, 2)), ([0.75, 0.25], [1.0, 0.5]));
    // Three levels up: the whole ancestor is still covered exactly.
    let (min, max) = fractions(ancestor_uv(7, 7, 3));
    assert_eq!(min, [0.875, 0.875]);
    assert_eq!(max, [1.0, 1.0]);
}

#[test]
fn a_missing_tile_is_drawn_from_what_is_there() {
    let id = (5, 6, 10);
    let whole = tile_quads(&[(1, id)], 1, id);
    assert_eq!(whole.len(), 1);
    assert_eq!(whole[0].part, QuadPart::Whole);
    // The same tile of another style is another texture.
    assert!(tile_quads(&[(2, id)], 1, id).is_empty());
    let parent = tile_quads(&[(1, (4, 3, 5))], 1, id);
    assert_eq!(parent[0].part, QuadPart::Crop(ancestor_uv(6, 10, 1)));
    let child = tile_quads(&[(1, (6, 12, 20))], 1, id);
    assert!(child.iter().any(|q| q.key == (1, (6, 12, 20))));
    assert_eq!(tile_verts(&[(1, id)], 1, &[id, id]).len(), 2);
}

fn sweep(flag_nx: u32, flag_ny: u32, flags: Vec<u8>, lut_only: bool) -> RadarUpload {
    RadarUpload { az_bins: 360, gate_count: 1000, flag_nx, flag_ny, precip_flag: flags, lut_only }
}

#[test]
fn the_precipitation_grid_is_a_dummy_unless_its_bytes_match() {
    let on = sweep(2, 3, vec![1; 6], false);
    assert_eq!(flag_dims(&on), (2, 3));
    assert_eq!(flag_bytes(&on, (2, 3)), vec![1; 6]);
    let off = sweep(0, 0, vec![], false);
    assert_eq!(flag_dims(&off), (1, 1));
    assert_eq!(flag_bytes(&off, (1, 1)), vec![0]);
    let short = sweep(2, 3, vec![1; 5], false);
    assert_eq!(flag_dims(&short), (1, 1));
    assert_eq!(flag_bytes(&short, (1, 1)), vec![0]);
}

#[test]
fn a_sweep_of_the_same_shape_is_written_in_place() {
    let shape = RadarTextures { dims: (1000, 360), flag_dims: (1, 1) };
    let full = sweep(0, 0, vec![], false);
    let table = sweep(0, 0, vec![], true);
    assert_eq!(build_radar(&full, None), RadarStep::Build(shape));
    assert_eq!(build_radar(&full, Some(shape)), RadarStep::Rewrite);
    assert_eq!(build_radar(&table, Some(shape)), RadarStep::Recolor);
    assert_eq!(build_radar(&table, None), RadarStep::Keep);
    let other = RadarTextures { dims: (500, 360), flag_dims: (1, 1) };
    assert_eq!(build_radar(&table, Some(other)), RadarStep::Keep);
    assert_eq!(build_radar(&full, Some(other)), RadarStep::Build(shape));
}

#[test]
fn groups_bind_what_their_slots_take() {
    for (p, bound) in [
        (Pipeline::Tile, upload_tile(256, 256)),
        (Pipeline::Radar, radar_bindings(&sweep(2, 3, vec![1; 6], false))),
        (Pipeline::Observed, build_observed()),
        (Pipeline::Field, build_field_layer(700, 350)),
        (Pipeline::Raymarch, volume_bindings(128, 32)),
    ] {
        assert_eq!(slots(p).len(), bound.len(), "{p:?}");
    }
    assert!(slots(Pipeline::Overlay).is_empty());
    match build_field_layer(700, 350)[1] {
        Bound::Texture { plan } => {
            assert_eq!((plan.width, plan.height, plan.bytes_per_row), (700, 350, 700));
            assert_eq!(plan.texels, Texels::Index);
        }
        _ => panic!("the grid"),
    }
    match volume_bindings(128, 32)[1] {
        Bound::Texture { plan } => {
            assert_eq!((plan.depth, plan.bytes_per_row, plan.rows_per_image), (32, 256, 128));
            assert!(plan.solid);
        }
        _ => panic!("the volume"),
    }
    match upload_tile(512, 256)[0] {
        Bound::Texture { plan } => assert_eq!(plan.bytes_per_row, 2048),
        _ => panic!("the picture"),
    }
}

#[test]
fn vertices_are_as_wide_as_their_attributes() {
    assert_eq!(vertex_shape(Pipeline::Tile).stride, 16);
    assert_eq!(vertex_shape(Pipeline::Radar).stride, 8);
    assert_eq!(vertex_shape(Pipeline::Observed).stride, 32);
    assert!(vertex_shape(Pipeline::Observed).per_instance);
    assert_eq!(vertex_shape(Pipeline::Overlay).stride, 36);
    assert_eq!(overlay_entry(true), "fs_main");
    assert_eq!(overlay_entry(false), "fs_main_gamma");
    let n = |f: f32| Number32 { bits: f.to_bits() };
    let v = field_verts((n(0.0), n(0.25)), (n(1.0), n(0.75)));
    assert_eq!(v[1], (n(1.0), n(0.25)));
    assert_eq!(v[5], (n(0.0), n(0.75)));
}

#[test]
fn volumes_are_packed_in_pairs() {
    assert_eq!(pack_rg8(&[0, 1, 2, 255]), vec![0, 0, 1, 0, 2, 255, 255, 255]);
}

#[test]
fn a_volume_builds_its_pipeline_once() {
    let mut w = Volume3dResources::new();
    assert!(!w.record());
    assert!(!w.prepare(false).build_pipeline);
    assert!(w.prepare(true).build_pipeline);
    assert!(w.record());
    assert!(!w.prepare(true).build_pipeline);
    assert!(w.render_once().1);

    let mut m = MapVolume3dResources::new(4);
    assert!(!m.prepare(1, false).write_uniform);
    let first = m.prepare(1, true);
    assert!(first.build_pipeline && first.build_uniform && first.upload && first.write_uniform);
    let other = m.prepare(2, true);
    assert!(!other.build_pipeline && other.build_uniform);
    assert!(m.record_for_pane(1) && !m.record_for_pane(0));
}

fn callback() -> MapCallback {
    MapCallback {
        pane: 0,
        camera_center: (0, 0),
        camera_scale: (1, 1),
        new_tiles: vec![(1, (3, 2, 2))],
        visible: vec![(3, 2, 2)],
        basemap_key: 1,
        vector_over_raster: false,
        radar_upload: Some(sweep(0, 0, vec![], false)),
        draw_radar: true,
        observed_upload: false,
        draw_observed: false,
        overlay_upload: Some(3),
        draw_overlay: true,
        clear_tiles: false,
        drop_tiles: vec![],
        field_uploads: vec![FieldLayer::Cape, FieldLayer::Mesh],
        field_draws: vec![FieldLayer::Mesh, FieldLayer::Cape],
        drop_fields: vec![],
        new_vector_tiles: vec![],
        visible_vector: vec![],
        clear_vector: false,
        drop_vector_tiles: vec![],
        wind_upload: false,
        wind: false,
    }
}

#[test]
fn radar_separates_the_bands() {
    let mut res = RenderResources::new();
    let (plan, ops) = res.render_once(&callback());
    assert!(matches!(plan.radar, RadarStep::Build(_)));
    let at = |op: DrawOp| ops.iter().position(|o| *o == op);
    let radar = at(DrawOp::Radar).expect("the radar is drawn");
    for l in [FieldLayer::Mesh, FieldLayer::Cape] {
        let i = at(DrawOp::Field(l)).expect("a staged layer is drawn");
        assert_eq!(i < radar, l.below_radar(), "{l:?}");
    }
    assert_eq!(ops[0], DrawOp::Tile(0, (1, (3, 2, 2))));
    assert_eq!(*ops.last().unwrap(), DrawOp::Overlay);
}

#[test]
fn wind_is_drawn_once_its_particles_were_stepped() {
    let mut res = RenderResources::new();
    let mut cb = callback();
    cb.wind_upload = true;
    let (_, ops) = res.render_once(&cb);
    assert!(!ops.contains(&DrawOp::Wind), "staging alone builds no particles");
    let step = res.step_wind(&cb);
    assert_eq!(step, WindStep { build: true, upload: true, advance: false });
    cb.wind = true;
    cb.wind_upload = false;
    let step = res.step_wind(&cb);
    assert_eq!(step, WindStep { build: false, upload: false, advance: true });
    let (_, ops) = res.render_once(&cb);
    let at = |op: DrawOp| ops.iter().position(|o| *o == op).unwrap();
    assert!(at(DrawOp::Wind) < at(DrawOp::Overlay), "under the overlay");
    let mut idle = RenderResources::new();
    let step = idle.step_wind(&callback());
    assert_eq!(step, WindStep { build: false, upload: false, advance: false });
    assert!(!idle.wind);
}

#[test]
fn a_still_map_uploads_nothing() {
    let mut res = RenderResources::new();
    let first = res.prepare_pane(&callback());
    assert_eq!(first.quads.map(|q| q.len()), Some(1));
    let mut still = callback();
    still.new_tiles = vec![];
    still.radar_upload = None;
    still.overlay_upload = None;
    still.field_uploads = vec![];
    let plan = res.prepare_pane(&still);
    assert!(plan.quads.is_none());
    assert_eq!(plan.radar, RadarStep::Keep);
    let mut moved = callback();
    moved.camera_center = (5, 0);
    moved.new_tiles = vec![];
    assert!(res.prepare_pane(&moved).quads.is_some());
}

#[test]
fn a_dropped_layer_is_not_painted() {
    let mut res = RenderResources::new();
    let mut cb = callback();
    cb.drop_fields = vec![FieldLayer::Mesh];
    cb.field_uploads = vec![FieldLayer::Cape];
    let (_, ops) = res.render_once(&cb);
    assert!(ops.contains(&DrawOp::Field(FieldLayer::Cape)));
    assert!(!ops.contains(&DrawOp::Field(FieldLayer::Mesh)));
}
