//! Basemap styles, tile addresses, and which tiles stay.

use hookecho::clock::Stamp;
use hookecho::render::{MapCallback, RenderResources};
use hookecho::tiles::bbox::metres;
use hookecho::tiles::cover::TileBox;
use hookecho::tiles::disk::{CacheFile, Sweep, SMALL_CACHE_BYTES};
use hookecho::tiles::manager::{
    finish_fetch, Frame, TileResult, MAX_INFLIGHT, RASTER_TILE_BYTES, RETRY_AFTER_MS,
};
use hookecho::tiles::requests::ThumbStep;
use hookecho::tiles::times::{frame_times, parse_iso_minutes, FrameTimes};
use hookecho::tiles::{
    fill_template, goes_window, pack_tile_count, pack_tile_ids, parse_goes_domain, set_cache_caps,
    template_hash, tile_bbox_3857, tile_cache_bytes, tile_cover, valid_xyz_template,
    volume_cache_bytes, wms_frames, wms_url, BasemapStyle, CacheCaps, Category, Palette,
    TileManager, DISK_CACHE_BYTES, VOLUME_CACHE_BYTES,
};

const SECOND: i128 = 1_000_000_000;

const MINUTE: i128 = 60 * SECOND;

fn instant(secs: i64) -> i128 {
    secs as i128 * SECOND
}

fn shown(t: Stamp, pattern: &str) -> String {
    chrono::DateTime::from_timestamp(t.secs, t.nanos)
        .unwrap()
        .format(pattern)
        .to_string()
}

#[test]
fn eviction_weighs_bytes() {
    let mut m = TileManager::new();
    // 512-px tiles: 1 MB each, so well under 512 entries busts the byte budget.
    let per = 512u32 * 512 * 4;
    let n = (RASTER_TILE_BYTES / per as u64) as usize + 20;
    for i in 0..n {
        m.uploaded.push((0, (6, i as u32, 0)), per);
    }
    let dropped = m.evict_excess();
    assert!(!dropped.is_empty(), "byte budget must evict");
    let total: u64 = m.uploaded.iter().map(|(_, b)| *b as u64).sum();
    assert!(total <= RASTER_TILE_BYTES, "{total} over {RASTER_TILE_BYTES}");
}

#[test]
fn the_default_basemap_ships_usable() {
    let d = BasemapStyle::default();
    assert_eq!(d, BasemapStyle::Dark);
    assert_eq!(d.slug(), "dark");
    assert!(d.available(false, false, false));
    assert!(!d.is_raster());
    assert_eq!(d.vector_palette(), Some(Palette::Dark));
    assert_eq!(BasemapStyle::COMMON[0], d);
    assert!(d.short_label().len() <= 14, "{}", d.short_label());
}

#[test]
fn style_keys_are_unique() {
    let mut seen = std::collections::HashSet::new();
    for s in BasemapStyle::ALL {
        assert!(seen.insert(s.key()), "duplicate style key for {s:?}");
    }
    assert_eq!(seen.len(), BasemapStyle::ALL.len());
}

#[test]
fn cache_caps_fall_back_to_the_platform_default_at_zero() {
    let mut caps = CacheCaps::new();
    assert_eq!(tile_cache_bytes(&caps), DISK_CACHE_BYTES);
    assert_eq!(volume_cache_bytes(&caps), VOLUME_CACHE_BYTES);
    set_cache_caps(&mut caps, 64, 128);
    assert_eq!(tile_cache_bytes(&caps), 64 * 1024 * 1024);
    assert_eq!(volume_cache_bytes(&caps), 128 * 1024 * 1024);
    set_cache_caps(&mut caps, 0, 0);
    assert_eq!(tile_cache_bytes(&caps), DISK_CACHE_BYTES);
}

#[test]
fn pack_tile_count_covers_expected() {
    // The whole world at z0 is a single tile.
    let world = vec![TileBox { x0: 0, x1: 1, y0: 0, y1: 1 }];
    assert_eq!(pack_tile_count(0, &world), 1);
    // A sub-tile-sized box still needs at least one tile at each level.
    let five = vec![TileBox { x0: 7, x1: 8, y0: 12, y1: 13 }];
    let six = vec![TileBox { x0: 14, x1: 15, y0: 25, y1: 26 }];
    assert_eq!(pack_tile_count(6, &six), 1);
    // Summing a range equals summing its levels.
    let a = pack_tile_count(5, &five);
    let b = pack_tile_count(6, &six);
    let both = vec![
        TileBox { x0: 7, x1: 8, y0: 12, y1: 13 },
        TileBox { x0: 14, x1: 15, y0: 25, y1: 26 },
    ];
    assert_eq!(pack_tile_count(5, &both), a + b);
    // id list length matches the count.
    let wide = vec![
        TileBox { x0: 28, x1: 30, y0: 50, y1: 52 },
        TileBox { x0: 57, x1: 60, y0: 100, y1: 103 },
        TileBox { x0: 115, x1: 120, y0: 200, y1: 206 },
    ];
    assert_eq!(pack_tile_ids(7, &wide).len() as u64, pack_tile_count(7, &wide));
    assert_eq!(pack_tile_count(7, &wide), 4 + 9 + 30);
}

#[test]
fn sweep_trims_oldest_first() {
    // Three 1 KB files, a cap of 2 KB: exactly one goes, and it is the oldest.
    let files = vec![
        CacheFile { touched: 30, bytes: 1024 },
        CacheFile { touched: 10, bytes: 1024 },
        CacheFile { touched: 20, bytes: 1024 },
    ];
    let mut s = Sweep::new(&files, 2048);
    assert_eq!(s.next(), Some(1), "oldest goes first");
    s.tried(true);
    assert_eq!(s.next(), None, "the rest stay");
}

#[test]
fn a_file_that_cannot_be_removed_is_passed_over() {
    let files = vec![
        CacheFile { touched: 1, bytes: 1000 },
        CacheFile { touched: 2, bytes: 1000 },
        CacheFile { touched: 3, bytes: 1000 },
    ];
    let mut s = Sweep::new(&files, 2500);
    assert_eq!(s.next(), Some(0));
    s.tried(false);
    assert_eq!(s.next(), Some(1));
    s.tried(true);
    assert_eq!(s.next(), None);
}

#[test]
fn a_cache_under_its_cap_is_left_alone() {
    let files = vec![CacheFile { touched: 1, bytes: SMALL_CACHE_BYTES }];
    assert_eq!(Sweep::new(&files, SMALL_CACHE_BYTES).next(), None);
}

#[test]
fn parses_goes_domain_ranges() {
    let xml = "<Domains><DimensionDomain><ows:Identifier>time</ows:Identifier>\
        <Domain>2026-07-18T22:00:00Z/2026-07-18T22:20:00Z/PT10M,2026-07-18T23:00:00Z/2026-07-18T23:00:00Z/PT10M</Domain>\
        </DimensionDomain></Domains>";
    let times = parse_goes_domain(xml, 100);
    assert_eq!(times.len(), 4);
    assert_eq!(shown(*times.last().unwrap(), "%H:%M"), "23:00");
    assert_eq!(shown(times[0], "%H:%M"), "22:00");
}

#[test]
fn a_domain_range_may_open_on_a_bare_date() {
    let xml = "<Domain>2026-08-29/2026-08-29T01:00:00Z/PT30M</Domain>";
    let times = parse_goes_domain(xml, 100);
    assert_eq!(times.len(), 3, "00:00, 00:30, 01:00");
    assert_eq!(shown(times[0], "%Y-%m-%dT%H:%M"), "2026-08-29T00:00");
}

#[test]
fn a_domain_that_says_nothing_has_no_frames() {
    assert!(parse_goes_domain("", 10).is_empty());
    assert!(parse_goes_domain("<Domain></Domain>", 10).is_empty());
    assert!(parse_goes_domain("<Domain>soon/later/PT10M</Domain>", 10).is_empty());
    assert!(parse_goes_domain("<Domain>2026-08-29/2026-08-30/P1D</Domain>", 0).is_empty());
}

/// What the calendar library makes of a range, step by step.
fn stepped(from: &str, to: &str, minutes: i64) -> Vec<Stamp> {
    let read = |s: &str| s.parse::<chrono::DateTime<chrono::Utc>>().unwrap();
    let (mut t, end) = (read(from), read(to));
    let mut out = Vec::new();
    while t <= end {
        out.push(Stamp { secs: t.timestamp(), nanos: t.timestamp_subsec_nanos() });
        t += chrono::Duration::minutes(minutes);
    }
    out
}

#[test]
fn a_leap_second_is_kept_apart() {
    for (from, to) in [
        ("2016-12-31T23:59:60Z", "2017-01-01T00:30:00Z"),
        ("2016-12-31T23:39:59.5Z", "2016-12-31T23:59:60Z"),
        ("2016-12-31T23:59:60Z", "2016-12-31T23:59:60Z"),
        ("2017-01-01T00:00:00Z", "2016-12-31T23:59:60Z"),
        ("2016-12-31T23:59:60.25Z", "2017-01-01T00:09:59.25Z"),
    ] {
        let xml = format!("<Domain>{from}/{to}/PT10M</Domain>");
        assert_eq!(parse_goes_domain(&xml, 100), stepped(from, to, 10), "{from} to {to}");
    }
    // The leap second and the midnight after it are two frames, in that order.
    let xml = "<Domain>2017-01-01T00:00:00Z,2016-12-31T23:59:60Z</Domain>";
    let times = parse_goes_domain(xml, 100);
    assert_eq!(times.len(), 2);
    assert_eq!(Frame::at(times[0]).unwrap().iso, "2016-12-31T23:59:60Z");
    assert_eq!(Frame::at(times[1]).unwrap().iso, "2017-01-01T00:00:00Z");
}

#[test]
fn stepping_visits_every_available_style_once() {
    for (mb, mt, c) in [(false, false, false), (true, false, true), (true, true, true)] {
        let open: Vec<_> =
            BasemapStyle::ALL.into_iter().filter(|s| s.available(mb, mt, c)).collect();
        for start in &open {
            let mut seen = vec![start.next(mb, mt, c)];
            while seen.len() < open.len() {
                seen.push(seen.last().unwrap().next(mb, mt, c));
            }
            assert_eq!(seen.last(), Some(start), "it ends where it began");
            assert!(open.iter().all(|s| seen.contains(s)), "none is passed over");
        }
    }
    assert_eq!(BasemapStyle::Dark.next(false, false, false), BasemapStyle::ALL[1]);
}

#[test]
fn steps_are_read_in_minutes() {
    assert_eq!(parse_iso_minutes("PT10M"), Some(10));
    assert_eq!(parse_iso_minutes("PT2H"), Some(120));
    assert_eq!(parse_iso_minutes("P1D"), None);
    assert_eq!(parse_iso_minutes("10"), None);
}

#[test]
fn the_gibs_table_reaches_past_goes() {
    for (style, layer, level, credit) in [
        (BasemapStyle::HimawariIR, "Himawari_AHI_Band13_Clean_Infrared", 6, "Himawari"),
        (BasemapStyle::HimawariVisible, "Himawari_AHI_Band3_Red_Visible_1km", 7, "Himawari"),
        (BasemapStyle::ImergRate, "IMERG_Precipitation_Rate_30min", 6, "IMERG"),
    ] {
        assert_eq!(style.goes_layer(), Some((layer, level)), "{style:?}");
        assert!(style.timed(), "{style:?} has a time dimension");
        let url = style.url(4, 3, 6, false, "", "", "").expect("a GIBS style resolves");
        assert!(url.contains(&format!("/{layer}/default/default/")), "{url}");
        assert!(url.contains(&format!("GoogleMapsCompatible_Level{level}/4/6/3")), "{url}");
        assert!(style.attribution().contains(credit), "{style:?}: {}", style.attribution());
    }
    assert_eq!(BasemapStyle::ImergRate.category(), Category::Weather);
    assert_eq!(BasemapStyle::HimawariIR.category(), Category::Satellite);
}

#[test]
fn goes_domain_limit_keeps_most_recent() {
    let xml = "<Domain>2026-07-18T00:00:00Z/2026-07-18T01:00:00Z/PT10M</Domain>";
    let times = parse_goes_domain(xml, 3);
    assert_eq!(times.len(), 3);
    assert_eq!(shown(*times.last().unwrap(), "%H:%M"), "01:00");
}

#[test]
fn slug_roundtrips_for_all_styles() {
    for s in BasemapStyle::ALL {
        assert_eq!(BasemapStyle::from_slug(s.slug()), s, "slug roundtrip {s:?}");
    }
}

#[test]
fn keyless_rasters_have_urls() {
    let keyless = [
        BasemapStyle::OsmStandard,
        BasemapStyle::OpenTopoMap,
        BasemapStyle::CartoPositron,
        BasemapStyle::CartoDarkMatter,
        BasemapStyle::CartoVoyager,
        BasemapStyle::EsriImagery,
        BasemapStyle::EsriStreets,
        BasemapStyle::EsriTopo,
        BasemapStyle::UsgsTopo,
        BasemapStyle::UsgsImageryTopo,
        BasemapStyle::OsmHot,
        BasemapStyle::CyclOsm,
        BasemapStyle::EsriDarkGray,
        BasemapStyle::EsriLightGray,
        BasemapStyle::EsriNatGeo,
        BasemapStyle::EsriOcean,
        BasemapStyle::HybridSatellite,
    ];
    for s in keyless {
        assert!(s.is_raster(), "{s:?} should be raster");
        assert!(
            s.url(6, 15, 25, false, "", "", "").is_some(),
            "{s:?} should have a keyless URL"
        );
    }
    // ArcGIS services use {z}/{y}/{x}: y before x in the path.
    let esri = BasemapStyle::EsriImagery.url(6, 15, 25, false, "", "", "").unwrap();
    assert!(esri.ends_with("/6/25/15"), "Esri y/x order: {esri}");
    // Standard slippy tiles use {z}/{x}/{y}.
    let osm = BasemapStyle::OsmStandard.url(6, 15, 25, false, "", "", "").unwrap();
    assert!(osm.ends_with("/6/15/25.png"), "OSM x/y order: {osm}");
    // Mapbox nav styles stay key-gated.
    assert!(BasemapStyle::MapboxNavDay.url(6, 15, 25, false, "", "", "").is_none());
    assert!(BasemapStyle::MapboxNavDay.url(6, 15, 25, false, "k", "", "").is_some());
}

#[test]
fn retina_only_changes_the_sources_that_serve_2x() {
    let carto = BasemapStyle::CartoDarkMatter;
    assert!(carto.url(6, 15, 25, true, "", "", "").unwrap().ends_with("@2x.png"));
    assert!(carto.url(6, 15, 25, false, "", "", "").unwrap().ends_with("/25.png"));
    assert_ne!(carto.provider(true, ""), carto.provider(false, ""));
    let osm = BasemapStyle::OsmStandard;
    assert_eq!(
        osm.url(6, 15, 25, true, "", "", ""),
        osm.url(6, 15, 25, false, "", "", "")
    );
    assert_eq!(osm.provider(true, ""), osm.provider(false, ""));
}

#[test]
fn max_zoom_matches_what_the_providers_actually_serve() {
    assert_eq!(BasemapStyle::Satellite.max_raster_z(), 16);
    assert_eq!(BasemapStyle::OpenTopoMap.max_raster_z(), 17);
    assert_eq!(BasemapStyle::OsmStandard.max_raster_z(), 19);
    assert_eq!(BasemapStyle::CartoDarkMatter.max_raster_z(), 20);
    assert_eq!(
        BasemapStyle::GoesEast.max_raster_z(),
        BasemapStyle::GoesEast.goes_layer().unwrap().1
    );
}

#[test]
fn auto_resolves_to_a_real_style_and_nothing_else_moves() {
    assert_eq!(BasemapStyle::Auto.resolve(true), BasemapStyle::Dark);
    assert_eq!(BasemapStyle::Auto.resolve(false), BasemapStyle::Light);
    assert!(!BasemapStyle::Auto.is_raster());
    for s in BasemapStyle::ALL {
        if s != BasemapStyle::Auto {
            assert_eq!(s.resolve(true), s, "{s:?} should not follow the theme");
            assert_eq!(s.resolve(false), s, "{s:?} should not follow the theme");
        }
    }
}

#[test]
fn only_hybrid_is_both_raster_and_vector() {
    for s in BasemapStyle::ALL {
        let both = s.is_raster() && s.vector_palette().is_some();
        assert_eq!(
            both,
            s == BasemapStyle::HybridSatellite,
            "{s:?} raster+vector should only be hybrid"
        );
    }
    assert_eq!(BasemapStyle::HybridSatellite.vector_palette(), Some(Palette::HybridOverlay));
}

#[test]
fn custom_template_is_validated_and_keyed_by_content() {
    assert!(valid_xyz_template("https://t.example/{z}/{x}/{y}.png"));
    assert!(!valid_xyz_template("http://t.example/{z}/{x}/{y}.png"));
    assert!(!valid_xyz_template("https://t.example/tiles.png"));
    assert!(!valid_xyz_template(""));
    assert!(!valid_xyz_template("file:///etc/{z}/{x}/{y}"));

    let good = "https://t.example/{z}/{x}/{y}.png";
    assert_eq!(
        BasemapStyle::CustomXyz.url(6, 15, 25, false, "", "", good),
        Some("https://t.example/6/15/25.png".to_string())
    );
    assert!(BasemapStyle::CustomXyz
        .url(6, 15, 25, false, "", "", "http://t.example/{z}/{x}/{y}")
        .is_none());
    assert_ne!(
        BasemapStyle::CustomXyz.provider(false, good),
        BasemapStyle::CustomXyz.provider(false, "https://other.example/{z}/{x}/{y}.png")
    );
    assert!(!BasemapStyle::CustomXyz.available(true, true, false));
}

#[test]
fn a_template_hash_is_the_fnv_of_its_bytes() {
    assert_eq!(template_hash(""), 0x811c_9dc5);
    assert_eq!(template_hash("a"), 0xe40c_292c);
    assert_eq!(template_hash("foobar"), 0xbf9c_f968);
}

#[test]
fn a_template_is_filled_everywhere() {
    assert_eq!(fill_template("{z}/{x}/{y}/{z}", 3, 1, 2), "3/1/2/3");
    assert_eq!(fill_template("no places", 3, 1, 2), "no places");
}

#[test]
fn every_palette_has_a_basemap_entry() {
    for pal in Palette::ALL {
        assert!(
            BasemapStyle::ALL.iter().any(|s| s.vector_palette() == Some(pal)),
            "{pal:?} is not reachable from the basemap list"
        );
    }
}

#[test]
fn categories_partition_the_style_list() {
    let mut seen = 0;
    for cat in Category::ALL {
        let n = BasemapStyle::ALL.iter().filter(|s| s.category() == cat).count();
        assert!(n > 0, "{cat:?} has no styles");
        seen += n;
    }
    assert_eq!(seen, BasemapStyle::ALL.len());
    for s in [BasemapStyle::Blank, BasemapStyle::Auto, BasemapStyle::CustomXyz] {
        assert_eq!(s.category(), Category::Other, "{s:?}");
    }
    for s in BasemapStyle::ALL {
        if s.goes_layer().is_some() && s != BasemapStyle::ImergRate {
            assert_eq!(s.category(), Category::Satellite, "{s:?}");
        }
    }
}

fn bbox_metres(z: u8, x: u32, y: u32) -> (f64, f64, f64, f64) {
    let unit = (57f64).exp2();
    let (x0, y0, x1, y1) = tile_bbox_3857(z, x, y);
    (x0 as f64 / unit, y0 as f64 / unit, x1 as f64 / unit, y1 as f64 / unit)
}

#[test]
fn a_wms_tile_asks_for_the_square_it_covers() {
    const HALF: f64 = 20_037_508.342_789_244;
    let (x0, y0, x1, y1) = bbox_metres(0, 0, 0);
    assert!((x0 + HALF).abs() < 1e-6 && (y1 - HALF).abs() < 1e-6);
    assert!((x1 - HALF).abs() < 1e-6 && (y0 + HALF).abs() < 1e-6);
    let (x0, y0, x1, y1) = bbox_metres(1, 1, 0);
    assert!(x0.abs() < 1e-6 && y0.abs() < 1e-6);
    assert!((x1 - HALF).abs() < 1e-6 && (y1 - HALF).abs() < 1e-6);
    assert!((bbox_metres(5, 16, 10).2 - bbox_metres(5, 17, 10).0).abs() < 1e-6);
    assert!((bbox_metres(5, 16, 10).1 - bbox_metres(5, 16, 11).3).abs() < 1e-6);
}

/// The square of a tile as plain floating-point arithmetic gives it.
fn float_bbox(z: u8, x: u32, y: u32) -> [String; 4] {
    const HALF: f64 = 20_037_508.342_789_244;
    let span = 2.0 * HALF / (1u64 << z) as f64;
    let x0 = -HALF + x as f64 * span;
    let y1 = HALF - y as f64 * span;
    [
        format!("{x0:.3}"),
        format!("{:.3}", y1 - span),
        format!("{:.3}", x0 + span),
        format!("{y1:.3}"),
    ]
}

#[test]
fn squares_are_written_as_floats_would_be() {
    for z in 0..=20u8 {
        let n = 1u64 << z;
        for k in 0..40u64 {
            let x = (k * 7_919 * n / 40 % n) as u32;
            let y = (k * 104_729 * n / 40 % n) as u32;
            let (a, b, c, d) = tile_bbox_3857(z, x, y);
            assert_eq!(
                [metres(a), metres(b), metres(c), metres(d)],
                float_bbox(z, x, y),
                "{z}/{x}/{y}"
            );
        }
    }
}

#[test]
fn the_dwd_composite_resolves_to_a_getmap() {
    let url = BasemapStyle::DwdRadarRV
        .url(6, 33, 21, false, "", "", "")
        .expect("a WMS style must resolve to a URL");
    assert!(url.starts_with("https://maps.dwd.de/geoserver/dwd/wms?"), "{url}");
    for want in [
        "SERVICE=WMS",
        "VERSION=1.3.0",
        "REQUEST=GetMap",
        "CRS=EPSG:3857",
        "LAYERS=Radar_rv_product_1x1km_ger",
        "FORMAT=image/png",
        "TRANSPARENT=TRUE",
    ] {
        assert!(url.contains(want), "{want} missing from {url}");
    }
    assert!(!url.contains("TIME="), "{url}");
    assert!(BasemapStyle::DwdRadarRV.timed());
    assert_eq!(BasemapStyle::DwdRadarRV.category(), Category::Weather);
    assert!(BasemapStyle::DwdRadarWN.timed());

    let url = BasemapStyle::EcccRadarSnow
        .url(6, 18, 22, false, "", "", "")
        .expect("a WMS style must resolve to a URL");
    assert!(url.starts_with("https://geo.weather.gc.ca/geomet?"), "{url}");
    assert!(url.contains("LAYERS=RADAR_1KM_RSNO"), "{url}");
    assert!(!url.contains("TIME="), "{url}");
    assert_eq!(BasemapStyle::EcccRadarRain.category(), Category::Weather);
    assert_eq!(
        BasemapStyle::EcccRadarRain.wms_layer().map(|w| (w.2, w.3)),
        Some((6, 6)),
        "GeoMet publishes on 6 minutes, not DWD's 5"
    );
}

#[test]
fn a_wms_url_carries_its_square_and_its_time() {
    let url = wms_url("https://h/wms", "L", 1, 1, 0, "&TIME=now");
    assert!(url.contains("BBOX=0.000,0.000,20037508.343,20037508.343"), "{url}");
    assert!(url.ends_with("&TIME=now"), "{url}");
}

#[test]
fn wms_frames_land_on_the_publishers_step() {
    // 12:03:17Z, deliberately off-step and off-second.
    let anchor = instant(1_700_000_597);
    let f = wms_frames(anchor, 12, 5, 10);
    assert_eq!(f.len(), 12);
    assert!(f.windows(2).all(|w| w[0] < w[1]), "oldest first");
    for t in &f {
        assert_eq!(t / SECOND % 300, 0, "{t} is off the 5-minute step");
        assert!(*t <= anchor - 10 * MINUTE, "{t} is ahead of the publisher");
    }
    let g = wms_frames(anchor, 12, 6, 6);
    for t in &g {
        assert_eq!(t / SECOND % 360, 0, "{t} is off the 6-minute step");
        assert!(*t <= anchor - 6 * MINUTE, "{t} is ahead of the publisher");
    }
    let last = *f.last().unwrap();
    assert!(anchor - last < 15 * MINUTE, "the newest frame is the newest one there is");
    assert_eq!(last - f[f.len() - 2], 5 * MINUTE);
}

#[test]
fn live_asks_for_the_last_eight_hours_and_an_archive_brackets_its_hour() {
    let now = instant(1_700_000_000);
    let (hour, from, to) = goes_window(now, Some(now - 6 * MINUTE));
    assert_eq!(hour, None, "a lagging live pane is still live");
    assert_eq!(to, now);
    assert_eq!(now - from, 8 * 60 * MINUTE);

    let old = now - 3 * 24 * 60 * MINUTE;
    let (hour, from, to) = goes_window(now, Some(old));
    let h = hour.expect("three days back is an archive");
    assert_eq!(h as i128, (old / SECOND).div_euclid(3600));
    assert!(from <= old && old <= to, "the frame we are replaying is covered");
    assert_eq!(to - from, 3 * 60 * MINUTE);
    // Scrubbing a few minutes inside the same hour must not change the refetch key.
    let (again, ..) = goes_window(now, Some(old + 5 * MINUTE));
    assert_eq!(again, hour);
}

#[test]
fn a_style_without_times_has_no_frames() {
    let to = instant(1_700_000_000);
    assert!(matches!(
        frame_times(BasemapStyle::Dark, to, 12, "", ""),
        FrameTimes::Untimed
    ));
    let known = frame_times(BasemapStyle::DwdRadarRV, to, 12, "", "");
    match known {
        FrameTimes::Known(v) => assert_eq!(v, wms_frames(to, 12, 5, 10)),
        _ => panic!("a composite computes its frames"),
    }
    let listed = frame_times(BasemapStyle::GoesEast, to, 12, "2026-07-18T00:00:00Z", "2026-07-18T08:00:00Z");
    match listed {
        FrameTimes::Listed(url) => {
            assert!(url.contains("2026-07-18T00:00:00Z"), "{url}");
            assert!(url.contains("2026-07-18T08:00:00Z"), "{url}");
        }
        _ => panic!("a satellite's frames are asked for"),
    }
}

#[test]
fn a_frame_is_tagged_by_its_instant() {
    let f = Frame::at(Stamp::at(instant(1_700_000_597))).unwrap();
    assert_eq!(f.iso, "2023-11-14T22:23:17Z");
    assert_eq!(f.tag, "20231114T2223");
    assert!(Frame::at(Stamp { secs: i64::MAX, nanos: 0 }).is_none());
}

// ---------------------------------------------------------------------------------------------
// Covers.

#[test]
fn a_flat_view_covers_its_box() {
    let flat = TileBox { x0: 2, x1: 4, y0: 1, y1: 2 };
    let ids: Vec<_> = tile_cover(3, flat, None).iter().map(|t| t.id).collect();
    assert_eq!(ids, vec![(3, 2, 1), (3, 3, 1)]);
}

#[test]
fn a_view_over_the_dateline_wraps_its_ids() {
    let flat = TileBox { x0: -1, x1: 1, y0: 0, y1: 1 };
    let cover = tile_cover(2, flat, None);
    assert_eq!(cover.len(), 2);
    assert_eq!((cover[0].id, cover[0].x), ((2, 3, 0), -1));
    assert_eq!((cover[1].id, cover[1].x), ((2, 0, 0), 0));
}

#[test]
fn a_pitched_view_holds_the_flat_one_and_stays_bounded() {
    let flat = TileBox { x0: 4, x1: 7, y0: 4, y1: 7 };
    let near = tile_cover(4, flat, Some(vec![(2, 1), (9, 1)]));
    let flat_ids: Vec<_> = tile_cover(4, TileBox { x0: 4, x1: 7, y0: 4, y1: 7 }, None)
        .iter()
        .map(|t| t.id)
        .collect();
    assert!(near.len() > flat_ids.len());
    for id in flat_ids {
        assert!(near.iter().any(|t| t.id == id), "{id:?} was lost");
    }
    // A ray near the horizon cannot ask for more than the world has.
    let far = tile_cover(
        2,
        TileBox { x0: 1, x1: 3, y0: 1, y1: 3 },
        Some(vec![(-1_000_000, -1_000_000), (1_000_000, 1_000_000)]),
    );
    assert!(far.len() <= 16, "{}", far.len());
}

// ---------------------------------------------------------------------------------------------
// Fetching.

#[test]
fn flights_are_limited_and_tiles_are_asked_for_once() {
    let mut m = TileManager::new();
    let ids: Vec<(u8, u32, u32)> = (0..10).map(|x| (5, x, 3)).collect();
    let jobs = m.request_missing(BasemapStyle::OsmStandard, &ids, 0);
    assert_eq!(jobs.len(), MAX_INFLIGHT);
    assert_eq!(jobs[0].key, (BasemapStyle::OsmStandard.key(), (5, 0, 3)));
    assert!(jobs[0].url.ends_with("/5/0/3.png"), "{}", jobs[0].url);
    assert!(m.request_missing(BasemapStyle::OsmStandard, &ids, 0).is_empty());
    for _ in 0..MAX_INFLIGHT {
        m.fetch_finished();
    }
    let more = m.request_missing(BasemapStyle::OsmStandard, &ids, 0);
    assert_eq!(more.len(), 4, "the four that had to wait");
}

#[test]
fn a_style_that_needs_a_key_asks_for_nothing_without_it() {
    let mut m = TileManager::new();
    assert!(m.request_missing(BasemapStyle::MapboxStreets, &[(3, 1, 2)], 0).is_empty());
    m.set_keys("k", "");
    let jobs = m.request_missing(BasemapStyle::MapboxStreets, &[(3, 1, 2)], 0);
    assert_eq!(jobs.len(), 1);
}

/// A picture of one pixel, made by the encoder.
fn one_pixel() -> Vec<u8> {
    let mut bytes = std::io::Cursor::new(Vec::new());
    image::RgbaImage::from_pixel(1, 1, image::Rgba([10, 20, 30, 255]))
        .write_to(&mut bytes, image::ImageFormat::Png)
        .unwrap();
    bytes.into_inner()
}

#[test]
fn a_fetched_picture_is_decoded_and_a_broken_one_fails() {
    let key = (BasemapStyle::OsmStandard.key(), (1, 0, 1));
    match finish_fetch(key, Some(one_pixel())) {
        TileResult::Fetched(t) => {
            assert_eq!(t.rgba, vec![10, 20, 30, 255]);
            assert_eq!((t.width, t.height), (1, 1));
            assert_eq!((t.style, t.id), key);
        }
        TileResult::Failed(_) => panic!("a picture decodes"),
    }
    assert!(matches!(
        finish_fetch(key, Some(b"not a picture".to_vec())),
        TileResult::Failed(k) if k == key
    ));
    assert!(matches!(finish_fetch(key, None), TileResult::Failed(k) if k == key));
}

#[test]
fn a_failed_tile_waits_before_it_is_asked_for_again() {
    let mut m = TileManager::new();
    let style = BasemapStyle::OsmStandard;
    let id = (4, 2, 2);
    assert_eq!(m.request_missing(style, &[id], 1_000).len(), 1);
    m.fetch_finished();
    assert!(m.drain_ready(vec![TileResult::Failed((style.key(), id))], 1_000).is_empty());
    assert!(m.request_missing(style, &[id], 1_000 + RETRY_AFTER_MS - 1).is_empty());
    assert_eq!(m.request_missing(style, &[id], 1_000 + RETRY_AFTER_MS).len(), 1);
}

#[test]
fn an_evicted_tile_is_fetched_again() {
    let mut m = TileManager::new();
    let style = BasemapStyle::OsmStandard;
    let id = (4, 2, 2);
    assert_eq!(m.request_missing(style, &[id], 0).len(), 1);
    m.fetch_finished();
    let ready = m.drain_ready(vec![finish_fetch((style.key(), id), Some(one_pixel()))], 0);
    assert_eq!(ready.len(), 1);
    assert_eq!(ready[0].rgba, vec![10, 20, 30, 255]);
    assert!(m.request_missing(style, &[id], 0).is_empty(), "it is resident");
    // Push it out with tiles that weigh more than the budget.
    for i in 0..200u32 {
        m.uploaded.push((9, (8, i, 0)), 1 << 20);
    }
    let gone = m.evict_excess();
    assert!(gone.contains(&(style.key(), id)), "the oldest goes");
    assert_eq!(m.request_missing(style, &[id], 0).len(), 1);
}

#[test]
fn drawn_tiles_lead_and_survive() {
    let mut m = TileManager::new();
    let style = BasemapStyle::OsmStandard;
    let shown = [(8, 0, 0), (8, 1, 0)];
    for i in 0..200u32 {
        m.uploaded.push((style.key(), (8, i, 0)), 1 << 20);
    }
    m.promote_visible(style, &shown);
    let order: Vec<_> = m.uploaded.iter().map(|(k, _)| k.1).take(2).collect();
    assert_eq!(order, vec![(8, 1, 0), (8, 0, 0)]);
    let gone = m.evict_excess();
    assert!(!gone.is_empty());
    for id in shown {
        assert!(m.uploaded.contains(&(style.key(), id)), "{id:?} was on screen");
    }
}

#[test]
fn thumbs_are_fetched_once() {
    let mut m = TileManager::new();
    let s = BasemapStyle::OsmStandard;
    assert!(matches!(m.thumb(s, true), ThumbStep::Swatch));
    assert!(matches!(m.thumb(s, false), ThumbStep::Fetch { .. }));
    assert!(matches!(m.thumb(s, false), ThumbStep::Swatch));
    m.thumb_finished(s, true);
    assert!(matches!(m.thumb(s, false), ThumbStep::Show));
}

#[test]
fn a_new_frame_or_density_drops_what_was_fetched() {
    let mut m = TileManager::new();
    let f = Frame::at(Stamp::at(instant(1_700_000_597)));
    assert!(m.set_goes_time(f));
    assert!(!m.set_goes_time(Frame::at(Stamp::at(instant(1_700_000_597)))));
    assert!(m.set_goes_time(None));
    assert!(m.set_retina(true));
    assert!(!m.set_retina(true));
    assert!(m.is_retina(BasemapStyle::CartoDarkMatter));
    assert!(!m.is_retina(BasemapStyle::OsmStandard));
}

#[test]
fn the_custom_source_has_its_own_ceiling() {
    let mut m = TileManager::new();
    m.set_custom_template("https://t.example/{z}/{x}/{y}.png");
    m.set_custom_max_z(12);
    assert_eq!(m.max_z(BasemapStyle::CustomXyz), 12);
    assert_eq!(m.max_z(BasemapStyle::OsmStandard), 19);
    assert_eq!(m.max_pack_z(BasemapStyle::OsmStandard), 19);
    assert_eq!(m.visible_zoom(BasemapStyle::CustomXyz, 15), 12);
    assert_eq!(m.visible_zoom(BasemapStyle::OsmStandard, 15), 15);
    assert_eq!(m.visible_zoom(BasemapStyle::OsmStandard, -3), 2);
    // A source of one level is asked for that level.
    let mut shallow = TileManager::new();
    shallow.set_custom_max_z(1);
    assert_eq!(shallow.visible_zoom(BasemapStyle::CustomXyz, 4), 1);
    assert_eq!(shallow.visible_zoom(BasemapStyle::CustomXyz, 0), 1);
    assert!(m.packable(BasemapStyle::OsmStandard));
    assert!(!m.packable(BasemapStyle::GoesEast), "a timed style has no fixed pyramid");
    let jobs = m.pack_jobs(
        BasemapStyle::CustomXyz,
        3,
        &vec![TileBox { x0: 1, x1: 3, y0: 0, y1: 1 }],
    );
    assert_eq!(jobs.len(), 2);
    assert_eq!(jobs[0].0, "https://t.example/3/1/0.png");
}

/// A frame that hands over what was fetched and what fell out.
fn frame(new_tiles: Vec<(u8, (u8, u32, u32))>, drop_tiles: Vec<(u8, (u8, u32, u32))>) -> MapCallback {
    MapCallback {
        pane: 0,
        camera_center: (0, 0),
        camera_scale: (1, 1),
        new_tiles,
        visible: vec![],
        basemap_key: 0,
        vector_over_raster: false,
        radar_upload: None,
        draw_radar: false,
        observed_upload: false,
        draw_observed: false,
        overlay_upload: None,
        draw_overlay: false,
        clear_tiles: false,
        drop_tiles,
        field_uploads: vec![],
        field_draws: vec![],
        drop_fields: vec![],
        new_vector_tiles: vec![],
        visible_vector: vec![],
        clear_vector: false,
        drop_vector_tiles: vec![],
        wind_upload: false,
        wind: false,
    }
}

#[test]
fn the_manager_and_the_renderer_agree() {
    let style = BasemapStyle::OsmStandard;
    let mut m = TileManager::new();
    let mut res = RenderResources::new();
    // More tiles in one frame than the cache rests at, of which the first are on screen.
    for batch in 0..3u32 {
        let ids: Vec<(u8, u32, u32)> = (0..300).map(|i| (12, batch * 300 + i, 7)).collect();
        let results = ids
            .iter()
            .map(|id| finish_fetch((style.key(), *id), Some(one_pixel())))
            .collect();
        let new = m.drain_ready(results, 0).iter().map(|t| (t.style, t.id)).collect();
        m.promote_visible(style, &ids[..20]);
        let gone = m.evict_excess();
        res.prepare_pane(&frame(new, gone));
        let mut counted: Vec<_> = m.uploaded.iter().map(|(k, _)| *k).collect();
        let mut held = res.tiles.clone();
        counted.sort_unstable();
        held.sort_unstable();
        assert_eq!(counted, held);
        assert!(counted.len() <= 512);
    }
}
