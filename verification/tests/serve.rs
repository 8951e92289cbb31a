//! The local server: who may ask, what is answered, and for how long.

use hookecho::answers::{
    age, answer_cache, held_bytes, keep, keep_proxied, kept_under, proxy_cache, reuse, ProxyHit,
    PROXY_CACHE_BYTES, PROXY_CACHE_ENTRIES,
};
use hookecho::cloud;
use hookecho::secret::constant_time_eq;
use hookecho::serve::frame::{
    gif_delay, loop_instants, loop_key, loop_knobs, moving_frames, snapshot_key, Catalog,
    FrameError, LoopFormat, LoopKnobs, Product,
};
use hookecho::serve::json::{
    cell_json, cells_json, cells_key, cells_site, health_json, Cell, Health, TrackPoint,
};
use hookecho::serve::metrics::{ProxyGauges, SpotGauges};
use hookecho::serve::page::{dashboard_site, Spot};
use hookecho::serve::proxy::{
    proxy, proxy_failed, proxy_fetched, proxy_target, range_reply, take_chunk, ProxyCounts,
    ProxyStep, ARCHIVE_BUCKET, PROXY_MAX_BYTES,
};
use hookecho::serve::handle::{handle, Handled, Policy};
use hookecho::serve::renders::{
    archive_time, is_stale, loop_file, loop_frame_file, national_file, national_frames,
    needs_encode, prune_due, ring_excess, ring_moves, snapshot_file, Turn,
};
use hookecho::serve::reply::{error_json, response_head};
use hookecho::serve::request::{gate, parse_target, refusal, Access, Headers, RadarSite};
use hookecho::serve::route::{answer, route_label, static_reply, Endpoint, Requests, ROUTES};
use hookecho::serve::{
    cache_seconds, content_type, count, escape_label, etag_of, fresh_on_disk, image_reply, index,
    is_preset, metrics, not_found, proxy_content_type, proxy_reply, query_token, route,
    static_file, try_render, valid_byte_range, Frame,
};
use hookecho::serve::pictures::{loop_pictures, readable_pictures};
use hookecho::serve::report::{alerts_of, spot_alerts, spot_temps, temps_of, Row};
use hookecho::serve::status::{status_json, Location, Shown};
use hookecho::settings::Number;
use hookecho::tiles::BasemapStyle;

#[test]
fn secret_the_token_check_is_exact_and_length_safe() {
    assert!(constant_time_eq("hunter2", "hunter2"));
    assert!(!constant_time_eq("hunter2", "hunter3"));
    assert!(!constant_time_eq("hunter2", "hunter22"));
    assert!(!constant_time_eq("", "x"));
    assert!(constant_time_eq("", ""));
}

#[test]
fn serve_the_token_check_is_exact_and_length_safe() {
    assert!(constant_time_eq("hunter2", "hunter2"));
    assert!(!constant_time_eq("hunter2", "hunter3"));
    assert!(!constant_time_eq("hunter2", "hunter22"));
    assert!(!constant_time_eq("", "x"));
    assert!(constant_time_eq("", ""));
    // A dashboard's `?token=` form.
    assert_eq!(query_token("site=KTLX&token=abc"), Some("abc".to_string()));
    assert_eq!(query_token("site=KTLX"), None);
}

fn product(code: &str, short: &str, palettes: &[&str]) -> Product {
    Product {
        code: code.to_string(),
        short_name: short.to_string(),
        palettes: palettes.iter().map(|p| p.to_string()).collect(),
    }
}

fn catalog() -> Catalog {
    Catalog::new(vec![
        product("REF", "REF", &["High contrast (reflectivity)"]),
        product("VEL", "VEL", &["High contrast (velocity)"]),
        product("SW", "SW", &[]),
    ])
    .unwrap()
}

/// A zoom, by its bits.
fn zoom(z: f64) -> Option<Number> {
    Some(Number { bits: z.to_bits() })
}

#[test]
fn a_palette_is_an_exact_alternate_name_or_a_refusal() {
    let name = "High contrast (reflectivity)";
    let q = "site=KTLX&palette=High%20contrast%20%28reflectivity%29";
    let f = Frame::parse(q, &catalog(), None).unwrap();
    assert_eq!(f.palette.as_deref(), Some(name));
    // The palette changes the pixels, so it has to change the filename too.
    assert_ne!(f.tag(), Frame::parse("site=KTLX", &catalog(), None).unwrap().tag());
    assert!(!f.tag().contains(['/', '\\', ' ']), "tag becomes a filename");

    // Not a name of a table this product has, not a path, not a near miss.
    assert!(Frame::parse("site=KTLX&palette=viridis", &catalog(), None).is_err());
    assert!(Frame::parse("site=KTLX&palette=../../etc/passwd", &catalog(), None).is_err());
    // The alternate belongs to reflectivity; spectrum width has none at all.
    assert!(matches!(
        Frame::parse(&format!("site=KTLX&product=SW&palette={name}"), &catalog(), None),
        Err(FrameError::UnknownPalette(..))
    ));
}

#[test]
fn a_frame_carries_everything_that_changes_the_pixels() {
    let f = Frame::parse(
        "site=KOUN&product=vel&size=512&zoom=8&tilt=2&basemap=light",
        &catalog(),
        zoom(8.0),
    )
    .unwrap();
    assert_eq!(f.site, "KOUN");
    assert_eq!(f.px, 512);
    assert_eq!(f.tilt, 2);
    assert_eq!(f.basemap, BasemapStyle::Light);
    // Two renders that differ in any knob must not share a cache key or a filename.
    let other = Frame::parse(
        "site=KOUN&product=vel&size=512&zoom=8&tilt=3&basemap=light",
        &catalog(),
        zoom(8.0),
    )
    .unwrap();
    assert_ne!(f.tag(), other.tag());
    assert!(!f.tag().contains(['/', '\\', ' ']), "tag becomes a filename");

    // Defaults are the dashboard case: latest reflectivity on the dark vector map.
    let d = Frame::parse("", &catalog(), None).unwrap();
    assert_eq!(d.site, "KTLX");
    assert_eq!(d.zoom_tag, "auto");

    // A site is pasted into a URL by whoever is looking; it also becomes a path segment.
    assert!(matches!(
        Frame::parse("site=../../etc", &catalog(), None),
        Err(FrameError::BadSite)
    ));
    let unknown = Frame::parse("product=NOPE", &catalog(), None);
    assert!(matches!(unknown, Err(FrameError::UnknownProduct(_))));
    assert_eq!(FrameError::BadSite.text(), "bad site");
}

#[test]
fn the_dashboard_points_at_the_radar_nearest_home() {
    let spots = vec![Spot { home: true, nearest: Some("KTLX".to_string()) }];
    let page = index(&spots, "1.0.0");
    assert!(page.contains("KTLX"), "Norman's nearest radar is KTLX");
    assert!(page.contains("setInterval"));
    assert!(page.contains("name.textContent = s.name"));
}

#[test]
fn home_decides_the_dashboard_over_the_first_spot() {
    let spot = |home, site: &str| Spot { home, nearest: Some(site.to_string()) };
    assert_eq!(dashboard_site(&vec![spot(false, "KFWS"), spot(true, "KOUN")]), "KOUN");
    assert_eq!(dashboard_site(&vec![spot(false, "KFWS"), spot(false, "KOUN")]), "KFWS");
    assert_eq!(dashboard_site(&vec![]), "KTLX");
}

#[test]
fn unknown_paths_404() {
    assert_eq!(route("/etc/passwd", false), Endpoint::NotFound);
    let reply = not_found();
    assert_eq!(reply.status, "404 Not Found");
    assert_eq!(reply.ctype, "application/json");
    assert!(String::from_utf8_lossy(&reply.body).contains("no such endpoint"));

    assert_eq!(route("/", false), Endpoint::Index);
    assert_eq!(answer(Endpoint::Index, Ok(b"page".to_vec())).status, "200 OK");
}

#[test]
fn static_serving_refuses_to_walk_out_of_the_web_root() {
    for path in [
        "/../../etc/passwd",
        "/dist/../../../etc/shadow",
        "/..%2f..%2fetc/passwd",
        "//etc/passwd",
    ] {
        assert_eq!(route(path, true), Endpoint::Static);
        // A path that names no file under the root reads nothing; one that stays inside it is
        // looked for there, and is not there.
        if let Some(p) = static_file(path) {
            assert!(!p.starts_with('/') && !p.split('/').any(|s| s == ".."), "{p}");
        }
        assert_eq!(static_reply(path, None).status, "404 Not Found", "{path} must not be served");
    }
    assert_eq!(static_file("/../../etc/passwd"), None);
    assert_eq!(static_file("/dist/../../../etc/shadow"), None);
    assert_eq!(content_type("a/b.wasm"), "application/wasm");
    assert_eq!(content_type("manifest.webmanifest"), "application/manifest+json");
}

#[test]
fn a_directory_is_served_as_its_index() {
    assert_eq!(static_file("/lite/").as_deref(), Some("lite/index.html"));
    let reply = static_reply("lite/index.html", Some(b"<!doctype html>lite".to_vec()));
    assert_eq!(String::from_utf8_lossy(&reply.body), "<!doctype html>lite");
    // Still no way out of the root, trailing slash or not.
    assert_eq!(static_file("/../"), None);
}

#[test]
fn cache_ttls_match_the_edge_worker() {
    assert_eq!(cache_seconds(ARCHIVE_BUCKET, ""), 3600);
    assert_eq!(cache_seconds(ARCHIVE_BUCKET, "list-type=2"), 15);
    assert_eq!(cache_seconds("maps.dwd.de", "LAYERS=rv&TIME=2026"), 300);
    assert_eq!(cache_seconds("maps.dwd.de", "LAYERS=rv"), 15);
    assert_eq!(cache_seconds("geo.weather.gc.ca", "SERVICE=WFS"), 15);
    assert_eq!(cache_seconds("api.weather.gov", ""), 15);
    assert_eq!(cache_seconds("opendata.dwd.de", ""), 15);
    assert_eq!(cache_seconds("tgftp.nws.noaa.gov", ""), 300);
    assert_eq!(cache_seconds("basemaps.cartocdn.com", ""), 300);
}

#[test]
fn the_proxy_cache_evicts_on_bytes_not_just_entries() {
    let mut cache = proxy_cache();
    // Ten entries of 64 MB: well inside the entry cap, well past the byte cap.
    for i in 0..10 {
        keep_proxied(
            &mut cache,
            format!("https://example.invalid/{i}"),
            ProxyHit {
                at: 0,
                ctype: "application/octet-stream",
                body: vec![0u8; 64 * 1024 * 1024],
                etag: String::new(),
            },
        );
    }
    let (bytes, entries) = held_bytes(&cache);
    assert!(bytes <= PROXY_CACHE_BYTES as u128, "byte bound not honoured");
    assert!(entries < 10, "nothing was evicted");
    // The newest survives: the one a second client is most likely to ask for next.
    assert!(cache.peek("https://example.invalid/9").is_some());
}

#[test]
fn the_proxy_cache_evicts_on_entries_too() {
    let mut cache = proxy_cache();
    for i in 0..PROXY_CACHE_ENTRIES + 6 {
        let hit = ProxyHit { at: 0, ctype: "text/plain", body: vec![1], etag: String::new() };
        keep_proxied(&mut cache, format!("{i}"), hit);
    }
    assert_eq!(held_bytes(&cache), (PROXY_CACHE_ENTRIES as u128, PROXY_CACHE_ENTRIES));
    assert!(cache.peek("5").is_none());
    assert!(cache.peek("6").is_some());
}

#[test]
fn a_matching_etag_is_answered_304() {
    let body = b"hello".to_vec();
    let etag = etag_of(&body);
    let hit = proxy_reply("text/plain", &body, &etag, 15, &Some(etag.clone()));
    assert_eq!(hit.status, "304 Not Modified");
    assert!(hit.body.is_empty());
    assert!(hit.headers.contains(&("Cache-Control", "public, max-age=15".to_string())));
    let miss = proxy_reply("text/plain", &body, &etag, 15, &Some("\"stale\"".to_string()));
    assert_eq!(miss.status, "200 OK");
    assert_eq!(miss.body, b"hello");
    // Different bytes, different tag: an ETag that never moves is worse than none.
    assert_ne!(etag_of(b"hello"), etag_of(b"hellp"));
}

#[test]
fn proxy_refuses_hosts_that_are_not_on_the_list() {
    let mut cache = proxy_cache();
    let mut counts = ProxyCounts::new();
    for path in [
        "/proxy/evil.example.com/x",
        // Suffix and prefix games against a host that *is* allowed: match is exact.
        "/proxy/api.weather.gov.evil.example.com/alerts",
        "/proxy/evil.example.com#api.weather.gov/alerts",
        "/proxy/api.weather.gov",
    ] {
        assert_eq!(route(path, false), Endpoint::Proxy);
        match proxy(&mut cache, &mut counts, path, "", &None, &None, 0) {
            ProxyStep::Answer(reply) => {
                assert_eq!(reply.status, "403 Forbidden", "{path} must not be proxied")
            }
            _ => panic!("{path} must not be proxied"),
        }
    }
}

#[test]
fn an_allowed_host_is_fetched_once_while_it_is_fresh() {
    let mut cache = proxy_cache();
    let mut counts = ProxyCounts::new();
    let ask = |cache: &mut _, counts: &mut _, now| {
        proxy(cache, counts, "/proxy/api.weather.gov/alerts", "a=1", &None, &None, now)
    };
    match ask(&mut cache, &mut counts, 0) {
        ProxyStep::Fetch { url, ttl, .. } => {
            assert_eq!(url, "https://api.weather.gov/alerts?a=1");
            assert_eq!(ttl, 15);
            let reply =
                proxy_fetched(&mut cache, url, "application/json", b"{}".to_vec(), ttl, 0, &None);
            assert_eq!(reply.status, "200 OK");
        }
        _ => panic!("nothing is kept yet"),
    }
    match ask(&mut cache, &mut counts, 14_000) {
        ProxyStep::Answer(reply) => assert_eq!(reply.body, b"{}"),
        _ => panic!("it is fresh"),
    }
    assert!(matches!(ask(&mut cache, &mut counts, 15_000), ProxyStep::Fetch { .. }));
    assert_eq!((counts.hits, counts.misses), (1, 2));
    assert_eq!(proxy_target("/proxy/api.weather.gov/x", "").unwrap().host, "api.weather.gov");
}

#[test]
fn a_range_is_forwarded_and_never_kept() {
    let mut cache = proxy_cache();
    let mut counts = ProxyCounts::new();
    let range = Some("bytes=10-20".to_string());
    let path = "/proxy/noaa-hrrr-bdp-pds.s3.amazonaws.com/x.grib2";
    match proxy(&mut cache, &mut counts, path, "", &None, &range, 0) {
        ProxyStep::FetchRange { header, start, .. } => {
            assert_eq!(header, "bytes=10-20");
            assert_eq!(start, 10);
        }
        ProxyStep::Answer(r) => assert_eq!(r.status, "403 Forbidden"),
        ProxyStep::Fetch { .. } => panic!("a valid range is forwarded"),
    }
    let part = range_reply(10, "application/octet-stream", vec![7; 11], true);
    assert_eq!(part.status, "206 Partial Content");
    assert!(part.headers.iter().any(|(n, v)| *n == "Content-Range" && v == "bytes 10-20/*"));
    assert_eq!(held_bytes(&cache).1, 0);
    assert_eq!(proxy_failed(true).status, proxy_failed(false).status);
}

#[test]
fn a_body_past_the_cap_is_refused() {
    let mut body = vec![0u8; PROXY_MAX_BYTES - 1];
    assert!(take_chunk(&mut body, &[1]));
    assert_eq!(body.len(), PROXY_MAX_BYTES);
    assert!(!take_chunk(&mut body, &[1]));
}

#[test]
fn only_plain_content_types_pass_through() {
    assert_eq!(proxy_content_type("application/json; charset=utf-8"), "application/json");
    assert_ne!(proxy_content_type("text/html"), "text/html");
}

#[test]
fn label_values_cannot_forge_metric_lines() {
    assert_eq!(escape_label("Home"), "Home");
    assert_eq!(
        escape_label("a\"} 1\nhookecho_spot_alerts{spot=\"b"),
        "a\\\"} 1\\nhookecho_spot_alerts{spot=\\\"b"
    );
    // Backslash first, or the escapes below it get escaped twice.
    assert_eq!(escape_label(r#"c:\tmp"#), r"c:\\tmp");
}

#[test]
fn metrics_name_every_route_and_spot() {
    let mut requests = Requests::new();
    count(&mut requests, "index");
    let page = metrics(
        &requests,
        &vec![("radar_textures_built".to_string(), 3)],
        &ProxyGauges { hits: 1, misses: 2, bytes: 3, entries: 4 },
        &Some(SpotGauges {
            temps: vec![("Home".to_string(), "21.5".to_string())],
            alerts: vec![("Home".to_string(), 2)],
            age: "12.5".to_string(),
        }),
    );
    for want in ["route=\"index\"} 1\n", "route=\"other\"} 0\n", "spot=\"Home\"} 21.5\n"] {
        assert!(page.contains(want), "{want} missing from {page}");
    }
    assert!(page.ends_with('\n'));
}

#[test]
fn requests_are_counted_by_route() {
    let i = ROUTES.iter().position(|r| *r == "index").unwrap();
    let mut requests = Requests::new();
    let before = requests.counts[i];
    count(&mut requests, route_label("/"));
    assert!(requests.counts[i] > before);
    assert_eq!(requests.counts.iter().sum::<u64>(), 1);
    assert_eq!(route_label("/proxy/x"), "proxy");
    assert_eq!(route_label("/nowhere"), "other");
}

#[test]
fn image_answers_are_cacheable() {
    let reply = image_reply("image/png", vec![1, 2, 3]);
    assert_eq!(reply.status, "200 OK");
    assert!(reply.headers.contains(&("Cache-Control", "public, max-age=300".to_string())));
}

#[test]
fn only_young_files_are_reused() {
    assert!(fresh_on_disk(None, None).is_none(), "no file is no answer");
    assert_eq!(
        fresh_on_disk(Some(0), Some(b"pixels".to_vec())).as_deref(),
        Some(&b"pixels"[..])
    );
    // An empty file is what a half-finished render leaves behind, and it is not an answer.
    assert!(fresh_on_disk(Some(0), Some(Vec::new())).is_none());
    // Backdated past the TTL: the volume has moved on, so the pixels have to be rebuilt.
    let old = 300_000 + 1_000;
    assert!(fresh_on_disk(Some(old), Some(b"pixels".to_vec())).is_none(), "stale file was reused");
}

fn sites() -> Vec<RadarSite> {
    vec![
        RadarSite { id: "KTLX".to_string(), nexrad: true },
        RadarSite { id: "TOKC".to_string(), nexrad: false },
    ]
}

#[test]
fn only_the_site_frames_are_public() {
    let s = sites();
    // Allowed: a known radar's default frame, with or without the page's cache-buster.
    assert!(is_preset("/snapshot.png", "site=KTLX", &s));
    assert!(is_preset("/snapshot.png", "site=KTLX&t=123", &s));
    assert!(is_preset("/snapshot.png", "site=TOKC", &s)); // a still, not a loop
    assert!(is_preset("/loop.gif", "site=KTLX", &s));
    assert!(is_preset("/loop.mp4", "site=KTLX", &s));
    assert!(is_preset("/snapshot.png", "site=KTLX&product=VEL", &s));
    assert!(is_preset("/loop.mp4", "product=VEL&site=KTLX", &s));
    assert!(is_preset("/national.png", "", &s));
    assert!(is_preset("/national.png", "t=99", &s));
    assert!(is_preset("/national.mp4", "", &s));
    assert!(is_preset("/health.json", "", &s));

    // Refused: any other knob, however harmless it looks.
    assert!(!is_preset("/snapshot.png", "site=KTLX&size=2048", &s));
    assert!(!is_preset("/snapshot.png", "site=KTLX&product=CC", &s));
    assert!(!is_preset("/snapshot.png", "product=VEL", &s));
    assert!(!is_preset("/snapshot.png", "site=KTLX&zoom=12", &s));
    assert!(!is_preset("/snapshot.png", "site=KTLX&basemap=satellite", &s));
    assert!(!is_preset("/loop.gif", "site=KTLX&frames=12", &s));
    assert!(!is_preset("/national.png", "size=2048", &s));
    assert!(!is_preset("/national.mp4", "frames=30", &s));

    // Refused: a site nobody has heard of, and a loop of a radar with no archive to step.
    assert!(!is_preset("/snapshot.png", "site=ZZZZ", &s));
    assert!(!is_preset("/loop.gif", "site=TOKC", &s));
    assert!(!is_preset("/loop.mp4", "site=TOKC", &s));
    assert!(!is_preset("/snapshot.png", "", &s));

    // Refused: everything that is not an image the site embeds.
    assert!(!is_preset("/status.json", "", &s));
    assert!(!is_preset("/metrics", "", &s));
    assert!(!is_preset("/proxy/https://example.invalid/x", "", &s));
    assert!(!is_preset("/", "", &s));
}

#[test]
fn byte_range_header_is_validated_before_forwarding() {
    // The GRIB `.idx` fetch pattern: a single closed or open range.
    assert_eq!(
        valid_byte_range("bytes=0-396352"),
        Some(("bytes=0-396352".to_string(), 0))
    );
    assert_eq!(
        valid_byte_range("bytes=154842502-"),
        Some(("bytes=154842502-".to_string(), 154_842_502))
    );
    assert_eq!(
        valid_byte_range("  bytes=10-20  "),
        Some(("bytes=10-20".to_string(), 10))
    );

    // Rejected: multi-range, suffix range, reversed, other units, junk.
    assert_eq!(valid_byte_range("bytes=0-10,20-30"), None);
    assert_eq!(valid_byte_range("bytes=-500"), None);
    assert_eq!(valid_byte_range("bytes=30-10"), None);
    assert_eq!(valid_byte_range("items=0-10"), None);
    assert_eq!(valid_byte_range("bytes=0-10; evil"), None);
    assert_eq!(valid_byte_range("bytes=abc-def"), None);
}

#[test]
fn a_sign_is_no_part_of_a_byte_range() {
    assert_eq!(valid_byte_range("bytes=+5-10"), None);
    assert_eq!(valid_byte_range("bytes=5-+10"), None);
}

#[test]
fn requests_are_read_line_by_line() {
    assert_eq!(
        parse_target("GET /snapshot.png?site=KTLX HTTP/1.1"),
        ("/snapshot.png".to_string(), "site=KTLX".to_string())
    );
    assert_eq!(parse_target("GET / HTTP/1.1"), ("/".to_string(), String::new()));
    let mut h = Headers::new();
    assert!(h.read_line("Authorization: Bearer hunter2", "hunter2"));
    assert!(h.read_line("If-None-Match: \"abc\"", "hunter2"));
    assert!(h.read_line("Range: bytes=0-1", "hunter2"));
    assert!(!h.read_line("", "hunter2"));
    assert!(h.bearer);
    assert_eq!(h.if_none_match.as_deref(), Some("\"abc\""));
    assert_eq!(h.range.as_deref(), Some("bytes=0-1"));
}

#[test]
fn nothing_but_presets_is_served_without_the_token() {
    let none = Headers::new();
    let s = sites();
    assert_eq!(gate("hunter2", false, &s, "/metrics", "", &none), Access::Unauthorized);
    assert_eq!(gate("hunter2", true, &s, "/metrics", "", &none), Access::PresetsOnly);
    assert_eq!(gate("hunter2", true, &s, "/health.json", "", &none), Access::Granted);
    assert_eq!(gate("hunter2", false, &s, "/metrics", "token=hunter2", &none), Access::Granted);
    assert_eq!(gate("", false, &s, "/metrics", "", &none), Access::Granted);
    assert!(refusal(Access::Granted).is_none());
    assert_eq!(refusal(Access::Unauthorized).unwrap().status, "401 Unauthorized");
    let presets = refusal(Access::PresetsOnly).unwrap();
    assert!(presets.status.starts_with('4'));
}

#[test]
fn a_failure_is_told_as_json() {
    let r = error_json("feed said \"no\"\n");
    assert_eq!(r.status, "503 Service Unavailable");
    assert_eq!(r.body, br#"{"error":"feed said \"no\"\n"}"#.to_vec());
}

#[test]
fn a_response_starts_with_its_length() {
    let head = response_head(&image_reply("image/png", vec![1, 2, 3]));
    assert!(head.starts_with("HTTP/1.1 200 OK\r\n"), "{head}");
    assert!(head.contains("Content-Length: 3\r\n"), "{head}");
    assert!(head.contains("Cache-Control: public, max-age=300\r\n"), "{head}");
    assert!(head.ends_with("\r\n\r\n"), "{head}");
}

#[test]
fn parameters_are_decoded() {
    assert_eq!(cloud::param("a=1&b=x%20y", "b").as_deref(), Some("x y"));
    assert_eq!(cloud::param("a=1", "b"), None);
    // A broken escape decodes to what stands for a byte that is no text.
    assert_eq!(cloud::param("a=%ff", "a").as_deref(), Some("\u{fffd}"));
}

// ---------------------------------------------------------------------------------------------
// Kept answers.

#[test]
fn an_answer_is_reused_until_it_ages_out() {
    let mut c = answer_cache();
    keep(&mut c, "/status.json", &b"{}".to_vec(), 1_000);
    assert_eq!(reuse(&mut c, "/status.json", 60_999, 60_000).as_deref(), Some(&b"{}"[..]));
    assert_eq!(reuse(&mut c, "/status.json", 61_000, 60_000), None);
    assert_eq!(reuse(&mut c, "/obs.json", 1_000, 60_000), None);
    assert_eq!(age(&c, "/status.json", 3_500), Some(2_500));
    assert_eq!(age(&c, "/obs.json", 3_500), None);
    keep(&mut c, "/snapshot.png?a", &vec![1], 0);
    keep(&mut c, "/snapshot.png?b", &vec![1], 0);
    assert_eq!(kept_under(&c, "/snapshot.png"), 2);
}

// ---------------------------------------------------------------------------------------------
// JSON.

fn cell() -> Cell {
    let s = |t: &str| t.to_string();
    Cell {
        id: s("A\"0"),
        azimuth_deg: s("271.0"),
        hail_in: s("1.75"),
        lat: s("35.2"),
        lon: s("-97.4"),
        max_dbz: s("62.0"),
        movement_deg: s("null"),
        movement_kt: s("null"),
        poh: s("100"),
        posh: s("80"),
        range_nm: s("12.5"),
        top_kft: s("45.0"),
        vil: s("60.0"),
        tvs: s("false"),
        meso: s("true"),
        track: vec![
            TrackPoint { minutes: s("15"), lon: s("-97.3"), lat: s("35.3") },
            TrackPoint { minutes: s("30"), lon: s("-97.2"), lat: s("35.4") },
        ],
    }
}

#[test]
fn a_cell_reads_back_as_json() {
    let v: serde_json::Value = serde_json::from_str(&cell_json(&cell())).unwrap();
    assert_eq!(v["id"], "A\"0");
    assert_eq!(v["hail_in"], 1.75);
    assert_eq!(v["movement_kt"], serde_json::Value::Null);
    assert_eq!(v["meso"], true);
    assert_eq!(v["track"][1]["minutes"], 30);
    assert_eq!(v.as_object().unwrap().len(), 16);
    // What the JSON library itself writes for the same value is the same text.
    assert_eq!(v.to_string(), cell_json(&cell()));
}

#[test]
fn cells_are_listed_under_their_site() {
    let none = cells_json("KTLX", &vec![]);
    assert_eq!(none, "{\"cells\":[],\"site\":\"KTLX\"}");
    let two: serde_json::Value =
        serde_json::from_str(&cells_json("KTLX", &vec![cell(), cell()])).unwrap();
    assert_eq!(two["cells"].as_array().unwrap().len(), 2);
    assert_eq!(cells_site("site=koun").unwrap(), "KOUN");
    assert_eq!(cells_site("").unwrap(), "KTLX");
    assert_eq!(cells_site("site=../x").unwrap_err(), "bad site");
    assert_eq!(cells_key("KTLX"), "/cells.json?KTLX");
}

#[test]
fn health_reads_back_as_json() {
    let h = Health {
        version: "1.2.3".to_string(),
        uptime_secs: Some(12),
        spots: 2,
        feeds_ok: true,
        status_age_secs: None,
        snapshot_cached: 3,
    };
    let v: serde_json::Value = serde_json::from_str(&health_json(&h)).unwrap();
    assert_eq!(v["version"], "1.2.3");
    assert_eq!(v["uptime_secs"], 12);
    assert_eq!(v["status_age_secs"], serde_json::Value::Null);
    assert_eq!(v["feeds_ok"], true);
    assert_eq!(v.to_string(), health_json(&h));
}

// ---------------------------------------------------------------------------------------------
// Renders.

#[test]
fn one_render_runs_at_a_time() {
    assert_eq!(try_render(true, true), Turn::Render);
    assert_eq!(try_render(false, true), Turn::ServeStale);
    assert_eq!(try_render(false, false), Turn::Busy);
}

#[test]
fn loops_have_bounded_knobs() {
    let k = loop_knobs("frames=1000&fps=1000");
    let d = loop_knobs("");
    assert!(k.frames >= d.frames && k.frames < 1000);
    assert!(k.fps < 1000);
    assert_ne!(loop_key(LoopFormat::Gif, "t", d), loop_key(LoopFormat::Mp4, "t", d));
    assert_eq!(snapshot_key("t"), "/snapshot.png?t");
}

#[test]
fn a_loop_steps_back_five_minutes_at_a_time() {
    let minute: i128 = 60_000_000_000;
    let now = 1_700_000_000 * 1_000_000_000i128;
    let v = loop_instants(now, 3);
    assert_eq!(v.len(), 3);
    assert_eq!(v[2], now);
    assert_eq!(v[2] - v[1], 5 * minute);
    assert_eq!(v[1] - v[0], 5 * minute);
}

#[test]
fn frames_that_do_not_move_are_dropped() {
    let v = vec![vec![1], vec![1], vec![2], vec![2], vec![1]];
    assert_eq!(moving_frames(&v), vec![0, 2, 4]);
    assert_eq!(gif_delay(10), 100);
}

#[test]
fn the_national_ring_keeps_its_newest() {
    let names: Vec<String> =
        ["b.png", "a.png", "x.txt", "c.png"].iter().map(|s| s.to_string()).collect();
    assert_eq!(national_frames(&names), vec!["a.png", "b.png", "c.png"]);
    assert_eq!(ring_excess(15), 0);
    assert_eq!(ring_excess(17), 2);
    assert!(!ring_moves(1));
    assert!(ring_moves(2));
    assert!(needs_encode(None, Some(1)));
    assert!(!needs_encode(Some(5), Some(5)));
    assert!(needs_encode(Some(4), Some(5)));
}

#[test]
fn old_renders_are_pruned_by_name_and_age() {
    assert!(is_stale("snapshot-1.png", "snapshot-", Some(86_400_001), 86_400_000));
    assert!(!is_stale("snapshot-1.png", "snapshot-", Some(10), 86_400_000));
    assert!(!is_stale("other.png", "snapshot-", Some(86_400_001), 86_400_000));
    let mut last = None;
    assert!(prune_due(&mut last, 5));
    assert!(!prune_due(&mut last, 6));
    assert!(prune_due(&mut last, 5 + 3_600_000));
}

#[test]
fn renders_are_named_by_what_they_show() {
    let at = 1_700_000_597 * 1_000_000_000i128;
    assert_eq!(snapshot_file("t"), "snapshot-t.png");
    assert_eq!(loop_frame_file("t", at).as_deref(), Some("loop-t-20231114-2223.png"));
    assert_eq!(loop_file("t", LoopFormat::Mp4), "loop-t.mp4");
    assert_eq!(national_file(at).as_deref(), Some("national-20231114-2223.png"));
    assert_eq!(archive_time(at).as_deref(), Some("22:23"));
}

#[test]
fn every_knob_changes_the_tag() {
    let base = "site=KOUN&product=vel&size=512&tilt=2&basemap=light";
    let tag = |q: &str, z: Option<Number>| Frame::parse(q, &catalog(), z).unwrap().tag();
    let mine = tag(base, zoom(8.0));
    assert_eq!(mine, "KOUN-VEL-light-512-4020000000000000-2-std");
    assert_eq!(tag(base, None), "KOUN-VEL-light-512-auto-2-std");
    for (q, z) in [
        ("site=KTLX&product=vel&size=512&tilt=2&basemap=light", zoom(8.0)),
        ("site=KOUN&product=ref&size=512&tilt=2&basemap=light", zoom(8.0)),
        ("site=KOUN&product=vel&size=513&tilt=2&basemap=light", zoom(8.0)),
        ("site=KOUN&product=vel&size=512&tilt=1&basemap=light", zoom(8.0)),
        ("site=KOUN&product=vel&size=512&tilt=2&basemap=dark", zoom(8.0)),
        (base, None),
        (base, zoom(-8.0)),
        (base, zoom(8.001)),
    ] {
        assert_ne!(tag(q, z), mine, "{q} at {z:?}");
    }
    assert_ne!(tag(base, zoom(8.001)), tag(base, zoom(8.004)));
}

#[test]
fn a_request_is_counted_whether_or_not_it_is_let_in() {
    let policy = Policy {
        token: "hunter2".to_string(),
        public: true,
        web_root: false,
        sites: sites(),
    };
    let mut requests = Requests::new();
    let at = |label: &str| ROUTES.iter().position(|r| *r == label).unwrap();
    let none = Headers::new();
    match handle(&policy, &mut requests, "/metrics", "", &none) {
        Handled::Refused(reply) => {
            assert_eq!(reply.status, "403 Forbidden");
            assert_eq!(reply.body, br#"{"error":"presets only"}"#.to_vec());
        }
        Handled::Serve(_) => panic!("a stranger is not let in"),
    }
    assert_eq!(requests.counts[at("denied")], 1);
    assert!(matches!(
        handle(&policy, &mut requests, "/metrics", "token=hunter2", &none),
        Handled::Serve(Endpoint::Metrics)
    ));
    assert_eq!(requests.counts[at("metrics")], 1);
    let private = Policy { public: false, ..policy };
    match handle(&private, &mut requests, "/health.json", "", &none) {
        Handled::Refused(reply) => {
            assert_eq!(reply.status, "401 Unauthorized");
            assert_eq!(reply.body, br#"{"error":"missing or bad bearer token"}"#.to_vec());
        }
        Handled::Serve(_) => panic!("a private server answers no stranger"),
    }
}

#[test]
fn a_national_request_is_counted() {
    let policy = Policy { token: String::new(), public: false, web_root: true, sites: sites() };
    let mut requests = Requests::new();
    let at = ROUTES.iter().position(|r| *r == "national").unwrap();
    for (n, path) in ["/national.png", "/national.mp4"].iter().enumerate() {
        handle(&policy, &mut requests, path, "", &Headers::new());
        assert_eq!(requests.counts[at], n as u64 + 1);
        assert_eq!(requests.counts.iter().sum::<u64>(), n as u64 + 1);
    }
    // Whatever the path, one counter moves, by one.
    for (n, path) in ["/", "/nowhere", "/loop.gif", "/proxy/x", "/metrics"].iter().enumerate() {
        handle(&policy, &mut requests, path, "", &Headers::new());
        assert_eq!(requests.counts.iter().sum::<u64>(), n as u64 + 3, "{path}");
    }
    let page = metrics(
        &requests,
        &vec![],
        &ProxyGauges { hits: 0, misses: 0, bytes: 0, entries: 0 },
        &None,
    );
    assert!(page.contains("hookecho_http_requests_total{route=\"national\"} 2\n"), "{page}");
}

#[test]
fn a_report_is_read_back_for_its_gauges() {
    let body = br#"[
        {"name": "Home", "temp_f": 70.7, "alerts": [1, 2]},
        {"name": "Work", "temp_f": null, "alerts": []},
        {"name": "Cabin", "temp_f": 50},
        {"temp_f": 12.0, "alerts": [1]},
        "not an object",
        {"name": 7, "temp_f": 1.0, "alerts": []}
    ]"#;
    assert_eq!(
        spot_alerts(body).unwrap(),
        vec![("Home".to_string(), 2), ("Work".to_string(), 0)]
    );
    let temps: Vec<(String, f64)> = spot_temps(body)
        .unwrap()
        .into_iter()
        .map(|(name, bits)| (name, f64::from_bits(bits)))
        .collect();
    assert_eq!(temps, vec![("Home".to_string(), 70.7), ("Cabin".to_string(), 50.0)]);
    assert!(spot_alerts(b"{}").is_none() && spot_temps(b"{}").is_none());
    assert!(spot_alerts(b"not json").is_none());
    assert_eq!(spot_alerts(b"[]"), Some(vec![]));
}

#[test]
fn a_row_without_a_name_has_no_gauge() {
    let row = |name: Option<&str>, number, items| Row {
        name: name.map(|n| n.to_string()),
        number,
        items,
    };
    let rows = vec![
        row(Some("a"), Some(1), None),
        row(None, Some(2), Some(3)),
        row(Some("b"), None, Some(4)),
    ];
    assert_eq!(temps_of(&rows), vec![("a".to_string(), 1)]);
    assert_eq!(alerts_of(&rows), vec![("b".to_string(), 4)]);
}

/// A picture of one pixel, made by the encoder.
fn pixel(v: u8) -> Vec<u8> {
    let mut bytes = std::io::Cursor::new(Vec::new());
    image::RgbaImage::from_pixel(1, 1, image::Rgba([v, v, v, 255]))
        .write_to(&mut bytes, image::ImageFormat::Png)
        .unwrap();
    bytes.into_inner()
}

#[test]
fn an_unreadable_frame_fails_a_loop_and_leaves_the_national_one() {
    let good = vec![pixel(1), pixel(2)];
    let read = vec![(1, 1, vec![1, 1, 1, 255]), (1, 1, vec![2, 2, 2, 255])];
    assert_eq!(loop_pictures(&good), Some(read.clone()));
    assert_eq!(readable_pictures(&good), read);
    let torn = vec![pixel(1), b"torn".to_vec(), pixel(2)];
    assert_eq!(loop_pictures(&torn), None);
    assert_eq!(readable_pictures(&torn), read);
    assert_eq!(loop_pictures(&vec![]), Some(vec![]));
}

#[test]
fn a_range_may_end_at_the_last_byte_there_is() {
    let r = range_reply(u64::MAX, "application/octet-stream", vec![7], true);
    let last = format!("bytes {0}-{0}/*", u64::MAX);
    assert!(r.headers.iter().any(|(n, v)| *n == "Content-Range" && *v == last));
    let whole = range_reply(u64::MAX, "application/octet-stream", vec![7; 3], false);
    assert_eq!(whole.status, "200 OK");
}

#[test]
fn a_catalog_is_told_apart_in_file_names() {
    assert!(Catalog::new(vec![]).is_some());
    for bad in [
        // One short name for two products, or one that a file name cannot carry.
        vec![product("A", "X", &[]), product("B", "X", &[])],
        vec![product("A", "a-b", &[])],
        vec![product("A", "a/b", &[])],
        vec![product("A", "a b", &[])],
        // Palettes that read the same in a file name, or like the default.
        vec![product("A", "X", &["a b", "a-b"])],
        vec![product("A", "X", &["std"])],
    ] {
        assert!(Catalog::new(bad).is_none());
    }
    // Two products may have palettes of one name.
    assert!(Catalog::new(vec![product("A", "X", &["p"]), product("B", "Y", &["p"])]).is_some());
}

#[test]
fn loops_are_kept_apart() {
    let key = |f, tag: &str, frames, fps| loop_key(f, tag, LoopKnobs { frames, fps });
    assert_eq!(key(LoopFormat::Gif, "T-std", 6, 2), "/loop.gif?T-std-6-2");
    let all = [
        key(LoopFormat::Gif, "T-std", 6, 2),
        key(LoopFormat::Mp4, "T-std", 6, 2),
        key(LoopFormat::Gif, "T-std-6", 6, 2),
        key(LoopFormat::Gif, "T-std", 7, 2),
        key(LoopFormat::Gif, "T-std", 6, 3),
    ];
    for (i, a) in all.iter().enumerate() {
        assert!(all[i + 1..].iter().all(|b| a != b), "{a}");
    }
}

fn location(name: &str) -> Location {
    Location {
        name: name.to_string(),
        alerts: "[1,2]".to_string(),
        whole: "{\"name\":\"whole\",\"alerts\":[1,2]}".to_string(),
        fields: [
            ("name", "\"n\""),
            ("wind", "5"),
            ("alerts", "[1,2]"),
            ("temp_f", "70.5"),
            ("wind", "6"),
            ("aqi", "null"),
        ]
        .iter()
        .map(|(k, v)| (k.to_string(), v.to_string()))
        .collect(),
    }
}

#[test]
fn a_report_has_three_views() {
    assert_eq!(Shown::of("/alerts.json"), Shown::Alerts);
    assert_eq!(Shown::of("/obs.json"), Shown::Obs);
    assert_eq!(Shown::of("/status.json"), Shown::Status);
    let report = vec![location("Home"), location("a \"b\"")];
    let whole = &report[0].whole;
    assert_eq!(status_json(Shown::Status, &report), format!("[{whole},{whole}]"));
    assert_eq!(
        status_json(Shown::Alerts, &report),
        "[{\"alerts\":[1,2],\"name\":\"Home\"},{\"alerts\":[1,2],\"name\":\"a \\\"b\\\"\"}]"
    );
    let obs = "{\"aqi\":null,\"name\":\"n\",\"temp_f\":70.5,\"wind\":6}";
    assert_eq!(status_json(Shown::Obs, &report), format!("[{obs},{obs}]"));
    assert_eq!(status_json(Shown::Obs, &vec![]), "[]");
    // As the JSON library writes the same object.
    let mut map = serde_json::Map::new();
    for (k, v) in &report[0].fields {
        map.insert(k.clone(), serde_json::from_str(v).unwrap());
    }
    map.remove("alerts");
    assert_eq!(obs, serde_json::Value::Object(map).to_string());
}
