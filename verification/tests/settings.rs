//! What the user can set, and what follows from it.

use hookecho::settings::ids::{id_from, id_text};
use hookecho::settings::store::{PaletteSource, Salvage};
use hookecho::settings::{
    default_alert_radius_mi, default_spotter_range_km, new_marker_id, AlertRule, AlertSound,
    Density, DetectorTuning, Layout, Marker, Number, RuleCombinator, RulePlace, RuleTrigger,
    Settings, TempUnit, Theme, TimeDisplay, VelocityUnit,
};

#[test]
fn rules_are_absent_from_old_settings_and_start_disabled() {
    assert!(Settings::default().alert_rules.is_empty());
    let r = AlertRule::new(RuleTrigger::Rotation);
    assert!(!r.enabled, "a rule is armed deliberately");
    assert!(!r.urgent);
    assert_eq!(r.cooldown_min, 10);
    assert_eq!(r.threshold.map(|t| f64::from_bits(t.bits)), Some(40.0));
    assert!(matches!(r.place, RulePlace::Anywhere));
    assert_eq!(r.title(), "Rotation");
    let mut named = AlertRule::new(RuleTrigger::Tds);
    assert!(named.threshold.is_none(), "a debris signature does not come in degrees");
    named.name = "  ".to_string();
    assert_eq!(named.title(), "Debris signature (TDS)");
    named.name = " mine ".to_string();
    assert_eq!(named.title(), " mine ");
}

#[test]
fn markers_get_distinct_ids_and_old_files_still_load() {
    let a = new_marker_id();
    let b = new_marker_id();
    assert_eq!(a.len(), 8);
    assert!(a.chars().all(|c| c.is_ascii_hexdigit() && !c.is_ascii_uppercase()));
    assert_ne!(a, b);
    assert_eq!(id_text([0, 15, 160, 255]), "000fa0ff");
    // What was drawn decides; else the clock does, its lowest byte first.
    assert_eq!(id_from(Some([0, 15, 160, 255]), 7), "000fa0ff");
    assert_eq!(id_from(None, 0x3b9a_c9ff), "ffc99a3b");
}

fn marker(id: &str, name: &str) -> Marker {
    Marker {
        id: id.to_string(),
        name: name.to_string(),
        lat: Number { bits: 0 },
        lon: Number { bits: 0 },
        icon: None,
        alert_radius_mi: default_alert_radius_mi(),
        video_url: String::new(),
        home: false,
    }
}

#[test]
fn markers_without_an_id_are_given_one() {
    let mut s = Settings::default();
    s.markers = vec![marker("", "home"), marker("abcd0123", "work")];
    assert!(s.fill_marker_ids());
    assert_eq!(s.markers[0].id.len(), 8);
    assert_eq!(s.markers[0].name, "home");
    assert_eq!(s.markers[1].id, "abcd0123");
    let kept = s.markers[0].id.clone();
    assert!(!s.fill_marker_ids());
    assert_eq!(s.markers[0].id, kept);
}

#[test]
fn quiet_hours_window_wraps_midnight() {
    let mut s = Settings::default();
    s.quiet_hours = true;
    s.quiet_start_hour = 22;
    s.quiet_end_hour = 7;
    for h in [22, 23, 0, 3, 6] {
        assert!(s.in_quiet_hours(h), "{h} is quiet");
    }
    for h in [7, 12, 21] {
        assert!(!s.in_quiet_hours(h), "{h} is not");
    }
    s.quiet_start_hour = 13;
    s.quiet_end_hour = 15;
    assert!(s.in_quiet_hours(13) && s.in_quiet_hours(14));
    assert!(!s.in_quiet_hours(15) && !s.in_quiet_hours(12));
    // Start == end means no window, not all day.
    s.quiet_end_hour = 13;
    assert!(!s.in_quiet_hours(13));
    s.quiet_hours = false;
    s.quiet_end_hour = 15;
    assert!(!s.in_quiet_hours(14));
}

#[test]
fn a_web_file_name_resolves_to_its_content() {
    let mut s = Settings::default();
    s.palettes = vec![
        ("REF".to_string(), "mine.pal".to_string()),
        ("VEL".to_string(), "/etc/vel.pal".to_string()),
        ("RHO".to_string(), "old.pal".to_string()),
    ];
    s.web_files = vec![("mine.pal".to_string(), "Color: 10 0 0 0".to_string())];
    match s.palette_path("REF") {
        Some(PaletteSource::Inline(t)) => assert_eq!(t, "Color: 10 0 0 0"),
        _ => panic!("a name in the web files names content"),
    }
    match s.palette_path("VEL") {
        Some(PaletteSource::File(p)) => assert_eq!(p, "/etc/vel.pal"),
        _ => panic!("any other name is a path"),
    }
    match s.palette_path("CC") {
        Some(PaletteSource::File(p)) => assert_eq!(p, "old.pal"),
        _ => panic!("correlation coefficient also goes by its old key"),
    }
    assert!(s.palette_path("ZDR").is_none());
    let all = s.palette_paths(&vec!["ZDR".to_string(), "VEL".to_string()]);
    assert!(all[0].is_none());
    assert!(matches!(&all[1], Some(PaletteSource::File(p)) if p == "/etc/vel.pal"));
}

#[test]
fn bundled_palettes_leave_the_built_in_ones() {
    let mut s = Settings::default();
    s.palettes = vec![
        ("REF".to_string(), "builtin:High contrast".to_string()),
        ("VEL".to_string(), "/home/me/vel.pal".to_string()),
    ];
    assert_eq!(s.bundled_palettes("builtin:"), vec![1]);
    s.adopt_palette("VEL", "/data/vel.pal");
    s.adopt_palette("ZDR", "/data/zdr.pal");
    assert_eq!(s.palettes.len(), 3);
    // A key is never there twice.
    s.adopt_palette("REF", "elsewhere.pal");
    assert_eq!(s.palettes.iter().filter(|(k, _)| k == "REF").count(), 1);
    assert_eq!(s.palettes.len(), 3);
    assert!(matches!(s.palette_path("REF"), Some(PaletteSource::File(p)) if p == "elsewhere.pal"));
    assert!(matches!(s.palette_path("VEL"), Some(PaletteSource::File(p)) if p == "/data/vel.pal"));
    assert!(matches!(s.palette_path("ZDR"), Some(PaletteSource::File(p)) if p == "/data/zdr.pal"));
}

#[test]
fn temp_unit_converts_from_celsius() {
    // In thousandths of a degree, out in ten-thousandths.
    assert_eq!(TempUnit::Celsius.from_c(21_000), 210_000);
    assert_eq!(TempUnit::Fahrenheit.from_c(0), 320_000);
    assert_eq!(TempUnit::Fahrenheit.from_c(-40_000), -400_000);
    assert_eq!(TempUnit::Fahrenheit.from_c(100_000), 2_120_000);
    assert_eq!(TempUnit::Fahrenheit.from_c(1), 320_018, "nothing is rounded");
}

#[test]
fn a_temperature_converts_as_far_as_it_fits() {
    // Eighteen times the second is less than the number type holds; the offset brings it back.
    assert_eq!(TempUnit::Fahrenheit.from_c(500_000_000_000_000_000), 9_000_000_000_000_320_000);
    assert_eq!(TempUnit::Fahrenheit.from_c(-512_409_557_603_043_101), -9_223_372_036_854_455_818);
    assert_eq!(TempUnit::Celsius.from_c(i64::MAX / 10), i64::MAX / 10 * 10);
    assert_eq!(TempUnit::Fahrenheit.from_c(-1), 319_982);
}

#[test]
fn one_unreadable_value_does_not_discard_the_whole_file() {
    // Three keys, of which the second does not read.
    let mut s = Salvage::new(3);
    assert_eq!(s.next(), Some(0));
    s.answered(true);
    assert_eq!(s.next(), Some(1));
    s.answered(false);
    assert_eq!(s.next(), Some(2));
    s.answered(true);
    assert_eq!(s.next(), None);
    assert_eq!(s.kept, vec![0, 2]);
}

#[test]
fn a_fresh_start_is_quiet_and_local() {
    let s = Settings::default();
    assert_eq!(s.default_site, "KTLX");
    assert_eq!(s.theme, Theme::Dark);
    assert_eq!(s.layout, Layout::Wsv3);
    assert_eq!(s.mqtt_port, 1883);
    assert_eq!(s.mqtt_prefix, "hookecho");
    assert_eq!((s.quiet_start_hour, s.quiet_end_hour), (22, 7));
    assert!(!s.quiet_hours && !s.share_position && !s.sync_enabled);
    assert_eq!(f64::from_bits(s.spotter_range_km.bits), 230.0);
    assert_eq!(s.spotter_range_km, default_spotter_range_km());
    let t = DetectorTuning::default();
    assert_eq!(f32::from_bits(t.tbss_core_dbz.bits), 60.0);
    assert_eq!(f64::from_bits(t.glm_fed_cell_deg.bits), 0.05);
    assert_eq!(t.glm_fed_window_min, 15);
}

#[test]
fn utc_shows_no_zone() {
    let mut s = Settings::default();
    let zone = || Some("America/Chicago".to_string());
    assert_eq!(s.tz_for(zone()), zone());
    s.time_display = TimeDisplay::Utc;
    assert_eq!(s.tz_for(zone()), None);
}

#[test]
fn every_choice_has_a_label() {
    assert_eq!(Layout::default().label(), "WSV3 ribbon");
    assert_eq!(TimeDisplay::ALL[1].label(), "UTC (Zulu)");
    assert_eq!(VelocityUnit::Knots.label(), "kt");
    assert_eq!(VelocityUnit::Mph.factor_from_ms(), 2_236_936);
    assert_eq!(RuleCombinator::default().label(), "and also");
    assert_eq!(Density::default(), Density::Comfortable);
    let labels: Vec<_> = AlertSound::builtins().iter().map(|s| s.label()).collect();
    assert_eq!(labels[5], "Emergency (EAS tone)");
    assert_eq!(AlertSound::Custom("x.wav".to_string()).label(), "Custom…");
    let triggers = RuleTrigger::all();
    assert_eq!(triggers.len(), 8);
    assert_eq!(triggers.iter().filter(|t| t.is_scan()).count(), 4);
    let (unit, n) = RuleTrigger::GlmJump.threshold_hint().unwrap();
    assert_eq!((unit, f64::from_bits(n.bits)), ("flashes/min rise", 4.0));
}
