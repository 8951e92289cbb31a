//! Sources and their health, the volume mirror, speech, storage, themes and model guidance.

use hookecho::render::FieldLayer;
use hookecho::settings::{AlertSound, Layout, Number32, Theme};
use hookecho::source_health::{field_endpoint_family, DataSource, EndpointFamily, FeedSource};
use hookecho::spaghetti::{
    closest, fix_readout, group_index, has_dot, has_label, invest_label, invest_readout,
    is_tropical, run_readout, stage_name, style, Aid, AidPoint, Fix, Group, Guidance, Spaghetti,
    Step, REFRESH_SECS,
};
use hookecho::speech::{
    announce, default_voice_path, emergency_waiting, enqueue, judge_help, piper_problem,
    request_voice_download, set_piper, set_piper_problem, set_voice_status, should_preempt, speak,
    split_sentences, take_voice_request, voice_path, voice_status, voice_url, Piper, Priority,
    Probe, ProbeStep, SpeechJob, Tone, VoiceDesk, DEFAULT_VOICE, VOICES, VOICES_REVISION,
};
use hookecho::storage::{human, report};
use hookecho::tgftp_provider::{
    newest_entry, newest_volume, parse_dir_list, parse_filename_time, subscribe_step, CachedVolume,
    LatestVolume, NoaaTgftpLevel2Provider,
};
use hookecho::theme::{
    accent, apply, geometry, high_contrast_alt_name, is_high_contrast, is_imgui_style,
    is_wsv3_theme, overlay_stroke_scale, palette, preview_bg, set_accent_override, tune,
    vector_stroke_scale, warning_alpha_for, Extent, Look, Metrics, Moment, Rgb,
};
use hookecho::tiles::{CacheCaps, DISK_CACHE_BYTES};
use hookecho::voice::{
    candidates, piper, piper_ran, piper_unstarted, set_volume, Attempts, EngineStep, PiperStep,
    Platform, Speaker,
    SpeechStep,
};
use std::collections::VecDeque;

// ---------------------------------------------------------------------------------------------
// Source health.

#[test]
fn descriptor_backed_fields_inherit_the_registry_source() {
    assert_eq!(
        field_endpoint_family(FieldLayer::Mesh, Some(DataSource::NoaaMrms)),
        EndpointFamily::NoaaMrms
    );
    assert_eq!(
        field_endpoint_family(FieldLayer::Cape, Some(DataSource::NoaaNcepModels)),
        EndpointFamily::NoaaNcepModels
    );
    assert_eq!(
        field_endpoint_family(FieldLayer::GlobalMslp, Some(DataSource::GlobalModels)),
        EndpointFamily::GlobalModels
    );
}

#[test]
fn shared_feed_failures_group_under_the_same_family() {
    assert_eq!(
        FeedSource::SurfaceObservations.endpoint_family(),
        FeedSource::AviationAdvisories.endpoint_family()
    );
    assert_eq!(
        FeedSource::StormReports.endpoint_family(),
        FeedSource::ArchivedWarnings.endpoint_family()
    );
}

#[test]
fn typed_feed_metadata_preserves_source_specific_cadence() {
    assert_eq!(FeedSource::SurfaceObservations.cadence_secs(), 75);
    assert_eq!(FeedSource::FieldMill.cadence_secs(), 60);
    assert_eq!(FeedSource::DamageSurveys.cadence_secs(), 3_600);
    assert_eq!(FeedSource::SurfaceObservations.label(), "Surface observations");
}

#[test]
fn ids_are_stable_machine_names_not_display_labels() {
    let family = EndpointFamily::AviationWeather;
    assert_eq!(family.id(), "aviation-weather");
    assert_eq!(family.label(), "AviationWeather.gov");
}

// ---------------------------------------------------------------------------------------------
// The volume mirror.

#[test]
fn the_provider_advertises_completed_volume_only_capabilities() {
    let caps = NoaaTgftpLevel2Provider::<u32>::new().capabilities();
    assert!(!caps.progressive_radials);
    assert!(caps.completed_volume);
    assert!(!caps.server_push);
}

#[test]
fn parse_dir_list_reads_size_and_filename_pairs() {
    let body = "3487682 KTLX_20260916_230507.bz2\n6142664 KTLX_20260917_012228.bz2\n";
    let entries = parse_dir_list(body);
    assert_eq!(
        entries,
        vec![
            ("KTLX_20260916_230507.bz2".to_string(), 3487682),
            ("KTLX_20260917_012228.bz2".to_string(), 6142664),
        ]
    );
}

#[test]
fn parse_dir_list_skips_unparseable_lines_without_failing_the_rest() {
    let body = "not a valid line\n3487682 KTLX_20260916_230507.bz2\n\nalso not valid\n";
    let entries = parse_dir_list(body);
    assert_eq!(entries.len(), 1);
    assert_eq!(entries[0].0, "KTLX_20260916_230507.bz2");
}

#[test]
fn parse_filename_time_reads_the_embedded_timestamp() {
    let t = parse_filename_time("KTLX_20260917_074402.bz2").unwrap();
    let t = chrono::DateTime::from_timestamp(t.secs, t.nanos).unwrap();
    assert_eq!(t.to_rfc3339(), "2026-09-17T07:44:02+00:00");
}

#[test]
fn parse_filename_time_rejects_anything_else() {
    assert!(parse_filename_time("dir.list").is_none());
    assert!(parse_filename_time("KTLX_20260917_074402.gz").is_none());
    assert!(parse_filename_time("garbage").is_none());
}

#[test]
fn newest_entry_picks_by_embedded_timestamp_not_list_order() {
    let entries = vec![
        ("KTLX_20260917_012228.bz2".to_string(), 1),
        ("KTLX_20260916_230507.bz2".to_string(), 1),
        ("KTLX_20260917_074402.bz2".to_string(), 1),
    ];
    let (name, _) = newest_entry(&entries).unwrap();
    assert_eq!(name, "KTLX_20260917_074402.bz2");
}

#[test]
fn newest_entry_ignores_non_volume_files_like_dir_list_itself() {
    let entries = vec![
        ("dir.list".to_string(), 2820),
        ("KTLX_20260917_012228.bz2".to_string(), 1),
    ];
    let (name, _) = newest_entry(&entries).unwrap();
    assert_eq!(name, "KTLX_20260917_012228.bz2");
}

#[test]
fn newest_entry_is_none_for_an_empty_or_all_unrecognized_listing() {
    assert!(newest_entry(&[]).is_none());
    assert!(newest_entry(&[("dir.list".to_string(), 1)]).is_none());
}

#[test]
fn an_index_without_volumes_is_an_error() {
    let (name, _) = newest_volume("10 KTLX_20260916_230507.bz2\n", "KTLX").unwrap();
    assert_eq!(name, "KTLX_20260916_230507.bz2");
    assert_eq!(
        newest_volume("10 dir.list\n", "KTLX").unwrap_err(),
        "no volume files found for KTLX in dir.list"
    );
}

fn volume(name: &str, scan: u32) -> CachedVolume<u32> {
    CachedVolume { name: name.to_string(), time: parse_filename_time(name).unwrap(), scan }
}

#[test]
fn an_outage_keeps_the_last_volume() {
    let a = "KTLX_20260916_230507.bz2";
    let b = "KTLX_20260917_012228.bz2";
    let mut p = NoaaTgftpLevel2Provider::new();
    assert_eq!(p.label(), "NOAA TGFTP (degraded)");
    assert_eq!(
        p.dir_list_url("ktlx"),
        "https://tgftp.nws.noaa.gov/data/radar/nexrad_level2/KTLX/dir.list"
    );
    // With nothing fetched ever, the outage is the error that it was.
    assert_eq!(p.latest_complete_volume(Err("offline"), &None).unwrap_err(), "offline");
    let shown = Some(a.to_string());
    let first = p.latest_complete_volume(Ok::<_, &str>(volume(a, 7)), &None).unwrap();
    assert!(matches!(&first, LatestVolume::New { name, scan: 7, .. } if name == a));
    // What is shown already is up to date, outage or not.
    assert!(matches!(
        p.latest_complete_volume(Err("offline"), &shown),
        Ok(LatestVolume::UpToDate)
    ));
    assert!(matches!(
        p.latest_complete_volume(Ok::<_, &str>(volume(a, 7)), &shown),
        Ok(LatestVolume::UpToDate)
    ));
    // An outage shows the last good volume again, its scan with it, and remembers it.
    for _ in 0..2 {
        match p.latest_complete_volume(Err("offline"), &None) {
            Ok(LatestVolume::New { name, time, scan }) => {
                assert_eq!((name.as_str(), scan), (a, 7));
                assert_eq!(time, parse_filename_time(a).unwrap());
            }
            _ => panic!("the last volume is kept"),
        }
    }
    assert!(matches!(
        p.latest_complete_volume(Ok::<_, &str>(volume(b, 8)), &shown),
        Ok(LatestVolume::New { name, scan: 8, .. }) if name == b
    ));
    let mut current = None;
    assert!(subscribe_step(&mut current, &first, true));
    assert_eq!(current.as_deref(), Some(a));
    assert!(!subscribe_step(&mut current, &first, false));
    assert!(!subscribe_step::<u32>(&mut current, &LatestVolume::UpToDate, true));
}

// ---------------------------------------------------------------------------------------------
// Speech.

fn job(priority: Priority, text: &str) -> SpeechJob {
    SpeechJob::new(priority, None, vec![text.to_string()])
}

#[test]
fn an_emergency_discards_pending_lower_priority_speech() {
    let mut queue = VecDeque::new();
    enqueue(&mut queue, job(Priority::Background, "chase update"));
    enqueue(&mut queue, job(Priority::Warning, "ordinary warning"));
    enqueue(&mut queue, job(Priority::Emergency, "tornado emergency"));

    assert_eq!(queue.len(), 1);
    assert_eq!(queue.front().unwrap().priority, Priority::Emergency);
    assert!(emergency_waiting(&queue));
    assert!(should_preempt(Priority::Warning, &queue));
    assert!(should_preempt(Priority::Background, &queue));
    assert!(!should_preempt(Priority::Emergency, &queue));
}

#[test]
fn ordinary_speech_stays_fifo_and_scripts_split_at_sentences() {
    let mut queue = VecDeque::new();
    enqueue(&mut queue, job(Priority::Background, "first"));
    enqueue(
        &mut queue,
        job(Priority::Warning, "Hail to 1.75 inches. Take cover now! Stay there?"),
    );

    assert_eq!(queue.pop_front().unwrap().priority, Priority::Background);
    assert_eq!(
        queue.pop_front().unwrap().lines,
        ["Hail to 1.75 inches.", "Take cover now!", "Stay there?"]
    );
}

#[test]
fn a_voice_id_derives_its_own_download_url() {
    assert_eq!(
        voice_url("en_US-lessac-medium"),
        Some(format!("https://huggingface.co/rhasspy/piper-voices/resolve/{VOICES_REVISION}/en/en_US/lessac/medium/en_US-lessac-medium.onnx"))
    );
    assert_eq!(
        voice_url("pt_BR-faber-medium"),
        Some(format!("https://huggingface.co/rhasspy/piper-voices/resolve/{VOICES_REVISION}/pt/pt_BR/faber/medium/pt_BR-faber-medium.onnx"))
    );
    // A commit, never a branch: `resolve/main` is whatever someone else's head happens to be.
    assert!(
        VOICES_REVISION.len() == 40 && VOICES_REVISION.chars().all(|c| c.is_ascii_hexdigit()),
        "VOICES_REVISION must be a full commit sha, got {VOICES_REVISION}"
    );
    // Underscores are part of names and qualities both, and must survive.
    assert!(voice_url("en_US-hfc_female-medium")
        .unwrap()
        .ends_with("/en/en_US/hfc_female/medium/en_US-hfc_female-medium.onnx"));
    assert!(voice_url("it_IT-riccardo-x_low")
        .unwrap()
        .ends_with("/it/it_IT/riccardo/x_low/it_IT-riccardo-x_low.onnx"));

    // Anything not shaped like a Piper id is refused before it becomes a URL.
    assert_eq!(voice_url("lessac"), None);
    assert_eq!(voice_url("en_US-lessac-medium-extra"), None);
    assert_eq!(voice_url("en_US-../../etc-medium"), None);
    assert!(VOICES.iter().all(|id| voice_url(id).is_some()));
    assert!(VOICES.contains(&DEFAULT_VOICE));
}

#[test]
fn a_voice_id_has_no_empty_part() {
    for id in [
        "--",
        "-lessac-medium",
        "en_US--medium",
        "en_US-lessac-",
        "en-lessac-medium",
        "en_-lessac-medium",
        "_US-lessac-medium",
        "en_US_x-lessac-medium",
        "",
    ] {
        assert_eq!(voice_url(id), None, "{id}");
    }
}

#[test]
fn sentences_end_where_a_space_follows() {
    assert_eq!(split_sentences("One. Two"), ["One.", "Two"]);
    assert_eq!(split_sentences("At 3.5 km."), ["At 3.5 km."]);
    assert!(split_sentences("  ").is_empty());
}

#[test]
fn speaking_waits_its_turn() {
    let mut queue = VecDeque::new();
    assert!(!speak(&mut queue, "   "));
    assert!(speak(&mut queue, "hello"));
    let tone = Some(Tone { sound: AlertSound::Siren, volume: 0 });
    assert!(announce(&mut queue, Priority::Warning, tone, vec!["take cover".to_string()]));
    assert!(!announce(&mut queue, Priority::Warning, None, vec![]));
    assert_eq!(queue.len(), 2);
    let mut s = Speaker::new();
    assert!(matches!(s.next(&mut queue), SpeechStep::Say(l) if l == "hello"));
    assert!(matches!(s.next(&mut queue), SpeechStep::Play(t) if t.sound.label() == "Siren"));
    assert!(matches!(s.next(&mut queue), SpeechStep::Say(l) if l == "take cover"));
    assert!(matches!(s.next(&mut queue), SpeechStep::Wait));
}

#[test]
fn an_emergency_cuts_in_between_lines() {
    let mut queue = VecDeque::new();
    enqueue(&mut queue, job(Priority::Warning, "One. Two. Three."));
    let mut s = Speaker::new();
    assert!(matches!(s.next(&mut queue), SpeechStep::Say(l) if l == "One."));
    enqueue(&mut queue, job(Priority::Emergency, "Tornado emergency. Now."));
    assert!(matches!(s.next(&mut queue), SpeechStep::Say(l) if l == "Tornado emergency."));
    assert!(matches!(s.next(&mut queue), SpeechStep::Say(l) if l == "Now."));
    assert!(matches!(s.next(&mut queue), SpeechStep::Wait));
    enqueue(&mut queue, job(Priority::Warning, "One. Two."));
    assert!(matches!(s.next(&mut queue), SpeechStep::Say(_)));
    s.failed();
    assert!(matches!(s.next(&mut queue), SpeechStep::Wait), "a failed line drops the rest");
}

#[test]
fn the_voice_desk_hands_a_request_over_once() {
    let mut d = VoiceDesk::new();
    request_voice_download(&mut d, DEFAULT_VOICE);
    assert_eq!(take_voice_request(&mut d).as_deref(), Some(DEFAULT_VOICE));
    assert_eq!(take_voice_request(&mut d), None);
    set_voice_status(&mut d, true, "half way");
    let s = voice_status(&d);
    assert_eq!((s.busy, s.text.as_str()), (true, "half way"));
    assert_eq!(voice_path("x"), "voices/x.onnx");
    assert_eq!(default_voice_path(), format!("voices/{DEFAULT_VOICE}.onnx"));
}

#[test]
fn an_engine_is_probed_once_per_path() {
    let mut p = Probe { known: None };
    assert!(matches!(piper_problem(&mut p, "piper"), ProbeStep::Look));
    assert!(matches!(piper_problem(&mut p, "piper"), ProbeStep::Known(None)));
    set_piper_problem(&mut p, "piper", judge_help("", "usage: mouse"));
    match piper_problem(&mut p, "piper") {
        ProbeStep::Known(Some(t)) => assert!(t.starts_with("`piper` is not"), "{t}"),
        _ => panic!("the problem is known"),
    }
    assert!(matches!(piper_problem(&mut p, "other"), ProbeStep::Look));
    assert!(judge_help("", "  --MODEL path").is_none());
}

#[test]
fn the_neural_voice_needs_a_model_that_is_there() {
    let mut c = Piper { bin: String::new(), voice: String::new() };
    assert!(matches!(piper(&c, true), PiperStep::Skip(None)));
    set_piper(&mut c, " ", " v.onnx ");
    match piper(&c, false) {
        PiperStep::Skip(Some(p)) => assert_eq!(p, "voice model not found: v.onnx"),
        _ => panic!("the model is gone"),
    }
    match piper(&c, true) {
        PiperStep::Start(run) => {
            assert_eq!(run.bin, "piper");
            assert_eq!(run.args, ["--model", "v.onnx", "--output_file", "-"]);
        }
        _ => panic!("it speaks"),
    }
    assert!(matches!(piper_unstarted("piper", true, "", true).spoke, Ok(false)));
    assert_eq!(piper_unstarted("p", false, "denied", true).spoke.unwrap_err(), "spawn p: denied");
    assert!(matches!(piper_ran("p", "0", true, 10).spoke, Ok(true)));
    assert_eq!(piper_ran("p", "exit status: 2", false, 0).spoke.unwrap_err(), "piper exited exit status: 2");
    assert!(piper_ran("p", "0", true, 0).spoke.is_err());
}

#[test]
fn engines_are_tried_in_order() {
    let runs = candidates(Platform::Linux, "hi");
    let bins: Vec<_> = runs.iter().map(|r| r.bin.as_str()).collect();
    assert_eq!(bins, ["spd-say", "espeak-ng", "espeak"]);
    assert_eq!(runs[0].args, ["-w", "hi"]);
    let win = candidates(Platform::Windows, "it's");
    assert!(win[0].args[2].ends_with(".Speak('it''s')"), "{}", win[0].args[2]);
    assert!(candidates(Platform::Other, "hi").is_empty());
}

#[test]
fn engines_are_tried_until_one_speaks() {
    let run = |neural: Result<bool, String>, answers: &[bool]| {
        let mut a = Attempts::new(Platform::Linux, "hi", &neural);
        let mut ran = Vec::new();
        loop {
            match a.step() {
                EngineStep::Run(i) => {
                    ran.push(a.runs[i].bin.clone());
                    a.ended(answers[i]);
                }
                EngineStep::Spoken => return (ran, None),
                EngineStep::Failed(why) => return (ran, Some(why)),
            }
        }
    };
    assert_eq!(run(Ok(true), &[]), (vec![], None));
    let three = vec!["spd-say".to_string(), "espeak-ng".to_string(), "espeak".to_string()];
    assert_eq!(run(Ok(false), &[false, true]), (three[..2].to_vec(), None));
    let none = "no speech engine found (tried spd-say / espeak)".to_string();
    assert_eq!(run(Err("broken".to_string()), &[false; 3]), (three, Some(none)));
}

#[test]
fn loudness_is_held_between_none_and_full() {
    for v in [0.0f32, -0.0, 0.5, 1.0, 1.5, -0.5, f32::INFINITY, f32::NEG_INFINITY, f32::MIN] {
        let r = set_volume(Number32 { bits: v.to_bits() });
        assert_eq!(r.bits, v.clamp(0.0, 1.0).to_bits(), "{v}");
    }
    assert!(f32::from_bits(set_volume(Number32 { bits: f32::NAN.to_bits() }).bits).is_nan());
}

// ---------------------------------------------------------------------------------------------
// Storage.

#[test]
fn human_rounds_to_the_unit() {
    assert_eq!(human(512), "512 B");
    assert_eq!(human(1536), "1.5 KB");
    assert_eq!(human(3 * 1024 * 1024 * 1024), "3.0 GB");
}

/// Sizes as plain floating-point arithmetic writes them.
fn float_human(bytes: u64) -> String {
    let units = ["B", "KB", "MB", "GB"];
    let mut v = bytes as f64;
    let mut u = 0;
    while v >= 1024.0 && u + 1 < units.len() {
        v /= 1024.0;
        u += 1;
    }
    if u == 0 {
        format!("{bytes} B")
    } else {
        format!("{v:.1} {}", units[u])
    }
}

#[test]
fn sizes_are_written_as_floats_would_be() {
    let mut n: u64 = 1;
    for i in 0..20_000u64 {
        assert_eq!(human(n), float_human(n), "{n}");
        n = n.wrapping_mul(6_364_136_223_846_793_005).wrapping_add(i) >> (i % 60);
    }
    for n in [0, 1023, 1024, 1_048_575, 1_048_576, 1_073_741_823, 1_073_741_824, u64::MAX] {
        assert_eq!(human(n), float_human(n), "{n}");
    }
}

#[test]
fn the_storage_report_names_every_cache() {
    let r = report(&CacheCaps::new(), [1, 2, 3, 4, 5, 6, 7]);
    assert_eq!(r.len(), 7);
    assert!(r.iter().all(|e| !e.label.is_empty()));
    assert_eq!(r.iter().map(|e| e.bytes).sum::<u64>(), 28);
    assert!(r.iter().any(|e| e.cap == Some(DISK_CACHE_BYTES)));
}

// ---------------------------------------------------------------------------------------------
// Themes.

fn n(f: f32) -> Number32 {
    Number32 { bits: f.to_bits() }
}

fn metrics(unit: f32) -> Metrics {
    Metrics {
        item_spacing: Extent { x: n(unit), y: n(unit + 1.0) },
        button_padding: Extent { x: n(unit + 2.0), y: n(unit + 3.0) },
        interact_h: n(unit + 4.0),
        window_margin: 10,
        menu_margin: 6,
        heading: n(18.0),
        body: n(14.0),
        button: n(14.0),
        small: n(11.0),
        mono: n(13.0),
    }
}

#[test]
fn dear_imgui_geometry_is_square_and_compact_regardless_of_density() {
    for m in [metrics(6.0), metrics(4.0)] {
        let g = geometry(true, &m);
        assert_eq!(g.corner_radius, 0, "Dear ImGui rounds nothing");
        assert_eq!(g.window_corner_radius, 0);
        assert_eq!(g.button_padding, Extent { x: n(4.0), y: n(3.0) });
        assert_eq!(g.item_spacing, Extent { x: n(8.0), y: n(4.0) });
        assert_eq!(g.interact_h, n(19.0));
    }
}

#[test]
fn every_other_theme_keeps_the_existing_rounded_density_aware_geometry() {
    let m = metrics(6.0);
    let g = geometry(false, &m);
    assert_eq!(g.corner_radius, 6);
    assert_eq!(g.window_corner_radius, 8);
    assert_eq!(g.button_padding, m.button_padding);
    assert_eq!(g.item_spacing, m.item_spacing);
    assert_eq!(g.interact_h, m.interact_h);
}

#[test]
fn dear_imgui_is_a_real_selectable_theme() {
    assert!(Theme::ALL.contains(&Theme::DearImGui));
    assert_eq!(Theme::DearImGui.label(), "Dear ImGui");
}

#[test]
fn dear_imgui_reproduces_the_exact_imgui_blue_accent() {
    assert_eq!(
        accent(&Look::default(), Theme::DearImGui),
        Rgb { r: 0x42, g: 0x96, b: 0xfa }
    );
}

#[test]
fn dear_imgui_is_dark_with_a_near_black_background() {
    let bg = preview_bg(Theme::DearImGui);
    assert!(bg.r < 0x20 && bg.g < 0x20 && bg.b < 0x20, "{bg:?}");
}

#[test]
fn every_theme_has_a_distinct_accent_or_is_explicitly_sharing_the_default() {
    let named = [Theme::Synthwave, Theme::Aurora, Theme::HighContrast, Theme::DearImGui];
    let look = Look::default();
    for (i, a) in named.iter().enumerate() {
        for b in &named[i + 1..] {
            assert_ne!(accent(&look, *a), accent(&look, *b), "{a:?} vs {b:?}");
        }
    }
}

#[test]
fn a_theme_is_put_in_force() {
    let mut look = Look::default();
    let m = metrics(6.0);
    let plan = apply(&mut look, Theme::System, false, &m, Some((1, 2, 3)), Layout::Minimal);
    assert!(!plan.is_dark);
    assert_eq!(plan.colors.hyperlink, Rgb { r: 1, g: 2, b: 3 });
    assert_eq!(plan.colors.panel_fill, Rgb { r: 0xf6, g: 0xf7, b: 0xf9 });
    assert_eq!(accent(&look, Theme::Aurora), Rgb { r: 1, g: 2, b: 3 });
    assert!(!is_imgui_style(&look) && !is_wsv3_theme(&look));
    set_accent_override(&mut look, None);
    assert_eq!(accent(&look, Theme::Dark), Rgb { r: 77, g: 163, b: 255 });
    apply(&mut look, Theme::DearImGui, true, &m, None, Layout::Wsv3);
    assert!(is_imgui_style(&look) && is_wsv3_theme(&look));
    let c = tune(&palette(Theme::Dark, true));
    assert_eq!(c.shadow_alpha, 120);
    assert_eq!(c.selection_fill.percent, 45);
}

#[test]
fn high_contrast_reaches_the_map() {
    assert!(is_high_contrast(Theme::HighContrast) && !is_high_contrast(Theme::Oled));
    assert_eq!((overlay_stroke_scale(Theme::HighContrast), overlay_stroke_scale(Theme::Dark)), (22, 10));
    assert_eq!((vector_stroke_scale(Theme::HighContrast), vector_stroke_scale(Theme::Dark)), (18, 10));
    assert_eq!(warning_alpha_for(Theme::HighContrast), (90, 255));
    assert_eq!(warning_alpha_for(Theme::Dark), (45, 235));
    assert_eq!(high_contrast_alt_name(Moment::Velocity), Some("High contrast (velocity)"));
    assert_eq!(high_contrast_alt_name(Moment::SpectrumWidth), None);
}

// ---------------------------------------------------------------------------------------------
// Model guidance.

/// Globals, consensus and the official forecast draw from the start.
fn defaults() -> [bool; 8] {
    let mut g = [true; 8];
    g[group_index(Group::EnsembleMember)] = false;
    g[group_index(Group::Other)] = false;
    g
}

fn run(tech: &str, group: Group, interpolated: bool) -> Aid {
    Aid {
        tech: tech.to_string(),
        name: String::new(),
        group,
        interpolated,
        color: Rgb { r: 10, g: 20, b: 30 },
        cycle: 1_700_000_000 * 1_000_000_000,
        points: vec![
            AidPoint { tau: 0, vmax_kt: None, mslp_mb: None },
            AidPoint { tau: 24, vmax_kt: Some(95), mslp_mb: Some(960) },
        ],
    }
}

#[test]
fn the_picker_decides_what_draws() {
    let mut sp = Spaghetti::new(defaults());
    let avno = run("AVNO", Group::Global, false);
    let avni = run("AVNI", Group::Global, true);
    let ap05 = run("AP05", Group::EnsembleMember, false);
    let ship = run("SHIP", Group::Other, false);
    assert!(sp.shows(&avno), "globals are on by default");
    assert!(!sp.shows(&avni), "interpolated aids wait to be asked for");
    assert!(!sp.shows(&ap05), "members too");
    assert!(!sp.shows(&ship), "an intensity aid never draws as a track");
    sp.interpolated = true;
    assert!(sp.shows(&avni));
    sp.hidden.push("AVNO".into());
    assert!(!sp.shows(&avno));
    sp.groups[group_index(Group::EnsembleMember)] = true;
    assert!(sp.shows(&ap05));
    sp.groups[group_index(Group::Global)] = false;
    assert!(!sp.shows(&run("CMC", Group::Global, false)));
}

fn system(id: &str, aids: Vec<Aid>, best: Vec<Fix>, invest: bool) -> Guidance {
    let latest = if best.is_empty() { None } else { Some(best.len() - 1) };
    Guidance { id: id.into(), title: "Invest 98L".into(), invest, aids, best, latest }
}

#[test]
fn a_dissipated_focus_is_let_go() {
    let mut sp = Spaghetti::new(defaults());
    sp.focus = Some("al982026".into());
    sp.ingest(Ok(vec![system("al062026", vec![], vec![], false)]));
    assert_eq!(sp.focus, None);
    assert_eq!(sp.systems().len(), 1);
    sp.ingest(Err("offline".into()));
    assert_eq!(sp.guidance.len(), 1, "a failed refresh keeps what was there");
    assert_eq!(sp.error.as_deref(), Some("offline"));
    assert_eq!(sp.find("al062026"), Some(0));
    assert_eq!(sp.find("al982026"), None);
}

fn fix(stage: &str) -> Fix {
    Fix {
        time: 1_700_000_000 * 1_000_000_000,
        stage: stage.into(),
        vmax_kt: Some(35),
        mslp_mb: None,
    }
}

#[test]
fn the_important_is_painted_last() {
    let mut sp = Spaghetti::new([true; 8]);
    let aids = vec![
        run("OFCL", Group::Official, false),
        run("AVNO", Group::Global, false),
        run("AP05", Group::EnsembleMember, false),
        run("TVCN", Group::Consensus, false),
        run("HWRF", Group::Hurricane, false),
    ];
    sp.ingest(Ok(vec![system("al982026", aids, vec![fix("DB"), fix("LO")], true)]));
    assert!(sp.draw().is_empty(), "off until asked for");
    sp.enabled = true;
    let r = |aid| Step::Run { system: 0, aid };
    assert_eq!(
        sp.draw(),
        vec![
            r(2),
            r(1),
            r(4),
            r(3),
            r(0),
            Step::BestTrack { system: 0 },
            Step::Invest { system: 0, fix: 1 },
        ]
    );
    assert_eq!(sp.hit(&vec![Some(5)], 9), Some(0));
    assert_eq!(sp.hit(&vec![Some(10)], 9), None);
}

#[test]
fn the_nearest_within_reach_is_hit() {
    let bits = |v: &[f32]| v.iter().map(|f| Some(f.to_bits())).collect::<Vec<_>>();
    assert_eq!(closest(&bits(&[90.0, 4.0, 4.0, 80.0]), 81f32.to_bits()), Some(1));
    assert_eq!(closest(&bits(&[90.0]), 81f32.to_bits()), None);
    assert_eq!(closest(&vec![None, Some(0)], 0), Some(1));
}

#[test]
fn a_fetch_is_due_each_half_hour() {
    let mut sp = Spaghetti::new(defaults());
    assert!(!sp.due(0), "off until asked for");
    sp.enabled = true;
    assert!(sp.due(0));
    sp.fetch(1_000);
    assert!(sp.loading && !sp.due(10_000_000));
    sp.poll(None);
    assert!(sp.loading);
    sp.poll(Some(Ok(vec![])));
    assert!(!sp.loading);
    assert!(!sp.due(1_000 + REFRESH_SECS * 1_000 - 1));
    assert!(sp.due(1_000 + REFRESH_SECS * 1_000));
}

#[test]
fn hover_text_reads_like_an_advisory() {
    let a = run("AVNO", Group::Global, false);
    assert_eq!(
        run_readout("Invest 98L", &a, &a.points[1], &None),
        "AVNO (AVNO) · 22Z Nov 14 run\n+24 h · Wed 22Z\n95 kt · 960 mb\nInvest 98L"
    );
    assert_eq!(
        fix_readout("Fay", &fix("TS"), &Some("Tue 5 PM EST".into())),
        "Fay best track\nTue 5 PM EST · Tropical storm\n35 kt"
    );
    assert_eq!(
        invest_readout("Invest 98L", &fix("DB"), &None),
        "Invest 98L\nDisturbance · Tue 22Z\n35 kt\nClick for its model guidance"
    );
    assert_eq!(invest_label("Invest 98L"), "98L");
    assert_eq!(stage_name("HU"), "Hurricane");
    assert_eq!(stage_name("??"), "??");
    assert!(is_tropical("SD") && !is_tropical("EX"));
}

#[test]
fn lines_are_drawn_by_their_group() {
    let sp = Spaghetti::new(defaults());
    let member = run("AP05", Group::EnsembleMember, false);
    let official = run("OFCL", Group::Official, false);
    assert_eq!(style(&member).0, 10);
    assert_eq!(style(&official).0, 26);
    assert!(has_dot(&official, &official.points[1]) && !has_dot(&official, &official.points[0]));
    assert!(!has_dot(&member, &member.points[1]));
    assert!(has_label(&sp, &official, true) && !has_label(&sp, &official, false));
}
