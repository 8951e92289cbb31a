//! Persisted user settings: what they are on a fresh start, and what follows from them.

use crate::render::FieldLayer;
use crate::settings::rules::{AlertRule, AlertPolygon, Marker};
use crate::settings::units::{
    default_spotter_range_km, AlertSound, Density, Layout, Number, Number32, TempUnit, Theme,
    TimeDisplay, VelocityUnit,
};
use crate::settings::ids::{is_marker_id, new_marker_id};
use crate::text;
use vstd::prelude::*;

verus! {

/// Where the desktop window was last time. Size only, not position: a saved position is wrong the
/// moment a monitor is unplugged.
#[derive(Debug)]
pub struct WindowGeom {
    pub width: Number32,
    pub height: Number32,
    pub maximized: bool,
}

/// Where the dual-pol signature detectors and the flash-extent grid draw their lines.
#[derive(Debug)]
pub struct DetectorTuning {
    /// Reflectivity (dBZ) a core must reach before a hail spike behind it is looked for.
    pub tbss_core_dbz: Number32,
    /// Differential reflectivity (dB) a gate must reach to count toward a ZDR column.
    pub zdr_min_db: Number32,
    /// How far a column must extend above the freezing level (km) to be reported.
    pub zdr_min_depth_km: Number,
    /// Flash-extent density grid cell size, in degrees.
    pub glm_fed_cell_deg: Number,
    /// How far back the flash-extent density grid counts, in minutes.
    pub glm_fed_window_min: i64,
}

impl DetectorTuning {
    /// 60 dBZ, 1 dB, 1 km, a twentieth of a degree, a quarter of an hour.
    pub open spec fn is_default(self) -> bool {
        &&& self.tbss_core_dbz.bits == 0x42700000
        &&& self.zdr_min_db.bits == 0x3f800000
        &&& self.zdr_min_depth_km.bits == 0x3ff0000000000000
        &&& self.glm_fed_cell_deg.bits == 0x3fa999999999999a
        &&& self.glm_fed_window_min == 15
    }
}

impl Default for DetectorTuning {
    fn default() -> (r: DetectorTuning)
        ensures
            r.is_default(),
    {
        DetectorTuning {
            tbss_core_dbz: Number32 { bits: 0x42700000 },
            zdr_min_db: Number32 { bits: 0x3f800000 },
            zdr_min_depth_km: Number { bits: 0x3ff0000000000000 },
            glm_fed_cell_deg: Number { bits: 0x3fa999999999999a },
            glm_fed_window_min: 15,
        }
    }
}

/// A saved view: site and camera, and (for archive views) the UTC instant to seek to.
#[derive(Debug)]
pub struct Bookmark {
    pub name: String,
    pub site: String,
    /// Camera center in web-mercator world space, each from 0 to 1.
    pub x: Number,
    pub y: Number,
    pub zoom: Number,
    /// UTC time to seek to (Unix seconds); `None` = live.
    pub time_secs: Option<i64>,
    /// Replay window around `time_secs`, in minutes. 0 means a still: jump there and stop.
    pub span_min: u16,
}

/// A remembered startup camera: which site to load and where the map sits.
#[derive(Debug)]
pub struct StartView {
    pub site: String,
    /// Camera center in web-mercator world space, each from 0 to 1.
    pub x: Number,
    pub y: Number,
    pub zoom: Number,
}

/// One external-process plugin: a command that prints a placefile on stdout. `refresh_secs` is the
/// app's cadence, not the placefile's own.
#[derive(Debug)]
pub struct PluginConfig {
    pub name: String,
    pub command: String,
    pub args: Vec<String>,
    pub refresh_secs: u32,
    pub enabled: bool,
}

/// One weather radio relay the user has added.
#[derive(Debug)]
pub struct NwrStream {
    /// What to call it in the picker.
    pub name: String,
    /// A streaming audio URL.
    pub url: String,
}

/// A configured placefile overlay, persisted across sessions.
#[derive(Debug)]
pub struct PlacefileConfig {
    pub url: String,
    pub enabled: bool,
    /// Draw opacity, from none to full.
    pub opacity: Number32,
}

/// A user-defined radar product.
#[derive(Debug)]
pub struct ProductDef {
    pub name: String,
    pub units: String,
    pub expression: String,
}

/// Everything the user can set.
#[derive(Debug)]
pub struct Settings {
    /// Default/home radar site (ICAO id).
    pub default_site: String,
    /// Seconds between live-update polls for the newest volume.
    pub poll_interval_secs: u64,
    pub theme: Theme,
    /// Desktop/web chrome: the ribbon (default) or the map-first minimal chrome.
    pub layout: Layout,
    /// UI density (spacing/type token table).
    pub density: Density,
    /// User accent override as RGB. `None` keeps the theme's own accent.
    pub accent: Option<(u8, u8, u8)>,
    /// Hold every animation at its endpoint.
    pub reduce_motion: bool,
    /// Starred radar sites shown in the toolbox presets dropdown.
    pub presets: Vec<String>,
    /// Per-moment color-table override: moment short name (`REF`, `VEL`, …) -> `.pal` path.
    pub palettes: Vec<(String, String)>,
    /// File name -> file content, for platforms with nowhere to put a file.
    pub web_files: Vec<(String, String)>,
    /// Velocity/spectrum-width display unit (internal data stays m/s).
    pub velocity_unit: VelocityUnit,
    /// Temperature display unit for the surface station plots (internal data stays Celsius).
    pub temp_unit: TempUnit,
    /// Whether radar timestamps read in the site's local time or in UTC.
    pub time_display: TimeDisplay,
    /// Maximum allowed difference between a displayed radar scan and another layer's valid time.
    pub time_mismatch_minutes: u16,
    /// UI text and widget zoom factor.
    pub ui_scale: Number32,
    /// User-added GRLevelX placefile overlays.
    pub placefiles: Vec<PlacefileConfig>,
    /// User-placed location markers.
    pub markers: Vec<Marker>,
    /// User-defined radar products: saved formulas, evaluated live at whatever gate the inspector
    /// is showing.
    pub udp_products: Vec<ProductDef>,
    /// Recolour reflectivity by the MRMS surface precipitation type: blue where it is falling as
    /// snow, pink where it is freezing rain or sleet.
    pub precip_tint: bool,
    /// Unfold aliased Doppler velocity (region-based dealiasing) when displaying VEL.
    pub dealias_velocity: bool,
    /// Mapbox access token (enables the Mapbox raster basemap styles).
    pub mapbox_key: String,
    /// MapTiler API key (enables the MapTiler raster basemap styles).
    pub maptiler_key: String,
    /// `{z}/{x}/{y}` tile URL template for the "Custom (XYZ URL)" basemap.
    pub custom_tile_url: String,
    /// Max zoom the custom tile source serves.
    pub custom_tile_max_z: u8,
    /// Attribution line to paint for the custom tile source.
    pub custom_tile_attribution: String,
    /// WeatherFlow Tempest personal access token — adds your Tempest stations to the live station
    /// cards.
    pub tempest_token: String,
    /// Weather Underground API key — adds nearby PWS stations to the live station cards.
    pub wu_key: String,
    /// Synoptic Data token — adds the mesonets (state, university, DOT) to the station cards.
    pub synoptic_token: String,
    /// AirNow API key — turns on the AQI station layer.
    pub airnow_key: String,
    /// Per-field-layer opacity 0..1 (Layer Manager sliders).
    pub field_opacity: Vec<(FieldLayer, Number32)>,
    /// Windy API key — adds the Windy webcam network to the keyless FAA cameras, which is what
    /// gives the layer any coverage outside the United States.
    pub windy_key: String,
    /// A ground field mill publishing JSON (`{"time":…, "kv_per_m":…}`, or an array of those).
    pub field_mill_url: String,
    /// Saved startup view (radar site + camera).
    pub start_view: Option<StartView>,
    /// Where the app was looking when it last closed, written on exit only while no explicit
    /// `start_view` is set.
    pub last_view: Option<StartView>,
    /// Google OAuth client id + secret for settings sync.
    pub sync_client_id: String,
    pub sync_client_secret: String,
    /// Sync settings through your Google Drive app folder once signed in.
    pub sync_enabled: bool,
    /// Share your GPS position with other HookEcho instances (LAN broadcast, and the relay below
    /// when one is set).
    pub share_position: bool,
    /// The name other instances label your dot with.
    pub share_name: String,
    /// Optional HTTP endpoint that relays positions when the devices aren't on one network (`POST`
    /// a peer, `GET` the list).
    pub share_relay: String,
    /// A live-stream URL broadcast alongside your shared position, so chase partners can watch
    /// your feed from your dot.
    pub share_video_url: String,
    /// Averaging window for the MRMS cloud-to-ground strike-density layer, in minutes (1/5/15/30).
    pub lightning_minutes: u16,
    /// Also poll GOES-West (GOES-18) for GLM lightning, not only GOES-East.
    pub glm_goes_west: bool,
    /// Read the IR/visible/water-vapor satellite layers from GOES-West instead of GOES-East.
    pub goes_satellite_west: bool,
    /// How far from the active radar to draw Spotter Network dots, in km.
    pub spotter_range_km: Number,
    /// Play an audible chime when a new NWS warning appears.
    pub alert_sound: bool,
    /// Interpolate radar gates (and the color lookup) instead of drawing hard gate squares.
    pub smooth_radar: bool,
    /// Show the animated ring and tilt-progress bar beside the scrubber's Live badge while a live
    /// chunk stream is actively updating the active pane.
    pub live_scan_indicator: bool,
    /// ntfy.sh topic for push notifications when a warning covers a saved location (empty = off).
    pub ntfy_topic: String,
    /// Discord incoming-webhook URL for alert delivery (empty = off).
    pub discord_webhook: String,
    /// Slack incoming-webhook URL for alert delivery (empty = off).
    pub slack_webhook: String,
    /// Matrix homeserver base URL (empty = off).
    pub matrix_homeserver: String,
    /// Matrix room ID to post alerts into.
    pub matrix_room: String,
    /// Matrix access token.
    pub matrix_token: String,
    /// MQTT broker hostname for publishing alerts and status (empty = off).
    pub mqtt_host: String,
    /// Broker port.
    pub mqtt_port: u16,
    /// Connect over TLS. Off by default: a house broker on the same LAN usually is not.
    pub mqtt_tls: bool,
    /// Broker username (empty = anonymous).
    pub mqtt_user: String,
    /// Broker password.
    pub mqtt_pass: String,
    /// Topic prefix everything is published under.
    pub mqtt_prefix: String,
    /// Topic the broker republishes lightning strikes on. Empty is off.
    pub strikes_topic: String,
    /// Publish retained Home Assistant discovery configs so it creates the device by itself.
    pub mqtt_discovery: bool,
    /// Fetch terrain at z12 (~40 m/px) instead of z10.
    pub pack_hires_dem: bool,
    /// Include vector street tiles in a chase pack even when the active basemap is raster.
    pub pack_include_vector: bool,
    /// Include satellite imagery in a chase pack even when the active basemap is vector.
    pub pack_include_satellite: bool,
    /// User-drawn zones that alert when an NWS warning polygon intersects them.
    pub alert_polygons: Vec<AlertPolygon>,
    /// User-written alert rules (see `AlertRule`).
    pub alert_rules: Vec<AlertRule>,
    /// External-process plugins that emit placefiles (desktop only).
    pub plugins: Vec<PluginConfig>,
    /// Android only: run a foreground service that watches `markers` for NWS alerts and posts a
    /// notification, so warnings arrive with the app closed.
    pub background_alerts: bool,
    /// Keep running in the background (hide to tray) instead of quitting when the window closes.
    pub close_to_tray: bool,
    /// User-saved view bookmarks (time-machine library, alongside the curated events).
    pub bookmarks: Vec<Bookmark>,
    /// API key for the optional plain-language storm digest (held locally only; empty = the
    /// built-in templated summary).
    pub anthropic_key: String,
    /// Chime + push when cloud-to-ground lightning strikes within ~15 km of a saved location.
    pub lightning_alarm: bool,
    /// Read new warnings aloud after the alert tone.
    pub speak_warnings: bool,
    /// Path to a Piper binary, or blank to look on `PATH`.
    pub piper_path: String,
    /// Path to a Piper `.onnx` voice model.
    pub piper_voice: String,
    /// Which curated voice the picker has selected for download.
    pub piper_download_voice: String,
    /// While chase mode is on, speak the nearest storm's bearing and distance as it changes.
    pub speak_position: bool,
    /// Alert when radar echo is heading for a saved location.
    pub rain_alerts: bool,
    /// Sound for the rain-arrival alert.
    pub rain_sound: AlertSound,
    /// One-time hints already shown, by id.
    pub hints_seen: Vec<String>,
    /// First-run setup completed (or dismissed).
    pub setup_done: bool,
    /// Post alerts to the platform's own notification centre, so they arrive with the window
    /// behind something else.
    pub desktop_notify: bool,
    /// Battery saver: relax every cadence the app controls — the idle repaint clock, the volume
    /// poll, the widget snapshot, and the background alert alarm on Android.
    pub battery_saver: bool,
    /// Record a breadcrumb track of the session's GPS fixes, exportable as GPX. Off by default:
    /// where you drove is yours, and nothing records it unless you say so.
    pub chase_log: bool,
    /// Attach a picture of the radar to the ntfy push when a warning fires.
    pub ntfy_snapshot: bool,
    /// Watch wherever you are, not only the places you saved: while a GPS fix is coming in it
    /// joins the marker list for the proximity alerts (lightning, rotation), under the name "my
    /// location".
    pub alert_follow_gps: bool,
    /// Connect to the local gpsd at launch and stay in chase mode.
    pub gps_autoconnect: bool,
    /// Quiet hours: between `quiet_start_hour` and `quiet_end_hour` (local, 24h), alert sounds and
    /// pushes are held back.
    pub quiet_hours: bool,
    pub quiet_start_hour: u32,
    pub quiet_end_hour: u32,
    /// Lowest escalation tier allowed to push and sound.
    pub alert_min_escalation: u8,
    /// Alerts inside `alert_rollup_window_min` before pushes collapse into one rolling summary.
    pub alert_rollup_threshold: usize,
    /// Window the rollup threshold counts over, in minutes.
    pub alert_rollup_window_min: u64,
    /// Chime when a new radar volume lands on the live pane in view.
    pub scan_chime: bool,
    /// Sound for the new-scan chime.
    pub scan_sound: AlertSound,
    /// Sound played when a new NWS warning appears (gated by `alert_sound`).
    pub warn_sound: AlertSound,
    /// Sound played on tornado-debris-signature detection.
    pub tds_sound: AlertSound,
    /// Sound played when a rotation couplet is detected (defaults to Siren — distinct from TDS).
    pub rotation_sound: AlertSound,
    /// Sound played on the lightning proximity alarm.
    pub lightning_sound: AlertSound,
    /// Sound played when an escalated (Tornado Emergency / PDS / destructive) warning appears.
    pub emergency_sound: AlertSound,
    /// Playback volume for all alert sounds, from none to full.
    pub alert_volume: Number32,
    /// Number of newest volumes the live loop cycles over when playing.
    pub live_loop_frames: usize,
    /// Persisted basemap style slug for startup (empty = the pane default).
    pub basemap: String,
    /// Overlay toggles that were on when the app last ran, by name. `None` means no run has
    /// recorded its layers yet; an empty list means someone turned everything off.
    pub overlays_on: Option<Vec<String>>,
    /// Desktop window size in logical points, and whether it was maximized, as of the last run.
    pub window: Option<WindowGeom>,
    /// Saved pane layouts, applied from the command palette.
    /// Each as it stands in the settings file.
    pub workspaces: Vec<String>,
    /// Whether the starter workspaces have been offered.
    pub seeded_workspaces: bool,
    /// NOAA Weather Radio relays to listen to.
    pub nwr_streams: Vec<NwrStream>,
    /// Silence every alert sound and spoken warning at once, without touching the per-feature
    /// sound choices — the "I'm in a meeting" switch.
    pub mute_alerts: bool,
    /// User keyboard bindings.
    /// Each as it stands in the settings file.
    pub keybinds: Vec<String>,
    /// mPING API key (free, from mping.ou.edu) — enables the crowd precipitation-type reports.
    pub mping_key: String,
    /// Reflectivity threshold (dBZ) defining the derived echo-top height.
    pub etop_dbz: Number32,
    /// Caption saved and copied images with site, product, valid time and source.
    pub share_card: bool,
    /// Registry labels in the order the user dragged them, across every category.
    pub layer_order: Vec<String>,
    /// Recent products: slugs of the field layers the user has turned on, most recent first.
    pub recent_layers: Vec<String>,
    /// Thresholds the signature detectors fire at (see `DetectorTuning`).
    pub detectors: DetectorTuning,
    /// Bearer token `--serve` requires on every request; empty leaves the server open, as on loopback
    /// alone.
    pub serve_token: String,
    /// Pushes quiet hours held back, kept across a restart so the catch-up summary still arrives
    /// when the window ends.
    pub quiet_pending: Vec<(String, String)>,
    /// Cap for the on-disk radar-volume cache, in MB. 0 = the platform default (2 GB desktop, 300
    /// MB Android).
    pub volume_cache_mb: u32,
    /// Cap for each on-disk map-tile cache (raster and vector), in MB. 0 = platform default.
    pub tile_disk_cache_mb: u32,
}

impl Settings {
    /// What is a map in the file has each key once.
    pub open spec fn well_formed(self) -> bool {
        &&& keys_differ(self.palettes@)
        &&& keys_differ(self.web_files@)
        &&& layers_differ(self.field_opacity@)
    }

    /// The settings of a fresh start.
    pub open spec fn is_default(self) -> bool {
        &&& self.default_site@ == "KTLX"@
        &&& self.poll_interval_secs == 30
        &&& self.theme == Theme::Dark
        &&& self.layout == Layout::Wsv3
        &&& self.density == Density::Comfortable
        &&& self.accent is None
        &&& !self.reduce_motion
        &&& self.presets@.len() == 0
        &&& self.palettes@.len() == 0
        &&& self.web_files@.len() == 0
        &&& self.velocity_unit == VelocityUnit::Knots
        &&& self.temp_unit == TempUnit::Fahrenheit
        &&& self.time_display == TimeDisplay::SiteLocal
        &&& self.time_mismatch_minutes == 10
        &&& self.ui_scale.bits == 0x3f800000
        &&& self.placefiles@.len() == 0
        &&& self.markers@.len() == 0
        &&& self.udp_products@.len() == 0
        &&& !self.precip_tint
        &&& !self.dealias_velocity
        &&& self.mapbox_key@.len() == 0
        &&& self.maptiler_key@.len() == 0
        &&& self.custom_tile_url@.len() == 0
        &&& self.custom_tile_max_z == 19
        &&& self.custom_tile_attribution@.len() == 0
        &&& self.tempest_token@.len() == 0
        &&& self.wu_key@.len() == 0
        &&& self.synoptic_token@.len() == 0
        &&& self.airnow_key@.len() == 0
        &&& self.field_opacity@.len() == 0
        &&& self.windy_key@.len() == 0
        &&& self.field_mill_url@.len() == 0
        &&& self.start_view is None
        &&& self.last_view is None
        &&& self.sync_client_id@.len() == 0
        &&& self.sync_client_secret@.len() == 0
        &&& !self.sync_enabled
        &&& !self.share_position
        &&& self.share_name@.len() == 0
        &&& self.share_relay@.len() == 0
        &&& self.share_video_url@.len() == 0
        &&& self.lightning_minutes == 5
        &&& !self.glm_goes_west
        &&& !self.goes_satellite_west
        &&& self.spotter_range_km.bits == 0x406cc00000000000
        &&& self.alert_sound
        &&& self.smooth_radar
        &&& self.live_scan_indicator
        &&& self.ntfy_topic@.len() == 0
        &&& self.discord_webhook@.len() == 0
        &&& self.slack_webhook@.len() == 0
        &&& self.matrix_homeserver@.len() == 0
        &&& self.matrix_room@.len() == 0
        &&& self.matrix_token@.len() == 0
        &&& self.mqtt_host@.len() == 0
        &&& self.mqtt_port == 1883
        &&& !self.mqtt_tls
        &&& self.mqtt_user@.len() == 0
        &&& self.mqtt_pass@.len() == 0
        &&& self.mqtt_prefix@ == "hookecho"@
        &&& self.strikes_topic@.len() == 0
        &&& !self.mqtt_discovery
        &&& !self.pack_hires_dem
        &&& self.pack_include_vector
        &&& !self.pack_include_satellite
        &&& self.alert_polygons@.len() == 0
        &&& self.alert_rules@.len() == 0
        &&& self.plugins@.len() == 0
        &&& !self.background_alerts
        &&& !self.close_to_tray
        &&& self.bookmarks@.len() == 0
        &&& self.anthropic_key@.len() == 0
        &&& !self.lightning_alarm
        &&& self.speak_warnings
        &&& self.piper_path@.len() == 0
        &&& self.piper_voice@.len() == 0
        &&& self.piper_download_voice@.len() == 0
        &&& !self.speak_position
        &&& !self.rain_alerts
        &&& self.rain_sound is Chime
        &&& self.hints_seen@.len() == 0
        &&& !self.setup_done
        &&& !self.desktop_notify
        &&& !self.battery_saver
        &&& !self.chase_log
        &&& !self.ntfy_snapshot
        &&& !self.alert_follow_gps
        &&& !self.gps_autoconnect
        &&& !self.quiet_hours
        &&& self.quiet_start_hour == 22
        &&& self.quiet_end_hour == 7
        &&& self.alert_min_escalation == 0
        &&& self.alert_rollup_threshold == 5
        &&& self.alert_rollup_window_min == 10
        &&& !self.scan_chime
        &&& self.scan_sound is Ding
        &&& self.warn_sound is Chime
        &&& self.tds_sound is Chime
        &&& self.rotation_sound is Siren
        &&& self.lightning_sound is Chime
        &&& self.emergency_sound is Eas
        &&& self.alert_volume.bits == 0x3e4ccccd
        &&& self.live_loop_frames == 10
        &&& self.basemap@.len() == 0
        &&& self.overlays_on is None
        &&& self.window is None
        &&& self.workspaces@.len() == 0
        &&& !self.seeded_workspaces
        &&& self.nwr_streams@.len() == 0
        &&& !self.mute_alerts
        &&& self.keybinds@.len() == 0
        &&& self.mping_key@.len() == 0
        &&& self.etop_dbz.bits == 0x41940000
        &&& self.share_card
        &&& self.layer_order@.len() == 0
        &&& self.recent_layers@.len() == 0
        &&& self.detectors.is_default()
        &&& self.serve_token@.len() == 0
        &&& self.quiet_pending@.len() == 0
        &&& self.volume_cache_mb == 0
        &&& self.tile_disk_cache_mb == 0
    }
}

impl Default for Settings {
    fn default() -> (r: Settings)
        ensures
            r.is_default(),
            r.well_formed(),
    {
        Settings {
            default_site: "KTLX".to_owned(),
            poll_interval_secs: 30,
            theme: Theme::Dark,
            layout: Layout::Wsv3,
            density: Density::Comfortable,
            accent: None,
            reduce_motion: false,
            presets: Vec::new(),
            palettes: Vec::new(),
            web_files: Vec::new(),
            velocity_unit: VelocityUnit::Knots,
            temp_unit: TempUnit::Fahrenheit,
            time_display: TimeDisplay::SiteLocal,
            time_mismatch_minutes: 10,
            ui_scale: Number32 { bits: 0x3f800000 },
            placefiles: Vec::new(),
            markers: Vec::new(),
            udp_products: Vec::new(),
            precip_tint: false,
            dealias_velocity: false,
            mapbox_key: String::new(),
            maptiler_key: String::new(),
            custom_tile_url: String::new(),
            custom_tile_max_z: 19,
            custom_tile_attribution: String::new(),
            tempest_token: String::new(),
            wu_key: String::new(),
            synoptic_token: String::new(),
            airnow_key: String::new(),
            field_opacity: Vec::new(),
            windy_key: String::new(),
            field_mill_url: String::new(),
            start_view: None,
            last_view: None,
            sync_client_id: String::new(),
            sync_client_secret: String::new(),
            sync_enabled: false,
            share_position: false,
            share_name: String::new(),
            share_relay: String::new(),
            share_video_url: String::new(),
            lightning_minutes: 5,
            glm_goes_west: false,
            goes_satellite_west: false,
            spotter_range_km: default_spotter_range_km(),
            alert_sound: true,
            smooth_radar: true,
            live_scan_indicator: true,
            ntfy_topic: String::new(),
            discord_webhook: String::new(),
            slack_webhook: String::new(),
            matrix_homeserver: String::new(),
            matrix_room: String::new(),
            matrix_token: String::new(),
            mqtt_host: String::new(),
            mqtt_port: 1883,
            mqtt_tls: false,
            mqtt_user: String::new(),
            mqtt_pass: String::new(),
            mqtt_prefix: "hookecho".to_owned(),
            strikes_topic: String::new(),
            mqtt_discovery: false,
            pack_hires_dem: false,
            pack_include_vector: true,
            pack_include_satellite: false,
            alert_polygons: Vec::new(),
            alert_rules: Vec::new(),
            plugins: Vec::new(),
            background_alerts: false,
            close_to_tray: false,
            bookmarks: Vec::new(),
            anthropic_key: String::new(),
            lightning_alarm: false,
            speak_warnings: true,
            piper_path: String::new(),
            piper_voice: String::new(),
            piper_download_voice: String::new(),
            speak_position: false,
            rain_alerts: false,
            rain_sound: AlertSound::Chime,
            hints_seen: Vec::new(),
            setup_done: false,
            desktop_notify: false,
            battery_saver: false,
            chase_log: false,
            ntfy_snapshot: false,
            alert_follow_gps: false,
            gps_autoconnect: false,
            quiet_hours: false,
            quiet_start_hour: 22,
            quiet_end_hour: 7,
            alert_min_escalation: 0,
            alert_rollup_threshold: 5,
            alert_rollup_window_min: 10,
            scan_chime: false,
            scan_sound: AlertSound::Ding,
            warn_sound: AlertSound::Chime,
            tds_sound: AlertSound::Chime,
            rotation_sound: AlertSound::Siren,
            lightning_sound: AlertSound::Chime,
            emergency_sound: AlertSound::Eas,
            alert_volume: Number32 { bits: 0x3e4ccccd },
            live_loop_frames: 10,
            basemap: String::new(),
            overlays_on: None,
            window: None,
            workspaces: Vec::new(),
            seeded_workspaces: false,
            nwr_streams: Vec::new(),
            mute_alerts: false,
            keybinds: Vec::new(),
            mping_key: String::new(),
            etop_dbz: Number32 { bits: 0x41940000 },
            share_card: true,
            layer_order: Vec::new(),
            recent_layers: Vec::new(),
            detectors: DetectorTuning::default(),
            serve_token: String::new(),
            quiet_pending: Vec::new(),
            volume_cache_mb: 0,
            tile_disk_cache_mb: 0,
        }
    }
}

/// The hour `h` lies in the window from `s` up to, not including, `e`, on a clock of 24 hours.
pub open spec fn in_window(s: int, e: int, h: int) -> bool {
    if s == e {
        false
    } else if s < e {
        s <= h < e
    } else {
        h >= s || h < e
    }
}

/// Where the color table of a product comes from.
#[derive(Debug)]
pub enum PaletteSource {
    /// A file.
    File(String),
    /// Its own text, on platforms with nowhere to put a file.
    Inline(String),
}

/// No key occurs twice, as in a map.
pub open spec fn keys_differ(pairs: Seq<(String, String)>) -> bool {
    forall|i: int, j: int|
        0 <= i < j < pairs.len() ==> (#[trigger] pairs[i]).0@ != (#[trigger] pairs[j]).0@
}

/// No layer occurs twice, as in a map.
pub open spec fn layers_differ(pairs: Seq<(FieldLayer, Number32)>) -> bool {
    forall|i: int, j: int|
        0 <= i < j < pairs.len() ==> (#[trigger] pairs[i]).0 != (#[trigger] pairs[j]).0
}

/// The place of the pair under `key`, or the length where there is none.
pub open spec fn key_place(pairs: Seq<(String, String)>, key: Seq<char>, i: int) -> int
    decreases pairs.len() - i,
{
    if i < 0 || i >= pairs.len() || pairs[i].0@ == key {
        i
    } else {
        key_place(pairs, key, i + 1)
    }
}

/// `now` is `was` with `value` under `key`: in place of what was there, else at the end.
pub open spec fn is_put(
    was: Seq<(String, String)>,
    now: Seq<(String, String)>,
    key: Seq<char>,
    value: Seq<char>,
) -> bool {
    let at = key_place(was, key, 0);
    &&& now.len() == was.len() + if at < was.len() {
        0int
    } else {
        1
    }
    &&& now[at].0@ == key
    &&& now[at].1@ == value
    &&& forall|j: int| 0 <= j < was.len() && j != at ==> now[j] == #[trigger] was[j]
}

proof fn lemma_key_place(pairs: Seq<(String, String)>, key: Seq<char>, i: int)
    requires
        0 <= i <= pairs.len(),
    ensures
        i <= key_place(pairs, key, i) <= pairs.len(),
        forall|j: int| i <= j < key_place(pairs, key, i) ==> (#[trigger] pairs[j]).0@ != key,
        key_place(pairs, key, i) < pairs.len() ==> pairs[key_place(pairs, key, i)].0@ == key,
    decreases pairs.len() - i,
{
    if i < pairs.len() && pairs[i].0@ != key {
        lemma_key_place(pairs, key, i + 1);
    }
}

/// Putting a value under a key acts as on a map: the key has that value, every other key has the
/// value it had, and no key comes to occur twice.
pub proof fn putting_is_as_in_a_map(
    was: Seq<(String, String)>,
    now: Seq<(String, String)>,
    key: Seq<char>,
    value: Seq<char>,
)
    requires
        is_put(was, now, key, value),
    ensures
        value_of(now, key, 0) == Some(value),
        forall|k: Seq<char>| k != key ==> #[trigger] value_of(now, k, 0) == value_of(was, k, 0),
        now.len() == was.len() + if value_of(was, key, 0) is Some {
            0int
        } else {
            1
        },
        keys_differ(was) ==> keys_differ(now),
{
    let at = key_place(was, key, 0);
    lemma_key_place(was, key, 0);
    lemma_value_put(was, now, key, at, 0);
    lemma_value_at_place(was, key, 0);
    if keys_differ(was) {
        assert forall|i: int, j: int| 0 <= i < j < now.len() implies (#[trigger] now[i]).0@ != (
        #[trigger] now[j]).0@ by {
            if i != at {
                assert(now[i] == was[i]);
            }
            if j != at {
                assert(now[j] == was[j]);
            }
            if at < was.len() {
                assert(was[i].0@ != was[j].0@);
            }
        }
    }
}

proof fn lemma_value_at_place(pairs: Seq<(String, String)>, key: Seq<char>, i: int)
    requires
        0 <= i <= pairs.len(),
    ensures
        value_of(pairs, key, i) is Some <==> key_place(pairs, key, i) < pairs.len(),
    decreases pairs.len() - i,
{
    if i < pairs.len() {
        lemma_value_at_place(pairs, key, i + 1);
    }
}

/// The value under `key`: the first pair of that name decides.
pub open spec fn value_of(pairs: Seq<(String, String)>, key: Seq<char>, i: int) -> Option<Seq<char>>
    decreases pairs.len() - i,
{
    if i < 0 || i >= pairs.len() {
        None
    } else if pairs[i].0@ == key {
        Some(pairs[i].1@)
    } else {
        value_of(pairs, key, i + 1)
    }
}

fn find_value(pairs: &Vec<(String, String)>, key: &str) -> (r: Option<String>)
    ensures
        crate::cloud::opt_text(r) == value_of(pairs@, key@, 0),
{
    let mut i: usize = 0;
    while i < pairs.len()
        invariant
            i <= pairs.len(),
            value_of(pairs@, key@, 0) == value_of(pairs@, key@, i as int),
        decreases pairs.len() - i,
    {
        if text::same(pairs[i].0.as_str(), key) {
            return Some(pairs[i].1.clone());
        }
        i = i + 1;
    }
    None
}

impl Settings {
    /// The name under which a product's color table is overridden; correlation coefficient also
    /// goes by the key it had before.
    pub open spec fn palette_name(self, short_name: Seq<char>) -> Option<Seq<char>> {
        match value_of(self.palettes@, short_name, 0) {
            Some(v) => Some(v),
            None => if short_name == "CC"@ {
                value_of(self.palettes@, "RHO"@, 0)
            } else {
                None
            },
        }
    }

    /// Where the color table of the product comes from; `None` is the built-in table. A name that
    /// is in `web_files` names content, not a file.
    pub fn palette_path(&self, short_name: &str) -> (r: Option<PaletteSource>)
        ensures
            match self.palette_name(short_name@) {
                None => r is None,
                Some(v) => match value_of(self.web_files@, v, 0) {
                    Some(t) => r matches Some(PaletteSource::Inline(x)) && x@ == t,
                    None => r matches Some(PaletteSource::File(x)) && x@ == v,
                },
            },
    {
        let mut name = find_value(&self.palettes, short_name);
        if name.is_none() && text::same(short_name, "CC") {
            name = find_value(&self.palettes, "RHO");
        }
        match name {
            None => None,
            Some(v) => match find_value(&self.web_files, v.as_str()) {
                Some(t) => Some(PaletteSource::Inline(t)),
                None => Some(PaletteSource::File(v)),
            },
        }
    }

    /// Where the color tables of products come from, in their order, by their short names.
    pub fn palette_paths(&self, short_names: &Vec<String>) -> (r: Vec<Option<PaletteSource>>)
        ensures
            r@.len() == short_names@.len(),
            forall|i: int|
                0 <= i < r@.len() ==> match self.palette_name(short_names@[i]@) {
                    None => (#[trigger] r@[i]) is None,
                    Some(v) => match value_of(self.web_files@, v, 0) {
                        Some(t) => r@[i] matches Some(PaletteSource::Inline(x)) && x@ == t,
                        None => r@[i] matches Some(PaletteSource::File(x)) && x@ == v,
                    },
                },
    {
        let mut out: Vec<Option<PaletteSource>> = Vec::new();
        let mut i: usize = 0;
        while i < short_names.len()
            invariant
                i <= short_names.len(),
                out@.len() == i,
                forall|j: int|
                    0 <= j < i ==> match self.palette_name(short_names@[j]@) {
                        None => (#[trigger] out@[j]) is None,
                        Some(v) => match value_of(self.web_files@, v, 0) {
                            Some(t) => out@[j] matches Some(PaletteSource::Inline(x)) && x@ == t,
                            None => out@[j] matches Some(PaletteSource::File(x)) && x@ == v,
                        },
                    },
            decreases short_names.len() - i,
        {
            out.push(self.palette_path(short_names[i].as_str()));
            i = i + 1;
        }
        out
    }

    /// Is local `hour` inside the quiet-hours window? Handles the ordinary case of a window that
    /// crosses midnight (22 to 7). Start == end means "no window", not "all day": a 24-hour mute
    /// is what `mute_alerts` is for, and reading it the other way would silence someone by
    /// accident.
    pub fn in_quiet_hours(&self, hour: u32) -> (r: bool)
        ensures
            r == (self.quiet_hours && in_window(
                (self.quiet_start_hour % 24) as int,
                (self.quiet_end_hour % 24) as int,
                (hour % 24) as int,
            )),
    {
        if !self.quiet_hours {
            return false;
        }
        let s: u32 = self.quiet_start_hour % 24;
        let e: u32 = self.quiet_end_hour % 24;
        let h: u32 = hour % 24;
        if s == e {
            false
        } else if s < e {
            s <= h && h < e
        } else {
            h >= s || h < e
        }
    }

    /// Zone to render a site's timestamps in: none means UTC, either because the user picked it or
    /// because the site's `zone` is not known.
    pub fn tz_for(&self, zone: Option<String>) -> (r: Option<String>)
        ensures
            r == match self.time_display {
                TimeDisplay::Utc => None,
                TimeDisplay::SiteLocal => zone,
            },
            r is Some ==> r == zone && self.time_display != TimeDisplay::Utc,
    {
        match self.time_display {
            TimeDisplay::Utc => None,
            TimeDisplay::SiteLocal => zone,
        }
    }

    /// Markers saved before ids existed get one, and keep it. Says whether any did.
    #[verifier::rlimit(40)]
    pub fn fill_marker_ids(&mut self) -> (filled: bool)
        ensures
            old(self).well_formed() ==> final(self).well_formed(),
            filled == exists|i: int|
                0 <= i < old(self).markers@.len() && (#[trigger] old(self).markers@[i]).id@.len()
                    == 0,
            final(self).markers@.len() == old(self).markers@.len(),
            forall|i: int|
                0 <= i < old(self).markers@.len() ==> {
                    let was = #[trigger] old(self).markers@[i];
                    let is = final(self).markers@[i];
                    if was.id@.len() == 0 {
                        &&& is_marker_id(is.id@)
                        &&& is == (Marker { id: is.id, ..was })
                    } else {
                        is == was
                    }
                },
            *final(self) == (Settings { markers: final(self).markers, ..*old(self) }),
    {
        let ghost was = self.markers@;
        let mut filled = false;
        let mut todo: Vec<Marker> = Vec::new();
        std::mem::swap(&mut todo, &mut self.markers);
        let mut done: Vec<Marker> = Vec::new();
        let mut turned: Vec<Marker> = Vec::new();
        while todo.len() > 0
            invariant
                todo@.len() + turned@.len() == was.len(),
                forall|i: int| 0 <= i < todo@.len() ==> todo@[i] == was[i],
                forall|i: int| 0 <= i < turned@.len() ==> turned@[i] == was[was.len() - 1 - i],
            decreases todo@.len(),
        {
            let m = todo.pop().unwrap();
            turned.push(m);
        }
        while turned.len() > 0
            invariant
                done@.len() + turned@.len() == was.len(),
                forall|i: int| 0 <= i < turned@.len() ==> turned@[i] == was[was.len() - 1 - i],
                filled == exists|i: int|
                    0 <= i < done@.len() && (#[trigger] was[i]).id@.len() == 0,
                forall|i: int|
                    0 <= i < done@.len() ==> {
                        let w = #[trigger] was[i];
                        let is = done@[i];
                        if w.id@.len() == 0 {
                            &&& is_marker_id(is.id@)
                            &&& is == (Marker { id: is.id, ..w })
                        } else {
                            is == w
                        }
                    },
            decreases turned@.len(),
        {
            let ghost k = done@.len() as int;
            assert(turned@.last() == was[k]);
            let m = turned.pop().unwrap();
            assert(m == was[k]);
            if m.id.as_str().is_empty() {
                filled = true;
                let id = new_marker_id();
                done.push(Marker { id, ..m });
            } else {
                done.push(m);
            }
        }
        self.markers = done;
        filled
    }

    /// The color tables that travel with an export: all but those that are compiled in, whose
    /// names start with `builtin`.
    pub fn bundled_palettes(&self, builtin: &str) -> (r: Vec<usize>)
        ensures
            r@ == bundled(self.palettes@, builtin@, self.palettes@.len()),
    {
        let mut out: Vec<usize> = Vec::new();
        let mut i: usize = 0;
        assert(out@ =~= bundled(self.palettes@, builtin@, 0));
        while i < self.palettes.len()
            invariant
                i <= self.palettes.len(),
                out@ == bundled(self.palettes@, builtin@, i as nat),
            decreases self.palettes.len() - i,
        {
            if !text::starts_with(self.palettes[i].1.as_str(), builtin) {
                out.push(i);
            }
            i = i + 1;
        }
        out
    }

    /// Point a product's color table at a file that an import wrote here.
    #[verifier::rlimit(80)]
    #[verifier::spinoff_prover]
    pub fn adopt_palette(&mut self, moment: &str, path: &str)
        ensures
            is_put(old(self).palettes@, final(self).palettes@, moment@, path@),
            value_of(final(self).palettes@, moment@, 0) == Some(path@),
            forall|k: Seq<char>|
                k != moment@ ==> #[trigger] value_of(final(self).palettes@, k, 0) == value_of(
                    old(self).palettes@,
                    k,
                    0,
                ),
            final(self).palettes@.len() == old(self).palettes@.len() + if value_of(
                old(self).palettes@,
                moment@,
                0,
            ) is Some {
                0int
            } else {
                1
            },
            keys_differ(old(self).palettes@) ==> keys_differ(final(self).palettes@),
            old(self).well_formed() ==> final(self).well_formed(),
            *final(self) == (Settings { palettes: final(self).palettes, ..*old(self) }),
    {
        let ghost was = self.palettes@;
        put_value(&mut self.palettes, moment, path);
        proof {
            putting_is_as_in_a_map(was, self.palettes@, moment@, path@);
        }
    }
}

/// Puts `value` under `key`: in place of what was there, else at the end.
fn put_value(pairs: &mut Vec<(String, String)>, key: &str, value: &str)
    ensures
        is_put(old(pairs)@, final(pairs)@, key@, value@),
{
    let ghost was = pairs@;
    let mut i: usize = 0;
    while i < pairs.len()
        invariant
            i <= pairs.len(),
            pairs@ == was,
            was == old(pairs)@,
            key_place(was, key@, 0) == key_place(was, key@, i as int),
        decreases pairs.len() - i,
    {
        if text::same(pairs[i].0.as_str(), key) {
            pairs.set(i, (key.to_owned(), value.to_owned()));
            return;
        }
        i = i + 1;
    }
    pairs.push((key.to_owned(), value.to_owned()));
}

proof fn lemma_value_put(
    was: Seq<(String, String)>,
    now: Seq<(String, String)>,
    key: Seq<char>,
    at: int,
    i: int,
)
    requires
        0 <= i <= at < now.len(),
        was.len() <= now.len() <= was.len() + 1,
        now.len() > was.len() ==> at == was.len(),
        at < was.len() ==> was[at].0@ == key,
        now[at].0@ == key,
        forall|j: int| 0 <= j < at ==> (#[trigger] was[j]).0@ != key,
        forall|j: int| 0 <= j < was.len() && j != at ==> now[j] == #[trigger] was[j],
    ensures
        value_of(now, key, i) == Some(now[at].1@),
        forall|k: Seq<char>| k != key ==> #[trigger] value_of(now, k, i) == value_of(was, k, i),
    decreases at - i,
{
    if i < at {
        assert(now[i] == was[i]);
        lemma_value_put(was, now, key, at, i + 1);
        assert forall|k: Seq<char>| k != key implies #[trigger] value_of(now, k, i) == value_of(
            was,
            k,
            i,
        ) by {
            assert(value_of(now, k, i + 1) == value_of(was, k, i + 1));
        }
    } else {
        assert forall|k: Seq<char>| k != key implies #[trigger] value_of(now, k, i) == value_of(
            was,
            k,
            i,
        ) by {
            lemma_value_tail(was, now, k, at + 1);
        }
    }
}

proof fn lemma_value_tail(
    was: Seq<(String, String)>,
    now: Seq<(String, String)>,
    k: Seq<char>,
    i: int,
)
    requires
        0 <= i,
        was.len() <= now.len(),
        now.len() > was.len() ==> i >= now.len(),
        forall|j: int| i <= j < was.len() ==> now[j] == #[trigger] was[j],
    ensures
        value_of(now, k, i) == value_of(was, k, i),
    decreases now.len() - i,
{
    if i < was.len() {
        assert(now[i] == was[i]);
        lemma_value_tail(was, now, k, i + 1);
    }
}

/// The places of the first `n` color tables that are not compiled in.
pub open spec fn bundled(pairs: Seq<(String, String)>, builtin: Seq<char>, n: nat) -> Seq<usize>
    decreases n,
{
    if n == 0 {
        Seq::empty()
    } else if text::starts(pairs[n - 1].1@, builtin) {
        bundled(pairs, builtin, (n - 1) as nat)
    } else {
        bundled(pairs, builtin, (n - 1) as nat).push((n - 1) as usize)
    }
}

/// The window of quiet hours and its complement share the day: swapping start and end awakens
/// exactly the hours that were quiet.
pub proof fn quiet_hours_split_the_day(s: int, e: int, h: int)
    requires
        0 <= s < 24,
        0 <= e < 24,
        0 <= h < 24,
        s != e,
    ensures
        in_window(s, e, h) != in_window(e, s, h),
        in_window(s, e, s),
        !in_window(s, e, e),
{
}

// ---------------------------------------------------------------------------------------------
// Reading what can be read.

/// Reading a settings file that does not parse as a whole: keys are added one at a time, and one
/// that stops what is there from being read is left out.
#[derive(Debug)]
pub struct Salvage {
    /// The places of the keys that read, in order.
    pub kept: Vec<usize>,
    /// How many keys were tried.
    pub tried: usize,
    pub total: usize,
}

/// The keys that read, of the first `n`.
pub open spec fn readable(reads: Seq<bool>, n: nat) -> Seq<usize>
    decreases n,
{
    if n == 0 {
        Seq::empty()
    } else if reads[n - 1] {
        readable(reads, (n - 1) as nat).push((n - 1) as usize)
    } else {
        readable(reads, (n - 1) as nat)
    }
}

impl Salvage {
    /// What was tried so far gave these answers.
    pub open spec fn follows(self, reads: Seq<bool>) -> bool {
        &&& self.tried == reads.len()
        &&& self.tried <= self.total
        &&& self.kept@ == readable(reads, reads.len())
    }

    pub fn new(total: usize) -> (s: Salvage)
        ensures
            s.follows(Seq::empty()),
            s.total == total,
    {
        let s = Salvage { kept: Vec::new(), tried: 0, total };
        assert(s.kept@ =~= readable(Seq::<bool>::empty(), 0));
        s
    }

    /// The key to try next, on top of those kept; `None` when every key was tried.
    pub fn next(&self) -> (r: Option<usize>)
        ensures
            r == if self.tried < self.total {
                Some(self.tried)
            } else {
                None
            },
    {
        if self.tried < self.total {
            Some(self.tried)
        } else {
            None
        }
    }

    /// Whether the settings read with the key that [`Self::next`] named.
    pub fn answered(&mut self, reads: bool)
        requires
            old(self).tried < old(self).total,
        ensures
            final(self).total == old(self).total,
            forall|so_far: Seq<bool>|
                #[trigger] old(self).follows(so_far) ==> final(self).follows(so_far.push(reads)),
    {
        let ghost was = *self;
        if reads {
            self.kept.push(self.tried);
        }
        self.tried = self.tried + 1;
        proof {
            assert forall|so_far: Seq<bool>| #[trigger] was.follows(so_far) implies self.follows(
                so_far.push(reads),
            ) by {
                let all = so_far.push(reads);
                lemma_readable_prefix(so_far, all, so_far.len());
                assert(all[so_far.len() as int] == reads);
            }
        }
    }
}

proof fn lemma_readable_prefix(a: Seq<bool>, b: Seq<bool>, n: nat)
    requires
        n <= a.len() <= b.len(),
        forall|i: int| 0 <= i < n ==> a[i] == b[i],
    ensures
        readable(a, n) == readable(b, n),
    decreases n,
{
    if n > 0 {
        lemma_readable_prefix(a, b, (n - 1) as nat);
    }
}

/// One unreadable value does not discard the file: every key that read is kept.
pub proof fn readable_keys_survive(reads: Seq<bool>, n: nat, i: int)
    requires
        n <= reads.len(),
        0 <= i < n <= usize::MAX,
        reads[i],
    ensures
        readable(reads, n).contains(i as usize),
    decreases n,
{
    let r = readable(reads, n);
    let t = readable(reads, (n - 1) as nat);
    if i == n - 1 {
        assert(r.last() == i as usize);
    } else {
        readable_keys_survive(reads, (n - 1) as nat, i);
        assert(r[t.index_of(i as usize)] == i as usize);
    }
}

/// The window goes from its start round the clock to its end: an hour is in it when it comes sooner
/// after the start than the end does.
pub proof fn quiet_hours_go_round_the_clock(s: int, e: int, h: int)
    requires
        0 <= s < 24,
        0 <= e < 24,
        0 <= h < 24,
    ensures
        in_window(s, e, h) <==> (h - s) % 24 < (e - s) % 24,
{
}

proof fn lemma_first_value(pairs: Seq<(String, String)>, key: Seq<char>, i: int)
    requires
        0 <= i <= pairs.len(),
    ensures
        value_of(pairs, key, i) is None <==> forall|j: int|
            i <= j < pairs.len() ==> (#[trigger] pairs[j]).0@ != key,
        forall|k: int|
            i <= k < pairs.len() && (#[trigger] pairs[k]).0@ == key && (forall|j: int|
                i <= j < k ==> (#[trigger] pairs[j]).0@ != key) ==> value_of(pairs, key, i)
                == Some(pairs[k].1@),
    decreases pairs.len() - i,
{
    if i < pairs.len() {
        lemma_first_value(pairs, key, i + 1);
        if pairs[i].0@ == key {
        } else {
            assert forall|k: int|
                i <= k < pairs.len() && (#[trigger] pairs[k]).0@ == key && (forall|j: int|
                    i <= j < k ==> (#[trigger] pairs[j]).0@ != key) implies value_of(pairs, key, i)
                == Some(pairs[k].1@) by {
                assert(k >= i + 1);
            }
        }
    }
}

/// The value under a key is that of the pair with the key; where no pair has it there is none.
pub proof fn values_are_found_by_key(pairs: Seq<(String, String)>, key: Seq<char>, k: int)
    requires
        keys_differ(pairs),
        0 <= k < pairs.len(),
    ensures
        pairs[k].0@ == key ==> value_of(pairs, key, 0) == Some(pairs[k].1@),
        value_of(pairs, key, 0) is Some ==> exists|j: int|
            0 <= j < pairs.len() && (#[trigger] pairs[j]).0@ == key,
{
    lemma_first_value(pairs, key, 0);
    if pairs[k].0@ == key {
        assert forall|j: int| 0 <= j < k implies (#[trigger] pairs[j]).0@ != key by {
            assert(pairs[j].0@ != pairs[k].0@);
        }
    }
}

/// A color table is found under the short name of its product; the one of the correlation
/// coefficient also under the key it had before, and no other product looks there.
pub proof fn tables_are_found_by_their_product(s: Settings, name: Seq<char>, v: Seq<char>)
    ensures
        value_of(s.palettes@, name, 0) == Some(v) ==> s.palette_name(name) == Some(v),
        value_of(s.palettes@, "CC"@, 0) is None ==> s.palette_name("CC"@) == value_of(
            s.palettes@,
            "RHO"@,
            0,
        ),
        name != "CC"@ && value_of(s.palettes@, name, 0) is None ==> s.palette_name(name) is None,
{
}

/// The tables that are bundled are those whose paths do not begin as the built-in ones do, in order.
pub proof fn own_tables_are_bundled(
    pairs: Seq<(String, String)>,
    builtin: Seq<char>,
    n: nat,
    i: usize,
)
    requires
        n <= pairs.len(),
        n <= usize::MAX,
    ensures
        bundled(pairs, builtin, n).contains(i) <==> i < n && !text::starts(
            pairs[i as int].1@,
            builtin,
        ),
        forall|j: int, k: int|
            0 <= j < k < bundled(pairs, builtin, n).len() ==> #[trigger] bundled(
                pairs,
                builtin,
                n,
            )[j] < #[trigger] bundled(pairs, builtin, n)[k],
        forall|j: int|
            0 <= j < bundled(pairs, builtin, n).len() ==> #[trigger] bundled(pairs, builtin, n)[j]
                < n,
    decreases n,
{
    if n > 0 {
        let m = (n - 1) as nat;
        own_tables_are_bundled(pairs, builtin, m, i);
        let was = bundled(pairs, builtin, m);
        let now = bundled(pairs, builtin, n);
        if now.len() > was.len() {
            assert(now =~= was.push(m as usize));
            if was.contains(i) {
                assert(now[was.index_of(i)] == i);
            }
            if i == m {
                assert(now[was.len() as int] == i);
            }
            if now.contains(i) && i != m {
                assert(was[now.index_of(i)] == i);
            }
        }
    }
}

/// Only what reads is kept, in order.
pub proof fn only_readable_keys_survive(reads: Seq<bool>, n: nat, i: usize)
    requires
        n <= reads.len(),
        n <= usize::MAX,
    ensures
        readable(reads, n).contains(i) <==> i < n && reads[i as int],
        forall|j: int, k: int|
            0 <= j < k < readable(reads, n).len() ==> #[trigger] readable(reads, n)[j]
                < #[trigger] readable(reads, n)[k],
        forall|j: int| 0 <= j < readable(reads, n).len() ==> #[trigger] readable(reads, n)[j] < n,
    decreases n,
{
    if n > 0 {
        let m = (n - 1) as nat;
        only_readable_keys_survive(reads, m, i);
        let was = readable(reads, m);
        let now = readable(reads, n);
        if now.len() > was.len() {
            assert(now =~= was.push(m as usize));
            if was.contains(i) {
                assert(now[was.index_of(i)] == i);
            }
            if i == m {
                assert(now[was.len() as int] == i);
            }
            if now.contains(i) && i != m {
                assert(was[now.index_of(i)] == i);
            }
        }
    }
}

} // verus!
