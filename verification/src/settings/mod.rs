//! User settings: the choices there are, the rules a user writes, and what follows from them.

pub mod ids;
pub mod rules;
pub mod store;
pub mod units;

pub use ids::new_marker_id;
pub use rules::{
    default_rule_cooldown, AlertPolygon, AlertRule, Marker, RuleCombinator, RuleCondition,
    RulePlace, RuleTrigger,
};
pub use store::{
    Bookmark, DetectorTuning, NwrStream, PlacefileConfig, PluginConfig, Settings, StartView,
    WindowGeom,
};
pub use units::{
    default_alert_radius_mi, default_alert_rollup_threshold, default_alert_rollup_window_min,
    default_lightning_minutes, default_spotter_range_km, AlertSound, Density, Layout, Number,
    Number32, TempUnit, Theme, TimeDisplay, VelocityUnit,
};
