//! The choices a setting has, and numbers as a settings file holds them.

use vstd::prelude::*;

verus! {

/// A number as a settings file holds it: a binary64 number, by its bits.
#[derive(Debug, Clone, Copy, PartialEq, Eq, Structural)]
pub struct Number {
    pub bits: u64,
}

/// A smaller number: a binary32 number, by its bits.
#[derive(Debug, Clone, Copy, PartialEq, Eq, Structural)]
pub struct Number32 {
    pub bits: u32,
}

/// Theme preference.
#[derive(Debug, Clone, Copy, PartialEq, Eq, Structural)]
pub enum Theme {
    Dark,
    Light,
    System,
    Synthwave,
    Aurora,
    HighContrast,
    Oled,
    DearImGui,
}

impl Default for Theme {
    fn default() -> (r: Theme)
        ensures
            r == Theme::Dark,
    {
        Theme::Dark
    }
}

impl Theme {
    /// All choices in menu order.
    pub const ALL: [Theme; 8] = [
        Theme::Dark,
        Theme::Light,
        Theme::System,
        Theme::Synthwave,
        Theme::Aurora,
        Theme::HighContrast,
        Theme::Oled,
        Theme::DearImGui,
    ];

    pub open spec fn label_text(self) -> Seq<char> {
        match self {
            Theme::Dark => "Dark"@,
            Theme::Light => "Light"@,
            Theme::System => "System"@,
            Theme::Synthwave => "Synthwave"@,
            Theme::Aurora => "Aurora"@,
            Theme::HighContrast => "High contrast"@,
            Theme::Oled => "OLED black"@,
            Theme::DearImGui => "Dear ImGui"@,
        }
    }

    pub fn label(self) -> (r: &'static str)
        ensures
            r@ == self.label_text(),
    {
        match self {
            Theme::Dark => "Dark",
            Theme::Light => "Light",
            Theme::System => "System",
            Theme::Synthwave => "Synthwave",
            Theme::Aurora => "Aurora",
            Theme::HighContrast => "High contrast",
            Theme::Oled => "OLED black",
            Theme::DearImGui => "Dear ImGui",
        }
    }
}

/// The menu offers every choice once.
pub proof fn theme_menu_is_complete(c: Theme)
    ensures
        exists|i: int| 0 <= i < 8 && #[trigger] Theme::ALL@[i] == c,
        forall|i: int, j: int|
            0 <= i < j < 8 ==> #[trigger] Theme::ALL@[i] != #[trigger] Theme::ALL@[j],
{
    let k: int = match c {
        Theme::Dark => 0,
        Theme::Light => 1,
        Theme::System => 2,
        Theme::Synthwave => 3,
        Theme::Aurora => 4,
        Theme::HighContrast => 5,
        Theme::Oled => 6,
        Theme::DearImGui => 7,
    };
    assert(Theme::ALL@[k] == c);
}

/// Which chrome the app draws: a docked ribbon of labeled control groups, or floating controls
/// over the map.
#[derive(Debug, Clone, Copy, PartialEq, Eq, Structural)]
pub enum Layout {
    Wsv3,
    Minimal,
}

impl Default for Layout {
    fn default() -> (r: Layout)
        ensures
            r == Layout::Wsv3,
    {
        Layout::Wsv3
    }
}

impl Layout {
    /// All choices in menu order.
    pub const ALL: [Layout; 2] = [
        Layout::Wsv3,
        Layout::Minimal,
    ];

    pub open spec fn label_text(self) -> Seq<char> {
        match self {
            Layout::Wsv3 => "WSV3 ribbon"@,
            Layout::Minimal => "Minimal (map-first)"@,
        }
    }

    pub fn label(self) -> (r: &'static str)
        ensures
            r@ == self.label_text(),
    {
        match self {
            Layout::Wsv3 => "WSV3 ribbon",
            Layout::Minimal => "Minimal (map-first)",
        }
    }
}

/// The menu offers every choice once.
pub proof fn layout_menu_is_complete(c: Layout)
    ensures
        exists|i: int| 0 <= i < 2 && #[trigger] Layout::ALL@[i] == c,
        forall|i: int, j: int|
            0 <= i < j < 2 ==> #[trigger] Layout::ALL@[i] != #[trigger] Layout::ALL@[j],
{
    let k: int = match c {
        Layout::Wsv3 => 0,
        Layout::Minimal => 1,
    };
    assert(Layout::ALL@[k] == c);
}

/// How closely the interface is set.
#[derive(Debug, Clone, Copy, PartialEq, Eq, Structural)]
pub enum Density {
    Comfortable,
    Compact,
}

impl Default for Density {
    fn default() -> (r: Density)
        ensures
            r == Density::Comfortable,
    {
        Density::Comfortable
    }
}

impl Density {
    /// All choices in menu order.
    pub const ALL: [Density; 2] = [
        Density::Comfortable,
        Density::Compact,
    ];

}

/// The menu offers every choice once.
pub proof fn density_menu_is_complete(c: Density)
    ensures
        exists|i: int| 0 <= i < 2 && #[trigger] Density::ALL@[i] == c,
        forall|i: int, j: int|
            0 <= i < j < 2 ==> #[trigger] Density::ALL@[i] != #[trigger] Density::ALL@[j],
{
    let k: int = match c {
        Density::Comfortable => 0,
        Density::Compact => 1,
    };
    assert(Density::ALL@[k] == c);
}

/// Whether radar timestamps read in the selected site's local time or in UTC. Site-local is the
/// default: the clock a chaser cares about is the one the storm is under.
#[derive(Debug, Clone, Copy, PartialEq, Eq, Structural)]
pub enum TimeDisplay {
    SiteLocal,
    Utc,
}

impl Default for TimeDisplay {
    fn default() -> (r: TimeDisplay)
        ensures
            r == TimeDisplay::SiteLocal,
    {
        TimeDisplay::SiteLocal
    }
}

impl TimeDisplay {
    /// All choices in menu order.
    pub const ALL: [TimeDisplay; 2] = [
        TimeDisplay::SiteLocal,
        TimeDisplay::Utc,
    ];

    pub open spec fn label_text(self) -> Seq<char> {
        match self {
            TimeDisplay::SiteLocal => "Site local"@,
            TimeDisplay::Utc => "UTC (Zulu)"@,
        }
    }

    pub fn label(self) -> (r: &'static str)
        ensures
            r@ == self.label_text(),
    {
        match self {
            TimeDisplay::SiteLocal => "Site local",
            TimeDisplay::Utc => "UTC (Zulu)",
        }
    }
}

/// The menu offers every choice once.
pub proof fn time_display_menu_is_complete(c: TimeDisplay)
    ensures
        exists|i: int| 0 <= i < 2 && #[trigger] TimeDisplay::ALL@[i] == c,
        forall|i: int, j: int|
            0 <= i < j < 2 ==> #[trigger] TimeDisplay::ALL@[i] != #[trigger] TimeDisplay::ALL@[j],
{
    let k: int = match c {
        TimeDisplay::SiteLocal => 0,
        TimeDisplay::Utc => 1,
    };
    assert(TimeDisplay::ALL@[k] == c);
}

/// Display unit for temperature. Observations arrive in Celsius; US surface plots read in
/// Fahrenheit, which is why that is the default.
#[derive(Debug, Clone, Copy, PartialEq, Eq, Structural)]
pub enum TempUnit {
    Fahrenheit,
    Celsius,
}

impl Default for TempUnit {
    fn default() -> (r: TempUnit)
        ensures
            r == TempUnit::Fahrenheit,
    {
        TempUnit::Fahrenheit
    }
}

impl TempUnit {
    /// All choices in menu order.
    pub const ALL: [TempUnit; 2] = [
        TempUnit::Fahrenheit,
        TempUnit::Celsius,
    ];

    pub open spec fn label_text(self) -> Seq<char> {
        match self {
            TempUnit::Fahrenheit => "°F"@,
            TempUnit::Celsius => "°C"@,
        }
    }

    pub fn label(self) -> (r: &'static str)
        ensures
            r@ == self.label_text(),
    {
        match self {
            TempUnit::Fahrenheit => "°F",
            TempUnit::Celsius => "°C",
        }
    }
}

/// The menu offers every choice once.
pub proof fn temp_unit_menu_is_complete(c: TempUnit)
    ensures
        exists|i: int| 0 <= i < 2 && #[trigger] TempUnit::ALL@[i] == c,
        forall|i: int, j: int|
            0 <= i < j < 2 ==> #[trigger] TempUnit::ALL@[i] != #[trigger] TempUnit::ALL@[j],
{
    let k: int = match c {
        TempUnit::Fahrenheit => 0,
        TempUnit::Celsius => 1,
    };
    assert(TempUnit::ALL@[k] == c);
}

/// Display unit for velocity products.
#[derive(Debug, Clone, Copy, PartialEq, Eq, Structural)]
pub enum VelocityUnit {
    Knots,
    MetersPerSecond,
    Mph,
}

impl Default for VelocityUnit {
    fn default() -> (r: VelocityUnit)
        ensures
            r == VelocityUnit::Knots,
    {
        VelocityUnit::Knots
    }
}

impl VelocityUnit {
    /// All choices in menu order.
    pub const ALL: [VelocityUnit; 3] = [
        VelocityUnit::Knots,
        VelocityUnit::MetersPerSecond,
        VelocityUnit::Mph,
    ];

    pub open spec fn label_text(self) -> Seq<char> {
        match self {
            VelocityUnit::Knots => "kt"@,
            VelocityUnit::MetersPerSecond => "m/s"@,
            VelocityUnit::Mph => "mph"@,
        }
    }

    pub fn label(self) -> (r: &'static str)
        ensures
            r@ == self.label_text(),
    {
        match self {
            VelocityUnit::Knots => "kt",
            VelocityUnit::MetersPerSecond => "m/s",
            VelocityUnit::Mph => "mph",
        }
    }
}

/// The menu offers every choice once.
pub proof fn velocity_unit_menu_is_complete(c: VelocityUnit)
    ensures
        exists|i: int| 0 <= i < 3 && #[trigger] VelocityUnit::ALL@[i] == c,
        forall|i: int, j: int|
            0 <= i < j < 3 ==> #[trigger] VelocityUnit::ALL@[i] != #[trigger] VelocityUnit::ALL@[j],
{
    let k: int = match c {
        VelocityUnit::Knots => 0,
        VelocityUnit::MetersPerSecond => 1,
        VelocityUnit::Mph => 2,
    };
    assert(VelocityUnit::ALL@[k] == c);
}

impl TempUnit {
    /// A temperature in thousandths of a degree Celsius, in ten-thousandths of a degree of this
    /// unit: a step of a thousandth of a degree Celsius is one of eighteen ten-thousandths in
    /// Fahrenheit, so nothing is rounded.
    pub open spec fn of_celsius(self, c: int) -> int {
        match self {
            TempUnit::Fahrenheit => c * 18 + 320_000,
            TempUnit::Celsius => c * 10,
        }
    }

    /// Convert a temperature in thousandths of a degree Celsius into this unit, exactly: the answer
    /// is in ten-thousandths of a degree.
    pub fn from_c(self, c: i64) -> (r: i64)
        requires
            i64::MIN <= self.of_celsius(c as int) <= i64::MAX,
        ensures
            r == self.of_celsius(c as int),
    {
        match self {
            TempUnit::Fahrenheit => (c as i128 * 18 + 320_000) as i64,
            TempUnit::Celsius => c * 10,
        }
    }
}

/// Fahrenheit reads warmer where Celsius does, and the two meet at forty below.
pub proof fn units_agree_on_warmer(a: int, b: int)
    requires
        a < b,
    ensures
        TempUnit::Fahrenheit.of_celsius(a) < TempUnit::Fahrenheit.of_celsius(b),
        TempUnit::Fahrenheit.of_celsius(-40_000) == TempUnit::Celsius.of_celsius(-40_000),
{
}

impl VelocityUnit {
    /// Factor to convert m/s into this unit, in millionths.
    pub fn factor_from_ms(self) -> (r: u32)
        ensures
            r == match self {
                VelocityUnit::Knots => 1_943_844u32,
                VelocityUnit::MetersPerSecond => 1_000_000u32,
                VelocityUnit::Mph => 2_236_936u32,
            },
            // A knot is 1852 metres an hour, a mile 1609.344 metres.
            self == VelocityUnit::Knots ==> -1_852 <= r * 1_852 - 3_600 * 1_000_000 <= 1_852,
            self == VelocityUnit::Mph ==> -1_609_344 <= r * 1_609_344 - 3_600_000int * 1_000_000
                <= 1_609_344,
    {
        match self {
            VelocityUnit::Knots => 1_943_844,
            VelocityUnit::MetersPerSecond => 1_000_000,
            VelocityUnit::Mph => 2_236_936,
        }
    }
}

/// Alert sound choice. Built-ins are synthesized; `Custom` plays a user file.
#[derive(Debug)]
pub enum AlertSound {
    Chime,
    Ding,
    Siren,
    Alarm,
    Pulse,
    /// The attention signal that precedes an emergency broadcast: 853 Hz and 960 Hz together.
    Eas,
    Custom(String),
}

impl Default for AlertSound {
    fn default() -> (r: AlertSound)
        ensures
            r is Chime,
    {
        AlertSound::Chime
    }
}

impl AlertSound {
    /// The synthesized built-ins, for sound-picker combos.
    pub fn builtins() -> (r: Vec<AlertSound>)
        ensures
            r@.len() == 6,
            r@[0] is Chime,
            r@[1] is Ding,
            r@[2] is Siren,
            r@[3] is Alarm,
            r@[4] is Pulse,
            r@[5] is Eas,
    {
        let mut v: Vec<AlertSound> = Vec::new();
        v.push(AlertSound::Chime);
        v.push(AlertSound::Ding);
        v.push(AlertSound::Siren);
        v.push(AlertSound::Alarm);
        v.push(AlertSound::Pulse);
        v.push(AlertSound::Eas);
        v
    }

    pub open spec fn label_text(self) -> Seq<char> {
        match self {
            AlertSound::Chime => "Chime"@,
            AlertSound::Ding => "Ding"@,
            AlertSound::Siren => "Siren"@,
            AlertSound::Alarm => "Alarm"@,
            AlertSound::Pulse => "Pulse"@,
            AlertSound::Eas => "Emergency (EAS tone)"@,
            AlertSound::Custom(_) => "Custom…"@,
        }
    }

    pub fn label(&self) -> (r: &'static str)
        ensures
            r@ == self.label_text(),
    {
        match self {
            AlertSound::Chime => "Chime",
            AlertSound::Ding => "Ding",
            AlertSound::Siren => "Siren",
            AlertSound::Alarm => "Alarm",
            AlertSound::Pulse => "Pulse",
            AlertSound::Eas => "Emergency (EAS tone)",
            AlertSound::Custom(_) => "Custom…",
        }
    }
}

/// How many alerts within the window collapse into one rolling summary.
pub fn default_alert_rollup_threshold() -> (r: usize)
    ensures
        r == 5,
{
    5
}

/// The window that the rollup counts over, in minutes.
pub fn default_alert_rollup_window_min() -> (r: u64)
    ensures
        r == 10,
{
    10
}

/// Averaging window of the strike-density layer, in minutes.
pub fn default_lightning_minutes() -> (r: u16)
    ensures
        r == 5,
{
    5
}

/// How far from the active radar spotters are drawn, in km: 230.
pub fn default_spotter_range_km() -> (r: Number)
    ensures
        r.bits == 0x406cc00000000000,
{
    Number { bits: 0x406cc00000000000 }
}

/// Watch radius of a marker, in miles: 20.
pub fn default_alert_radius_mi() -> (r: Number)
    ensures
        r.bits == 0x4034000000000000,
{
    Number { bits: 0x4034000000000000 }
}

/// Nine degrees Fahrenheit are five Celsius, and water freezes at thirty-two of them; degrees
/// Celsius stay what they are.
pub proof fn degrees_keep_their_ratio(a: int, b: int)
    ensures
        5 * (TempUnit::Fahrenheit.of_celsius(a) - TempUnit::Fahrenheit.of_celsius(b)) == 9 * (
        TempUnit::Celsius.of_celsius(a) - TempUnit::Celsius.of_celsius(b)),
        TempUnit::Fahrenheit.of_celsius(0) == 32 * 10_000,
        TempUnit::Celsius.of_celsius(a) == 10 * a,
{
}

} // verus!
