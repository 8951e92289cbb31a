//! The rules a user writes: what to watch for, where, and how loud to be about it.

use crate::settings::ids::{is_marker_id, new_marker_id};
use crate::settings::units::{AlertSound, Number};
use crate::text;
use vstd::prelude::*;

verus! {

/// What a rule watches for.
#[derive(Debug)]
pub enum RuleTrigger {
    /// Tornado debris signature.
    Tds,
    /// Three-body scatter spike (hail).
    Tbss,
    /// A ZDR column above the freezing level.
    ZdrColumn,
    /// A velocity couplet; the threshold is minimum Vrot in knots.
    Rotation,
    /// The threshold is the minimum severe percentage.
    ProbSevere,
    /// Flash-extent density; the threshold is minimum flashes per cell per window.
    GlmFed,
    /// How fast flash-extent density is rising, in flashes per cell per minute.
    GlmJump,
    /// A warning whose event name contains this text, case-insensitively. Empty matches every
    /// warning.
    Warning { event_contains: String },
}

impl RuleTrigger {
    /// The place of a trigger in the menu.
    pub open spec fn place(self) -> int {
        match self {
            RuleTrigger::Tds => 0,
            RuleTrigger::Tbss => 1,
            RuleTrigger::ZdrColumn => 2,
            RuleTrigger::Rotation => 3,
            RuleTrigger::ProbSevere => 4,
            RuleTrigger::GlmFed => 5,
            RuleTrigger::GlmJump => 6,
            RuleTrigger::Warning { .. } => 7,
        }
    }

    /// Every trigger, with the defaults a fresh rule starts on, in menu order.
    pub fn all() -> (r: Vec<RuleTrigger>)
        ensures
            r@.len() == 8,
            forall|i: int| 0 <= i < 8 ==> (#[trigger] r@[i]).place() == i,
            r@[7] matches RuleTrigger::Warning { event_contains } && event_contains@.len() == 0,
    {
        let mut v: Vec<RuleTrigger> = Vec::new();
        v.push(RuleTrigger::Tds);
        v.push(RuleTrigger::Tbss);
        v.push(RuleTrigger::ZdrColumn);
        v.push(RuleTrigger::Rotation);
        v.push(RuleTrigger::ProbSevere);
        v.push(RuleTrigger::GlmFed);
        v.push(RuleTrigger::GlmJump);
        v.push(RuleTrigger::Warning { event_contains: String::new() });
        v
    }

    pub open spec fn label_text(self) -> Seq<char> {
        match self {
            RuleTrigger::Tds => "Debris signature (TDS)"@,
            RuleTrigger::Tbss => "Hail spike (TBSS)"@,
            RuleTrigger::ZdrColumn => "ZDR column"@,
            RuleTrigger::Rotation => "Rotation"@,
            RuleTrigger::ProbSevere => "ProbSevere"@,
            RuleTrigger::GlmFed => "Lightning density"@,
            RuleTrigger::GlmJump => "Lightning jump"@,
            RuleTrigger::Warning { .. } => "NWS warning"@,
        }
    }

    pub fn label(&self) -> (r: &'static str)
        ensures
            r@ == self.label_text(),
    {
        match self {
            RuleTrigger::Tds => "Debris signature (TDS)",
            RuleTrigger::Tbss => "Hail spike (TBSS)",
            RuleTrigger::ZdrColumn => "ZDR column",
            RuleTrigger::Rotation => "Rotation",
            RuleTrigger::ProbSevere => "ProbSevere",
            RuleTrigger::GlmFed => "Lightning density",
            RuleTrigger::GlmJump => "Lightning jump",
            RuleTrigger::Warning { .. } => "NWS warning",
        }
    }

    /// What the threshold means for this trigger, and its default as a whole number: 40 knots, 50
    /// percent, 20 flashes, a rise of 4 flashes per minute.
    pub open spec fn hint(self) -> Option<(Seq<char>, u64)> {
        match self {
            RuleTrigger::Rotation => Some(("kt Vrot"@, 0x4044000000000000u64)),
            RuleTrigger::ProbSevere => Some(("% severe"@, 0x4049000000000000u64)),
            RuleTrigger::GlmFed => Some(("flashes"@, 0x4034000000000000u64)),
            RuleTrigger::GlmJump => Some(("flashes/min rise"@, 0x4010000000000000u64)),
            _ => None,
        }
    }

    /// What the threshold means for this trigger, and its default. `None` where the trigger is its
    /// own answer (a debris signature does not come in degrees).
    pub fn threshold_hint(&self) -> (r: Option<(&'static str, Number)>)
        ensures
            match self.hint() {
                Some((t, bits)) => r is Some && (r->0).0@ == t && (r->0).1.bits == bits,
                None => r is None,
            },
    {
        match self {
            RuleTrigger::Rotation => Some(("kt Vrot", Number { bits: 0x4044000000000000 })),
            RuleTrigger::ProbSevere => Some(("% severe", Number { bits: 0x4049000000000000 })),
            RuleTrigger::GlmFed => Some(("flashes", Number { bits: 0x4034000000000000 })),
            RuleTrigger::GlmJump => Some(("flashes/min rise", Number { bits: 0x4010000000000000 })),
            _ => None,
        }
    }

    /// Whether this trigger is answered by a per-volume scan of the active pane's radar, as
    /// opposed to a national feed.
    pub fn is_scan(&self) -> (r: bool)
        ensures
            r == (self.place() <= 3),
    {
        match self {
            RuleTrigger::Tds
            | RuleTrigger::Tbss
            | RuleTrigger::ZdrColumn
            | RuleTrigger::Rotation => true,
            _ => false,
        }
    }
}

/// Where a rule is allowed to fire.
#[derive(Debug)]
pub enum RulePlace {
    /// Anywhere the active radar can see. Loud by design: worth pairing with a cooldown.
    Anywhere,
    /// Within a marker's own alert radius. Keyed by the marker's id, so renaming the marker does
    /// not silently detach the rule.
    Marker { id: String },
    /// Touching a drawn watch zone, by its name.
    Zone { name: String },
}

/// One extra thing that must (or may) also be true for a rule to fire. A trigger and a threshold,
/// not an expression: a rule nobody can read at night is a rule nobody trusts.
#[derive(Debug)]
pub struct RuleCondition {
    pub trigger: RuleTrigger,
    pub threshold: Option<Number>,
}

/// How a rule's extra conditions combine.
#[derive(Debug, Clone, Copy, PartialEq, Eq, Structural)]
pub enum RuleCombinator {
    /// Every extra condition must also hold.
    And,
    /// At least one of them must.
    Or,
}

impl Default for RuleCombinator {
    fn default() -> (r: RuleCombinator)
        ensures
            r == RuleCombinator::And,
    {
        RuleCombinator::And
    }
}

impl RuleCombinator {
    pub const ALL: [RuleCombinator; 2] = [RuleCombinator::And, RuleCombinator::Or];

    pub fn label(self) -> (r: &'static str)
        ensures
            r@ == match self {
                RuleCombinator::And => "and also"@,
                RuleCombinator::Or => "and either"@,
            },
    {
        match self {
            RuleCombinator::And => "and also",
            RuleCombinator::Or => "and either",
        }
    }
}

/// Ten minutes, matching the built-in proximity alerts' own cooldown.
pub fn default_rule_cooldown() -> (r: u16)
    ensures
        r == 10,
{
    10
}

/// One user rule: "if this signature shows up there, tell me".
#[derive(Debug)]
pub struct AlertRule {
    /// Stable id; cooldowns key on it, so renaming a rule does not re-arm it.
    pub id: String,
    /// What the user calls it. Empty falls back to the trigger's label.
    pub name: String,
    pub trigger: RuleTrigger,
    /// Trigger-dependent minimum; ignored where the trigger takes none.
    pub threshold: Option<Number>,
    pub place: RulePlace,
    /// Push past quiet hours. Off by default: the user decides what is worth waking up for.
    pub urgent: bool,
    /// Minutes before the same rule may fire for the same place again.
    pub cooldown_min: u16,
    /// Rules are created switched off, and armed deliberately.
    pub enabled: bool,
    /// Play this sound when the rule fires, instead of nothing.
    pub sound: Option<AlertSound>,
    /// Attach a picture of the map to the rule's push.
    pub snapshot: bool,
    /// Extra conditions on top of the trigger.
    pub conditions: Vec<RuleCondition>,
    /// How the extra conditions combine among themselves. The rule's own trigger is always
    /// required.
    pub combine: RuleCombinator,
}

impl AlertRule {
    /// A fresh, disabled rule.
    pub fn new(trigger: RuleTrigger) -> (r: AlertRule)
        ensures
            is_marker_id(r.id@),
            r.name@.len() == 0,
            r.trigger == trigger,
            r.threshold == match trigger.hint() {
                Some((_, bits)) => Some(Number { bits }),
                None => None,
            },
            r.place is Anywhere,
            !r.urgent,
            r.cooldown_min == 10,
            !r.enabled,
            r.sound is None,
            !r.snapshot,
            r.conditions@.len() == 0,
            r.combine == RuleCombinator::And,
    {
        let threshold = match trigger.threshold_hint() {
            Some((_, n)) => Some(n),
            None => None,
        };
        AlertRule {
            id: new_marker_id(),
            name: String::new(),
            trigger,
            threshold,
            place: RulePlace::Anywhere,
            urgent: false,
            cooldown_min: default_rule_cooldown(),
            enabled: false,
            sound: None,
            snapshot: false,
            conditions: Vec::new(),
            combine: RuleCombinator::And,
        }
    }

    /// What to call it in a notification.
    pub fn title(&self) -> (r: String)
        ensures
            r@ == if text::trim_text(self.name@).len() == 0 {
                self.trigger.label_text()
            } else {
                self.name@
            },
    {
        let bare = text::trim(self.name.as_str());
        if bare.as_str().is_empty() {
            self.trigger.label().to_owned()
        } else {
            self.name.clone()
        }
    }
}

/// A user-drawn watch zone: a closed ring that raises an alert whenever a warning touches it.
#[derive(Debug)]
pub struct AlertPolygon {
    pub name: String,
    /// Longitude and latitude of each corner.
    pub ring: Vec<(Number, Number)>,
}

/// A named location marker at a geographic point.
#[derive(Debug)]
pub struct Marker {
    /// Stable identity, independent of the name. Names are the display field and are not unique, so
    /// anything that remembers a marker between frames keys on this instead.
    pub id: String,
    pub name: String,
    pub lat: Number,
    pub lon: Number,
    /// Optional icon: a file name, not a full path, so the settings stay portable.
    pub icon: Option<String>,
    /// Alert when a warning comes within this many miles of the marker, not only when it covers it.
    pub alert_radius_mi: Number,
    /// Optional live-video URL for this place.
    pub video_url: String,
    /// The one marker that is home.
    pub home: bool,
}

/// A trigger with no numeric meaning gets no threshold to be confused by; the scan triggers but
/// rotation have none.
pub proof fn signatures_have_no_threshold(t: RuleTrigger)
    ensures
        t.place() <= 2 ==> t.hint() is None,
        t.hint() is Some ==> 3 <= t.place() <= 6,
{
}

/// The default thresholds are whole numbers between one and two powers of two: forty knots, fifty
/// percent, twenty flashes, a rise of four.
pub proof fn thresholds_are_whole_numbers(t: RuleTrigger, bits: u64)
    requires
        t.hint() is Some,
        bits == (t.hint()->0).1,
    ensures
        ({
            let exponent = bits / 0x10_0000_0000_0000 - 1023;
            let digits = 0x10_0000_0000_0000 + bits % 0x10_0000_0000_0000;
            &&& t is Rotation ==> exponent == 5 && digits * 32 == 40 * 0x10_0000_0000_0000
            &&& t is ProbSevere ==> exponent == 5 && digits * 32 == 50 * 0x10_0000_0000_0000
            &&& t is GlmFed ==> exponent == 4 && digits * 16 == 20 * 0x10_0000_0000_0000
            &&& t is GlmJump ==> exponent == 2 && digits * 4 == 4 * 0x10_0000_0000_0000
        }),
{
}

/// Triggers of different kinds have different names.
pub proof fn trigger_names_differ(a: RuleTrigger, b: RuleTrigger)
    requires
        a.label_text() == b.label_text(),
    ensures
        a.place() == b.place(),
{
    reveal_strlit("Debris signature (TDS)");
    reveal_strlit("Hail spike (TBSS)");
    reveal_strlit("ZDR column");
    reveal_strlit("Rotation");
    reveal_strlit("ProbSevere");
    reveal_strlit("Lightning density");
    reveal_strlit("Lightning jump");
    reveal_strlit("NWS warning");
    assert("Debris signature (TDS)"@.len() == 22 && "NWS warning"@.len() == 11);
    assert("Rotation"@.len() == 8 && "Lightning jump"@.len() == 14);
    assert("Hail spike (TBSS)"@[0] == 'H' && "Lightning density"@[0] == 'L');
    assert("ZDR column"@[0] == 'Z' && "ProbSevere"@[0] == 'P');
    let x = a.label_text();
    let y = b.label_text();
    assert(x.len() == y.len() && x[0] == y[0]);
}

} // verus!
