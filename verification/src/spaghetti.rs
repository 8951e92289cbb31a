//! Tropical model guidance on the map: a track per model ("spaghetti"), the observed best track,
//! and markers for the systems that models are run on but that have no advisory yet.
//!
//! What is drawn is chosen per model group and per model; this module holds that choice, and says
//! what is painted in which order and what its hover text reads.
//!
//! Draw order is least to most important: ensemble members (thin, faint) under the deterministic
//! models, consensus and the official track on top, then the best track, which is fact rather than
//! forecast.

use crate::clock;
use crate::text;
use crate::theme::Rgb;
use vstd::prelude::*;

verus! {

/// Refetch cadence, in seconds. Half-hourly catches each model cycle within the half hour without
/// re-pulling a large file every few minutes.
pub const REFRESH_SECS: u64 = 1_800;

/// The kinds of model.
#[derive(Debug, Clone, Copy, PartialEq, Eq, Structural)]
pub enum Group {
    Official,
    Consensus,
    Global,
    Hurricane,
    EnsembleMean,
    EnsembleMember,
    Statistical,
    /// Intensity-only aids, which have no track.
    Other,
}

impl Group {
    /// Every group, in menu order.
    pub const ALL: [Group; 8] = [
        Group::Official,
        Group::Consensus,
        Group::Global,
        Group::Hurricane,
        Group::EnsembleMean,
        Group::EnsembleMember,
        Group::Statistical,
        Group::Other,
    ];

    /// The place of a group in [`Self::ALL`].
    pub open spec fn place(self) -> int {
        match self {
            Group::Official => 0,
            Group::Consensus => 1,
            Group::Global => 2,
            Group::Hurricane => 3,
            Group::EnsembleMean => 4,
            Group::EnsembleMember => 5,
            Group::Statistical => 6,
            Group::Other => 7,
        }
    }
}

/// The place of a group in [`Group::ALL`].
pub fn group_index(g: Group) -> (r: usize)
    ensures
        r == g.place(),
        0 <= r < 8,
        Group::ALL@[r as int] == g,
{
    match g {
        Group::Official => 0,
        Group::Consensus => 1,
        Group::Global => 2,
        Group::Hurricane => 3,
        Group::EnsembleMean => 4,
        Group::EnsembleMember => 5,
        Group::Statistical => 6,
        Group::Other => 7,
    }
}

/// One forecast position of a run.
#[derive(Debug)]
pub struct AidPoint {
    /// Hours after the cycle.
    pub tau: u32,
    /// Wind, in whole knots.
    pub vmax_kt: Option<u64>,
    /// Pressure, in whole millibars.
    pub mslp_mb: Option<u64>,
}

/// One model's latest run, and what is known of the model.
#[derive(Debug)]
pub struct Aid {
    /// The model's id.
    pub tech: String,
    /// The model's name; empty where it has none.
    pub name: String,
    pub group: Group,
    /// An early aid, made from an earlier run of a late model.
    pub interpolated: bool,
    pub color: Rgb,
    /// When the run began.
    pub cycle: i128,
    pub points: Vec<AidPoint>,
}

/// One observed position.
#[derive(Debug)]
pub struct Fix {
    pub time: i128,
    /// Two-letter stage code.
    pub stage: String,
    pub vmax_kt: Option<u64>,
    pub mslp_mb: Option<u64>,
}

/// What is known of one active system.
#[derive(Debug)]
pub struct Guidance {
    pub id: String,
    /// What the system is called.
    pub title: String,
    /// Models are run on it, but it has no advisory.
    pub invest: bool,
    pub aids: Vec<Aid>,
    /// The observed track.
    pub best: Vec<Fix>,
    /// The latest fix, by its place in the observed track.
    pub latest: Option<usize>,
}

/// What the model-guidance layer shows, and the guidance itself.
#[derive(Debug)]
pub struct Spaghetti {
    /// Model tracks on the map (and the fetch behind them).
    pub enabled: bool,
    /// The observed track behind each system.
    pub best_track: bool,
    /// The early ("interpolated") aids alongside the late models they are made from.
    pub interpolated: bool,
    /// Model ids at the ends of the lines.
    pub labels: bool,
    /// Which groups draw, indexed like [`Group::ALL`].
    pub groups: [bool; 8],
    /// Individual models switched off within a group that is on.
    pub hidden: Vec<String>,
    /// Draw only this system's guidance (`None`: every system).
    pub focus: Option<String>,
    pub guidance: Vec<Guidance>,
    /// When the last fetch began, in milliseconds on a clock that never goes back.
    pub last_fetch: Option<u64>,
    pub loading: bool,
    pub error: Option<String>,
    /// Set by a surface that wants the model picker opened; the app opens it and clears this.
    pub open_window: bool,
}

/// A list of texts holds a text.
pub open spec fn listed(v: Seq<String>, s: Seq<char>) -> bool {
    exists|i: int| 0 <= i < v.len() && (#[trigger] v[i])@ == s
}

/// The first system of that id.
pub open spec fn find_system(v: Seq<Guidance>, id: Seq<char>, i: int) -> Option<int>
    decreases v.len() - i,
{
    if i < 0 || i >= v.len() {
        None
    } else if v[i].id@ == id {
        Some(i)
    } else {
        find_system(v, id, i + 1)
    }
}

/// The places of the systems among the first `n` that the focus leaves in view.
pub open spec fn systems_in(v: Seq<Guidance>, focus: Option<String>, n: nat) -> Seq<usize>
    decreases n,
{
    if n == 0 {
        Seq::empty()
    } else {
        let before = systems_in(v, focus, (n - 1) as nat);
        if focus is None || v[n - 1].id@ == (focus->0)@ {
            before.push((n - 1) as usize)
        } else {
            before
        }
    }
}

/// The draw order of a group: members first, the official forecast last.
pub open spec fn rank_of(g: Group) -> int {
    match g {
        Group::EnsembleMember => 0,
        Group::Statistical => 1,
        Group::Other => 1,
        Group::Global => 2,
        Group::Hurricane => 2,
        Group::EnsembleMean => 3,
        Group::Consensus => 4,
        Group::Official => 5,
    }
}

fn rank(g: Group) -> (r: u8)
    ensures
        r == rank_of(g),
{
    match g {
        Group::EnsembleMember => 0,
        Group::Statistical => 1,
        Group::Other => 1,
        Group::Global => 2,
        Group::Hurricane => 2,
        Group::EnsembleMean => 3,
        Group::Consensus => 4,
        Group::Official => 5,
    }
}

/// One thing to paint.
#[derive(Debug, Clone, Copy, PartialEq, Eq, Structural)]
pub enum Step {
    /// The track of a run.
    Run { system: usize, aid: usize },
    /// The observed track.
    BestTrack { system: usize },
    /// The marker of a system without an advisory, at its latest fix.
    Invest { system: usize, fix: usize },
}

impl Spaghetti {
    /// Off until asked for: the guidance of every active system is a large fetch each half hour.
    /// `groups` says which groups draw from the start.
    pub fn new(groups: [bool; 8]) -> (r: Spaghetti)
        ensures
            !r.enabled,
            r.best_track,
            !r.interpolated,
            r.labels,
            r.groups == groups,
            r.hidden@.len() == 0,
            r.focus is None,
            r.guidance@.len() == 0,
            r.last_fetch is None,
            !r.loading,
            r.error is None,
            !r.open_window,
    {
        Spaghetti {
            enabled: false,
            best_track: true,
            interpolated: false,
            labels: true,
            groups,
            hidden: Vec::new(),
            focus: None,
            guidance: Vec::new(),
            last_fetch: None,
            loading: false,
            error: None,
            open_window: false,
        }
    }

    pub fn group_on(&self, g: Group) -> (r: bool)
        ensures
            r == self.groups@[g.place()],
    {
        self.groups[group_index(g)]
    }

    /// A run is drawn.
    pub open spec fn draws(self, a: Aid) -> bool {
        &&& a.group != Group::Other
        &&& self.groups@[a.group.place()]
        &&& (self.interpolated || !a.interpolated)
        &&& !listed(self.hidden@, a.tech@)
    }

    /// Whether a run is drawn: its group is on, it is not hidden, and it is not an interpolated
    /// aid while those are off. Intensity-only aids never draw as tracks.
    pub fn shows(&self, a: &Aid) -> (r: bool)
        ensures
            r == self.draws(*a),
    {
        if a.group == Group::Other || !self.group_on(a.group) || (!self.interpolated
            && a.interpolated) {
            return false;
        }
        let mut i: usize = 0;
        while i < self.hidden.len()
            invariant
                i <= self.hidden.len(),
                forall|j: int| 0 <= j < i ==> (#[trigger] self.hidden@[j])@ != a.tech@,
            decreases self.hidden.len() - i,
        {
            if text::same(self.hidden[i].as_str(), a.tech.as_str()) {
                return false;
            }
            i = i + 1;
        }
        true
    }

    /// The systems in view of the focus, by their places.
    pub fn systems(&self) -> (r: Vec<usize>)
        ensures
            r@ == systems_in(self.guidance@, self.focus, self.guidance@.len()),
    {
        let mut out: Vec<usize> = Vec::new();
        assert(out@ =~= systems_in(self.guidance@, self.focus, 0));
        let mut i: usize = 0;
        while i < self.guidance.len()
            invariant
                i <= self.guidance.len(),
                out@ == systems_in(self.guidance@, self.focus, i as nat),
            decreases self.guidance.len() - i,
        {
            let seen = match &self.focus {
                None => true,
                Some(f) => text::same(self.guidance[i].id.as_str(), f.as_str()),
            };
            if seen {
                out.push(i);
            }
            i = i + 1;
        }
        out
    }

    /// The system of that id, by its place.
    pub fn find(&self, id: &str) -> (r: Option<usize>)
        ensures
            match find_system(self.guidance@, id@, 0) {
                Some(i) => r is Some && r->0 == i && 0 <= i < self.guidance@.len(),
                None => r is None,
            },
    {
        let mut i: usize = 0;
        while i < self.guidance.len()
            invariant
                i <= self.guidance.len(),
                find_system(self.guidance@, id@, 0) == find_system(self.guidance@, id@, i as int),
            decreases self.guidance.len() - i,
        {
            if text::same(self.guidance[i].id.as_str(), id) {
                return Some(i);
            }
            i = i + 1;
        }
        None
    }

    /// Land a fetch. A failed one keeps what was there; a focused system that has dissipated would
    /// leave nothing drawn and no way to tell, so the focus is let go.
    pub fn ingest(&mut self, result: Result<Vec<Guidance>, String>)
        ensures
            match result {
                Ok(g) => *final(self) == (Spaghetti {
                    loading: false,
                    guidance: g,
                    error: None,
                    focus: if old(self).focus is Some && find_system(
                        g@,
                        (old(self).focus->0)@,
                        0,
                    ) is Some {
                        old(self).focus
                    } else {
                        None
                    },
                    ..*old(self)
                }),
                Err(e) => *final(self) == (Spaghetti {
                    loading: false,
                    error: Some(e),
                    ..*old(self)
                }),
            },
            !final(self).loading,
            result is Err <==> final(self).error is Some,
            result is Err ==> final(self).guidance == old(self).guidance && final(self).focus
                == old(self).focus,
            result matches Ok(g) ==> final(self).guidance == g && (final(self).focus is Some
                ==> final(self).focus == old(self).focus),
    {
        self.loading = false;
        match result {
            Ok(g) => {
                self.guidance = g;
                self.error = None;
                let gone = match &self.focus {
                    Some(f) => self.find(f.as_str()).is_none(),
                    None => false,
                };
                if gone {
                    self.focus = None;
                }
            },
            Err(e) => {
                self.error = Some(e);
            },
        }
    }

    /// A fetch of every active system's guidance has begun.
    pub fn fetch(&mut self, now: u64)
        ensures
            *final(self) == (Spaghetti {
                loading: true,
                last_fetch: Some(now),
                ..*old(self)
            }),
    {
        self.loading = true;
        self.last_fetch = Some(now);
    }

    /// Land a finished fetch, if one has.
    pub fn poll(&mut self, arrived: Option<Result<Vec<Guidance>, String>>)
        ensures
            match arrived {
                None => *final(self) == *old(self),
                Some(Ok(g)) => *final(self) == (Spaghetti {
                    loading: false,
                    guidance: g,
                    error: None,
                    focus: if old(self).focus is Some && find_system(
                        g@,
                        (old(self).focus->0)@,
                        0,
                    ) is Some {
                        old(self).focus
                    } else {
                        None
                    },
                    ..*old(self)
                }),
                Some(Err(e)) => *final(self) == (Spaghetti {
                    loading: false,
                    error: Some(e),
                    ..*old(self)
                }),
            },
            !(arrived matches Some(Ok(_))) ==> final(self).guidance == old(self).guidance
                && final(self).focus == old(self).focus,
            arrived matches Some(Ok(g)) ==> final(self).guidance == g,
    {
        match arrived {
            Some(r) => self.ingest(r),
            None => {},
        }
    }

    /// True when the fetch clock says to refetch.
    pub fn due(&self, now: u64) -> (r: bool)
        ensures
            r == (self.enabled && !self.loading && match self.last_fetch {
                None => true,
                Some(t) => now - t >= REFRESH_SECS * 1_000,
            }),
            r ==> self.enabled && !self.loading,
            self.enabled && !self.loading && self.last_fetch is None ==> r,
            r && self.last_fetch is Some ==> self.last_fetch->0 + 30 * 60 * 1_000 <= now,
    {
        self.enabled && !self.loading && match self.last_fetch {
            None => true,
            Some(t) => now >= t && now - t >= REFRESH_SECS * 1_000,
        }
    }

    /// The invest whose marker is under the pointer: the nearest of those within reach, the first
    /// of two as near. For each system, `distance` is how far its latest fix is on screen, squared,
    /// where it has one.
    pub fn hit(&self, distance: &Vec<Option<u32>>, reach: u32) -> (r: Option<usize>)
        requires
            distance@.len() == self.guidance@.len(),
        ensures
            r == if self.enabled {
                closest_of(self.reachable(distance@), reach, distance@.len())
            } else {
                None
            },
    {
        if !self.enabled {
            return None;
        }
        let mut d: Vec<Option<u32>> = Vec::new();
        let mut i: usize = 0;
        while i < self.guidance.len()
            invariant
                distance@.len() == self.guidance@.len(),
                i <= self.guidance.len(),
                d@.len() == i,
                forall|j: int| 0 <= j < i ==> d@[j] == self.reachable(distance@)[j],
            decreases self.guidance.len() - i,
        {
            if self.guidance[i].invest {
                d.push(distance[i]);
            } else {
                d.push(None);
            }
            i = i + 1;
        }
        assert(d@ =~= self.reachable(distance@));
        closest(&d, reach)
    }

    /// The distances to the invests only.
    pub open spec fn reachable(self, distance: Seq<Option<u32>>) -> Seq<Option<u32>> {
        Seq::new(
            distance.len(),
            |i: int|
                if self.guidance@[i].invest {
                    distance[i]
                } else {
                    None
                },
        )
    }

    /// The runs of a system that draw at this rank, among its first `n`.
    pub open spec fn runs_at(self, system: usize, r: int, n: nat) -> Seq<Step>
        decreases n,
    {
        if n == 0 {
            Seq::empty()
        } else {
            let before = self.runs_at(system, r, (n - 1) as nat);
            let a = self.guidance@[system as int].aids@[n - 1];
            if self.draws(a) && rank_of(a.group) == r {
                before.push(Step::Run { system, aid: (n - 1) as usize })
            } else {
                before
            }
        }
    }

    /// The runs of a system that draw at the ranks below `r`, least important first, and those of
    /// one rank in the order of the guidance.
    pub open spec fn runs_below(self, system: usize, r: nat) -> Seq<Step>
        decreases r,
    {
        if r == 0 {
            Seq::empty()
        } else {
            self.runs_below(system, (r - 1) as nat) + self.runs_at(
                system,
                r - 1,
                self.guidance@[system as int].aids@.len(),
            )
        }
    }

    /// What is painted of a system after its runs.
    pub open spec fn observed(self, system: usize) -> Seq<Step> {
        let g = self.guidance@[system as int];
        (if self.best_track && g.best@.len() >= 2 {
            seq![Step::BestTrack { system }]
        } else {
            seq![]
        }) + (if g.invest && g.latest is Some {
            seq![Step::Invest { system, fix: g.latest->0 }]
        } else {
            seq![]
        })
    }

    /// What is painted of the first `n` of these systems.
    pub open spec fn painted(self, systems: Seq<usize>, n: nat) -> Seq<Step>
        decreases n,
    {
        if n == 0 {
            Seq::empty()
        } else {
            self.painted(systems, (n - 1) as nat) + self.runs_below(systems[n - 1], 6)
                + self.observed(systems[n - 1])
        }
    }

    /// Everything that is painted, in order.
    pub open spec fn plan(self) -> Seq<Step> {
        if self.enabled {
            let systems = systems_in(self.guidance@, self.focus, self.guidance@.len());
            self.painted(systems, systems.len())
        } else {
            Seq::empty()
        }
    }

    /// What to paint, first to last.
    pub fn draw(&self) -> (r: Vec<Step>)
        ensures
            r@ == self.plan(),
    {
        let mut out: Vec<Step> = Vec::new();
        if !self.enabled {
            assert(out@ =~= self.plan());
            return out;
        }
        let systems = self.systems();
        let n: usize = self.guidance.len();
        proof {
            lemma_systems_in_range(self.guidance@, self.focus, n as nat);
        }
        assert(out@ =~= self.painted(systems@, 0));
        let mut k: usize = 0;
        while k < systems.len()
            invariant
                k <= systems.len(),
                forall|j: int| 0 <= j < systems@.len() ==> systems@[j] < self.guidance@.len(),
                out@ == self.painted(systems@, k as nat),
            decreases systems.len() - k,
        {
            let ghost before = out@;
            let s: usize = systems[k];
            let mut r: u8 = 0;
            assert(out@ =~= before + self.runs_below(s, 0));
            while r < 6
                invariant
                    r <= 6,
                    s < self.guidance@.len(),
                    out@ == before + self.runs_below(s, r as nat),
                decreases 6 - r,
            {
                self.draw_rank(s, r, &mut out);
                r = r + 1;
                assert(out@ =~= before + self.runs_below(s, r as nat));
            }
            let ghost runs = out@;
            let g = &self.guidance[s];
            if self.best_track && g.best.len() >= 2 {
                out.push(Step::BestTrack { system: s });
            }
            if g.invest {
                if let Some(fix) = g.latest {
                    out.push(Step::Invest { system: s, fix });
                }
            }
            assert(out@ =~= runs + self.observed(s));
            k = k + 1;
            assert(out@ =~= self.painted(systems@, k as nat));
        }
        out
    }

    fn draw_rank(&self, s: usize, r: u8, out: &mut Vec<Step>)
        requires
            s < self.guidance@.len(),
        ensures
            final(out)@ == old(out)@ + self.runs_at(
                s,
                r as int,
                self.guidance@[s as int].aids@.len(),
            ),
    {
        let ghost before = out@;
        let aids = &self.guidance[s].aids;
        let mut i: usize = 0;
        assert(out@ =~= before + self.runs_at(s, r as int, 0));
        while i < aids.len()
            invariant
                s < self.guidance@.len(),
                *aids == self.guidance@[s as int].aids,
                i <= aids.len(),
                out@ == before + self.runs_at(s, r as int, i as nat),
            decreases aids.len() - i,
        {
            if rank(aids[i].group) == r && self.shows(&aids[i]) {
                out.push(Step::Run { system: s, aid: i });
            }
            i = i + 1;
            assert(out@ =~= before + self.runs_at(s, r as int, i as nat));
        }
    }
}

proof fn lemma_systems_in_range(v: Seq<Guidance>, focus: Option<String>, n: nat)
    requires
        n <= v.len() <= usize::MAX,
    ensures
        forall|j: int|
            0 <= j < systems_in(v, focus, n).len() ==> (#[trigger] systems_in(v, focus, n)[j]) < n,
    decreases n,
{
    if n > 0 {
        lemma_systems_in_range(v, focus, (n - 1) as nat);
        let before = systems_in(v, focus, (n - 1) as nat);
        let all = systems_in(v, focus, n);
        assert forall|j: int| 0 <= j < all.len() implies (#[trigger] all[j]) < n by {
            if j < before.len() {
                assert(all[j] == before[j]);
            }
        }
    }
}

/// Of the first `n` distances within reach, the place of the nearest, the first of two as near.
pub open spec fn closest_of(d: Seq<Option<u32>>, reach: u32, n: nat) -> Option<usize>
    decreases n,
{
    if n == 0 {
        None
    } else {
        let before = closest_of(d, reach, (n - 1) as nat);
        match d[n - 1] {
            Some(x) => if x <= reach && (before is None || x < d[before->0 as int]->0) {
                Some((n - 1) as usize)
            } else {
                before
            },
            None => before,
        }
    }
}

/// The place of the nearest distance within reach, the first of two as near. A distance is a
/// binary32 number that is not negative, by its bits, which order as the numbers do.
pub fn closest(d: &Vec<Option<u32>>, reach: u32) -> (r: Option<usize>)
    ensures
        r == closest_of(d@, reach, d@.len()),
{
    let mut best: Option<(usize, u32)> = None;
    let mut i: usize = 0;
    while i < d.len()
        invariant
            i <= d.len(),
            match best {
                Some((k, x)) => closest_of(d@, reach, i as nat) == Some(k) && k < i && d@[k as int]
                    == Some(x),
                None => closest_of(d@, reach, i as nat) is None,
            },
        decreases d.len() - i,
    {
        if let Some(x) = d[i] {
            if x <= reach {
                match best {
                    Some((_, y)) => {
                        if x < y {
                            best = Some((i, x));
                        }
                    },
                    None => {
                        best = Some((i, x));
                    },
                }
            }
        }
        i = i + 1;
    }
    match best {
        Some((k, _)) => Some(k),
        None => None,
    }
}

/// How a run's line is drawn: its width in tenths of a point, and its color dimmed to so many
/// hundredths.
pub open spec fn style_of(a: Aid) -> (u8, Rgb, u8) {
    match a.group {
        Group::EnsembleMember => (10, a.color, 55),
        Group::Official => (26, a.color, 100),
        Group::Consensus => (22, a.color, 100),
        Group::EnsembleMean => (22, a.color, 100),
        Group::Statistical => (12, a.color, 80),
        _ => (17, a.color, 100),
    }
}

/// A run's line width and color: members thin and faint, aids that blend many models (and the
/// official forecast) heavier.
pub fn style(a: &Aid) -> (r: (u8, Rgb, u8))
    ensures
        r == style_of(*a),
{
    match a.group {
        Group::EnsembleMember => (10, a.color, 55),
        Group::Official => (26, a.color, 100),
        Group::Consensus | Group::EnsembleMean => (22, a.color, 100),
        Group::Statistical => (12, a.color, 80),
        _ => (17, a.color, 100),
    }
}

/// A shadow is drawn under every line but the members'.
pub fn has_shadow(a: &Aid) -> (r: bool)
    ensures
        r == (a.group != Group::EnsembleMember),
{
    a.group != Group::EnsembleMember
}

/// A dot marks every 24 hours of a run, but not of a member's.
pub fn has_dot(a: &Aid, p: &AidPoint) -> (r: bool)
    ensures
        r == (p.tau > 0 && p.tau % 24 == 0 && a.group != Group::EnsembleMember),
{
    p.tau > 0 && p.tau % 24 == 0 && a.group != Group::EnsembleMember
}

/// A line ends in its model's id, where ids are on, the map is close enough and the line has a
/// direction. `close` is a zoom of 3 or more.
pub fn has_label(sp: &Spaghetti, a: &Aid, close: bool) -> (r: bool)
    ensures
        r == (sp.labels && close && a.group != Group::EnsembleMember && a.points@.len() >= 2),
{
    sp.labels && close && a.group != Group::EnsembleMember && a.points.len() >= 2
}

/// A stage of a tropical system; the dot of any other fix is hollow.
pub open spec fn is_tropical_stage(s: Seq<char>) -> bool {
    s == "TD"@ || s == "TS"@ || s == "HU"@ || s == "TY"@ || s == "ST"@ || s == "SD"@ || s == "SS"@
}

/// Whether the system was tropical at that stage.
pub fn is_tropical(s: &str) -> (r: bool)
    ensures
        r == is_tropical_stage(s@),
{
    text::same(s, "TD") || text::same(s, "TS") || text::same(s, "HU") || text::same(s, "TY")
        || text::same(s, "ST") || text::same(s, "SD") || text::same(s, "SS")
}

/// A best-track stage code in words; one that is not known stands for itself.
pub open spec fn stage_text(s: Seq<char>) -> Seq<char> {
    if s == "TD"@ {
        "Tropical depression"@
    } else if s == "TS"@ {
        "Tropical storm"@
    } else if s == "HU"@ {
        "Hurricane"@
    } else if s == "TY"@ {
        "Typhoon"@
    } else if s == "ST"@ {
        "Super typhoon"@
    } else if s == "EX"@ {
        "Extratropical"@
    } else if s == "SD"@ {
        "Subtropical depression"@
    } else if s == "SS"@ {
        "Subtropical storm"@
    } else if s == "LO"@ {
        "Low"@
    } else if s == "DB"@ {
        "Disturbance"@
    } else if s == "WV"@ {
        "Tropical wave"@
    } else if s == "IN"@ {
        "Inland"@
    } else {
        s
    }
}

/// A best-track stage code in words.
pub fn stage_name(s: &str) -> (r: &str)
    ensures
        r@ == stage_text(s@),
{
    if text::same(s, "TD") {
        "Tropical depression"
    } else if text::same(s, "TS") {
        "Tropical storm"
    } else if text::same(s, "HU") {
        "Hurricane"
    } else if text::same(s, "TY") {
        "Typhoon"
    } else if text::same(s, "ST") {
        "Super typhoon"
    } else if text::same(s, "EX") {
        "Extratropical"
    } else if text::same(s, "SD") {
        "Subtropical depression"
    } else if text::same(s, "SS") {
        "Subtropical storm"
    } else if text::same(s, "LO") {
        "Low"
    } else if text::same(s, "DB") {
        "Disturbance"
    } else if text::same(s, "WV") {
        "Tropical wave"
    } else if text::same(s, "IN") {
        "Inland"
    } else {
        s
    }
}

// ---------------------------------------------------------------------------------------------
// What the hover text reads.

/// When a run began, such as `12Z Sep 25`; empty past the end of the calendar.
pub open spec fn cycle_text(t: int) -> Seq<char> {
    match clock::instant_text(t, "%HZ %b %-d"@) {
        Some(s) => s,
        None => ""@,
    }
}

fn cycle_label(t: i128) -> (r: String)
    requires
        clock::is_instant(t as int),
    ensures
        r@ == cycle_text(t as int),
{
    match clock::write_instant(t, clock::CYCLE) {
        Some(s) => s,
        None => "".to_owned(),
    }
}

/// When a position is valid: in the zone of the map where `local` gives it, else in UTC.
pub open spec fn valid_text(t: int, local: Option<Seq<char>>) -> Seq<char> {
    match local {
        Some(s) => s,
        None => match clock::instant_text(t, "%a %HZ"@) {
            Some(s) => s,
            None => ""@,
        },
    }
}

/// When a position is valid. The text in the map's own zone is the caller's, where there is one.
pub fn valid_label(t: i128, local: &Option<String>) -> (r: String)
    requires
        clock::is_instant(t as int),
    ensures
        r@ == valid_text(t as int, crate::cloud::opt_text(*local)),
{
    match local {
        Some(s) => s.clone(),
        None => match clock::write_instant(t, clock::VALID) {
            Some(s) => s,
            None => "".to_owned(),
        },
    }
}

/// Wind and pressure, each where known.
pub open spec fn strength_text(kt: Option<u64>, mb: Option<u64>) -> Seq<char> {
    match (kt, mb) {
        (Some(v), Some(m)) => "\n"@ + text::decimal_text(v as nat) + " kt · "@ + text::decimal_text(
            m as nat,
        ) + " mb"@,
        (Some(v), None) => "\n"@ + text::decimal_text(v as nat) + " kt"@,
        (None, Some(m)) => "\n"@ + text::decimal_text(m as nat) + " mb"@,
        (None, None) => ""@,
    }
}

fn strength(kt: Option<u64>, mb: Option<u64>) -> (r: String)
    ensures
        r@ == strength_text(kt, mb),
{
    let mut s = "".to_owned();
    match (kt, mb) {
        (Some(v), Some(m)) => {
            s = "\n".to_owned();
            let n = text::decimal(v);
            s.append(n.as_str());
            s.append(" kt · ");
            let n = text::decimal(m);
            s.append(n.as_str());
            s.append(" mb");
        },
        (Some(v), None) => {
            s = "\n".to_owned();
            let n = text::decimal(v);
            s.append(n.as_str());
            s.append(" kt");
        },
        (None, Some(m)) => {
            s = "\n".to_owned();
            let n = text::decimal(m);
            s.append(n.as_str());
            s.append(" mb");
        },
        (None, None) => {},
    }
    s
}

/// Wind on a line of its own, and pressure behind it, each where known.
pub open spec fn fix_strength_text(kt: Option<u64>, mb: Option<u64>) -> Seq<char> {
    (match kt {
        Some(v) => "\n"@ + text::decimal_text(v as nat) + " kt"@,
        None => ""@,
    }) + (match mb {
        Some(m) => " · "@ + text::decimal_text(m as nat) + " mb"@,
        None => ""@,
    })
}

fn fix_strength(kt: Option<u64>, mb: Option<u64>) -> (r: String)
    ensures
        r@ == fix_strength_text(kt, mb),
{
    let mut s = "".to_owned();
    if let Some(v) = kt {
        s = "\n".to_owned();
        let n = text::decimal(v);
        s.append(n.as_str());
        s.append(" kt");
    }
    let mut t = "".to_owned();
    if let Some(m) = mb {
        t = " · ".to_owned();
        let n = text::decimal(m);
        t.append(n.as_str());
        t.append(" mb");
    }
    s.append(t.as_str());
    s
}

/// The hover text of a position of a run.
pub open spec fn run_text(title: Seq<char>, a: Aid, p: AidPoint, local: Option<Seq<char>>) -> Seq<
    char,
> {
    (if a.name@.len() == 0 {
        a.tech@
    } else {
        a.name@
    }) + " ("@ + a.tech@ + ") · "@ + cycle_text(a.cycle as int) + " run\n+"@ + text::decimal_text(
        p.tau as nat,
    ) + " h · "@ + valid_text(valid_at(a, p), local) + strength_text(p.vmax_kt, p.mslp_mb) + "\n"@
        + title
}

/// When a position of a run is valid.
pub open spec fn valid_at(a: Aid, p: AidPoint) -> int {
    a.cycle + p.tau * clock::HOUR
}

/// The hover text of a position of a run: the model, its run, how far ahead, when, how strong, and
/// of which system.
pub fn run_readout(title: &str, a: &Aid, p: &AidPoint, local: &Option<String>) -> (r: String)
    requires
        clock::is_instant(a.cycle as int),
        clock::is_instant(valid_at(*a, *p)),
    ensures
        r@ == run_text(title@, *a, *p, crate::cloud::opt_text(*local)),
{
    let mut s = if a.name.as_str().is_empty() {
        a.tech.clone()
    } else {
        a.name.clone()
    };
    s.append(" (");
    s.append(a.tech.as_str());
    s.append(") · ");
    let cycle = cycle_label(a.cycle);
    s.append(cycle.as_str());
    s.append(" run\n+");
    let tau = text::decimal(p.tau as u64);
    s.append(tau.as_str());
    s.append(" h · ");
    let valid = valid_label(a.cycle + p.tau as i128 * clock::HOUR, local);
    s.append(valid.as_str());
    let how = strength(p.vmax_kt, p.mslp_mb);
    s.append(how.as_str());
    s.append("\n");
    s.append(title);
    s
}

/// The hover text of a fix of the observed track.
pub open spec fn fix_text(title: Seq<char>, f: Fix, local: Option<Seq<char>>) -> Seq<char> {
    title + " best track\n"@ + valid_text(f.time as int, local) + " · "@ + stage_text(f.stage@)
        + fix_strength_text(f.vmax_kt, f.mslp_mb)
}

/// The hover text of a fix of the observed track.
pub fn fix_readout(title: &str, f: &Fix, local: &Option<String>) -> (r: String)
    requires
        clock::is_instant(f.time as int),
    ensures
        r@ == fix_text(title@, *f, crate::cloud::opt_text(*local)),
{
    let mut s = title.to_owned();
    s.append(" best track\n");
    let valid = valid_label(f.time, local);
    s.append(valid.as_str());
    s.append(" · ");
    s.append(stage_name(f.stage.as_str()));
    let how = fix_strength(f.vmax_kt, f.mslp_mb);
    s.append(how.as_str());
    s
}

/// The hover text of an invest's marker.
pub open spec fn invest_text(title: Seq<char>, f: Fix, local: Option<Seq<char>>) -> Seq<char> {
    title + "\n"@ + stage_text(f.stage@) + " · "@ + valid_text(f.time as int, local)
        + fix_strength_text(f.vmax_kt, f.mslp_mb) + "\nClick for its model guidance"@
}

/// The hover text of an invest's marker.
pub fn invest_readout(title: &str, f: &Fix, local: &Option<String>) -> (r: String)
    requires
        clock::is_instant(f.time as int),
    ensures
        r@ == invest_text(title@, *f, crate::cloud::opt_text(*local)),
{
    let mut s = title.to_owned();
    s.append("\n");
    s.append(stage_name(f.stage.as_str()));
    s.append(" · ");
    let valid = valid_label(f.time, local);
    s.append(valid.as_str());
    let how = fix_strength(f.vmax_kt, f.mslp_mb);
    s.append(how.as_str());
    s.append("\nClick for its model guidance");
    s
}

/// The text without what leads it, as often as it does.
pub open spec fn unled(s: Seq<char>, lead: Seq<char>) -> Seq<char>
    decreases s.len(),
{
    if lead.len() > 0 && text::starts(s, lead) {
        unled(s.skip(lead.len() as int), lead)
    } else {
        s
    }
}

/// What the marker of an invest is labelled with: its title without the word.
pub fn invest_label(title: &str) -> (r: String)
    ensures
        r@ == unled(title@, "Invest "@),
{
    proof {
        reveal_strlit("Invest ");
    }
    let mut s = title.to_owned();
    loop
        invariant
            "Invest "@.len() == 7,
            unled(s@, "Invest "@) == unled(title@, "Invest "@),
        decreases s@.len(),
    {
        match text::after(s.as_str(), "Invest ") {
            Some(rest) => {
                s = rest;
            },
            None => {
                return s;
            },
        }
    }
}

// ---------------------------------------------------------------------------------------------
// What holds of every plan.

/// Runs are painted least important first: of two steps of the runs of one system, the later is of
/// a rank at least as high.
pub proof fn the_important_is_on_top(sp: Spaghetti, system: usize, r: nat, i: int, j: int)
    requires
        system < sp.guidance@.len(),
        sp.guidance@[system as int].aids@.len() <= usize::MAX,
        0 <= i <= j < sp.runs_below(system, r).len(),
    ensures
        ({
            let runs = sp.runs_below(system, r);
            let aids = sp.guidance@[system as int].aids@;
            &&& runs[i] matches Step::Run { aid: a, .. } && runs[j] matches Step::Run { aid: b, .. }
                && a < aids.len() && b < aids.len() && rank_of(aids[a as int].group) <= rank_of(
                aids[b as int].group,
            ) <= r - 1
            &&& runs[j] matches Step::Run { aid: b, .. } && sp.draws(aids[b as int])
        }),
    decreases r,
{
    let aids = sp.guidance@[system as int].aids@;
    if r > 0 {
        let before = sp.runs_below(system, (r - 1) as nat);
        let here = sp.runs_at(system, r - 1, aids.len());
        lemma_runs_at(sp, system, r - 1, aids.len());
        let runs = sp.runs_below(system, r);
        if j < before.len() {
            the_important_is_on_top(sp, system, (r - 1) as nat, i, j);
            assert(runs[i] == before[i] && runs[j] == before[j]);
        } else {
            assert(runs[j] == here[j - before.len()]);
            if i < before.len() {
                the_important_is_on_top(sp, system, (r - 1) as nat, i, i);
                assert(runs[i] == before[i]);
            } else {
                assert(runs[i] == here[i - before.len()]);
            }
        }
    }
}

/// A step that draws a run of that rank.
pub open spec fn is_run_at(sp: Spaghetti, system: usize, r: int, s: Step) -> bool {
    let aids = sp.guidance@[system as int].aids@;
    s matches Step::Run { system: k, aid: a } && k == system && a < aids.len() && sp.draws(
        aids[a as int],
    ) && rank_of(aids[a as int].group) == r
}

proof fn lemma_runs_at(sp: Spaghetti, system: usize, r: int, n: nat)
    requires
        n <= sp.guidance@[system as int].aids@.len() <= usize::MAX,
    ensures
        forall|i: int|
            0 <= i < sp.runs_at(system, r, n).len() ==> is_run_at(
                sp,
                system,
                r,
                #[trigger] sp.runs_at(system, r, n)[i],
            ),
    decreases n,
{
    if n > 0 {
        lemma_runs_at(sp, system, r, (n - 1) as nat);
        let before = sp.runs_at(system, r, (n - 1) as nat);
        let all = sp.runs_at(system, r, n);
        assert forall|i: int| 0 <= i < all.len() implies is_run_at(
            sp,
            system,
            r,
            #[trigger] all[i],
        ) by {
            if i < before.len() {
                assert(all[i] == before[i]);
            }
        }
    }
}

proof fn lemma_run_listed(sp: Spaghetti, system: usize, r: int, n: nat, a: int)
    requires
        0 <= a < n <= sp.guidance@[system as int].aids@.len() <= usize::MAX,
        sp.draws(sp.guidance@[system as int].aids@[a]),
        rank_of(sp.guidance@[system as int].aids@[a].group) == r,
    ensures
        sp.runs_at(system, r, n).contains(Step::Run { system, aid: a as usize }),
    decreases n,
{
    let step = Step::Run { system, aid: a as usize };
    let before = sp.runs_at(system, r, (n - 1) as nat);
    let all = sp.runs_at(system, r, n);
    if a == n - 1 {
        assert(all.last() == step);
    } else {
        lemma_run_listed(sp, system, r, (n - 1) as nat, a);
        let k = choose|k: int| 0 <= k < before.len() && before[k] == step;
        assert(all[k] == step);
    }
}

proof fn lemma_run_below(sp: Spaghetti, system: usize, r: nat, a: int)
    requires
        0 <= a < sp.guidance@[system as int].aids@.len() <= usize::MAX,
        sp.draws(sp.guidance@[system as int].aids@[a]),
        rank_of(sp.guidance@[system as int].aids@[a].group) < r,
    ensures
        sp.runs_below(system, r).contains(Step::Run { system, aid: a as usize }),
    decreases r,
{
    let aids = sp.guidance@[system as int].aids@;
    let step = Step::Run { system, aid: a as usize };
    let before = sp.runs_below(system, (r - 1) as nat);
    let here = sp.runs_at(system, r - 1, aids.len());
    let all = sp.runs_below(system, r);
    if rank_of(aids[a].group) == r - 1 {
        lemma_run_listed(sp, system, r - 1, aids.len(), a);
        let k = choose|k: int| 0 <= k < here.len() && here[k] == step;
        assert(all[before.len() + k] == step);
    } else {
        lemma_run_below(sp, system, (r - 1) as nat, a);
        let k = choose|k: int| 0 <= k < before.len() && before[k] == step;
        assert(all[k] == step);
    }
}

/// The picker decides what draws: a run of a system is painted when, and only when, it shows.
pub proof fn every_shown_run_is_painted(sp: Spaghetti, system: usize, a: usize)
    requires
        system < sp.guidance@.len(),
        a < sp.guidance@[system as int].aids@.len() <= usize::MAX,
    ensures
        sp.runs_below(system, 6).contains(Step::Run { system, aid: a }) <==> sp.draws(
            sp.guidance@[system as int].aids@[a as int],
        ),
{
    let aids = sp.guidance@[system as int].aids@;
    let runs = sp.runs_below(system, 6);
    if sp.draws(aids[a as int]) {
        lemma_run_below(sp, system, 6, a as int);
    }
    if runs.contains(Step::Run { system, aid: a }) {
        let k = choose|k: int| 0 <= k < runs.len() && runs[k] == (Step::Run { system, aid: a });
        the_important_is_on_top(sp, system, 6, k, k);
    }
}

/// A system is found exactly when one of that id is there; so the focus that a fetch leaves is on a
/// system that is there.
pub proof fn found_systems_are_there(g: Seq<Guidance>, id: Seq<char>)
    ensures
        find_system(g, id, 0) is Some <==> exists|i: int|
            0 <= i < g.len() && (#[trigger] g[i]).id@ == id,
{
    lemma_find_system(g, id, 0);
}

proof fn lemma_find_system(g: Seq<Guidance>, id: Seq<char>, i: int)
    requires
        0 <= i,
    ensures
        find_system(g, id, i) is Some <==> exists|j: int|
            i <= j < g.len() && (#[trigger] g[j]).id@ == id,
    decreases g.len() - i,
{
    if i < g.len() {
        lemma_find_system(g, id, i + 1);
    }
}

// ---------------------------------------------------------------------------------------------
// What is seen, and what is read.

/// Without a focus every system is in view, with one only those of its id, in the order of the
/// guidance.
pub proof fn the_focus_decides_the_view(
    v: Seq<Guidance>,
    focus: Option<String>,
    n: nat,
    i: usize,
)
    requires
        n <= v.len(),
        n <= usize::MAX,
    ensures
        systems_in(v, focus, n).contains(i) <==> i < n && (focus matches Some(f) ==> v[i as int].id@
            == f@),
        forall|j: int, k: int|
            0 <= j < k < systems_in(v, focus, n).len() ==> #[trigger] systems_in(v, focus, n)[j]
                < #[trigger] systems_in(v, focus, n)[k],
        forall|j: int|
            0 <= j < systems_in(v, focus, n).len() ==> #[trigger] systems_in(v, focus, n)[j] < n,
    decreases n,
{
    if n > 0 {
        let m = (n - 1) as nat;
        the_focus_decides_the_view(v, focus, m, i);
        let was = systems_in(v, focus, m);
        let now = systems_in(v, focus, n);
        if now.len() > was.len() {
            assert(now =~= was.push(m as usize));
            if was.contains(i) {
                assert(now[was.index_of(i)] == i);
            }
            if i == m {
                assert(now[was.len() as int] == i);
            }
            if now.contains(i) && i != m {
                assert(was[now.index_of(i)] == i);
            }
        }
    }
}

/// The systems are painted one after the other: of each its runs, then what was observed. What is
/// off paints nothing.
pub proof fn systems_are_painted_in_order(sp: Spaghetti, a: Seq<usize>, b: Seq<usize>)
    ensures
        !sp.enabled ==> sp.plan().len() == 0,
        a.len() == 0 ==> sp.painted(a, a.len()).len() == 0,
        a.len() == 1 ==> sp.painted(a, a.len()) == sp.runs_below(a[0], 6) + sp.observed(a[0]),
        sp.painted(a + b, (a + b).len()) == sp.painted(a, a.len()) + sp.painted(b, b.len()),
    decreases b.len(),
{
    if a.len() == 1 {
        assert(sp.painted(a, 0) =~= Seq::<Step>::empty());
        assert(sp.painted(a, 1) =~= sp.runs_below(a[0], 6) + sp.observed(a[0]));
    }
    if b.len() == 0 {
        assert(a + b =~= a);
        assert(sp.painted(a + b, (a + b).len()) =~= sp.painted(a, a.len()) + sp.painted(
            b,
            b.len(),
        ));
    } else {
        let c = b.drop_last();
        let n = (a + b).len();
        assert((a + b)[n - 1] == b.last());
        assert(a + b =~= (a + c) + seq![b.last()]);
        assert(b =~= c + seq![b.last()]);
        lemma_painted_prefix(sp, a + c, seq![b.last()], (a + c).len());
        lemma_painted_prefix(sp, c, seq![b.last()], c.len());
        systems_are_painted_in_order(sp, a, c);
        assert(sp.painted(a + b, n) =~= sp.painted(a, a.len()) + sp.painted(b, b.len()));
    }
}

proof fn lemma_painted_prefix(sp: Spaghetti, a: Seq<usize>, b: Seq<usize>, n: nat)
    requires
        n <= a.len(),
    ensures
        sp.painted(a + b, n) == sp.painted(a, n),
    decreases n,
{
    if n > 0 {
        lemma_painted_prefix(sp, a, b, (n - 1) as nat);
        assert((a + b)[n - 1] == a[n - 1]);
    }
}

/// Everything in view is in the plan: every run that shows, of every system that the focus leaves.
pub proof fn the_plan_holds_what_is_in_view(sp: Spaghetti, system: usize, a: usize)
    requires
        sp.enabled,
        system < sp.guidance@.len() <= usize::MAX,
        sp.focus matches Some(f) ==> sp.guidance@[system as int].id@ == f@,
        a < sp.guidance@[system as int].aids@.len() <= usize::MAX,
        sp.draws(sp.guidance@[system as int].aids@[a as int]),
    ensures
        sp.plan().contains(Step::Run { system, aid: a }),
{
    let v = sp.guidance@;
    let systems = systems_in(v, sp.focus, v.len());
    the_focus_decides_the_view(v, sp.focus, v.len(), system);
    let k = systems.index_of(system);
    every_shown_run_is_painted(sp, system, a);
    let step = Step::Run { system, aid: a };
    let front = systems.take(k);
    let one = seq![system];
    let back = systems.skip(k + 1);
    assert(systems =~= (front + one) + back);
    systems_are_painted_in_order(sp, front + one, back);
    systems_are_painted_in_order(sp, front, one);
    systems_are_painted_in_order(sp, one, back);
    let runs = sp.runs_below(system, 6);
    let p = runs.index_of(step);
    let before = sp.painted(front, front.len());
    assert(sp.plan()[before.len() + p] == step);
}

/// Of a system the observed track is painted where it is wanted and has two fixes, and over it the
/// marker of one without an advisory, at its latest fix.
pub proof fn observations_are_painted_last(sp: Spaghetti, system: usize, fix: usize)
    ensures
        ({
            let g = sp.guidance@[system as int];
            let o = sp.observed(system);
            &&& o.contains(Step::BestTrack { system }) <==> sp.best_track && g.best@.len() >= 2
            &&& o.contains(Step::Invest { system, fix }) <==> g.invest && g.latest == Some(fix)
            &&& o.len() == 2 ==> o[0] == (Step::BestTrack { system })
            &&& o.len() <= 2
        }),
{
    let g = sp.guidance@[system as int];
    let o = sp.observed(system);
    if sp.best_track && g.best@.len() >= 2 {
        assert(o[0] == (Step::BestTrack { system }));
    }
    if g.invest && g.latest is Some {
        assert(o[o.len() - 1] == (Step::Invest { system, fix: g.latest->0 }));
    }
}

/// A run is hidden by its name, with its group, or with the interpolated ones; the aids that have no
/// track never show. What none of these hides shows.
pub proof fn runs_show_unless_hidden(sp: Spaghetti, a: Aid, i: int)
    ensures
        a.group == Group::Other ==> !sp.draws(a),
        0 <= i < sp.hidden@.len() && sp.hidden@[i]@ == a.tech@ ==> !sp.draws(a),
        a.interpolated && !sp.interpolated ==> !sp.draws(a),
        Group::ALL@[a.group.place()] == a.group,
        !sp.groups@[a.group.place()] ==> !sp.draws(a),
        a.group != Group::Other && sp.groups@[a.group.place()] && !a.interpolated
            && sp.hidden@.len() == 0 ==> sp.draws(a),
{
}

/// The official forecast is painted over the consensus, that over the means, those over the models,
/// and those over the statistics; the members lie below all.
pub proof fn the_official_forecast_is_on_top(g: Group)
    ensures
        g != Group::Official ==> rank_of(g) < rank_of(Group::Official),
        rank_of(Group::Consensus) > rank_of(Group::EnsembleMean),
        rank_of(Group::EnsembleMean) > rank_of(Group::Global),
        rank_of(Group::Global) == rank_of(Group::Hurricane),
        rank_of(Group::Global) > rank_of(Group::Statistical),
        g != Group::EnsembleMember ==> rank_of(g) > rank_of(Group::EnsembleMember),
        0 <= rank_of(g) < 6,
{
}

/// A line has the color of its run. That of the official forecast is the widest, that of a member
/// the thinnest and the faintest.
pub proof fn lines_have_their_weight(a: Aid, b: Aid)
    ensures
        style_of(a).1 == a.color,
        a.group == Group::Official && b.group != Group::Official ==> style_of(a).0 > style_of(b).0,
        a.group == Group::EnsembleMember && b.group != Group::EnsembleMember ==> style_of(a).0
            < style_of(b).0 && style_of(a).2 < style_of(b).2,
        style_of(a).2 <= 100,
{
}

/// What is under the pointer is the nearest within reach, and the first of those as near; nothing
/// is, where nothing is within reach.
pub proof fn the_nearest_is_hit(d: Seq<Option<u32>>, reach: u32, n: nat, j: int)
    requires
        n <= d.len(),
        n <= usize::MAX,
        0 <= j < n,
    ensures
        closest_of(d, reach, n) matches Some(k) ==> k < n && d[k as int] is Some && d[k as int]->0
            <= reach,
        d[j] matches Some(x) ==> x <= reach ==> {
            let k = closest_of(d, reach, n);
            &&& k is Some
            &&& d[k->0 as int]->0 <= x
            &&& d[k->0 as int]->0 == x ==> k->0 <= j
        },
    decreases n,
{
    let m = (n - 1) as nat;
    assert(closest_of(d, reach, 0) is None);
    if m > 0 {
        if j < m {
            the_nearest_is_hit(d, reach, m, j);
        } else {
            the_nearest_is_hit(d, reach, m, 0);
        }
    }
}

/// A code that is not of two letters stands for itself, and the stage of a tropical system never
/// does.
pub proof fn stages_are_put_in_words(s: Seq<char>)
    ensures
        s.len() != 2 ==> stage_text(s) == s,
        is_tropical_stage(s) ==> stage_text(s).len() > 2,
        is_tropical_stage(s) ==> s.len() == 2 && s != "EX"@ && s != "LO"@ && s != "DB"@ && s
            != "WV"@ && s != "IN"@,
{
    reveal_strlit("TD");
    reveal_strlit("TS");
    reveal_strlit("HU");
    reveal_strlit("TY");
    reveal_strlit("ST");
    reveal_strlit("EX");
    reveal_strlit("SD");
    reveal_strlit("SS");
    reveal_strlit("LO");
    reveal_strlit("DB");
    reveal_strlit("WV");
    reveal_strlit("IN");
    reveal_strlit("Tropical depression");
    reveal_strlit("Tropical storm");
    reveal_strlit("Hurricane");
    reveal_strlit("Typhoon");
    reveal_strlit("Super typhoon");
    reveal_strlit("Subtropical depression");
    reveal_strlit("Subtropical storm");
    let c = s[0];
    assert("EX"@[0] == 'E' && "LO"@[0] == 'L' && "DB"@[0] == 'D' && "WV"@[0] == 'W' && "IN"@[0]
        == 'I');
    assert("TD"@[0] == 'T' && "TS"@[0] == 'T' && "HU"@[0] == 'H' && "TY"@[0] == 'T' && "ST"@[0]
        == 'S' && "SD"@[0] == 'S' && "SS"@[0] == 'S');
}

/// A label loses the word that leads it, however often it does, and nothing else.
pub proof fn labels_lose_their_lead(s: Seq<char>, lead: Seq<char>)
    requires
        lead.len() > 0,
    ensures
        unled(lead + s, lead) == unled(s, lead),
        !text::starts(s, lead) ==> unled(s, lead) == s,
        !text::starts(unled(s, lead), lead),
        text::ends(s, unled(s, lead)),
    decreases s.len(),
{
    text::lemma_starts_join(lead, s);
    assert((lead + s).skip(lead.len() as int) =~= s);
    let u = unled(s, lead);
    if text::starts(s, lead) {
        let t = s.skip(lead.len() as int);
        labels_lose_their_lead(t, lead);
        assert(s.skip(s.len() - u.len()) =~= t.skip(t.len() - u.len()));
    } else {
        assert(s.skip(0) =~= s);
    }
}

/// A position is valid so many hours after its run began.
pub proof fn positions_are_valid_hours_later(a: Aid, p: AidPoint)
    ensures
        valid_at(a, p) == a.cycle + p.tau * 3_600_000_000_000,
        REFRESH_SECS == 30 * 60,
{
}

/// The hover text of a run names the model and its run, how far ahead and when it is valid, how
/// strong it is there, and of which system.
pub proof fn runs_are_read_out(
    title: Seq<char>,
    a: Aid,
    p: AidPoint,
    local: Option<Seq<char>>,
    name: Seq<char>,
)
    requires
        name == if a.name@.len() == 0 {
            a.tech@
        } else {
            a.name@
        },
    ensures
        text::starts(run_text(title, a, p, local), name),
        text::holds_text(run_text(title, a, p, local), " ("@ + a.tech@),
        text::holds_text(run_text(title, a, p, local), ") · "@ + cycle_text(a.cycle as int)),
        text::holds_text(run_text(title, a, p, local), " run\n+"@ + text::decimal_text(p.tau as nat)),
        text::holds_text(run_text(title, a, p, local), " h · "@ + valid_text(valid_at(a, p), local)),
        text::holds_text(run_text(title, a, p, local), "\n"@ + title),
        text::holds_text(
            run_text(title, a, p, local),
            valid_text(valid_at(a, p), local) + strength_text(p.vmax_kt, p.mslp_mb),
        ),
        text::ends(run_text(title, a, p, local), "\n"@ + title),
{
    let spec = run_text(title, a, p, local);
    let parts: Seq<Seq<char>> = seq![
        name,
        " ("@,
        a.tech@,
        ") · "@,
        cycle_text(a.cycle as int),
        " run\n+"@,
        text::decimal_text(p.tau as nat),
        " h · "@,
        valid_text(valid_at(a, p), local),
        strength_text(p.vmax_kt, p.mslp_mb),
        "\n"@,
        title,
    ];
    let p0 = Seq::<Seq<char>>::empty();
    assert(p0.flatten() =~= Seq::<char>::empty());
    let p1 = p0.push(name);
    p0.lemma_flatten_push(name);
    let p2 = p1.push(" ("@);
    p1.lemma_flatten_push(" ("@);
    let p3 = p2.push(a.tech@);
    p2.lemma_flatten_push(a.tech@);
    let p4 = p3.push(") · "@);
    p3.lemma_flatten_push(") · "@);
    let p5 = p4.push(cycle_text(a.cycle as int));
    p4.lemma_flatten_push(cycle_text(a.cycle as int));
    let p6 = p5.push(" run\n+"@);
    p5.lemma_flatten_push(" run\n+"@);
    let p7 = p6.push(text::decimal_text(p.tau as nat));
    p6.lemma_flatten_push(text::decimal_text(p.tau as nat));
    let p8 = p7.push(" h · "@);
    p7.lemma_flatten_push(" h · "@);
    let p9 = p8.push(valid_text(valid_at(a, p), local));
    p8.lemma_flatten_push(valid_text(valid_at(a, p), local));
    let p10 = p9.push(strength_text(p.vmax_kt, p.mslp_mb));
    p9.lemma_flatten_push(strength_text(p.vmax_kt, p.mslp_mb));
    let p11 = p10.push("\n"@);
    p10.lemma_flatten_push("\n"@);
    let p12 = p11.push(title);
    p11.lemma_flatten_push(title);
    assert(p1.flatten() =~= name);
    assert(p12.flatten() == spec);
    assert(p12 =~= parts);
    text::lemma_parts_are_held(parts, 1);
    text::lemma_parts_are_held(parts, 3);
    text::lemma_parts_are_held(parts, 5);
    text::lemma_parts_are_held(parts, 7);
    text::lemma_parts_are_held(parts, 10);
    text::lemma_parts_are_held(parts, 8);
    text::lemma_flat_ends(parts);
}

/// Wind is told in knots and pressure in millibars, each where it is known.
pub proof fn strength_is_told_where_known(v: u64, m: u64)
    ensures
        text::holds_text(
            strength_text(Some(v), Some(m)),
            text::decimal_text(v as nat) + " kt · "@ + text::decimal_text(m as nat) + " mb"@,
        ),
        text::ends(strength_text(Some(v), None), text::decimal_text(v as nat) + " kt"@),
        text::ends(strength_text(None, Some(m)), text::decimal_text(m as nat) + " mb"@),
        strength_text(None, None).len() == 0,
        text::ends(
            fix_strength_text(Some(v), Some(m)),
            text::decimal_text(v as nat) + " kt"@ + " · "@ + text::decimal_text(m as nat) + " mb"@,
        ),
        text::ends(fix_strength_text(Some(v), None), text::decimal_text(v as nat) + " kt"@),
        text::ends(fix_strength_text(None, Some(m)), text::decimal_text(m as nat) + " mb"@),
        fix_strength_text(None, None).len() == 0,
{
    reveal_strlit("");
    let none = Seq::<char>::empty();
    let (kt, mb) = (text::decimal_text(v as nat), text::decimal_text(m as nat));
    let both = kt + " kt · "@ + mb + " mb"@;
    assert(strength_text(Some(v), Some(m)) =~= "\n"@ + both + none);
    text::lemma_holds_join("\n"@, both, none);
    assert(strength_text(Some(v), None) =~= "\n"@ + (kt + " kt"@));
    text::lemma_ends_join("\n"@, kt + " kt"@);
    assert(strength_text(None, Some(m)) =~= "\n"@ + (mb + " mb"@));
    text::lemma_ends_join("\n"@, mb + " mb"@);
    let two = kt + " kt"@ + " · "@ + mb + " mb"@;
    assert(fix_strength_text(Some(v), Some(m)) =~= "\n"@ + two);
    text::lemma_ends_join("\n"@, two);
    assert(fix_strength_text(Some(v), None) =~= "\n"@ + (kt + " kt"@));
    assert(fix_strength_text(None, Some(m)) =~= " · "@ + (mb + " mb"@));
    text::lemma_ends_join(" · "@, mb + " mb"@);
    assert(fix_strength_text(None, None) =~= none);
}

/// The hover text of a fix names its system, when it was, its stage and how strong it was; that of a
/// system without an advisory asks for a click.
pub proof fn fixes_are_read_out(title: Seq<char>, f: Fix, local: Option<Seq<char>>)
    ensures
        text::starts(fix_text(title, f, local), title),
        text::holds_text(fix_text(title, f, local), " best track\n"@ + valid_text(f.time as int, local)),
        text::holds_text(fix_text(title, f, local), " · "@ + stage_text(f.stage@)),
        text::holds_text(fix_text(title, f, local), stage_text(f.stage@) + fix_strength_text(f.vmax_kt, f.mslp_mb)),
        text::starts(invest_text(title, f, local), title),
        text::holds_text(invest_text(title, f, local), "\n"@ + stage_text(f.stage@)),
        text::holds_text(invest_text(title, f, local), " · "@ + valid_text(f.time as int, local)),
        text::holds_text(invest_text(title, f, local), valid_text(f.time as int, local) + fix_strength_text(f.vmax_kt, f.mslp_mb)),
        text::holds_text(invest_text(title, f, local), fix_strength_text(f.vmax_kt, f.mslp_mb) + "\nClick for its model guidance"@),
{
    lemma_fix_read_out(title, f, local);
    lemma_invest_read_out(title, f, local);
}

proof fn lemma_fix_read_out(title: Seq<char>, f: Fix, local: Option<Seq<char>>)
    ensures
        text::starts(fix_text(title, f, local), title),
        text::holds_text(fix_text(title, f, local), " best track\n"@ + valid_text(f.time as int, local)),
        text::holds_text(fix_text(title, f, local), " · "@ + stage_text(f.stage@)),
        text::holds_text(fix_text(title, f, local), stage_text(f.stage@) + fix_strength_text(f.vmax_kt, f.mslp_mb)),
{
    let parts: Seq<Seq<char>> = seq![
        title,
        " best track\n"@,
        valid_text(f.time as int, local),
        " · "@,
        stage_text(f.stage@),
        fix_strength_text(f.vmax_kt, f.mslp_mb),
    ];
    let p0 = Seq::<Seq<char>>::empty();
    assert(p0.flatten() =~= Seq::<char>::empty());
    let p1 = p0.push(title);
    p0.lemma_flatten_push(title);
    let p2 = p1.push(" best track\n"@);
    p1.lemma_flatten_push(" best track\n"@);
    let p3 = p2.push(valid_text(f.time as int, local));
    p2.lemma_flatten_push(valid_text(f.time as int, local));
    let p4 = p3.push(" · "@);
    p3.lemma_flatten_push(" · "@);
    let p5 = p4.push(stage_text(f.stage@));
    p4.lemma_flatten_push(stage_text(f.stage@));
    let p6 = p5.push(fix_strength_text(f.vmax_kt, f.mslp_mb));
    p5.lemma_flatten_push(fix_strength_text(f.vmax_kt, f.mslp_mb));
    assert(p1.flatten() =~= title);
    assert(p6.flatten() == fix_text(title, f, local));
    assert(p6 =~= parts);
    text::lemma_parts_are_held(parts, 1);
    text::lemma_parts_are_held(parts, 3);
    text::lemma_parts_are_held(parts, 4);
    text::lemma_flat_ends(parts);
}

proof fn lemma_invest_read_out(title: Seq<char>, f: Fix, local: Option<Seq<char>>)
    ensures
        text::starts(invest_text(title, f, local), title),
        text::holds_text(invest_text(title, f, local), "\n"@ + stage_text(f.stage@)),
        text::holds_text(invest_text(title, f, local), " · "@ + valid_text(f.time as int, local)),
        text::holds_text(invest_text(title, f, local), valid_text(f.time as int, local) + fix_strength_text(f.vmax_kt, f.mslp_mb)),
        text::holds_text(invest_text(title, f, local), fix_strength_text(f.vmax_kt, f.mslp_mb) + "\nClick for its model guidance"@),
{
    let parts: Seq<Seq<char>> = seq![
        title,
        "\n"@,
        stage_text(f.stage@),
        " · "@,
        valid_text(f.time as int, local),
        fix_strength_text(f.vmax_kt, f.mslp_mb),
        "\nClick for its model guidance"@,
    ];
    let p0 = Seq::<Seq<char>>::empty();
    assert(p0.flatten() =~= Seq::<char>::empty());
    let p1 = p0.push(title);
    p0.lemma_flatten_push(title);
    let p2 = p1.push("\n"@);
    p1.lemma_flatten_push("\n"@);
    let p3 = p2.push(stage_text(f.stage@));
    p2.lemma_flatten_push(stage_text(f.stage@));
    let p4 = p3.push(" · "@);
    p3.lemma_flatten_push(" · "@);
    let p5 = p4.push(valid_text(f.time as int, local));
    p4.lemma_flatten_push(valid_text(f.time as int, local));
    let p6 = p5.push(fix_strength_text(f.vmax_kt, f.mslp_mb));
    p5.lemma_flatten_push(fix_strength_text(f.vmax_kt, f.mslp_mb));
    let p7 = p6.push("\nClick for its model guidance"@);
    p6.lemma_flatten_push("\nClick for its model guidance"@);
    assert(p1.flatten() =~= title);
    assert(p7.flatten() == invest_text(title, f, local));
    assert(p7 =~= parts);
    text::lemma_parts_are_held(parts, 1);
    text::lemma_parts_are_held(parts, 3);
    text::lemma_parts_are_held(parts, 4);
    text::lemma_parts_are_held(parts, 5);
    text::lemma_flat_ends(parts);
}

/// When something is valid is told in the zone of the map where that is known.
pub proof fn local_times_are_preferred(t: int, s: Seq<char>)
    ensures
        valid_text(t, Some(s)) == s,
        valid_text(t, None) == valid_text(t, clock::instant_text(t, "%a %HZ"@)),
        clock::instant_text(t, "%HZ %b %-d"@) == Some(s) ==> cycle_text(t) == s,
{
}

} // verus!
