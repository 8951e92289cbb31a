//! Stepping through the basemaps visits each one that can be had.

use crate::tiles::style::BasemapStyle;
use vstd::prelude::*;

verus! {

/// What can be had: which provider keys are set, and whether there is a custom source.
pub struct Keys {
    pub mapbox: bool,
    pub maptiler: bool,
    pub custom: bool,
}

impl Keys {
    pub open spec fn opens(self, s: BasemapStyle) -> bool {
        s.selectable(self.mapbox, self.maptiler, self.custom)
    }

    /// The style at place `j` of the cycle, which goes round, can be had.
    pub open spec fn open_at(self, j: int) -> bool {
        self.opens(BasemapStyle::ALL@[j % 59])
    }

    /// How many styles from place `a` up to, not including, place `b` can be had.
    pub open spec fn tally(self, a: int, b: int) -> nat
        decreases b - a,
    {
        if a >= b {
            0
        } else {
            self.tally(a, b - 1) + if self.open_at(b - 1) {
                1nat
            } else {
                0
            }
        }
    }

    /// How many styles can be had.
    pub open spec fn count(self) -> nat {
        self.tally(0, 59)
    }

    /// The style that so many steps from `s` lead to.
    pub open spec fn after(self, s: BasemapStyle, steps: nat) -> BasemapStyle
        decreases steps,
    {
        if steps == 0 {
            s
        } else {
            self.after(s, (steps - 1) as nat).next_available(
                self.mapbox,
                self.maptiler,
                self.custom,
            )
        }
    }
}

proof fn lemma_places(s: BasemapStyle)
    ensures
        0 <= s.place() < 59,
        BasemapStyle::ALL@[s.place()] == s,
{
    crate::tiles::style::every_style_is_listed(s);
}

proof fn lemma_later(s: BasemapStyle, a: int, b: int)
    requires
        a >= 0,
        b >= 0,
    ensures
        s.later(a).place() == (s.place() + a) % 59,
        s.later(a).later(b) == s.later(a + b),
        s.later(59) == s,
{
    lemma_places(s);
    crate::tiles::style::lemma_listed_in_place((s.place() + a) % 59);
    assert((s.place() + 59) % 59 == s.place());
    assert(((s.place() + a) % 59 + b) % 59 == (s.place() + a + b) % 59);
}

proof fn lemma_tally_splits(k: Keys, a: int, b: int, c: int)
    requires
        a <= b <= c,
    ensures
        k.tally(a, c) == k.tally(a, b) + k.tally(b, c),
    decreases c - b,
{
    if b < c {
        lemma_tally_splits(k, a, b, c - 1);
    }
}

proof fn lemma_tally_goes_round(k: Keys, a: int, b: int)
    requires
        0 <= a <= b,
    ensures
        k.tally(a + 59, b + 59) == k.tally(a, b),
    decreases b - a,
{
    if a < b {
        lemma_tally_goes_round(k, a, b - 1);
        assert((b - 1 + 59) % 59 == (b - 1) % 59);
    }
}

/// Once round from any style counts all that can be had.
proof fn lemma_once_round(k: Keys, s: BasemapStyle)
    ensures
        k.tally(s.place() + 1, s.place() + 60) == k.count(),
{
    lemma_places(s);
    let p = s.place();
    lemma_tally_splits(k, p + 1, 59, p + 60);
    lemma_tally_splits(k, 0, p + 1, 59);
    lemma_tally_goes_round(k, 0, p + 1);
}

/// A step from the style at offset `from` leads to the next offset that is open.
proof fn lemma_step(k: Keys, s: BasemapStyle, from: int, to: int, at: int)
    requires
        0 <= from <= at < to <= 59,
        to - from <= 59,
        k.opens(s.later(to)),
        forall|o: int| from < o < to ==> !k.opens(#[trigger] s.later(o)),
    ensures
        s.later(from).first_step(at - from + 1, k.mapbox, k.maptiler, k.custom) == to - from,
    decreases to - at,
{
    lemma_later(s, from, at - from + 1);
    if at + 1 < to {
        assert(!k.opens(s.later(at + 1)));
        lemma_step(k, s, from, to, at + 1);
    }
}

/// As many steps as there are open places up to the offset `o` lead there, if it is open.
proof fn lemma_reaches(k: Keys, s: BasemapStyle, o: int, from: int)
    requires
        k.opens(s),
        0 <= from < o <= 59,
        k.opens(s.later(o)),
        k.opens(s.later(from)),
        forall|i: int| from < i < o ==> !k.opens(#[trigger] s.later(i)),
        k.after(s, k.tally(s.place() + 1, s.place() + 1 + from)) == s.later(from),
    ensures
        k.after(s, k.tally(s.place() + 1, s.place() + 1 + o)) == s.later(o),
        k.tally(s.place() + 1, s.place() + 1 + o) == k.tally(s.place() + 1, s.place() + 1 + from)
            + 1,
{
    let p = s.place();
    lemma_nothing_between(k, s, from, o - 1);
    lemma_later(s, o, 0);
    lemma_places(s);
    assert(k.open_at(p + o)) by {
        assert(BasemapStyle::ALL@[(p + o) % 59] == s.later(o));
    }
    lemma_step(k, s, from, o, from);
    lemma_later(s, from, o - from);
    let n = k.tally(p + 1, p + 1 + from);
    assert(k.after(s, (n + 1) as nat) == s.later(from).next_available(
        k.mapbox,
        k.maptiler,
        k.custom,
    ));
}

proof fn lemma_nothing_between(k: Keys, s: BasemapStyle, from: int, to: int)
    requires
        0 <= from <= to,
        forall|i: int| from < i <= to ==> !k.opens(#[trigger] s.later(i)),
    ensures
        k.tally(s.place() + 1, s.place() + 1 + to) == k.tally(s.place() + 1, s.place() + 1 + from),
    decreases to - from,
{
    lemma_places(s);
    if from < to {
        lemma_nothing_between(k, s, from, to - 1);
        assert(!k.opens(s.later(to)));
        assert(s.later(to) == BasemapStyle::ALL@[(s.place() + to) % 59]);
    }
}

/// The last open offset before `o`, or the start.
pub open spec fn open_before(k: Keys, s: BasemapStyle, o: int) -> int
    decreases o,
{
    if o <= 1 {
        0
    } else if k.opens(s.later(o - 1)) {
        o - 1
    } else {
        open_before(k, s, o - 1)
    }
}

proof fn lemma_open_before(k: Keys, s: BasemapStyle, o: int)
    requires
        k.opens(s),
        1 <= o,
    ensures
        0 <= open_before(k, s, o) < o,
        k.opens(s.later(open_before(k, s, o))),
        forall|i: int| open_before(k, s, o) < i < o ==> !k.opens(#[trigger] s.later(i)),
    decreases o,
{
    lemma_places(s);
    assert(s.later(0) == s);
    if o > 1 && !k.opens(s.later(o - 1)) {
        lemma_open_before(k, s, o - 1);
    }
}

/// Every open offset is reached by as many steps as there are open places up to it.
proof fn lemma_all_reached(k: Keys, s: BasemapStyle, o: int)
    requires
        k.opens(s),
        0 <= o <= 59,
        k.opens(s.later(o)),
    ensures
        k.after(s, k.tally(s.place() + 1, s.place() + 1 + o)) == s.later(o),
    decreases o,
{
    lemma_places(s);
    if o == 0 {
        assert(s.later(0) == s);
    } else {
        lemma_open_before(k, s, o);
        let from = open_before(k, s, o);
        lemma_all_reached(k, s, from);
        lemma_reaches(k, s, o, from);
    }
}

/// There is an open offset for every number of steps up to the count.
proof fn lemma_some_offset(k: Keys, s: BasemapStyle, m: nat, o: int) -> (at: int)
    requires
        0 <= o <= 59,
        1 <= m <= k.tally(s.place() + 1, s.place() + 1 + o),
    ensures
        1 <= at <= o,
        k.opens(s.later(at)),
        k.tally(s.place() + 1, s.place() + 1 + at) == m,
    decreases o,
{
    lemma_places(s);
    assert(s.later(o) == BasemapStyle::ALL@[(s.place() + o) % 59]);
    if k.tally(s.place() + 1, s.place() + 1 + (o - 1)) >= m {
        lemma_some_offset(k, s, m, o - 1)
    } else {
        o
    }
}

/// Stepping from a style that can be had comes back to it after as many steps as there are styles
/// that can be had.
pub proof fn stepping_comes_round(k: Keys, s: BasemapStyle)
    requires
        k.opens(s),
    ensures
        k.after(s, k.count()) == s,
        k.count() >= 1,
{
    lemma_later(s, 0, 0);
    lemma_once_round(k, s);
    lemma_all_reached(k, s, 59);
    lemma_places(s);
    assert(k.open_at(s.place() + 59)) by {
        assert((s.place() + 59) % 59 == s.place());
    }
}

/// On the way round, stepping visits every style that can be had, and each of them once.
pub proof fn stepping_visits_each_once(k: Keys, s: BasemapStyle, t: BasemapStyle)
    requires
        k.opens(s),
        k.opens(t),
    ensures
        exists|m: nat| 1 <= m <= k.count() && #[trigger] k.after(s, m) == t,
        forall|m: nat, n: nat|
            1 <= m <= k.count() && 1 <= n <= k.count() && #[trigger] k.after(s, m) == t
                && #[trigger] k.after(s, n) == t ==> m == n,
{
    lemma_places(s);
    lemma_places(t);
    lemma_once_round(k, s);
    let d = t.place() - s.place();
    let o: int = if d > 0 {
        d
    } else {
        d + 59
    };
    assert(s.later(o) == t) by {
        assert((s.place() + o) % 59 == t.place());
    }
    lemma_all_reached(k, s, o);
    let m = k.tally(s.place() + 1, s.place() + 1 + o);
    lemma_tally_splits(k, s.place() + 1, s.place() + 1 + o, s.place() + 60);
    assert(k.open_at(s.place() + o));
    assert(1 <= m <= k.count() && k.after(s, m) == t);
    assert forall|n: nat| 1 <= n <= k.count() && #[trigger] k.after(s, n) == t implies n == m by {
        let at = lemma_some_offset(k, s, n, 59);
        lemma_all_reached(k, s, at);
        lemma_later(s, at, 0);
        assert((s.place() + at) % 59 == t.place());
        assert(at == o);
    }
}

/// Whatever it starts from, a step leads to the first style after it that can be had: none that
/// can be had is passed over.
pub proof fn a_step_skips_nothing(k: Keys, s: BasemapStyle, j: int)
    requires
        1 <= j < s.first_step(1, k.mapbox, k.maptiler, k.custom),
    ensures
        !k.opens(s.later(j)),
{
    lemma_first_step(k, s, 1, j);
}

proof fn lemma_first_step(k: Keys, s: BasemapStyle, from: int, j: int)
    requires
        from <= j < s.first_step(from, k.mapbox, k.maptiler, k.custom),
    ensures
        !k.opens(s.later(j)),
    decreases 59 - from,
{
    if from < j {
        lemma_first_step(k, s, from + 1, j);
    }
}

} // verus!
