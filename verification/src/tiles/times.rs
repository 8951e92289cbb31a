//! Which frames a timed layer offers, and which are asked for.

use crate::clock::{
    is_instant, lemma_base_tells, lemma_key_tells, parse_stamp, stamp_of, Stamp, HOUR, MINUTE, SECOND,
};
use crate::text;
use crate::tiles::style::BasemapStyle;
use vstd::prelude::*;

verus! {

/// The minutes of a duration like `PT10M` or `PT1H`: only the forms that domains are written in.
pub open spec fn iso_minutes(p: Seq<char>) -> Option<int> {
    match text::after_text(p, "PT"@) {
        None => None,
        Some(rest) => if text::ends(rest, "M"@) {
            small(text::integer_of(rest.take(rest.len() - 1)))
        } else if text::ends(rest, "H"@) {
            match small(text::integer_of(rest.take(rest.len() - 1))) {
                Some(h) => Some(h * 60),
                None => None,
            }
        } else {
            None
        },
    }
}

/// `n`, if 64 bits can hold it.
pub open spec fn small(n: Option<int>) -> Option<int> {
    match n {
        Some(v) => if i64::MIN <= v <= i64::MAX {
            Some(v)
        } else {
            None
        },
        None => None,
    }
}

/// Minutes in a duration like `PT10M` or `PT1H`.
pub fn parse_iso_minutes(p: &str) -> (r: Option<i128>)
    ensures
        match iso_minutes(p@) {
            Some(m) => r is Some && r->0 == m,
            None => r is None,
        },
        r matches Some(m) ==> -600_000_000_000_000_000_000 <= m <= 600_000_000_000_000_000_000,
{
    proof {
        reveal_strlit("M");
        reveal_strlit("H");
    }
    match text::after(p, "PT") {
        None => None,
        Some(rest) => {
            let cs = text::chars_of(rest.as_str());
            if text::ends_with(rest.as_str(), "M") {
                let n = text::text_of_range(&cs, 0, cs.len() - 1);
                assert(n@ =~= rest@.take(rest@.len() - 1));
                match text::parse_integer(n.as_str()) {
                    Some(m) => Some(m as i128),
                    None => None,
                }
            } else if text::ends_with(rest.as_str(), "H") {
                let n = text::text_of_range(&cs, 0, cs.len() - 1);
                assert(n@ =~= rest@.take(rest@.len() - 1));
                match text::parse_integer(n.as_str()) {
                    Some(h) => Some(h as i128 * 60),
                    None => None,
                }
            } else {
                None
            }
        },
    }
}

/// The step between the instants of a range with the period `p`: ten minutes where the period
/// cannot be read, and never less than one.
pub open spec fn step_of(p: Seq<char>) -> int {
    let m = match iso_minutes(p) {
        Some(m) => m,
        None => 10,
    };
    (if m < 1 {
        1
    } else {
        m
    }) * MINUTE
}

/// The start, the end and the step of one range of a domain: `start/end/period`, or a lone
/// instant.
pub open spec fn range_of(part: Seq<char>) -> Option<(Stamp, Stamp, int)> {
    let ps = text::parts_text(text::trim_text(part), '/');
    if ps.len() == 3 {
        match (stamp_of(ps[0]), stamp_of(ps[1])) {
            (Some(s), Some(e)) => Some((s, e, step_of(ps[2]))),
            _ => None,
        }
    } else if ps.len() == 1 {
        match stamp_of(ps[0]) {
            Some(s) => Some((s, s, 10 * MINUTE)),
            None => None,
        }
    } else {
        None
    }
}

/// `t` is one of the instants of a range: its start, or whole steps after it, and no later than its
/// end. Only the start may lie in a leap second: a step leaves it.
pub open spec fn is_step(range: (Stamp, Stamp, int), t: Stamp) -> bool {
    let (start, end, step) = range;
    &&& t.key() <= end.key()
    &&& t == start || (!t.is_leap() && t.base() > start.base() && (t.base() - start.base()) % step
        == 0)
}

/// `t` is one of the instants of the first `n` ranges.
pub open spec fn offered(parts: Seq<Seq<char>>, n: int, t: Stamp) -> bool {
    exists|i: int|
        0 <= i < n && #[trigger] range_of(parts[i]) is Some && is_step(range_of(parts[i])->0, t)
}

/// The text between the first `<Domain>` and the `</Domain>` after it.
pub open spec fn domain_body(xml: Seq<char>) -> Option<Seq<char>> {
    let start = text::text_place(xml, "<Domain>"@);
    if start < 0 {
        None
    } else {
        let rest = xml.skip(start);
        let end = text::text_place(rest, "</Domain>"@);
        if end < 0 {
            None
        } else {
            Some(rest.subrange(8, end))
        }
    }
}

/// Each instant comes after the one before it.
pub open spec fn ascending(ts: Seq<Stamp>) -> bool {
    forall|i: int, j: int|
        0 <= i < j < ts.len() ==> (#[trigger] ts[i]).key() < (#[trigger] ts[j]).key()
}

/// The last `limit` of a list.
pub open spec fn newest(ts: Seq<Stamp>, limit: nat) -> Seq<Stamp> {
    if ts.len() > limit {
        ts.skip(ts.len() - limit)
    } else {
        ts
    }
}

/// `all` holds the instants that the ranges offer, in order.
pub open spec fn lists_offers(parts: Seq<Seq<char>>, all: Seq<Stamp>) -> bool {
    &&& ascending(all)
    &&& forall|t: Stamp| #[trigger] all.contains(t) <==> offered(parts, parts.len() as int, t)
}

/// What [`parse_goes_domain`] returns.
pub open spec fn reads_domain(xml: Seq<char>, limit: nat, r: Seq<Stamp>) -> bool {
    match domain_body(xml) {
        None => r.len() == 0,
        Some(body) => exists|all: Seq<Stamp>|
            #[trigger] reads_offers(text::parts_text(body, ','), limit, all, r),
    }
}

/// `r` is the newest of the instants `all` that the ranges offer.
pub open spec fn reads_offers(
    parts: Seq<Seq<char>>,
    limit: nat,
    all: Seq<Stamp>,
    r: Seq<Stamp>,
) -> bool {
    lists_offers(parts, all) && r == newest(all, limit)
}

fn insert_stamp(ts: &mut Vec<Stamp>, t: Stamp)
    requires
        ascending(old(ts)@),
    ensures
        ascending(final(ts)@),
        forall|u: Stamp| #[trigger] final(ts)@.contains(u) <==> old(ts)@.contains(u) || u == t,
{
    let ghost before = ts@;
    let place: i128 = t.place();
    let mut i: usize = ts.len();
    while i > 0 && ts[i - 1].place() > place
        invariant
            ts@ == before,
            place == t.key(),
            i <= ts.len(),
            forall|j: int| i <= j < ts@.len() ==> (#[trigger] ts@[j]).key() > t.key(),
        decreases i,
    {
        i = i - 1;
    }
    if i > 0 && ts[i - 1].place() == place {
        proof {
            lemma_key_tells(before[i - 1], t);
        }
        assert(before.contains(t));
        return ;
    }
    ts.insert(i, t);
    proof {
        assert(ts@ == before.insert(i as int, t));
        assert forall|j: int, k: int| 0 <= j < k < ts@.len() implies (#[trigger] ts@[j]).key() < (
        #[trigger] ts@[k]).key() by {
            if j < i && i > 0 {
                assert(j < i - 1 ==> before[j].key() < before[i - 1].key());
            }
            let jj = if j < i {
                j
            } else {
                j - 1
            };
            let kk = if k < i {
                k
            } else {
                k - 1
            };
            if j != i && k != i {
                assert(ts@[j] == before[jj] && ts@[k] == before[kk]);
                assert(before[jj].key() < before[kk].key());
            } else if j == i {
                assert(ts@[k] == before[k - 1]);
            }
        }
        assert forall|u: Stamp| #[trigger] ts@.contains(u) <==> before.contains(u) || u == t by {
            if before.contains(u) {
                let j = before.index_of(u);
                if j < i {
                    assert(ts@[j] == u);
                } else {
                    assert(ts@[j + 1] == u);
                }
            }
            if u == t {
                assert(ts@[i as int] == u);
            }
            if ts@.contains(u) {
                let j = ts@.index_of(u);
                if j < i {
                    assert(before[j] == u);
                } else if j > i {
                    assert(before[j - 1] == u);
                }
            }
        }
    }
}

fn parse_range(part: &str) -> (r: Option<(Stamp, Stamp, i128)>)
    ensures
        match range_of(part@) {
            Some((s, e, d)) => r is Some && (r->0).0 == s && (r->0).1 == e && (r->0).2 == d,
            None => r is None,
        },
        r matches Some((s, e, d)) ==> MINUTE <= d <= 36_000_000_000_000_000_000_000_000_000_000,
{
    let bare = text::trim(part);
    let ps = text::parts(bare.as_str(), '/');
    let ghost all = text::texts(ps@);
    if ps.len() == 3 {
        assert(all[0] == ps@[0]@ && all[1] == ps@[1]@ && all[2] == ps@[2]@);
        let s = parse_stamp(ps[0].as_str());
        let e = parse_stamp(ps[1].as_str());
        if s.is_none() || e.is_none() {
            return None;
        }
        let m: i128 = match parse_iso_minutes(ps[2].as_str()) {
            Some(m) => m,
            None => 10,
        };
        let m: i128 = if m < 1 {
            1
        } else {
            m
        };
        Some((s.unwrap(), e.unwrap(), m * MINUTE))
    } else if ps.len() == 1 {
        assert(all[0] == ps@[0]@);
        match parse_stamp(ps[0].as_str()) {
            Some(s) => Some((s, s, 10 * MINUTE)),
            None => None,
        }
    } else {
        None
    }
}

/// The last nanosecond outside of a leap second that is no later than `e`.
pub open spec fn last_before(e: Stamp) -> int {
    if e.is_leap() {
        (e.secs + 1) * SECOND - 1
    } else {
        e.base()
    }
}

proof fn lemma_last_before(u: Stamp, e: Stamp)
    requires
        !u.is_leap(),
    ensures
        u.key() <= e.key() <==> u.base() <= last_before(e),
{
    if u.secs < e.secs {
        assert(u.base() <= e.secs * SECOND - 1);
    }
}

fn insert_steps(ts: &mut Vec<Stamp>, s: Stamp, e: Stamp, d: i128)
    requires
        ascending(old(ts)@),
        MINUTE <= d <= 36_000_000_000_000_000_000_000_000_000_000,
    ensures
        ascending(final(ts)@),
        forall|u: Stamp|
            #[trigger] final(ts)@.contains(u) <==> old(ts)@.contains(u) || is_step(
                (s, e, d as int),
                u,
            ),
{
    let ghost before = ts@;
    let ghost range = (s, e, d as int);
    if s.place() > e.place() {
        proof {
            assert forall|u: Stamp| !#[trigger] is_step(range, u) by {
                if is_step(range, u) && u != s {
                    let m = (u.base() - s.base()) / d as int;
                    assert(u.base() - s.base() >= d) by (nonlinear_arith)
                        requires
                            u.base() - s.base() > 0,
                            (u.base() - s.base()) % d as int == 0,
                            d > 0,
                    ;
                    assert(u.secs > s.secs);
                }
            }
        }
        return ;
    }
    let b: i128 = if s.nanos >= 1_000_000_000 {
        s.secs as i128 * SECOND + (s.nanos - 1_000_000_000) as i128
    } else {
        s.secs as i128 * SECOND + s.nanos as i128
    };
    let last: i128 = if e.nanos >= 1_000_000_000 {
        (e.secs as i128 + 1) * SECOND - 1
    } else {
        e.secs as i128 * SECOND + e.nanos as i128
    };
    insert_stamp(ts, s);
    let mut t: i128 = b + d;
    let ghost mut k: int = 1;
    proof {
        assert forall|u: Stamp|
            #[trigger] ts@.contains(u) <==> before.contains(u) || (is_step(range, u) && (u == s
                || u.base() < t)) by {
            if is_step(range, u) && u != s {
                assert(u.base() - s.base() >= d) by (nonlinear_arith)
                    requires
                        u.base() - s.base() > 0,
                        (u.base() - s.base()) % d as int == 0,
                        d > 0,
                ;
            }
        }
    }
    while t <= last
        invariant
            ascending(ts@),
            range == (s, e, d as int),
            MINUTE <= d <= 36_000_000_000_000_000_000_000_000_000_000,
            b == s.base(),
            last == last_before(e),
            b < t,
            t <= last + d || t == b + d,
            k >= 1,
            t == b + k * d,
            forall|u: Stamp|
                #[trigger] ts@.contains(u) <==> before.contains(u) || (is_step(range, u) && (u == s
                    || u.base() < t)),
        decreases last + d - t,
    {
        let ghost so_far = ts@;
        assert(s.secs <= t as int / SECOND as int <= e.secs) by {
            assert(t <= (e.secs + 1) * SECOND - 1);
            assert(t >= s.secs * SECOND);
        }
        let now = Stamp::at(t);
        insert_stamp(ts, now);
        proof {
            assert((k * d) % (d as int) == 0) by (nonlinear_arith)
                requires
                    d > 0,
            ;
            assert((k + 1) * d == k * d + d) by (nonlinear_arith);
            lemma_last_before(now, e);
            assert(is_step(range, now));
            assert forall|u: Stamp|
                #[trigger] ts@.contains(u) <==> before.contains(u) || (is_step(range, u) && (u == s
                    || u.base() < t + d)) by {
                if is_step(range, u) && u != s && t <= u.base() < t + d {
                    let m = (u.base() - b) / (d as int);
                    assert(u.base() - b == m * d) by (nonlinear_arith)
                        requires
                            (u.base() - b) % (d as int) == 0,
                            m == (u.base() - b) / (d as int),
                            d > 0,
                    ;
                    assert(m == k) by (nonlinear_arith)
                        requires
                            k * d <= m * d,
                            m * d < (k + 1) * d,
                            d > 0,
                    ;
                    assert(u.base() == t);
                    lemma_base_tells(u);
                    assert(u == now);
                }
                assert(so_far.contains(u) ==> ts@.contains(u));
            }
            k = k + 1;
        }
        t = t + d;
    }
    proof {
        assert forall|u: Stamp|
            #[trigger] ts@.contains(u) <==> before.contains(u) || is_step(range, u) by {
            if is_step(range, u) && u != s {
                lemma_last_before(u, e);
            }
        }
    }
}

/// Parse the `<Domain>` time list of a DescribeDomains answer into sorted instants. The domain is
/// comma-separated `start/end/PT{n}M` (or `PT{n}H`) ranges; each is expanded to its discrete steps.
/// A range that cannot be read is passed over. Returns at most `limit` most-recent instants.
pub fn parse_goes_domain(xml: &str, limit: usize) -> (r: Vec<Stamp>)
    ensures
        reads_domain(xml@, limit as nat, r@),
{
    proof {
        reveal_strlit("<Domain>");
        reveal_strlit("</Domain>");
    }
    let cs = text::chars_of(xml);
    let start: usize = match text::find(xml, "<Domain>") {
        Some(i) => i,
        None => {
            return Vec::new();
        },
    };
    let rest = text::text_of_range(&cs, start, cs.len());
    assert(rest@ =~= xml@.skip(start as int));
    let end: usize = match text::find(rest.as_str(), "</Domain>") {
        Some(i) => i,
        None => {
            return Vec::new();
        },
    };
    proof {
        text::lemma_text_place_from(xml@, "<Domain>"@, 0);
        text::lemma_text_place_from(rest@, "</Domain>"@, 0);
        let open = "<Domain>"@;
        let close = "</Domain>"@;
        assert(xml@.subrange(start as int, start + 8) == open);
        assert forall|k: int| 0 <= k < 8 implies rest@[k] == open[k] by {
            assert(xml@.subrange(start as int, start + 8)[k] == open[k]);
        }
        if end < 8 {
            assert(rest@.subrange(end as int, end + 9) == close);
            assert(rest@.subrange(end as int, end + 9)[0] == close[0]);
            assert(rest@.subrange(end as int, end + 9)[1] == close[1]);
            assert(rest@[end as int] == '<');
            assert(end == 0);
            assert(rest@[1] == '/');
        }
    }
    let rs = text::chars_of(rest.as_str());
    let body = text::text_of_range(&rs, 8, end);
    let parts = text::parts(body.as_str(), ',');
    let ghost all = text::texts(parts@);
    let mut out: Vec<Stamp> = Vec::new();
    let mut i: usize = 0;
    while i < parts.len()
        invariant
            i <= parts.len(),
            all == text::texts(parts@),
            ascending(out@),
            forall|t: Stamp| #[trigger] out@.contains(t) <==> offered(all, i as int, t),
        decreases parts.len() - i,
    {
        let ghost before = out@;
        assert(all[i as int] == parts@[i as int]@);
        match parse_range(parts[i].as_str()) {
            Some((s, e, d)) => {
                insert_steps(&mut out, s, e, d);
                proof {
                    assert forall|t: Stamp| #[trigger] out@.contains(t) <==> offered(
                        all,
                        i + 1,
                        t,
                    ) by {
                        assert(range_of(all[i as int]) is Some);
                        if before.contains(t) {
                            let k = choose|k: int|
                                0 <= k < i && #[trigger] range_of(all[k]) is Some && is_step(
                                    range_of(all[k])->0,
                                    t,
                                );
                            assert(range_of(all[k]) is Some);
                        }
                    }
                }
            },
            None => {
                proof {
                    assert forall|t: Stamp| #[trigger] out@.contains(t) <==> offered(
                        all,
                        i + 1,
                        t,
                    ) by {
                        assert(range_of(all[i as int]) is None);
                        if before.contains(t) {
                            let k = choose|k: int|
                                0 <= k < i && #[trigger] range_of(all[k]) is Some && is_step(
                                    range_of(all[k])->0,
                                    t,
                                );
                            assert(range_of(all[k]) is Some);
                        }
                    }
                }
            },
        }
        i = i + 1;
    }
    let ghost every = out@;
    assert(domain_body(xml@) == Some(body@));
    assert(lists_offers(text::parts_text(body@, ','), every));
    if out.len() > limit {
        let from: usize = out.len() - limit;
        let last = out.split_off(from);
        assert(last@ =~= newest(every, limit as nat));
        assert(reads_offers(
            text::parts_text(domain_body(xml@)->0, ','),
            limit as nat,
            every,
            last@,
        ));
        last
    } else {
        assert(reads_offers(
            text::parts_text(domain_body(xml@)->0, ','),
            limit as nat,
            every,
            out@,
        ));
        out
    }
}

/// The frames that come out are in order and none comes twice.
pub proof fn domain_frames_ascend(xml: Seq<char>, limit: nat, r: Seq<Stamp>)
    requires
        reads_domain(xml, limit, r),
    ensures
        ascending(r),
        r.len() <= limit || domain_body(xml) is None,
{
    if domain_body(xml) is Some {
        let parts = text::parts_text(domain_body(xml)->0, ',');
        let all = choose|all: Seq<Stamp>| #[trigger] reads_offers(parts, limit, all, r);
        assert(r == newest(all, limit));
    }
}

// ---------------------------------------------------------------------------------------------
// Windows.

/// The archive hour of a pane that is replaying rather than lagging: more than four hours back.
pub open spec fn archive_hour(now: int, radar: Option<int>) -> Option<int> {
    match radar {
        Some(t) => if now - t > 4 * HOUR {
            Some(t / (HOUR as int))
        } else {
            None
        },
        None => None,
    }
}

/// Which frame times to ask for, given the wall clock and the active pane's radar time.
///
/// Returns the archive hour the window covers (`None` while live) and the window itself. The hour
/// is the refetch key: scrubbing within it reuses the frames already loaded. The window brackets
/// the hour so stepping either way stays inside what was loaded.
pub fn goes_window(now: i128, radar: Option<i128>) -> (r: (Option<i64>, i128, i128))
    requires
        is_instant(now as int),
        radar matches Some(t) ==> is_instant(t as int),
    ensures
        match archive_hour(
            now as int,
            match radar {
                Some(t) => Some(t as int),
                None => None,
            },
        ) {
            Some(h) => r.0 is Some && r.0->0 == h && r.1 == (h - 1) * HOUR && r.2 == (h + 2) * HOUR,
            None => r.0 is None && r.1 == now - 8 * HOUR && r.2 == now,
        },
        r.0 is None ==> r.2 - r.1 == 8 * 3_600_000_000_000 && r.2 == now,
        r.0 is Some ==> radar is Some && r.1 <= radar->0 - 3_600_000_000_000 && radar->0
            + 3_600_000_000_000 < r.2,
{
    match radar {
        Some(t) => {
            if now - t > 4 * HOUR {
                let h: i128 = t.checked_div_euclid(HOUR).unwrap();
                return (Some(h as i64), (h - 1) * HOUR, (h + 2) * HOUR);
            }
        },
        None => {},
    }
    (None, now - 8 * HOUR, now)
}

/// The frame that is replayed lies in the window that is asked for.
pub proof fn replayed_frame_is_covered(now: int, t: int)
    requires
        archive_hour(now, Some(t)) is Some,
    ensures
        ({
            let h = archive_hour(now, Some(t))->0;
            (h - 1) * HOUR <= t <= (h + 2) * HOUR
        }),
{
}

/// The newest frame that a publisher has out at `anchor`: on its step, and its lag behind.
pub open spec fn newest_frame(anchor: int, step_min: int, lag_min: int) -> int {
    (anchor - lag_min * MINUTE) / (step_min * MINUTE) * (step_min * MINUTE)
}

/// The frame times a composite offers, oldest first, ending at the newest one `anchor` can expect
/// to be published. An instant off the publisher's step is rejected outright, so every frame lies
/// on it.
pub fn wms_frames(anchor: i128, limit: usize, step_min: i64, lag_min: i64) -> (r: Vec<i128>)
    requires
        is_instant(anchor as int),
        1 <= step_min <= 1_000_000,
        0 <= lag_min <= 1_000_000,
        limit <= i32::MAX,
    ensures
        r@ == Seq::new(
            limit as nat,
            |k: int|
                (newest_frame(anchor as int, step_min as int, lag_min as int) - (limit - 1 - k) * (
                step_min * MINUTE)) as i128,
        ),
        r@.len() == limit,
        forall|k: int|
            0 <= k < limit ==> #[trigger] r@[k] == newest_frame(
                anchor as int,
                step_min as int,
                lag_min as int,
            ) - (limit - 1 - k) * (step_min * MINUTE),
{
    let step: i128 = step_min as i128 * MINUTE;
    let latest: i128 = anchor - lag_min as i128 * MINUTE;
    proof {
        let l = latest as int;
        let d = step as int;
        assert(-10_000_000_000_000_000_000_000_000_000 <= l / d
            <= 10_000_000_000_000_000_000_000_000_000) by (nonlinear_arith)
            requires
                d >= 1,
                -10_000_000_000_000_000_000_000_000_000 <= l
                    <= 10_000_000_000_000_000_000_000_000_000,
        ;
    }
    let q: i128 = latest.checked_div_euclid(step).unwrap();
    proof {
        assert(q * step <= latest && latest < q * step + step) by (nonlinear_arith)
            requires
                step > 0,
                q == latest as int / step as int,
        ;
    }
    let newest: i128 = q * step;
    let ghost top = newest_frame(anchor as int, step_min as int, lag_min as int);
    assert(newest == top);
    let mut out: Vec<i128> = Vec::new();
    let mut k: usize = 0;
    while k < limit
        invariant
            k <= limit,
            limit <= i32::MAX,
            0 < step <= 60_000_000_000_000_000,
            step == step_min * MINUTE,
            newest == top,
            -10_000_000_000_000_000_000_000_000_000 <= newest
                <= 10_000_000_000_000_000_000_000_000_000,
            out@.len() == k,
            forall|j: int| 0 <= j < k ==> #[trigger] out@[j] == top - (limit - 1 - j) * step,
        decreases limit - k,
    {
        let back: i128 = (limit - 1 - k) as i128;
        proof {
            assert(0 <= back * step <= 2_147_483_647 * 60_000_000_000_000_000) by (nonlinear_arith)
                requires
                    0 <= back <= 2_147_483_647,
                    0 < step <= 60_000_000_000_000_000,
            ;
        }
        out.push(newest - back * step);
        k = k + 1;
    }
    assert(out@ =~= Seq::new(
        limit as nat,
        |k: int| (top - (limit - 1 - k) * (step_min * MINUTE)) as i128,
    ));
    out
}

/// Every frame lies on the publisher's step, none is ahead of the publisher, and the last is the
/// newest there is.
pub proof fn frames_land_on_the_step(anchor: int, step_min: int, lag_min: int, back: int)
    requires
        step_min >= 1,
        back >= 0,
    ensures
        ({
            let step = step_min * MINUTE;
            let newest = newest_frame(anchor, step_min, lag_min);
            let t = newest - back * step;
            &&& t % step == 0
            &&& t <= anchor - lag_min * MINUTE
            &&& anchor - lag_min * MINUTE < newest + step
        }),
{
    let step = step_min * MINUTE;
    let latest = anchor - lag_min * MINUTE;
    let q = latest / step;
    assert(step > 0) by (nonlinear_arith)
        requires
            step_min >= 1,
            step == step_min * 60_000_000_000,
    ;
    assert(q * step <= latest && latest < q * step + step) by (nonlinear_arith)
        requires
            step > 0,
            q == latest / step,
    ;
    assert(q * step - back * step == (q - back) * step) by (nonlinear_arith);
    assert(((q - back) * step) % step == 0) by (nonlinear_arith)
        requires
            step > 0,
    ;
    assert(back * step >= 0) by (nonlinear_arith)
        requires
            back >= 0,
            step > 0,
    ;
}

/// Where the frame times of a style come from.
#[derive(Debug)]
pub enum FrameTimes {
    /// They are computed: the publisher runs a fixed interval.
    Known(Vec<i128>),
    /// They are listed at this address.
    Listed(String),
    /// The style has no time dimension.
    Untimed,
}

/// The address that lists the frames of a GIBS layer between two instants.
pub open spec fn domain_url_text(layer: Seq<char>, level: u8, from: Seq<char>, to: Seq<char>) -> Seq<
    char,
> {
    "https://gibs.earthdata.nasa.gov/wmts/epsg3857/best/1.0.0/"@ + layer
        + "/default/GoogleMapsCompatible_Level"@ + text::decimal_text(level as nat)
        + "/-180,-90,180,90/"@ + from + "--"@ + to + ".xml"@
}

/// Where the frame times of `style` between `from` and `to` come from: `to` is the end of the
/// window, which is now for a live pane. `from_iso` and `to_iso` are the same instants written out.
pub fn frame_times(
    style: BasemapStyle,
    to: i128,
    limit: usize,
    from_iso: &str,
    to_iso: &str,
) -> (r: FrameTimes)
    requires
        is_instant(to as int),
        limit <= i32::MAX,
    ensures
        match style.wms() {
            Some((_, _, step, lag)) => r is Known && r->Known_0@.len() == limit && forall|k: int|
                0 <= k < limit ==> #[trigger] r->Known_0@[k] == newest_frame(
                    to as int,
                    step as int,
                    lag as int,
                ) - (limit - 1 - k) * (step * MINUTE),
            None => match style.gibs() {
                Some((layer, level)) => r is Listed && r->Listed_0@ == domain_url_text(
                    layer,
                    level,
                    from_iso@,
                    to_iso@,
                ),
                None => r is Untimed,
            },
        },
{
    if let Some((_, _, step, lag)) = style.wms_layer() {
        return FrameTimes::Known(wms_frames(to, limit, step, lag));
    }
    match style.goes_layer() {
        Some((layer, level)) => {
            let mut s = "https://gibs.earthdata.nasa.gov/wmts/epsg3857/best/1.0.0/".to_owned();
            s.append(layer);
            s.append("/default/GoogleMapsCompatible_Level");
            let n = text::decimal(level as u64);
            s.append(n.as_str());
            s.append("/-180,-90,180,90/");
            s.append(from_iso);
            s.append("--");
            s.append(to_iso);
            s.append(".xml");
            FrameTimes::Listed(s)
        },
        None => FrameTimes::Untimed,
    }
}

// ---------------------------------------------------------------------------------------------
// What a domain offers.

/// Durations are read in minutes, an hour as sixty; what is no such duration is none.
pub proof fn durations_are_minutes(n: u32, p: Seq<char>)
    ensures
        iso_minutes("PT"@ + text::decimal_text(n as nat) + "M"@) == Some(n as int),
        iso_minutes("PT"@ + text::decimal_text(n as nat) + "H"@) == Some(60 * n),
        iso_minutes("PT"@ + text::decimal_text(n as nat) + "S"@) is None,
        iso_minutes(Seq::empty()) is None,
        step_of("PT"@ + text::decimal_text(n as nat) + "M"@) == (if n == 0 {
            1
        } else {
            n as int
        }) * 60_000_000_000,
        iso_minutes(p) is None ==> step_of(p) == 600_000_000_000,
{
    reveal_strlit("PT");
    reveal_strlit("M");
    reveal_strlit("H");
    reveal_strlit("S");
    let d = text::decimal_text(n as nat);
    text::decimals_read_back(n as nat);
    assert(text::integer_of(d) == Some(n as int)) by {
        assert(text::is_digit_char(d[0]));
    }
    lemma_duration(d, "M"@);
    lemma_duration(d, "H"@);
    lemma_duration(d, "S"@);
    assert("M"@[0] == 'M' && "H"@[0] == 'H' && "S"@[0] == 'S');
    let none = Seq::<char>::empty();
    assert(!text::starts(none, "PT"@));
}

proof fn lemma_duration(d: Seq<char>, unit: Seq<char>)
    requires
        unit.len() == 1,
        unit[0] == 'M' || unit[0] == 'H' || unit[0] == 'S',
    ensures
        ({
            let p = "PT"@ + d + unit;
            let rest = d + unit;
            &&& text::after_text(p, "PT"@) == Some(rest)
            &&& rest.take(rest.len() - 1) == d
            &&& text::ends(rest, "M"@) <==> unit[0] == 'M'
            &&& text::ends(rest, "H"@) <==> unit[0] == 'H'
        }),
{
    reveal_strlit("M");
    reveal_strlit("H");
    let p = "PT"@ + d + unit;
    let rest = d + unit;
    assert(p =~= "PT"@ + rest);
    text::joined_texts_are_found(Seq::empty(), "PT"@, rest);
    assert(rest.take(rest.len() - 1) =~= d);
    let last = rest.skip(rest.len() - 1);
    assert(last[0] == unit[0]);
    if unit[0] == 'M' {
        assert(last =~= "M"@);
    }
    if unit[0] == 'H' {
        assert(last =~= "H"@);
    }
}

/// A range offers its start and every whole step after it up to its end, and nothing else.
pub proof fn ranges_offer_their_steps(start: Stamp, end: Stamp, step: int, t: Stamp, k: int)
    requires
        step > 0,
        start.nanos < 1_000_000_000,
        end.nanos < 1_000_000_000,
        t.nanos < 1_000_000_000,
    ensures
        ({
            let from = start.secs * 1_000_000_000 + start.nanos;
            let to = end.secs * 1_000_000_000 + end.nanos;
            let at = t.secs * 1_000_000_000 + t.nanos;
            &&& k >= 0 && at == from + k * step && at <= to ==> is_step((start, end, step), t)
            &&& is_step((start, end, step), t) ==> from <= at <= to && (at - from) % step == 0
        }),
{
    let from = start.secs * 1_000_000_000 + start.nanos;
    let at = t.secs * 1_000_000_000 + t.nanos;
    if k >= 0 && at == from + k * step {
        assert((k * step) % step == 0) by (nonlinear_arith)
            requires
                step > 0,
        ;
        if k == 0 {
            assert(k * step == 0) by (nonlinear_arith)
                requires
                    k == 0,
            ;
            assert(t == start);
        } else {
            assert(k * step > 0) by (nonlinear_arith)
                requires
                    k > 0,
                    step > 0,
            ;
        }
    }
    if t == start {
        assert(0int % step == 0) by (nonlinear_arith)
            requires
                step > 0,
        ;
    }
}

/// A range is its start, its end and its step between slashes; a lone instant is a range of itself.
/// White space around it does not count.
pub proof fn ranges_are_read(a: Seq<char>, b: Seq<char>, p: Seq<char>)
    requires
        !a.contains('/') && !b.contains('/') && !p.contains('/'),
        a.len() > 0 && p.len() > 0,
        !text::is_space(a[0]) && !text::is_space(a.last()) && !text::is_space(p.last()),
    ensures
        stamp_of(a) is Some && stamp_of(b) is Some ==> range_of(
            a + seq!['/'] + b + seq!['/'] + p,
        ) == Some((stamp_of(a)->0, stamp_of(b)->0, step_of(p))),
        stamp_of(a) is None || stamp_of(b) is None ==> range_of(
            a + seq!['/'] + b + seq!['/'] + p,
        ) is None,
        stamp_of(a) is Some ==> range_of(a) is Some && (range_of(a)->0).0 == stamp_of(a)->0 && (
        range_of(a)->0).1 == stamp_of(a)->0,
{
    let rest = b + seq!['/'] + p;
    let all = a + seq!['/'] + b + seq!['/'] + p;
    assert(all =~= a + seq!['/'] + rest);
    text::parts_undo_joining(a, rest, '/');
    text::parts_undo_joining(b, p, '/');
    text::parts_undo_joining(p, p, '/');
    text::parts_undo_joining(a, a, '/');
    assert(text::parts_text(all, '/') =~= seq![a, b, p]);
    lemma_bare(all);
    lemma_bare(a);
}

proof fn lemma_bare(s: Seq<char>)
    requires
        s.len() > 0,
        !text::is_space(s[0]),
        !text::is_space(s.last()),
    ensures
        text::trim_text(s) == s,
{
    let (a, b) = text::trimming_takes_only_space(s);
    assert(s[s.len() - 1] == s.last());
    assert(s.subrange(0, s.len() as int) =~= s);
}

/// A domain is what stands between its tags; without them there is none.
pub proof fn domains_stand_between_their_tags(a: Seq<char>, b: Seq<char>, c: Seq<char>)
    requires
        !a.contains('<'),
        !b.contains('<'),
    ensures
        domain_body(a + "<Domain>"@ + b + "</Domain>"@ + c) == Some(b),
        domain_body(a) is None,
        domain_body(a + "<Domain>"@ + b) is None,
{
    reveal_strlit("<Domain>");
    reveal_strlit("</Domain>");
    let (open, close) = ("<Domain>"@, "</Domain>"@);
    let tail = b + close + c;
    let xml = a + open + b + close + c;
    assert(xml =~= a + open + tail);
    lemma_first_tag(a, open, tail);
    let rest = xml.skip(a.len() as int);
    assert(rest =~= open + tail);
    let head = open + b;
    assert(rest =~= head + close + c);
    lemma_close_tag(open, b, close, c);
    assert(rest.subrange(8, head.len() as int) =~= b);
    lemma_no_tag(a, open);
    let half = a + open + b;
    lemma_first_tag(a, open, b);
    assert(half.skip(a.len() as int) =~= open + b);
    lemma_no_close(open, b, close);
}

proof fn lemma_no_tag(s: Seq<char>, tag: Seq<char>)
    requires
        !s.contains('<'),
        tag.len() > 0,
        tag[0] == '<',
    ensures
        text::text_place(s, tag) == -1,
{
    text::lemma_text_place_from(s, tag, 0);
    let k = text::text_place(s, tag);
    if k >= 0 {
        assert(s.subrange(k, k + tag.len())[0] == '<');
        assert(s[k] == '<');
    }
}

proof fn lemma_first_tag(a: Seq<char>, tag: Seq<char>, b: Seq<char>)
    requires
        !a.contains('<'),
        tag.len() > 0,
        tag[0] == '<',
    ensures
        text::text_place(a + tag + b, tag) == a.len(),
{
    let s = a + tag + b;
    let n = a.len() as int;
    text::lemma_text_place_from(s, tag, 0);
    assert(s.subrange(n, n + tag.len()) =~= tag);
    assert(text::stands_at(s, tag, n));
    let k = text::text_place(s, tag);
    if 0 <= k < n {
        assert(s.subrange(k, k + tag.len())[0] == '<');
        assert(a[k] == '<');
    }
}

proof fn lemma_close_tag(open: Seq<char>, b: Seq<char>, close: Seq<char>, c: Seq<char>)
    requires
        open == "<Domain>"@,
        close == "</Domain>"@,
        !b.contains('<'),
    ensures
        text::text_place(open + b + close + c, close) == open.len() + b.len(),
{
    reveal_strlit("<Domain>");
    reveal_strlit("</Domain>");
    let s = open + b + close + c;
    let n = (open.len() + b.len()) as int;
    text::lemma_text_place_from(s, close, 0);
    assert(s.subrange(n, n + close.len()) =~= close);
    assert(text::stands_at(s, close, n));
    let k = text::text_place(s, close);
    if 0 <= k < n {
        let u = s.subrange(k, k + close.len());
        assert(u[0] == '<' && u[1] == '/');
        assert(s[k] == '<' && s[k + 1] == '/');
        if k < 8 {
            assert(s[k] == open[k]);
            assert(k == 0);
            assert(s[1] == open[1]);
        } else {
            assert(s[k] == b[k - 8]);
        }
    }
}

proof fn lemma_no_close(open: Seq<char>, b: Seq<char>, close: Seq<char>)
    requires
        open == "<Domain>"@,
        close == "</Domain>"@,
        !b.contains('<'),
    ensures
        text::text_place(open + b, close) == -1,
{
    reveal_strlit("<Domain>");
    reveal_strlit("</Domain>");
    let s = open + b;
    text::lemma_text_place_from(s, close, 0);
    let k = text::text_place(s, close);
    if k >= 0 {
        let u = s.subrange(k, k + close.len());
        assert(u[0] == '<' && u[1] == '/');
        assert(s[k] == '<' && s[k + 1] == '/');
        if k < 8 {
            assert(s[k] == open[k]);
            assert(k == 0);
            assert(s[1] == open[1]);
        } else {
            assert(s[k] == b[k - 8]);
        }
    }
}

/// The newest frames are kept: as many as are wanted, from the end, in order.
pub proof fn the_newest_frames_are_kept(ts: Seq<Stamp>, limit: nat, i: int)
    requires
        0 <= i < ts.len(),
    ensures
        newest(ts, limit).len() == if ts.len() < limit {
            ts.len()
        } else {
            limit
        },
        i >= ts.len() - limit ==> newest(ts, limit)[i - (ts.len() - newest(ts, limit).len())]
            == ts[i],
{
}

/// A pane is live up to four hours behind; further back it replays an hour, which is the same for
/// every instant within it and differs between hours.
pub proof fn replays_go_by_the_hour(now: int, a: int, b: int)
    ensures
        archive_hour(now, None) is None,
        archive_hour(now, Some(a)) is None <==> now - a <= 14_400_000_000_000,
        archive_hour(now, Some(a)) matches Some(h) ==> h * 3_600_000_000_000 <= a < (h + 1)
            * 3_600_000_000_000,
{
}

/// The listing that is asked for is of the layer, and from the one instant to the other.
pub proof fn listings_are_of_the_window(
    layer: Seq<char>,
    level: u8,
    from: Seq<char>,
    to: Seq<char>,
)
    ensures
        text::ends(domain_url_text(layer, level, from, to), "/"@ + (from + "--"@ + to + ".xml"@)),
        text::holds_text(domain_url_text(layer, level, from, to), "/1.0.0/"@ + layer + "/default/"@),
{
    reveal_strlit("https://gibs.earthdata.nasa.gov/wmts/epsg3857/best/1.0.0/");
    reveal_strlit("https://gibs.earthdata.nasa.gov/wmts/epsg3857/best");
    reveal_strlit("/1.0.0/");
    reveal_strlit("/default/GoogleMapsCompatible_Level");
    reveal_strlit("/default/");
    reveal_strlit("GoogleMapsCompatible_Level");
    reveal_strlit("/-180,-90,180,90/");
    reveal_strlit("/-180,-90,180,90");
    reveal_strlit("/");
    assert("https://gibs.earthdata.nasa.gov/wmts/epsg3857/best/1.0.0/"@
        =~= "https://gibs.earthdata.nasa.gov/wmts/epsg3857/best"@ + "/1.0.0/"@);
    assert("/default/GoogleMapsCompatible_Level"@ =~= "/default/"@ + "GoogleMapsCompatible_Level"@);
    assert("/-180,-90,180,90/"@ =~= "/-180,-90,180,90"@ + "/"@);
    lemma_listing(
        "https://gibs.earthdata.nasa.gov/wmts/epsg3857/best"@,
        "/1.0.0/"@,
        layer,
        "/default/"@,
        "GoogleMapsCompatible_Level"@ + text::decimal_text(level as nat) + "/-180,-90,180,90"@,
        "/"@,
        from,
        to,
    );
    let u = domain_url_text(layer, level, from, to);
    let best = "https://gibs.earthdata.nasa.gov/wmts/epsg3857/best"@;
    let mid = "GoogleMapsCompatible_Level"@ + text::decimal_text(level as nat)
        + "/-180,-90,180,90"@;
    assert(u =~= best + "/1.0.0/"@ + layer + "/default/"@ + mid + "/"@ + from + "--"@ + to
        + ".xml"@);
}

proof fn lemma_listing(
    best: Seq<char>,
    v: Seq<char>,
    layer: Seq<char>,
    d: Seq<char>,
    mid: Seq<char>,
    slash: Seq<char>,
    from: Seq<char>,
    to: Seq<char>,
)
    ensures
        text::ends(
            best + v + layer + d + mid + slash + from + "--"@ + to + ".xml"@,
            slash + (from + "--"@ + to + ".xml"@),
        ),
        text::holds_text(
            best + v + layer + d + mid + slash + from + "--"@ + to + ".xml"@,
            v + layer + d,
        ),
{
    let u = best + v + layer + d + mid + slash + from + "--"@ + to + ".xml"@;
    let a = best + v + layer + d + mid;
    let e = slash + (from + "--"@ + to + ".xml"@);
    assert(u =~= a + e);
    text::lemma_ends_join(a, e);
    let r = mid + slash + from + "--"@ + to + ".xml"@;
    assert(u =~= best + (v + layer + d) + r);
    text::lemma_holds_join(best, v + layer + d, r);
}

/// A domain offers what one of its ranges does.
pub proof fn every_range_is_offered(a: Seq<Seq<char>>, b: Seq<Seq<char>>, t: Stamp)
    ensures
        offered(a + b, (a + b).len() as int, t) <==> offered(a, a.len() as int, t) || offered(
            b,
            b.len() as int,
            t,
        ),
        a.len() == 0 ==> !offered(a, a.len() as int, t),
        a.len() == 1 && range_of(a[0]) is Some ==> (offered(a, a.len() as int, t) <==> is_step(
            range_of(a[0])->0,
            t,
        )),
{
    let c = a + b;
    if offered(a, a.len() as int, t) {
        let i = choose|i: int|
            0 <= i < a.len() && #[trigger] range_of(a[i]) is Some && is_step(range_of(a[i])->0, t);
        assert(c[i] == a[i]);
    }
    if offered(b, b.len() as int, t) {
        let i = choose|i: int|
            0 <= i < b.len() && #[trigger] range_of(b[i]) is Some && is_step(range_of(b[i])->0, t);
        assert(c[a.len() + i] == b[i]);
    }
    if offered(c, c.len() as int, t) {
        let i = choose|i: int|
            0 <= i < c.len() && #[trigger] range_of(c[i]) is Some && is_step(range_of(c[i])->0, t);
        if i < a.len() {
            assert(c[i] == a[i]);
        } else {
            assert(c[i] == b[i - a.len()]);
        }
    }
}

/// The frames of a domain are offered by it; all of them where they are no more than wanted, and
/// none that is left out is later than one that is kept.
pub proof fn frames_are_offered(
    parts: Seq<Seq<char>>,
    limit: nat,
    all: Seq<Stamp>,
    r: Seq<Stamp>,
    t: Stamp,
    i: int,
)
    requires
        reads_offers(parts, limit, all, r),
        0 <= i < r.len(),
    ensures
        offered(parts, parts.len() as int, r[i]),
        r.len() <= limit,
        offered(parts, parts.len() as int, t) && r.len() < limit ==> r.contains(t),
        offered(parts, parts.len() as int, t) && !r.contains(t) ==> t.key() < r[i].key(),
{
    let k = all.len() - r.len();
    assert(r[i] == all[k + i]);
    assert(all.contains(r[i]));
    if offered(parts, parts.len() as int, t) {
        assert(all.contains(t));
        let p = all.index_of(t);
        if p >= k {
            assert(r[p - k] == t);
        }
    }
}

} // verus!
