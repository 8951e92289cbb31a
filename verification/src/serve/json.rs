//! The JSON answers that this server writes itself: the storm cells of a radar, and its own health.

use crate::serve::frame::{param_or, param_or_else};
use crate::serve::reply::{json_inner, json_string};
use crate::text;
use vstd::prelude::*;

verus! {

/// One position of a cell's forecast track. Numbers are texts, as JSON writes them.
#[derive(Debug)]
pub struct TrackPoint {
    pub minutes: String,
    pub lon: String,
    pub lat: String,
}

/// One storm cell. Numbers are texts, as JSON writes them; one that is not known is `null`.
#[derive(Debug)]
pub struct Cell {
    pub id: String,
    pub azimuth_deg: String,
    pub hail_in: String,
    pub lat: String,
    pub lon: String,
    pub max_dbz: String,
    pub movement_deg: String,
    pub movement_kt: String,
    pub poh: String,
    pub posh: String,
    pub range_nm: String,
    pub top_kft: String,
    pub vil: String,
    /// A tornadic vortex, and a mesocyclone: JSON texts too.
    pub tvs: String,
    pub meso: String,
    pub track: Vec<TrackPoint>,
}

/// A text in quotes, as JSON writes it.
pub open spec fn quoted(s: Seq<char>) -> Seq<char> {
    seq!['"'] + json_inner(s) + seq!['"']
}

pub open spec fn point_text(t: TrackPoint) -> Seq<char> {
    "{\"lat\":"@ + t.lat@ + ",\"lon\":"@ + t.lon@ + ",\"minutes\":"@ + t.minutes@ + "}"@
}

fn point_json(t: &TrackPoint) -> (r: String)
    ensures
        r@ == point_text(*t),
{
    let mut s = "{\"lat\":".to_owned();
    s.append(t.lat.as_str());
    s.append(",\"lon\":");
    s.append(t.lon.as_str());
    s.append(",\"minutes\":");
    s.append(t.minutes.as_str());
    s.append("}");
    s
}

/// The first `n` positions of a track, with commas between them.
pub open spec fn track_text(ts: Seq<TrackPoint>, n: nat) -> Seq<char>
    decreases n,
{
    if n == 0 {
        ""@
    } else {
        track_text(ts, (n - 1) as nat) + (if n == 1 {
            ""@
        } else {
            ","@
        }) + point_text(ts[n - 1])
    }
}

fn track_json(ts: &Vec<TrackPoint>) -> (r: String)
    ensures
        r@ == track_text(ts@, ts@.len()),
{
    let mut s = "".to_owned();
    let mut i: usize = 0;
    while i < ts.len()
        invariant
            i <= ts.len(),
            s@ == track_text(ts@, i as nat),
        decreases ts.len() - i,
    {
        let point = point_json(&ts[i]);
        let gap = if i == 0 {
            ""
        } else {
            ","
        };
        s.append(gap);
        s.append(point.as_str());
        i = i + 1;
    }
    s
}

/// One cell on the wire, its keys in order of the alphabet.
pub open spec fn cell_text(c: Cell) -> Seq<char> {
    "{"@
        + "\"azimuth_deg\":"@ + c.azimuth_deg@
        + ",\"hail_in\":"@ + c.hail_in@
        + ",\"id\":"@ + quoted(c.id@)
        + ",\"lat\":"@ + c.lat@
        + ",\"lon\":"@ + c.lon@
        + ",\"max_dbz\":"@ + c.max_dbz@
        + ",\"meso\":"@ + c.meso@
        + ",\"movement_deg\":"@ + c.movement_deg@
        + ",\"movement_kt\":"@ + c.movement_kt@
        + ",\"poh\":"@ + c.poh@
        + ",\"posh\":"@ + c.posh@
        + ",\"range_nm\":"@ + c.range_nm@
        + ",\"top_kft\":"@ + c.top_kft@
        + ",\"track\":"@ + "["@ + track_text(c.track@, c.track@.len()) + "]"@
        + ",\"tvs\":"@ + c.tvs@
        + ",\"vil\":"@ + c.vil@ + "}"@
}

/// One cell on the wire. Written by hand: the wire format is a promise to whatever is polling
/// this, and it should not move because a field was renamed.
pub fn cell_json(c: &Cell) -> (r: String)
    ensures
        r@ == cell_text(*c),
{
    let mut s = "{".to_owned();
    s.append("\"azimuth_deg\":");
    s.append(c.azimuth_deg.as_str());
    s.append(",\"hail_in\":");
    s.append(c.hail_in.as_str());
    s.append(",\"id\":");
    let id = json_string(c.id.as_str());
    s.append(id.as_str());
    s.append(",\"lat\":");
    s.append(c.lat.as_str());
    s.append(",\"lon\":");
    s.append(c.lon.as_str());
    s.append(",\"max_dbz\":");
    s.append(c.max_dbz.as_str());
    s.append(",\"meso\":");
    s.append(c.meso.as_str());
    s.append(",\"movement_deg\":");
    s.append(c.movement_deg.as_str());
    s.append(",\"movement_kt\":");
    s.append(c.movement_kt.as_str());
    s.append(",\"poh\":");
    s.append(c.poh.as_str());
    s.append(",\"posh\":");
    s.append(c.posh.as_str());
    s.append(",\"range_nm\":");
    s.append(c.range_nm.as_str());
    s.append(",\"top_kft\":");
    s.append(c.top_kft.as_str());
    s.append(",\"track\":");
    s.append("[");
    let track = track_json(&c.track);
    s.append(track.as_str());
    s.append("]");
    s.append(",\"tvs\":");
    s.append(c.tvs.as_str());
    s.append(",\"vil\":");
    s.append(c.vil.as_str());
    s.append("}");
    s
}

/// The first `n` cells, with commas between them.
pub open spec fn cells_list(cs: Seq<Cell>, n: nat) -> Seq<char>
    decreases n,
{
    if n == 0 {
        ""@
    } else {
        cells_list(cs, (n - 1) as nat) + (if n == 1 {
            ""@
        } else {
            ","@
        }) + cell_text(cs[n - 1])
    }
}

/// The cells of a radar site on the wire.
pub open spec fn cells_text(site: Seq<char>, cs: Seq<Cell>) -> Seq<char> {
    "{\"cells\":["@ + cells_list(cs, cs.len()) + "],\"site\":"@ + quoted(site) + "}"@
}

/// The storm cells of a radar site, on the wire.
pub fn cells_json(site: &str, cs: &Vec<Cell>) -> (r: String)
    ensures
        r@ == cells_text(site@, cs@),
{
    let mut list = "".to_owned();
    let mut i: usize = 0;
    while i < cs.len()
        invariant
            i <= cs.len(),
            list@ == cells_list(cs@, i as nat),
        decreases cs.len() - i,
    {
        let cell = cell_json(&cs[i]);
        let gap = if i == 0 {
            ""
        } else {
            ","
        };
        list.append(gap);
        list.append(cell.as_str());
        i = i + 1;
    }
    let mut s = "{\"cells\":[".to_owned();
    s.append(list.as_str());
    s.append("],\"site\":");
    let name = json_string(site);
    s.append(name.as_str());
    s.append("}");
    s
}

/// Whose cells a query asks for, in capitals; `None` where the site is not letters and digits.
pub open spec fn cells_site_text(query: Seq<char>) -> Option<Seq<char>> {
    let site = param_or(query, "site"@, "KTLX"@);
    if text::all_alnum(site) {
        Some(text::upper_text(site))
    } else {
        None
    }
}

/// Whose cells a query asks for; a site that is not letters and digits is refused.
pub fn cells_site(query: &str) -> (r: Result<String, String>)
    ensures
        match cells_site_text(query@) {
            Some(s) => r is Ok && (r->Ok_0)@ == s,
            None => r is Err && (r->Err_0)@ == "bad site"@,
        },
{
    let site = param_or_else(query, "site", "KTLX");
    if text::is_alnum(site.as_str()) {
        Ok(text::upper(site.as_str()))
    } else {
        Err("bad site".to_owned())
    }
}

/// What the cells of a site are kept under.
pub fn cells_key(site: &str) -> (r: String)
    ensures
        r@ == "/cells.json?"@ + site@,
{
    text::join2("/cells.json?", site)
}

/// Is this instance actually answering with fresh data?
#[derive(Debug)]
pub struct Health {
    pub version: String,
    pub uptime_secs: Option<u64>,
    pub spots: u64,
    pub feeds_ok: bool,
    /// Age of the status answer in seconds, as JSON writes it; `None` where it has never been built.
    pub status_age_secs: Option<String>,
    /// How many rendered images are kept.
    pub snapshot_cached: u64,
}

pub open spec fn truth_text(b: bool) -> Seq<char> {
    if b {
        "true"@
    } else {
        "false"@
    }
}

/// The health on the wire, its keys in order of the alphabet.
pub open spec fn health_text(h: Health) -> Seq<char> {
    "{\"feeds_ok\":"@ + truth_text(h.feeds_ok) + ",\"snapshot_cached\":"@ + text::decimal_text(
        h.snapshot_cached as nat,
    ) + ",\"spots\":"@ + text::decimal_text(h.spots as nat) + ",\"status_age_secs\":"@ + (
    match h.status_age_secs {
        Some(t) => t@,
        None => "null"@,
    }) + ",\"uptime_secs\":"@ + (match h.uptime_secs {
        Some(n) => text::decimal_text(n as nat),
        None => "null"@,
    }) + ",\"version\":"@ + quoted(h.version@) + "}"@
}

/// The health on the wire. A container that is up but has not reached a feed in an hour looks
/// exactly like a healthy one from the outside, which is the failure worth catching.
pub fn health_json(h: &Health) -> (r: String)
    ensures
        r@ == health_text(*h),
{
    let mut s = "{\"feeds_ok\":".to_owned();
    let truth = if h.feeds_ok {
        "true"
    } else {
        "false"
    };
    s.append(truth);
    s.append(",\"snapshot_cached\":");
    let n = text::decimal(h.snapshot_cached);
    s.append(n.as_str());
    s.append(",\"spots\":");
    let n = text::decimal(h.spots);
    s.append(n.as_str());
    s.append(",\"status_age_secs\":");
    let age = match &h.status_age_secs {
        Some(t) => t.clone(),
        None => "null".to_owned(),
    };
    s.append(age.as_str());
    s.append(",\"uptime_secs\":");
    let up = match h.uptime_secs {
        Some(n) => text::decimal(n),
        None => "null".to_owned(),
    };
    s.append(up.as_str());
    s.append(",\"version\":");
    let v = json_string(h.version.as_str());
    s.append(v.as_str());
    s.append("}");
    s
}

/// A site in a query cannot leave its place in the cache's keys: it is letters and digits alone.
pub proof fn cell_sites_are_plain(query: Seq<char>, site: Seq<char>)
    requires
        cells_site_text(query) == Some(site),
    ensures
        text::all_alnum(site),
{
    let given = param_or(query, "site"@, "KTLX"@);
    assert forall|i: int| 0 <= i < site.len() implies text::is_ascii_alnum(#[trigger] site[i]) by {
        assert(text::is_ascii_alnum(given[i]));
    }
}

/// Every number of a cell stands under its own key.
pub proof fn cells_tell_their_numbers(c: Cell)
    ensures
        text::holds_text(cell_text(c), "\"azimuth_deg\":"@ + c.azimuth_deg@),
        text::holds_text(cell_text(c), ",\"hail_in\":"@ + c.hail_in@),
        text::holds_text(cell_text(c), ",\"id\":"@ + quoted(c.id@)),
        text::holds_text(cell_text(c), ",\"lat\":"@ + c.lat@),
        text::holds_text(cell_text(c), ",\"lon\":"@ + c.lon@),
        text::holds_text(cell_text(c), ",\"max_dbz\":"@ + c.max_dbz@),
        text::holds_text(cell_text(c), ",\"meso\":"@ + c.meso@),
        text::holds_text(cell_text(c), ",\"movement_deg\":"@ + c.movement_deg@),
        text::holds_text(cell_text(c), ",\"movement_kt\":"@ + c.movement_kt@),
        text::holds_text(cell_text(c), ",\"poh\":"@ + c.poh@),
        text::holds_text(cell_text(c), ",\"posh\":"@ + c.posh@),
        text::holds_text(cell_text(c), ",\"range_nm\":"@ + c.range_nm@),
        text::holds_text(cell_text(c), ",\"top_kft\":"@ + c.top_kft@),
        text::holds_text(cell_text(c), ",\"tvs\":"@ + c.tvs@),
        text::holds_text(cell_text(c), ",\"vil\":"@ + c.vil@),
        text::holds_text(cell_text(c), "["@ + track_text(c.track@, c.track@.len())),
{
    let parts: Seq<Seq<char>> = seq![
        "{"@,
        "\"azimuth_deg\":"@,
        c.azimuth_deg@,
        ",\"hail_in\":"@,
        c.hail_in@,
        ",\"id\":"@,
        quoted(c.id@),
        ",\"lat\":"@,
        c.lat@,
        ",\"lon\":"@,
        c.lon@,
        ",\"max_dbz\":"@,
        c.max_dbz@,
        ",\"meso\":"@,
        c.meso@,
        ",\"movement_deg\":"@,
        c.movement_deg@,
        ",\"movement_kt\":"@,
        c.movement_kt@,
        ",\"poh\":"@,
        c.poh@,
        ",\"posh\":"@,
        c.posh@,
        ",\"range_nm\":"@,
        c.range_nm@,
        ",\"top_kft\":"@,
        c.top_kft@,
        ",\"track\":"@,
        "["@,
        track_text(c.track@, c.track@.len()),
        "]"@,
        ",\"tvs\":"@,
        c.tvs@,
        ",\"vil\":"@,
        c.vil@,
        "}"@,
    ];
    let p0 = Seq::<Seq<char>>::empty();
    let t0 = Seq::<char>::empty();
    assert(p0.flatten() =~= t0);
    let p1 = p0.push("{"@);
    p0.lemma_flatten_push("{"@);
    let p2 = p1.push("\"azimuth_deg\":"@);
    p1.lemma_flatten_push("\"azimuth_deg\":"@);
    let p3 = p2.push(c.azimuth_deg@);
    p2.lemma_flatten_push(c.azimuth_deg@);
    let p4 = p3.push(",\"hail_in\":"@);
    p3.lemma_flatten_push(",\"hail_in\":"@);
    let p5 = p4.push(c.hail_in@);
    p4.lemma_flatten_push(c.hail_in@);
    let p6 = p5.push(",\"id\":"@);
    p5.lemma_flatten_push(",\"id\":"@);
    let p7 = p6.push(quoted(c.id@));
    p6.lemma_flatten_push(quoted(c.id@));
    let p8 = p7.push(",\"lat\":"@);
    p7.lemma_flatten_push(",\"lat\":"@);
    let p9 = p8.push(c.lat@);
    p8.lemma_flatten_push(c.lat@);
    let p10 = p9.push(",\"lon\":"@);
    p9.lemma_flatten_push(",\"lon\":"@);
    let p11 = p10.push(c.lon@);
    p10.lemma_flatten_push(c.lon@);
    let p12 = p11.push(",\"max_dbz\":"@);
    p11.lemma_flatten_push(",\"max_dbz\":"@);
    let p13 = p12.push(c.max_dbz@);
    p12.lemma_flatten_push(c.max_dbz@);
    let p14 = p13.push(",\"meso\":"@);
    p13.lemma_flatten_push(",\"meso\":"@);
    let p15 = p14.push(c.meso@);
    p14.lemma_flatten_push(c.meso@);
    let p16 = p15.push(",\"movement_deg\":"@);
    p15.lemma_flatten_push(",\"movement_deg\":"@);
    let p17 = p16.push(c.movement_deg@);
    p16.lemma_flatten_push(c.movement_deg@);
    let p18 = p17.push(",\"movement_kt\":"@);
    p17.lemma_flatten_push(",\"movement_kt\":"@);
    let p19 = p18.push(c.movement_kt@);
    p18.lemma_flatten_push(c.movement_kt@);
    let p20 = p19.push(",\"poh\":"@);
    p19.lemma_flatten_push(",\"poh\":"@);
    let p21 = p20.push(c.poh@);
    p20.lemma_flatten_push(c.poh@);
    let p22 = p21.push(",\"posh\":"@);
    p21.lemma_flatten_push(",\"posh\":"@);
    let p23 = p22.push(c.posh@);
    p22.lemma_flatten_push(c.posh@);
    let p24 = p23.push(",\"range_nm\":"@);
    p23.lemma_flatten_push(",\"range_nm\":"@);
    let p25 = p24.push(c.range_nm@);
    p24.lemma_flatten_push(c.range_nm@);
    let p26 = p25.push(",\"top_kft\":"@);
    p25.lemma_flatten_push(",\"top_kft\":"@);
    let p27 = p26.push(c.top_kft@);
    p26.lemma_flatten_push(c.top_kft@);
    let p28 = p27.push(",\"track\":"@);
    p27.lemma_flatten_push(",\"track\":"@);
    let p29 = p28.push("["@);
    p28.lemma_flatten_push("["@);
    let p30 = p29.push(track_text(c.track@, c.track@.len()));
    p29.lemma_flatten_push(track_text(c.track@, c.track@.len()));
    let p31 = p30.push("]"@);
    p30.lemma_flatten_push("]"@);
    let p32 = p31.push(",\"tvs\":"@);
    p31.lemma_flatten_push(",\"tvs\":"@);
    let p33 = p32.push(c.tvs@);
    p32.lemma_flatten_push(c.tvs@);
    let p34 = p33.push(",\"vil\":"@);
    p33.lemma_flatten_push(",\"vil\":"@);
    let p35 = p34.push(c.vil@);
    p34.lemma_flatten_push(c.vil@);
    let p36 = p35.push("}"@);
    p35.lemma_flatten_push("}"@);
    assert(p1.flatten() =~= "{"@);
    assert(p36.flatten() == cell_text(c));
    assert(p36 =~= parts);
    text::lemma_parts_are_held(parts, 1);
    text::lemma_parts_are_held(parts, 3);
    text::lemma_parts_are_held(parts, 5);
    text::lemma_parts_are_held(parts, 7);
    text::lemma_parts_are_held(parts, 9);
    text::lemma_parts_are_held(parts, 11);
    text::lemma_parts_are_held(parts, 13);
    text::lemma_parts_are_held(parts, 15);
    text::lemma_parts_are_held(parts, 17);
    text::lemma_parts_are_held(parts, 19);
    text::lemma_parts_are_held(parts, 21);
    text::lemma_parts_are_held(parts, 23);
    text::lemma_parts_are_held(parts, 25);
    text::lemma_parts_are_held(parts, 31);
    text::lemma_parts_are_held(parts, 33);
    text::lemma_parts_are_held(parts, 28);
}

/// A position tells its latitude, its longitude and when.
pub proof fn positions_tell_where(t: TrackPoint)
    ensures
        text::holds_text(point_text(t), "{\"lat\":"@ + t.lat@),
        text::holds_text(point_text(t), ",\"lon\":"@ + t.lon@),
        text::holds_text(point_text(t), ",\"minutes\":"@ + t.minutes@),
{
    let parts: Seq<Seq<char>> = seq![
        "{\"lat\":"@,
        t.lat@,
        ",\"lon\":"@,
        t.lon@,
        ",\"minutes\":"@,
        t.minutes@,
        "}"@,
    ];
    let p0 = Seq::<Seq<char>>::empty();
    let t0 = Seq::<char>::empty();
    assert(p0.flatten() =~= t0);
    let p1 = p0.push("{\"lat\":"@);
    p0.lemma_flatten_push("{\"lat\":"@);
    let p2 = p1.push(t.lat@);
    p1.lemma_flatten_push(t.lat@);
    let p3 = p2.push(",\"lon\":"@);
    p2.lemma_flatten_push(",\"lon\":"@);
    let p4 = p3.push(t.lon@);
    p3.lemma_flatten_push(t.lon@);
    let p5 = p4.push(",\"minutes\":"@);
    p4.lemma_flatten_push(",\"minutes\":"@);
    let p6 = p5.push(t.minutes@);
    p5.lemma_flatten_push(t.minutes@);
    let p7 = p6.push("}"@);
    p6.lemma_flatten_push("}"@);
    assert(p1.flatten() =~= "{\"lat\":"@);
    assert(p7.flatten() == point_text(t));
    assert(p7 =~= parts);
    text::lemma_parts_are_held(parts, 0);
    text::lemma_parts_are_held(parts, 2);
    text::lemma_parts_are_held(parts, 4);
}

/// Every part of the health stands under its own key, what is not known as `null`.
pub proof fn health_tells_its_numbers(h: Health, age: Seq<char>, up: Seq<char>)
    requires
        h.status_age_secs matches Some(t) ==> age == t@,
        h.status_age_secs is None ==> age == "null"@,
        h.uptime_secs matches Some(n) ==> up == text::decimal_text(n as nat),
        h.uptime_secs is None ==> up == "null"@,
    ensures
        truth_text(true) == "true"@ && truth_text(false) == "false"@,
        text::holds_text(health_text(h), "{\"feeds_ok\":"@ + truth_text(h.feeds_ok)),
        text::holds_text(health_text(h), ",\"snapshot_cached\":"@ + text::decimal_text(h.snapshot_cached as nat)),
        text::holds_text(health_text(h), ",\"spots\":"@ + text::decimal_text(h.spots as nat)),
        text::holds_text(health_text(h), ",\"status_age_secs\":"@ + age),
        text::holds_text(health_text(h), ",\"uptime_secs\":"@ + up),
        text::holds_text(health_text(h), ",\"version\":"@ + quoted(h.version@)),
{
    let parts: Seq<Seq<char>> = seq![
        "{\"feeds_ok\":"@,
        truth_text(h.feeds_ok),
        ",\"snapshot_cached\":"@,
        text::decimal_text(h.snapshot_cached as nat),
        ",\"spots\":"@,
        text::decimal_text(h.spots as nat),
        ",\"status_age_secs\":"@,
        age,
        ",\"uptime_secs\":"@,
        up,
        ",\"version\":"@,
        quoted(h.version@),
        "}"@,
    ];
    let p0 = Seq::<Seq<char>>::empty();
    let t0 = Seq::<char>::empty();
    assert(p0.flatten() =~= t0);
    let p1 = p0.push("{\"feeds_ok\":"@);
    p0.lemma_flatten_push("{\"feeds_ok\":"@);
    let p2 = p1.push(truth_text(h.feeds_ok));
    p1.lemma_flatten_push(truth_text(h.feeds_ok));
    let p3 = p2.push(",\"snapshot_cached\":"@);
    p2.lemma_flatten_push(",\"snapshot_cached\":"@);
    let p4 = p3.push(text::decimal_text(h.snapshot_cached as nat));
    p3.lemma_flatten_push(text::decimal_text(h.snapshot_cached as nat));
    let p5 = p4.push(",\"spots\":"@);
    p4.lemma_flatten_push(",\"spots\":"@);
    let p6 = p5.push(text::decimal_text(h.spots as nat));
    p5.lemma_flatten_push(text::decimal_text(h.spots as nat));
    let p7 = p6.push(",\"status_age_secs\":"@);
    p6.lemma_flatten_push(",\"status_age_secs\":"@);
    let p8 = p7.push(age);
    p7.lemma_flatten_push(age);
    let p9 = p8.push(",\"uptime_secs\":"@);
    p8.lemma_flatten_push(",\"uptime_secs\":"@);
    let p10 = p9.push(up);
    p9.lemma_flatten_push(up);
    let p11 = p10.push(",\"version\":"@);
    p10.lemma_flatten_push(",\"version\":"@);
    let p12 = p11.push(quoted(h.version@));
    p11.lemma_flatten_push(quoted(h.version@));
    let p13 = p12.push("}"@);
    p12.lemma_flatten_push("}"@);
    assert(p1.flatten() =~= "{\"feeds_ok\":"@);
    assert(p13.flatten() == health_text(h));
    assert(p13 =~= parts);
    text::lemma_parts_are_held(parts, 0);
    text::lemma_parts_are_held(parts, 2);
    text::lemma_parts_are_held(parts, 4);
    text::lemma_parts_are_held(parts, 6);
    text::lemma_parts_are_held(parts, 8);
    text::lemma_parts_are_held(parts, 10);
}

proof fn lemma_track_text_prefix(a: Seq<TrackPoint>, b: Seq<TrackPoint>, n: nat)
    requires
        n <= a.len(),
    ensures
        track_text(a + b, n) == track_text(a, n),
    decreases n,
{
    if n > 0 {
        lemma_track_text_prefix(a, b, (n - 1) as nat);
        assert((a + b)[n - 1] == a[n - 1]);
    }
}

/// A track is its positions in order, with a comma between them.
pub proof fn tracks_go_in_order(a: Seq<TrackPoint>, b: Seq<TrackPoint>)
    ensures
        a.len() == 0 ==> track_text(a, a.len()) == Seq::<char>::empty(),
        a.len() == 1 ==> track_text(a, a.len()) == point_text(a[0]),
        a.len() > 0 && b.len() > 0 ==> track_text(a + b, (a + b).len()) == track_text(a, a.len())
            + ","@ + track_text(b, b.len()),
    decreases b.len(),
{
    reveal_strlit("");
    assert(""@ =~= Seq::<char>::empty());
    if a.len() == 1 {
        assert(track_text(a, 0) == ""@);
        assert(track_text(a, 1) =~= point_text(a[0]));
    }
    if a.len() > 0 && b.len() > 0 {
        let c = b.drop_last();
        let n = (a + b).len();
        assert((a + b)[n - 1] == b.last());
        let m = (n - 1) as nat;
        assert(a + b =~= (a + c) + seq![b.last()]);
        lemma_track_text_prefix(a + c, seq![b.last()], m);
        assert(c + seq![b.last()] =~= b);
        lemma_track_text_prefix(c, seq![b.last()], c.len());
        if c.len() == 0 {
            assert(a + c =~= a);
            assert(track_text(b, 0) == ""@);
            assert(track_text(b, 1) =~= point_text(b[0]));
            assert(track_text(a + b, n) =~= track_text(a, a.len()) + ","@ + point_text(b[0]));
        } else {
            tracks_go_in_order(a, c);
            assert(track_text(a + b, n) =~= track_text(a, a.len()) + ","@ + (track_text(c, c.len()) + ","@
                + point_text(b.last())));
        }
    }
}

proof fn lemma_listed(l: Seq<char>, m: Seq<char>, one: Seq<char>)
    ensures
        ""@ + ""@ + one == one,
        l + ","@ + m + ","@ + one == l + ","@ + (m + ","@ + one),
{
    reveal_strlit("");
    assert(""@ + ""@ + one =~= one);
    assert(l + ","@ + m + ","@ + one =~= l + ","@ + (m + ","@ + one));
}

proof fn lemma_cells_list_prefix(a: Seq<Cell>, b: Seq<Cell>, n: nat)
    requires
        n <= a.len(),
    ensures
        cells_list(a + b, n) == cells_list(a, n),
    decreases n,
{
    if n > 0 {
        lemma_cells_list_prefix(a, b, (n - 1) as nat);
        assert((a + b)[n - 1] == a[n - 1]);
    }
}

proof fn lemma_cells_last(cs: Seq<Cell>, n: nat)
    requires
        0 < n <= cs.len(),
    ensures
        n == 1 ==> cells_list(cs, n) == cell_text(cs[0]),
        n > 1 ==> cells_list(cs, n) == cells_list(cs, (n - 1) as nat) + ","@ + cell_text(cs[n - 1]),
{
    lemma_listed(""@, ""@, cell_text(cs[n - 1]));
    if n == 1 {
        assert(cells_list(cs, 0) == ""@);
    }
}

proof fn lemma_cells_pushed(a: Seq<Cell>, x: Cell, la: Seq<char>, one: Seq<char>)
    requires
        la == cells_list(a, a.len()),
        one == cell_text(x),
    ensures
        a.len() == 0 ==> cells_list(a.push(x), a.len() + 1) == one,
        a.len() > 0 ==> cells_list(a.push(x), a.len() + 1) == la + ","@ + one,
{
    lemma_cells_last(a.push(x), a.len() + 1);
    assert(a.push(x) =~= a + seq![x]);
    lemma_cells_list_prefix(a, seq![x], a.len());
}

/// The cells are listed in order, each once, with a comma between them.
pub proof fn cells_go_in_order(a: Seq<Cell>, b: Seq<Cell>)
    requires
        a.len() > 0 && b.len() > 0,
    ensures
        a.len() == 1 ==> cells_list(a, a.len()) == cell_text(a[0]),
        cells_list(a + b, (a + b).len()) == cells_list(a, a.len()) + ","@ + cells_list(b, b.len()),
    decreases b.len(),
{
    lemma_cells_last(a, a.len());
    let c = b.drop_last();
    let x = b.last();
    let one = cell_text(x);
    assert(c.push(x) =~= b);
    assert((a + c).push(x) =~= a + b);
    lemma_cells_pushed(a + c, x, cells_list(a + c, (a + c).len()), one);
    lemma_cells_pushed(c, x, cells_list(c, c.len()), one);
    if c.len() == 0 {
        assert(a + c =~= a);
    } else {
        cells_go_in_order(a, c);
        lemma_listed(cells_list(a, a.len()), cells_list(c, c.len()), one);
    }
}

/// The answer names the site that it is of, and lists the cells.
pub proof fn cells_are_of_their_site(site: Seq<char>, cs: Seq<Cell>)
    ensures
        text::holds_text(cells_text(site, cs), "{\"cells\":["@ + cells_list(cs, cs.len())),
        text::holds_text(cells_text(site, cs), "],\"site\":"@ + quoted(site)),
{
    let parts: Seq<Seq<char>> = seq![
        "{\"cells\":["@,
        cells_list(cs, cs.len()),
        "],\"site\":"@,
        quoted(site),
        "}"@,
    ];
    let p0 = Seq::<Seq<char>>::empty();
    let t0 = Seq::<char>::empty();
    assert(p0.flatten() =~= t0);
    let p1 = p0.push("{\"cells\":["@);
    p0.lemma_flatten_push("{\"cells\":["@);
    let p2 = p1.push(cells_list(cs, cs.len()));
    p1.lemma_flatten_push(cells_list(cs, cs.len()));
    let p3 = p2.push("],\"site\":"@);
    p2.lemma_flatten_push("],\"site\":"@);
    let p4 = p3.push(quoted(site));
    p3.lemma_flatten_push(quoted(site));
    let p5 = p4.push("}"@);
    p4.lemma_flatten_push("}"@);
    assert(p1.flatten() =~= "{\"cells\":["@);
    assert(p5.flatten() == cells_text(site, cs));
    assert(p5 =~= parts);
    text::lemma_parts_are_held(parts, 0);
    text::lemma_parts_are_held(parts, 2);
}

/// Without a site in the query the cells are of KTLX.
pub proof fn cells_are_of_oklahoma_by_default(query: Seq<char>)
    ensures
        crate::cloud::param_text(query, "site"@) is None ==> cells_site_text(query) == Some("KTLX"@),
{
    reveal_strlit("KTLX");
    let k = "KTLX"@;
    assert(text::all_alnum(k));
    assert(text::upper_text(k) =~= k);
}

} // verus!
