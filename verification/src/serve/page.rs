//! The dashboard that is served where there is no web root.

use crate::text;
use vstd::prelude::*;

verus! {

/// A saved location, as far as the dashboard needs it: whether it is home, and the radar nearest to
/// it.
#[derive(Debug)]
pub struct Spot {
    pub home: bool,
    pub nearest: Option<String>,
}

/// The place of the first home from `i` on, or the number of locations.
pub open spec fn home_place(spots: Seq<Spot>, i: int) -> int
    decreases spots.len() - i,
{
    if i < 0 || i >= spots.len() {
        spots.len() as int
    } else if spots[i].home {
        i
    } else {
        home_place(spots, i + 1)
    }
}

/// The radar that the dashboard shows: the one nearest to home, or else to the first location.
pub open spec fn dashboard_site_text(spots: Seq<Spot>) -> Seq<char> {
    let h = home_place(spots, 0);
    let i = if h < spots.len() {
        h
    } else {
        0
    };
    if spots.len() > 0 && spots[i].nearest is Some {
        (spots[i].nearest->0)@
    } else {
        "KTLX"@
    }
}

/// The radar that the dashboard shows, so the picture is of somewhere the user cares about.
pub fn dashboard_site(spots: &Vec<Spot>) -> (r: String)
    ensures
        r@ == dashboard_site_text(spots@),
{
    let mut i: usize = 0;
    while i < spots.len() && !spots[i].home
        invariant
            i <= spots.len(),
            home_place(spots@, 0) == home_place(spots@, i as int),
        decreases spots.len() - i,
    {
        i = i + 1;
    }
    let at: usize = if i < spots.len() {
        i
    } else {
        0
    };
    if spots.len() > 0 {
        match &spots[at].nearest {
            Some(site) => {
                return site.clone();
            },
            None => {},
        }
    }
    "KTLX".to_owned()
}

pub const PAGE_0: &'static str = r##"<!doctype html><html lang="en"><meta charset="utf-8">
<meta name="viewport" content="width=device-width,initial-scale=1">
<title>HookEcho</title>
<!-- No icon to serve, and without this the browser asks for /favicon.ico on every load and logs
     the 404 it gets. -->
<link rel="icon" href="data:,">
<style>
:root { color-scheme: dark; }
body { margin:0; font:15px/1.5 system-ui,sans-serif; background:#0e1116; color:#e6edf3;
  display:grid; grid-template-columns:minmax(320px,1fr) minmax(280px,420px); gap:16px; padding:16px; }
@media (max-width:800px) { body { grid-template-columns:1fr; } }
h1 { font-size:16px; margin:0 0 8px; font-weight:600; letter-spacing:.02em; }
img { width:100%; border-radius:10px; display:block; background:#161b22; }
.card { background:#161b22; border:1px solid #21262d; border-radius:10px; padding:12px; margin-bottom:12px; }
.spot { font-weight:600; }
.cond { color:#9aa7b4; }
.alert { margin-top:6px; padding:6px 8px; border-radius:6px; background:#3d1d1d; border-left:3px solid #f85149; }
.alert.warn { background:#3d3319; border-left-color:#d29922; }
.cell { margin-top:6px; color:#9aa7b4; }
footer { grid-column:1/-1; color:#6e7681; font-size:13px; }
a { color:#58a6ff; }
</style>
<main>
  <h1>Radar — <span id="site">"##;

pub const PAGE_1: &'static str = r##"</span></h1>
  <img id="radar" alt="radar">
</main>
<aside>
  <h1>Conditions</h1>
  <div id="spots"><div class="card">loading…</div></div>
</aside>
<footer>
  hookecho "##;

pub const PAGE_2: &'static str = r##" · <span id="when">—</span> ·
  <a href="/status.json">status</a> · <a href="/cells.json?site="##;

pub const PAGE_3: &'static str = r##"">cells</a> ·
  <a href="/loop.gif?site="##;

pub const PAGE_4: &'static str = r##"">loop</a> · <a href="/health.json">health</a> ·
  <a href="/metrics">metrics</a>
</footer>
<script>
// A token'd server is reached with `?token=`; every fetch this page makes has to carry it too.
const token = new URLSearchParams(location.search).get("token");
const q = (path, extra) => path + (path.includes("?") ? "&" : "?") +
  (token ? "token=" + encodeURIComponent(token) + "&" : "") + extra;
const site = document.getElementById("site").textContent;

function radar() {
  // The server caches a render for five minutes; the cache-buster is what stops the browser
  // holding on to it for longer than that.
  document.getElementById("radar").src = q("/snapshot.png", "site=" + site + "&size=900&t=" + Date.now());
}

function row(s) {
  const card = document.createElement("div");
  card.className = "card";
  const name = document.createElement("div");
  name.className = "spot";
  name.textContent = s.name;
  card.append(name);
  const bits = [];
  if (s.temp_f != null) bits.push(Math.round(s.temp_f) + "°F");
  if (s.dewpoint_f != null) bits.push("dew " + Math.round(s.dewpoint_f) + "°");
  if (s.wind_kt != null) bits.push((s.wind_dir || "") + " " + Math.round(s.wind_kt) + " kt");
  const cond = document.createElement("div");
  cond.className = "cond";
  cond.textContent = bits.length ? bits.join(" · ") : "no observations";
  card.append(cond);
  for (const a of s.alerts || []) {
    const el = document.createElement("div");
    el.className = "alert" + (a.escalation > 0 ? "" : " warn");
    el.textContent = a.event + (a.until ? " until " + a.until : "");
    card.append(el);
  }
  if (s.nearest_cell) {
    const c = document.createElement("div");
    c.className = "cell";
    c.textContent = "storm " + s.nearest_cell.id + " " + Math.round(s.nearest_cell.distance_km) +
      " km at " + Math.round(s.nearest_cell.bearing_deg) + "°";
    card.append(c);
  }
  return card;
}

async function refresh() {
  const box = document.getElementById("spots");
  try {
    const r = await fetch(q("/status.json", ""));
    if (!r.ok) throw new Error(r.status + "");
    const report = await r.json();
    box.replaceChildren(...report.map(row));
    document.getElementById("when").textContent = new Date().toLocaleTimeString();
  } catch (e) {
    // A failed poll must not blank the last good answer — a stale reading beats an empty page.
    document.getElementById("when").textContent = "offline (" + e.message + ")";
  }
}

radar();
refresh();
// The answers behind these are cached for a minute and five minutes; polling faster only spends
// the browser's battery.
setInterval(refresh, 60000);
setInterval(radar, 300000);
</script>
</html>"##;

/// The dashboard for a radar.
pub open spec fn page_text(site: Seq<char>, version: Seq<char>) -> Seq<char> {
    PAGE_0@ + site + PAGE_1@ + version + PAGE_2@ + site + PAGE_3@ + site + PAGE_4@
}

/// The page that `/` serves where there is no web root: a dashboard rather than a list of links.
///
/// Everything on it comes from the other endpoints, and it refreshes itself, so a spare monitor on
/// the wall stays current without anyone touching it. The rows are built in the browser with
/// `textContent`, never by pasting JSON into HTML: a location's name is whatever the user typed.
pub fn index(spots: &Vec<Spot>, version: &str) -> (r: String)
    ensures
        r@ == page_text(dashboard_site_text(spots@), version@),
{
    let site = dashboard_site(spots);
    let mut s = PAGE_0.to_owned();
    s.append(site.as_str());
    s.append(PAGE_1);
    s.append(version);
    s.append(PAGE_2);
    s.append(site.as_str());
    s.append(PAGE_3);
    s.append(site.as_str());
    s.append(PAGE_4);
    s
}

/// The dashboard shows the radar nearest to the first home; without a home, to the first location;
/// without any, one in the middle of the country.
pub proof fn dashboards_show_home(spots: Seq<Spot>, i: int)
    ensures
        0 <= i < spots.len() && spots[i].home && (forall|j: int|
            0 <= j < i ==> !(#[trigger] spots[j]).home) && spots[i].nearest is Some
            ==> dashboard_site_text(spots) == (spots[i].nearest->0)@,
        spots.len() > 0 && (forall|j: int| 0 <= j < spots.len() ==> !(#[trigger] spots[j]).home)
            && spots[0].nearest is Some ==> dashboard_site_text(spots) == (spots[0].nearest->0)@,
        spots.len() == 0 ==> dashboard_site_text(spots) == "KTLX"@,
{
    lemma_home_place(spots, 0);
}

proof fn lemma_home_place(spots: Seq<Spot>, i: int)
    requires
        0 <= i <= spots.len(),
    ensures
        i <= home_place(spots, i) <= spots.len(),
        forall|j: int| i <= j < home_place(spots, i) ==> !(#[trigger] spots[j]).home,
        home_place(spots, i) < spots.len() ==> spots[home_place(spots, i)].home,
    decreases spots.len() - i,
{
    if i < spots.len() && !spots[i].home {
        lemma_home_place(spots, i + 1);
    }
}

/// The dashboard names the radar that it shows, and the version it is of.
pub proof fn dashboards_name_their_radar(site: Seq<char>, version: Seq<char>)
    ensures
        text::holds_text(page_text(site, version), PAGE_0@ + site + PAGE_1@),
        text::holds_text(page_text(site, version), PAGE_1@ + version + PAGE_2@),
        text::ends(page_text(site, version), PAGE_3@ + site + PAGE_4@),
{
    let p = page_text(site, version);
    let none = Seq::<char>::empty();
    let r = version + PAGE_2@ + site + PAGE_3@ + site + PAGE_4@;
    assert(p =~= none + (PAGE_0@ + site + PAGE_1@) + r);
    text::lemma_holds_join(none, PAGE_0@ + site + PAGE_1@, r);
    let r2 = site + PAGE_3@ + site + PAGE_4@;
    assert(p =~= (PAGE_0@ + site) + (PAGE_1@ + version + PAGE_2@) + r2);
    text::lemma_holds_join(PAGE_0@ + site, PAGE_1@ + version + PAGE_2@, r2);
    let a = PAGE_0@ + site + PAGE_1@ + version + PAGE_2@ + site;
    assert(p =~= a + (PAGE_3@ + site + PAGE_4@));
    text::lemma_ends_join(a, PAGE_3@ + site + PAGE_4@);
}

} // verus!
