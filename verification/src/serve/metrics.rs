//! The text exposition format, hand-rolled.

use crate::serve::route::{Requests, ROUTES};
use crate::text;
use vstd::prelude::*;

verus! {

/// A character of a label value, escaped.
pub open spec fn label_char(c: char) -> Seq<char> {
    if c == '\\' {
        seq!['\\', '\\']
    } else if c == '"' {
        seq!['\\', '"']
    } else if c == '\n' {
        seq!['\\', 'n']
    } else {
        seq![c]
    }
}

/// A label value, escaped.
pub open spec fn label_text(s: Seq<char>) -> Seq<char>
    decreases s.len(),
{
    if s.len() == 0 {
        Seq::empty()
    } else {
        label_text(s.drop_last()) + label_char(s.last())
    }
}

/// A label value, escaped. Spot names are whatever the user typed into the marker dialog, and a
/// stray quote or newline there would otherwise forge label pairs, or whole metric lines, in the
/// scrape.
pub fn escape_label(s: &str) -> (r: String)
    ensures
        r@ == label_text(s@),
{
    let cs = text::chars_of(s);
    let mut out = String::new();
    let mut i: usize = 0;
    assert(out@ =~= label_text(cs@.take(0)));
    while i < cs.len()
        invariant
            i <= cs.len(),
            out@ == label_text(cs@.take(i as int)),
        decreases cs.len() - i,
    {
        let c = cs[i];
        let ghost before = out@;
        if c == '\\' {
            out.push('\\');
            out.push('\\');
        } else if c == '"' {
            out.push('\\');
            out.push('"');
        } else if c == '\n' {
            out.push('\\');
            out.push('n');
        } else {
            out.push(c);
        }
        proof {
            assert(cs@.take(i + 1).drop_last() =~= cs@.take(i as int));
            assert(cs@.take(i + 1).last() == c);
            assert(out@ =~= before + label_char(c));
        }
        i = i + 1;
    }
    assert(cs@.take(cs.len() as int) =~= s@);
    out
}

/// The label value that a reader takes from the start of `t`, up to the first quote that is not
/// escaped, and what follows that quote. `None` where there is no such quote.
pub open spec fn read_label(t: Seq<char>) -> Option<(Seq<char>, Seq<char>)>
    decreases t.len(),
{
    if t.len() == 0 {
        None
    } else if t[0] == '"' {
        Some((Seq::empty(), t.skip(1)))
    } else if t[0] == '\\' && t.len() > 1 {
        match read_label(t.skip(2)) {
            Some((s, rest)) => Some((seq![if t[1] == 'n' { '\n' } else { t[1] }] + s, rest)),
            None => None,
        }
    } else {
        match read_label(t.skip(1)) {
            Some((s, rest)) => Some((seq![t[0]] + s, rest)),
            None => None,
        }
    }
}

proof fn lemma_label_first(s: Seq<char>)
    requires
        s.len() > 0,
    ensures
        label_text(s) == label_char(s[0]) + label_text(s.drop_first()),
    decreases s.len(),
{
    if s.len() == 1 {
        assert(s.drop_last() =~= Seq::<char>::empty());
        assert(s.drop_first() =~= Seq::<char>::empty());
        assert(label_text(s) =~= label_char(s[0]) + label_text(s.drop_first()));
    } else {
        lemma_label_first(s.drop_last());
        assert(s.drop_last().drop_first() =~= s.drop_first().drop_last());
        assert(label_text(s) =~= label_char(s[0]) + (label_text(s.drop_first().drop_last())
            + label_char(s.last())));
        assert(s.drop_first().last() == s.last());
    }
}

/// An escaped label value is read back as it was, whatever it holds and whatever follows: no value
/// can close its quotes early, so none can forge a label or a metric line.
pub proof fn labels_are_read_back(s: Seq<char>, rest: Seq<char>)
    ensures
        read_label(label_text(s) + seq!['"'] + rest) == Some((s, rest)),
    decreases s.len(),
{
    let t = label_text(s) + seq!['"'] + rest;
    if s.len() == 0 {
        assert(t.skip(1) =~= rest);
        assert(s =~= Seq::<char>::empty());
    } else {
        lemma_label_first(s);
        let tail = label_text(s.drop_first()) + seq!['"'] + rest;
        labels_are_read_back(s.drop_first(), rest);
        let first = label_char(s[0]);
        assert(t =~= first + tail);
        assert(t.skip(first.len() as int) =~= tail);
        assert(t[0] == first[0]);
        if first.len() == 2 {
            assert(t[1] == first[1]);
        }
        assert(seq![s[0]] + s.drop_first() =~= s);
    }
}

/// An escaped label value stays on its line.
pub proof fn labels_stay_on_their_line(s: Seq<char>)
    ensures
        !label_text(s).contains('\n'),
    decreases s.len(),
{
    if s.len() > 0 {
        labels_stay_on_their_line(s.drop_last());
        if label_text(s).contains('\n') {
            let k = label_text(s).index_of('\n');
            let a = label_text(s.drop_last());
            if k < a.len() {
                assert(a[k] == '\n');
            } else {
                assert(label_char(s.last())[k - a.len()] == '\n');
            }
        }
    }
}

// ---------------------------------------------------------------------------------------------
// The report.

/// Gauges of the saved locations, with their numbers already written out.
#[derive(Debug)]
pub struct SpotGauges {
    /// Each location with a temperature, and that temperature.
    pub temps: Vec<(String, String)>,
    /// Each location with its alerts, and how many are active.
    pub alerts: Vec<(String, u64)>,
    /// How old the reported conditions are, in seconds.
    pub age: String,
}

/// What the proxy cache saves and holds.
#[derive(Debug)]
pub struct ProxyGauges {
    pub hits: u64,
    pub misses: u64,
    pub bytes: u64,
    pub entries: u64,
}

/// One line: a metric, one label, a value.
pub open spec fn line_text(metric: Seq<char>, label: Seq<char>, name: Seq<char>, value: Seq<
    char,
>) -> Seq<char> {
    metric + "{"@ + label + "=\""@ + label_text(name) + "\"} "@ + value + "\n"@
}

fn push_line(out: &mut String, metric: &str, label: &str, name: &str, value: &str)
    ensures
        final(out)@ == old(out)@ + line_text(metric@, label@, name@, value@),
{
    let ghost before = out@;
    let escaped = escape_label(name);
    out.append(metric);
    out.append("{");
    out.append(label);
    out.append("=\"");
    out.append(escaped.as_str());
    out.append("\"} ");
    out.append(value);
    out.append("\n");
    assert(out@ =~= before + line_text(metric@, label@, name@, value@));
}

/// The request counters of the first `n` routes.
pub open spec fn request_lines(counts: Seq<u64>, n: nat) -> Seq<char>
    decreases n,
{
    if n == 0 {
        Seq::empty()
    } else {
        request_lines(counts, (n - 1) as nat) + line_text(
            "hookecho_http_requests_total"@,
            "route"@,
            ROUTES@[n - 1]@,
            text::decimal_text(counts[n - 1] as nat),
        )
    }
}

/// Counters or gauges with names, one line each.
pub open spec fn number_lines(metric: Seq<char>, label: Seq<char>, rows: Seq<(String, u64)>) -> Seq<
    char,
>
    decreases rows.len(),
{
    if rows.len() == 0 {
        Seq::empty()
    } else {
        number_lines(metric, label, rows.drop_last()) + line_text(
            metric,
            label,
            rows.last().0@,
            text::decimal_text(rows.last().1 as nat),
        )
    }
}

/// Gauges with names and written-out values, one line each.
pub open spec fn value_lines(metric: Seq<char>, label: Seq<char>, rows: Seq<(String, String)>) -> Seq<
    char,
>
    decreases rows.len(),
{
    if rows.len() == 0 {
        Seq::empty()
    } else {
        value_lines(metric, label, rows.drop_last()) + line_text(
            metric,
            label,
            rows.last().0@,
            rows.last().1@,
        )
    }
}

fn push_numbers(out: &mut String, metric: &str, label: &str, rows: &Vec<(String, u64)>)
    ensures
        final(out)@ == old(out)@ + number_lines(metric@, label@, rows@),
{
    let ghost before = out@;
    let mut i: usize = 0;
    assert(out@ =~= before + number_lines(metric@, label@, rows@.take(0)));
    while i < rows.len()
        invariant
            i <= rows.len(),
            out@ == before + number_lines(metric@, label@, rows@.take(i as int)),
        decreases rows.len() - i,
    {
        let n = text::decimal(rows[i].1);
        push_line(out, metric, label, rows[i].0.as_str(), n.as_str());
        proof {
            let next = rows@.take(i + 1);
            assert(next.drop_last() =~= rows@.take(i as int));
            assert(next.last() == rows@[i as int]);
            assert(out@ =~= before + number_lines(metric@, label@, next));
        }
        i = i + 1;
    }
    assert(rows@.take(rows.len() as int) =~= rows@);
}

fn push_values(out: &mut String, metric: &str, label: &str, rows: &Vec<(String, String)>)
    ensures
        final(out)@ == old(out)@ + value_lines(metric@, label@, rows@),
{
    let ghost before = out@;
    let mut i: usize = 0;
    assert(out@ =~= before + value_lines(metric@, label@, rows@.take(0)));
    while i < rows.len()
        invariant
            i <= rows.len(),
            out@ == before + value_lines(metric@, label@, rows@.take(i as int)),
        decreases rows.len() - i,
    {
        push_line(out, metric, label, rows[i].0.as_str(), rows[i].1.as_str());
        proof {
            let next = rows@.take(i + 1);
            assert(next.drop_last() =~= rows@.take(i as int));
            assert(next.last() == rows@[i as int]);
            assert(out@ =~= before + value_lines(metric@, label@, next));
        }
        i = i + 1;
    }
    assert(rows@.take(rows.len() as int) =~= rows@);
}

/// A number without labels: what it is, its kind, and its value.
pub open spec fn plain_metric(help: Seq<char>, kind: Seq<char>, name: Seq<char>, n: u64) -> Seq<
    char,
> {
    help + kind + name + " "@ + text::decimal_text(n as nat) + "\n"@
}

fn push_plain(out: &mut String, help: &str, kind: &str, name: &str, n: u64)
    ensures
        final(out)@ == old(out)@ + plain_metric(help@, kind@, name@, n),
{
    let ghost before = out@;
    let digits = text::decimal(n);
    out.append(help);
    out.append(kind);
    out.append(name);
    out.append(" ");
    out.append(digits.as_str());
    out.append("\n");
    assert(out@ =~= before + plain_metric(help@, kind@, name@, n));
}

/// The counters: requests by route, and the program's own statistics.
pub open spec fn counters_text(counts: Seq<u64>, stats: Seq<(String, u64)>) -> Seq<char> {
    "# HELP hookecho_http_requests_total Requests served, by route.\n"@
        + "# TYPE hookecho_http_requests_total counter\n"@ + request_lines(counts, 10)
        + "# HELP hookecho_stats_total Perf counters (wxdata::stats).\n"@
        + "# TYPE hookecho_stats_total counter\n"@ + number_lines(
        "hookecho_stats_total"@,
        "counter"@,
        stats,
    )
}

/// What the proxy cache saves: a hit is an upstream fetch that did not happen.
pub open spec fn proxy_text(p: ProxyGauges) -> Seq<char> {
    plain_metric(
        "# HELP hookecho_proxy_cache_hits_total Proxied responses served without an upstream fetch.\n"@,
        "# TYPE hookecho_proxy_cache_hits_total counter\n"@,
        "hookecho_proxy_cache_hits_total"@,
        p.hits,
    ) + plain_metric(
        "# HELP hookecho_proxy_cache_misses_total Proxied responses that needed an upstream fetch.\n"@,
        "# TYPE hookecho_proxy_cache_misses_total counter\n"@,
        "hookecho_proxy_cache_misses_total"@,
        p.misses,
    ) + plain_metric(
        "# HELP hookecho_proxy_cache_bytes Bytes the proxy cache is holding.\n"@,
        "# TYPE hookecho_proxy_cache_bytes gauge\n"@,
        "hookecho_proxy_cache_bytes"@,
        p.bytes,
    ) + plain_metric(
        "# HELP hookecho_proxy_cache_entries Responses the proxy cache is holding.\n"@,
        "# TYPE hookecho_proxy_cache_entries gauge\n"@,
        "hookecho_proxy_cache_entries"@,
        p.entries,
    )
}

/// The saved locations.
pub open spec fn spots_text(s: SpotGauges) -> Seq<char> {
    "# HELP hookecho_spot_temp_c Current temperature at a saved location.\n"@
        + "# TYPE hookecho_spot_temp_c gauge\n"@ + value_lines(
        "hookecho_spot_temp_c"@,
        "spot"@,
        s.temps@,
    ) + "# HELP hookecho_spot_alerts Active NWS alerts within a location's radius.\n"@
        + "# TYPE hookecho_spot_alerts gauge\n"@ + number_lines(
        "hookecho_spot_alerts"@,
        "spot"@,
        s.alerts@,
    ) + "# HELP hookecho_data_age_seconds How stale the reported conditions are.\n"@
        + "# TYPE hookecho_data_age_seconds gauge\n"@ + "hookecho_data_age_seconds "@ + s.age@
        + "\n"@
}

/// The whole scrape. A feed being down is not a reason to fail it: the counters still answer.
pub open spec fn metrics_text(
    counts: Seq<u64>,
    stats: Seq<(String, u64)>,
    p: ProxyGauges,
    spots: Option<SpotGauges>,
) -> Seq<char> {
    counters_text(counts, stats) + proxy_text(p) + match spots {
        Some(s) => spots_text(s),
        None => Seq::<char>::empty(),
    }
}

fn counters_part(requests: &Requests, stats: &Vec<(String, u64)>) -> (out: String)
    ensures
        out@ == counters_text(requests.counts@, stats@),
{
    let ghost counts = requests.counts@;
    let mut out = String::new();
    out.append("# HELP hookecho_http_requests_total Requests served, by route.\n");
    out.append("# TYPE hookecho_http_requests_total counter\n");
    let ghost before = out@;
    let mut i: usize = 0;
    assert(out@ =~= before + request_lines(counts, 0));
    while i < 10
        invariant
            i <= 10,
            counts == requests.counts@,
            out@ == before + request_lines(counts, i as nat),
        decreases 10 - i,
    {
        let n = text::decimal(requests.counts[i]);
        push_line(&mut out, "hookecho_http_requests_total", "route", ROUTES[i], n.as_str());
        i = i + 1;
        assert(out@ =~= before + request_lines(counts, i as nat));
    }
    out.append("# HELP hookecho_stats_total Perf counters (wxdata::stats).\n");
    out.append("# TYPE hookecho_stats_total counter\n");
    push_numbers(&mut out, "hookecho_stats_total", "counter", stats);
    assert(out@ =~= counters_text(counts, stats@));
    out
}

fn proxy_part(proxy: &ProxyGauges) -> (out: String)
    ensures
        out@ == proxy_text(*proxy),
{
    let mut out = String::new();
    push_plain(
        &mut out,
        "# HELP hookecho_proxy_cache_hits_total Proxied responses served without an upstream fetch.\n",
        "# TYPE hookecho_proxy_cache_hits_total counter\n",
        "hookecho_proxy_cache_hits_total",
        proxy.hits,
    );
    push_plain(
        &mut out,
        "# HELP hookecho_proxy_cache_misses_total Proxied responses that needed an upstream fetch.\n",
        "# TYPE hookecho_proxy_cache_misses_total counter\n",
        "hookecho_proxy_cache_misses_total",
        proxy.misses,
    );
    push_plain(
        &mut out,
        "# HELP hookecho_proxy_cache_bytes Bytes the proxy cache is holding.\n",
        "# TYPE hookecho_proxy_cache_bytes gauge\n",
        "hookecho_proxy_cache_bytes",
        proxy.bytes,
    );
    push_plain(
        &mut out,
        "# HELP hookecho_proxy_cache_entries Responses the proxy cache is holding.\n",
        "# TYPE hookecho_proxy_cache_entries gauge\n",
        "hookecho_proxy_cache_entries",
        proxy.entries,
    );
    assert(out@ =~= proxy_text(*proxy));
    out
}

fn spots_part(s: &SpotGauges) -> (out: String)
    ensures
        out@ == spots_text(*s),
{
    let mut out = String::new();
    out.append("# HELP hookecho_spot_temp_c Current temperature at a saved location.\n");
    out.append("# TYPE hookecho_spot_temp_c gauge\n");
    push_values(&mut out, "hookecho_spot_temp_c", "spot", &s.temps);
    out.append(
        "# HELP hookecho_spot_alerts Active NWS alerts within a location's radius.\n",
    );
    out.append("# TYPE hookecho_spot_alerts gauge\n");
    push_numbers(&mut out, "hookecho_spot_alerts", "spot", &s.alerts);
    out.append("# HELP hookecho_data_age_seconds How stale the reported conditions are.\n");
    out.append("# TYPE hookecho_data_age_seconds gauge\n");
    out.append("hookecho_data_age_seconds ");
    out.append(s.age.as_str());
    out.append("\n");
    assert(out@ =~= spots_text(*s));
    out
}

/// The whole scrape: request counters, statistics, the proxy cache, and the saved locations where
/// their report could be had.
pub fn metrics(
    requests: &Requests,
    stats: &Vec<(String, u64)>,
    proxy: &ProxyGauges,
    spots: &Option<SpotGauges>,
) -> (r: String)
    ensures
        r@ == metrics_text(requests.counts@, stats@, *proxy, *spots),
{
    let mut out = counters_part(requests, stats);
    let part = proxy_part(proxy);
    out.append(part.as_str());
    match spots {
        None => {
            assert(out@ =~= metrics_text(requests.counts@, stats@, *proxy, *spots));
        },
        Some(s) => {
            let part = spots_part(s);
            out.append(part.as_str());
        },
    }
    out
}

// ---------------------------------------------------------------------------------------------
// What a scrape tells.

proof fn lemma_request_held(counts: Seq<u64>, n: nat, i: int)
    requires
        0 <= i < n,
    ensures
        text::holds_text(
            request_lines(counts, n),
            line_text(
                "hookecho_http_requests_total"@,
                "route"@,
                ROUTES@[i]@,
                text::decimal_text(counts[i] as nat),
            ),
        ),
    decreases n,
{
    let head = request_lines(counts, (n - 1) as nat);
    let line = line_text(
        "hookecho_http_requests_total"@,
        "route"@,
        ROUTES@[n - 1]@,
        text::decimal_text(counts[n - 1] as nat),
    );
    if i < n - 1 {
        lemma_request_held(counts, (n - 1) as nat, i);
        text::lemma_holds_grow(
            head,
            line_text(
                "hookecho_http_requests_total"@,
                "route"@,
                ROUTES@[i]@,
                text::decimal_text(counts[i] as nat),
            ),
            line,
        );
    } else {
        let none = Seq::<char>::empty();
        assert(request_lines(counts, n) =~= head + line + none);
        text::lemma_holds_join(head, line, none);
    }
}

/// A line names its metric, its label with the name in quotes, and its value.
pub proof fn lines_name_their_value(
    metric: Seq<char>,
    label: Seq<char>,
    name: Seq<char>,
    value: Seq<char>,
)
    ensures
        text::starts(line_text(metric, label, name, value), metric + "{"@ + label + "=\""@),
        text::ends(line_text(metric, label, name, value), "\"} "@ + value + "\n"@),
        read_label(
            line_text(metric, label, name, value).skip(
                (metric + "{"@ + label + "=\""@).len() as int,
            ),
        ) == Some((name, "} "@ + value + "\n"@)),
{
    reveal_strlit("\"} ");
    reveal_strlit("} ");
    let line = line_text(metric, label, name, value);
    let head = metric + "{"@ + label + "=\""@;
    let tail = label_text(name) + "\"} "@ + value + "\n"@;
    assert(line =~= head + tail);
    assert(line.take(head.len() as int) =~= head);
    let end = "\"} "@ + value + "\n"@;
    assert(line =~= (head + label_text(name)) + end);
    text::lemma_ends_join(head + label_text(name), end);
    assert(line.skip(head.len() as int) =~= tail);
    let rest = "} "@ + value + "\n"@;
    assert("\"} "@ =~= seq!['"'] + "} "@);
    assert(tail =~= label_text(name) + seq!['"'] + rest);
    labels_are_read_back(name, rest);
}

/// Every route is counted under its own name.
pub proof fn every_route_is_reported(
    counts: Seq<u64>,
    stats: Seq<(String, u64)>,
    p: ProxyGauges,
    spots: Option<SpotGauges>,
    i: int,
)
    requires
        0 <= i < 10,
    ensures
        text::holds_text(
            metrics_text(counts, stats, p, spots),
            line_text(
                "hookecho_http_requests_total"@,
                "route"@,
                ROUTES@[i]@,
                text::decimal_text(counts[i] as nat),
            ),
        ),
{
    lemma_request_held(counts, 10, i);
    let line = line_text(
        "hookecho_http_requests_total"@,
        "route"@,
        ROUTES@[i]@,
        text::decimal_text(counts[i] as nat),
    );
    let a = "# HELP hookecho_http_requests_total Requests served, by route.\n"@
        + "# TYPE hookecho_http_requests_total counter\n"@;
    let b = "# HELP hookecho_stats_total Perf counters (wxdata::stats).\n"@;
    let c = "# TYPE hookecho_stats_total counter\n"@;
    let d = number_lines("hookecho_stats_total"@, "counter"@, stats);
    let lines = request_lines(counts, 10);
    text::lemma_holds_grow(lines, line, a);
    text::lemma_holds_grow(a + lines, line, b);
    text::lemma_holds_grow(a + lines + b, line, c);
    text::lemma_holds_grow(a + lines + b + c, line, d);
    let all = counters_text(counts, stats);
    text::lemma_holds_grow(all, line, proxy_text(p));
    let last = match spots {
        Some(s) => spots_text(s),
        None => Seq::<char>::empty(),
    };
    text::lemma_holds_grow(all + proxy_text(p), line, last);
}

/// Named numbers are listed in order, one line each.
pub proof fn numbers_are_listed_in_order(
    metric: Seq<char>,
    label: Seq<char>,
    a: Seq<(String, u64)>,
    b: Seq<(String, u64)>,
)
    ensures
        a.len() == 0 ==> number_lines(metric, label, a) == Seq::<char>::empty(),
        a.len() == 1 ==> number_lines(metric, label, a) == line_text(
            metric,
            label,
            a[0].0@,
            text::decimal_text(a[0].1 as nat),
        ),
        number_lines(metric, label, a + b) == number_lines(metric, label, a) + number_lines(
            metric,
            label,
            b,
        ),
    decreases b.len(),
{
    if a.len() == 1 {
        assert(a.drop_last() =~= Seq::<(String, u64)>::empty());
        assert(number_lines(metric, label, a.drop_last()) == Seq::<char>::empty());
        assert(number_lines(metric, label, a) =~= line_text(
            metric,
            label,
            a[0].0@,
            text::decimal_text(a[0].1 as nat),
        ));
    }
    if b.len() == 0 {
        assert(a + b =~= a);
        assert(number_lines(metric, label, a + b) =~= number_lines(metric, label, a)
            + number_lines(metric, label, b));
    } else {
        assert((a + b).drop_last() =~= a + b.drop_last());
        assert((a + b).last() == b.last());
        numbers_are_listed_in_order(metric, label, a, b.drop_last());
        assert(number_lines(metric, label, a + b) =~= number_lines(metric, label, a)
            + number_lines(metric, label, b));
    }
}

/// Named values are listed in order, one line each.
pub proof fn values_are_listed_in_order(
    metric: Seq<char>,
    label: Seq<char>,
    a: Seq<(String, String)>,
    b: Seq<(String, String)>,
)
    ensures
        a.len() == 0 ==> value_lines(metric, label, a) == Seq::<char>::empty(),
        a.len() == 1 ==> value_lines(metric, label, a) == line_text(
            metric,
            label,
            a[0].0@,
            a[0].1@,
        ),
        value_lines(metric, label, a + b) == value_lines(metric, label, a) + value_lines(
            metric,
            label,
            b,
        ),
    decreases b.len(),
{
    if a.len() == 1 {
        assert(a.drop_last() =~= Seq::<(String, String)>::empty());
        assert(value_lines(metric, label, a.drop_last()) == Seq::<char>::empty());
        assert(value_lines(metric, label, a) =~= line_text(metric, label, a[0].0@, a[0].1@));
    }
    if b.len() == 0 {
        assert(a + b =~= a);
        assert(value_lines(metric, label, a + b) =~= value_lines(metric, label, a) + value_lines(
            metric,
            label,
            b,
        ));
    } else {
        assert((a + b).drop_last() =~= a + b.drop_last());
        assert((a + b).last() == b.last());
        values_are_listed_in_order(metric, label, a, b.drop_last());
        assert(value_lines(metric, label, a + b) =~= value_lines(metric, label, a) + value_lines(
            metric,
            label,
            b,
        ));
    }
}

proof fn lemma_plain(help: Seq<char>, kind: Seq<char>, name: Seq<char>, n: u64)
    ensures
        text::holds_text(
            plain_metric(help, kind, name, n),
            name + " "@ + text::decimal_text(n as nat) + "\n"@,
        ),
{
    let line = name + " "@ + text::decimal_text(n as nat) + "\n"@;
    let none = Seq::<char>::empty();
    assert(plain_metric(help, kind, name, n) =~= (help + kind) + line + none);
    text::lemma_holds_join(help + kind, line, none);
}

proof fn lemma_held_among(a: Seq<char>, b: Seq<char>, c: Seq<char>, d: Seq<char>, t: Seq<char>)
    ensures
        text::holds_text(a, t) ==> text::holds_text(a + b + c + d, t),
        text::holds_text(b, t) ==> text::holds_text(a + b + c + d, t),
        text::holds_text(c, t) ==> text::holds_text(a + b + c + d, t),
        text::holds_text(d, t) ==> text::holds_text(a + b + c + d, t),
{
    if text::holds_text(a, t) {
        text::lemma_holds_grow(a, t, b);
        text::lemma_holds_grow(a + b, t, c);
        text::lemma_holds_grow(a + b + c, t, d);
    }
    if text::holds_text(b, t) {
        text::lemma_holds_grow(b, t, a);
        text::lemma_holds_grow(a + b, t, c);
        text::lemma_holds_grow(a + b + c, t, d);
    }
    if text::holds_text(c, t) {
        text::lemma_holds_grow(c, t, a + b);
        text::lemma_holds_grow(a + b + c, t, d);
    }
    if text::holds_text(d, t) {
        text::lemma_holds_grow(d, t, a + b + c);
    }
}

/// What the proxy cache saves and holds is told, each number under its own name, with or without
/// the saved locations.
pub proof fn the_proxy_is_reported(
    counts: Seq<u64>,
    stats: Seq<(String, u64)>,
    p: ProxyGauges,
    spots: Option<SpotGauges>,
)
    ensures
        text::holds_text(
            metrics_text(counts, stats, p, spots),
            "hookecho_proxy_cache_hits_total"@ + " "@ + text::decimal_text(p.hits as nat) + "\n"@,
        ),
        text::holds_text(
            metrics_text(counts, stats, p, spots),
            "hookecho_proxy_cache_misses_total"@ + " "@ + text::decimal_text(p.misses as nat) + "\n"@,
        ),
        text::holds_text(
            metrics_text(counts, stats, p, spots),
            "hookecho_proxy_cache_bytes"@ + " "@ + text::decimal_text(p.bytes as nat) + "\n"@,
        ),
        text::holds_text(
            metrics_text(counts, stats, p, spots),
            "hookecho_proxy_cache_entries"@ + " "@ + text::decimal_text(p.entries as nat) + "\n"@,
        ),
{
    let all = metrics_text(counts, stats, p, spots);
    let head = counters_text(counts, stats);
    let mid = proxy_text(p);
    let last = match spots {
        Some(s) => spots_text(s),
        None => Seq::<char>::empty(),
    };
    let a = plain_metric(
        "# HELP hookecho_proxy_cache_hits_total Proxied responses served without an upstream fetch.\n"@,
        "# TYPE hookecho_proxy_cache_hits_total counter\n"@,
        "hookecho_proxy_cache_hits_total"@,
        p.hits,
    );
    let b = plain_metric(
        "# HELP hookecho_proxy_cache_misses_total Proxied responses that needed an upstream fetch.\n"@,
        "# TYPE hookecho_proxy_cache_misses_total counter\n"@,
        "hookecho_proxy_cache_misses_total"@,
        p.misses,
    );
    let c = plain_metric(
        "# HELP hookecho_proxy_cache_bytes Bytes the proxy cache is holding.\n"@,
        "# TYPE hookecho_proxy_cache_bytes gauge\n"@,
        "hookecho_proxy_cache_bytes"@,
        p.bytes,
    );
    let d = plain_metric(
        "# HELP hookecho_proxy_cache_entries Responses the proxy cache is holding.\n"@,
        "# TYPE hookecho_proxy_cache_entries gauge\n"@,
        "hookecho_proxy_cache_entries"@,
        p.entries,
    );
    let line = "hookecho_proxy_cache_hits_total"@ + " "@ + text::decimal_text(p.hits as nat) + "\n"@;
    lemma_plain(
        "# HELP hookecho_proxy_cache_hits_total Proxied responses served without an upstream fetch.\n"@,
        "# TYPE hookecho_proxy_cache_hits_total counter\n"@,
        "hookecho_proxy_cache_hits_total"@,
        p.hits,
    );
    lemma_held_among(a, b, c, d, line);
    text::lemma_holds_grow(mid, line, head);
    text::lemma_holds_grow(head + mid, line, last);
    let line = "hookecho_proxy_cache_misses_total"@ + " "@ + text::decimal_text(p.misses as nat) + "\n"@;
    lemma_plain(
        "# HELP hookecho_proxy_cache_misses_total Proxied responses that needed an upstream fetch.\n"@,
        "# TYPE hookecho_proxy_cache_misses_total counter\n"@,
        "hookecho_proxy_cache_misses_total"@,
        p.misses,
    );
    lemma_held_among(a, b, c, d, line);
    text::lemma_holds_grow(mid, line, head);
    text::lemma_holds_grow(head + mid, line, last);
    let line = "hookecho_proxy_cache_bytes"@ + " "@ + text::decimal_text(p.bytes as nat) + "\n"@;
    lemma_plain(
        "# HELP hookecho_proxy_cache_bytes Bytes the proxy cache is holding.\n"@,
        "# TYPE hookecho_proxy_cache_bytes gauge\n"@,
        "hookecho_proxy_cache_bytes"@,
        p.bytes,
    );
    lemma_held_among(a, b, c, d, line);
    text::lemma_holds_grow(mid, line, head);
    text::lemma_holds_grow(head + mid, line, last);
    let line = "hookecho_proxy_cache_entries"@ + " "@ + text::decimal_text(p.entries as nat) + "\n"@;
    lemma_plain(
        "# HELP hookecho_proxy_cache_entries Responses the proxy cache is holding.\n"@,
        "# TYPE hookecho_proxy_cache_entries gauge\n"@,
        "hookecho_proxy_cache_entries"@,
        p.entries,
    );
    lemma_held_among(a, b, c, d, line);
    text::lemma_holds_grow(mid, line, head);
    text::lemma_holds_grow(head + mid, line, last);
}

/// The saved locations are told with their temperatures, their alerts, and how old that is.
pub proof fn locations_are_reported(s: SpotGauges)
    ensures
        text::holds_text(spots_text(s), "# TYPE hookecho_spot_temp_c gauge\n"@ + value_lines("hookecho_spot_temp_c"@, "spot"@, s.temps@)),
        text::holds_text(spots_text(s), "# TYPE hookecho_spot_alerts gauge\n"@ + number_lines("hookecho_spot_alerts"@, "spot"@, s.alerts@)),
        text::holds_text(spots_text(s), "hookecho_data_age_seconds "@ + s.age@),
{
    let parts: Seq<Seq<char>> = seq![
        "# HELP hookecho_spot_temp_c Current temperature at a saved location.\n"@,
        "# TYPE hookecho_spot_temp_c gauge\n"@,
        value_lines("hookecho_spot_temp_c"@, "spot"@, s.temps@),
        "# HELP hookecho_spot_alerts Active NWS alerts within a location's radius.\n"@,
        "# TYPE hookecho_spot_alerts gauge\n"@,
        number_lines("hookecho_spot_alerts"@, "spot"@, s.alerts@),
        "# HELP hookecho_data_age_seconds How stale the reported conditions are.\n"@,
        "# TYPE hookecho_data_age_seconds gauge\n"@,
        "hookecho_data_age_seconds "@,
        s.age@,
        "\n"@,
    ];
    let p0 = Seq::<Seq<char>>::empty();
    let t0 = Seq::<char>::empty();
    assert(p0.flatten() =~= t0);
    let p1 = p0.push("# HELP hookecho_spot_temp_c Current temperature at a saved location.\n"@);
    p0.lemma_flatten_push("# HELP hookecho_spot_temp_c Current temperature at a saved location.\n"@);
    let p2 = p1.push("# TYPE hookecho_spot_temp_c gauge\n"@);
    p1.lemma_flatten_push("# TYPE hookecho_spot_temp_c gauge\n"@);
    let p3 = p2.push(value_lines("hookecho_spot_temp_c"@, "spot"@, s.temps@));
    p2.lemma_flatten_push(value_lines("hookecho_spot_temp_c"@, "spot"@, s.temps@));
    let p4 = p3.push("# HELP hookecho_spot_alerts Active NWS alerts within a location's radius.\n"@);
    p3.lemma_flatten_push("# HELP hookecho_spot_alerts Active NWS alerts within a location's radius.\n"@);
    let p5 = p4.push("# TYPE hookecho_spot_alerts gauge\n"@);
    p4.lemma_flatten_push("# TYPE hookecho_spot_alerts gauge\n"@);
    let p6 = p5.push(number_lines("hookecho_spot_alerts"@, "spot"@, s.alerts@));
    p5.lemma_flatten_push(number_lines("hookecho_spot_alerts"@, "spot"@, s.alerts@));
    let p7 = p6.push("# HELP hookecho_data_age_seconds How stale the reported conditions are.\n"@);
    p6.lemma_flatten_push("# HELP hookecho_data_age_seconds How stale the reported conditions are.\n"@);
    let p8 = p7.push("# TYPE hookecho_data_age_seconds gauge\n"@);
    p7.lemma_flatten_push("# TYPE hookecho_data_age_seconds gauge\n"@);
    let p9 = p8.push("hookecho_data_age_seconds "@);
    p8.lemma_flatten_push("hookecho_data_age_seconds "@);
    let p10 = p9.push(s.age@);
    p9.lemma_flatten_push(s.age@);
    let p11 = p10.push("\n"@);
    p10.lemma_flatten_push("\n"@);
    assert(p1.flatten() =~= "# HELP hookecho_spot_temp_c Current temperature at a saved location.\n"@);
    assert(p11.flatten() == spots_text(s));
    assert(p11 =~= parts);
    text::lemma_parts_are_held(parts, 1);
    text::lemma_parts_are_held(parts, 4);
    text::lemma_parts_are_held(parts, 8);
}

} // verus!
