//! The three JSON views of one status report: all of it, the alerts alone, and all but the alerts.

use crate::serve::json::quoted;
use crate::serve::reply::json_string;
use crate::text;
use vstd::prelude::*;

verus! {

/// What a status request asks to see.
#[derive(Clone, Copy, Debug, PartialEq, Eq, Structural)]
pub enum Shown {
    Status,
    Alerts,
    Obs,
}

impl Shown {
    /// The view that a path names; everything is shown where it names neither of the others.
    pub open spec fn named(path: Seq<char>) -> Shown {
        if path == "/alerts.json"@ {
            Shown::Alerts
        } else if path == "/obs.json"@ {
            Shown::Obs
        } else {
            Shown::Status
        }
    }

    /// The view that a path names.
    pub fn of(path: &str) -> (v: Shown)
        ensures
            v == Shown::named(path@),
    {
        if text::same(path, "/alerts.json") {
            Shown::Alerts
        } else if text::same(path, "/obs.json") {
            Shown::Obs
        } else {
            Shown::Status
        }
    }
}

/// One location of a status report. Values are texts, as JSON writes them.
#[derive(Debug)]
pub struct Location {
    pub name: String,
    /// The list of its alerts.
    pub alerts: String,
    /// All of it, as one JSON object.
    pub whole: String,
    /// Its keys, each with its value.
    pub fields: Vec<(String, String)>,
}

/// A key and a value, as texts.
pub type Field = (Seq<char>, Seq<char>);

/// The fields as texts.
pub open spec fn field_texts(fields: Seq<(String, String)>) -> Seq<Field> {
    fields.map_values(|f: (String, String)| (f.0@, f.1@))
}

// ---------------------------------------------------------------------------------------------
// The order of keys.

/// `a` comes before `b` in the order of their characters.
pub open spec fn comes_before(a: Seq<char>, b: Seq<char>) -> bool
    decreases b.len(),
{
    if b.len() == 0 {
        false
    } else if a.len() == 0 {
        true
    } else if a[0] != b[0] {
        (a[0] as u32) < (b[0] as u32)
    } else {
        comes_before(a.skip(1), b.skip(1))
    }
}

fn is_before(a: &str, b: &str) -> (r: bool)
    ensures
        r == comes_before(a@, b@),
{
    let x = text::chars_of(a);
    let y = text::chars_of(b);
    let mut i: usize = 0;
    assert(a@.skip(0) =~= a@ && b@.skip(0) =~= b@);
    while i < x.len() && i < y.len()
        invariant
            x@ == a@,
            y@ == b@,
            i <= x.len(),
            i <= y.len(),
            comes_before(a@, b@) == comes_before(a@.skip(i as int), b@.skip(i as int)),
        decreases x.len() - i,
    {
        assert(a@.skip(i as int).skip(1) =~= a@.skip(i + 1));
        assert(b@.skip(i as int).skip(1) =~= b@.skip(i + 1));
        if x[i] != y[i] {
            return (x[i] as u32) < (y[i] as u32);
        }
        i = i + 1;
    }
    i < y.len()
}

proof fn lemma_codes_tell(a: char, b: char)
    requires
        a != b,
    ensures
        a as u32 != b as u32,
{
}

/// The order is one: of two different texts exactly one comes before the other.
proof fn lemma_order(a: Seq<char>, b: Seq<char>)
    ensures
        comes_before(a, b) ==> !comes_before(b, a) && a != b,
        a != b ==> comes_before(a, b) || comes_before(b, a),
    decreases b.len(),
{
    if a.len() > 0 && b.len() > 0 {
        lemma_order(a.skip(1), b.skip(1));
        if a[0] != b[0] {
            lemma_codes_tell(a[0], b[0]);
        }
        if a[0] == b[0] && a != b {
            assert(a =~= seq![a[0]] + a.skip(1));
            assert(b =~= seq![b[0]] + b.skip(1));
            assert(a.skip(1) != b.skip(1));
        }
    } else if a.len() == 0 && b.len() == 0 {
        assert(a =~= b);
    }
}

proof fn lemma_order_goes_on(a: Seq<char>, b: Seq<char>, c: Seq<char>)
    requires
        comes_before(a, b),
        comes_before(b, c),
    ensures
        comes_before(a, c),
    decreases c.len(),
{
    if a.len() > 0 && a[0] == b[0] && b[0] == c[0] {
        lemma_order_goes_on(a.skip(1), b.skip(1), c.skip(1));
    }
}

// ---------------------------------------------------------------------------------------------
// Objects.

/// The fields with `value` under `key`: in place of what was there, else where its key belongs.
pub open spec fn put_in(fields: Seq<Field>, key: Seq<char>, value: Seq<char>) -> Seq<Field>
    decreases fields.len(),
{
    if fields.len() == 0 || comes_before(fields.last().0, key) {
        fields.push((key, value))
    } else if fields.last().0 == key {
        fields.drop_last().push((key, value))
    } else {
        put_in(fields.drop_last(), key, value).push(fields.last())
    }
}

/// The fields but the alerts, each key once and in order, with the last value it was given.
pub open spec fn observed(fields: Seq<Field>) -> Seq<Field>
    decreases fields.len(),
{
    if fields.len() == 0 {
        Seq::empty()
    } else {
        let rest = observed(fields.drop_last());
        if fields.last().0 == "alerts"@ {
            rest
        } else {
            put_in(rest, fields.last().0, fields.last().1)
        }
    }
}

fn put(fields: &mut Vec<(String, String)>, key: &str, value: &str)
    ensures
        field_texts(final(fields)@) == put_in(field_texts(old(fields)@), key@, value@),
{
    let ghost was = field_texts(fields@);
    let mut i: usize = fields.len();
    assert(was.take(was.len() as int) =~= was);
    assert(was.skip(was.len() as int) =~= Seq::<Field>::empty());
    assert(put_in(was, key@, value@) =~= put_in(was, key@, value@) + was.skip(was.len() as int));
    while i > 0 && !is_before(fields[i - 1].0.as_str(), key)
        invariant
            i <= fields.len(),
            was == field_texts(fields@),
            fields@ == old(fields)@,
            put_in(was, key@, value@) == put_in(was.take(i as int), key@, value@) + was.skip(
                i as int,
            ),
        decreases i,
    {
        proof {
            assert(was.take(i as int).drop_last() =~= was.take(i - 1));
            assert(was.take(i as int).last() == was[i - 1]);
            assert(was[i - 1] == (fields@[i - 1].0@, fields@[i - 1].1@));
        }
        if text::same(fields[i - 1].0.as_str(), key) {
            let at: usize = i - 1;
            fields.set(at, (key.to_owned(), value.to_owned()));
            assert(field_texts(fields@) =~= was.take(at as int).push((key@, value@)) + was.skip(
                i as int,
            ));
            return;
        }
        proof {
            assert(put_in(was.take(i as int), key@, value@) + was.skip(i as int) =~= put_in(
                was.take(i - 1),
                key@,
                value@,
            ) + was.skip(i - 1));
        }
        i = i - 1;
    }
    proof {
        if i > 0 {
            assert(was.take(i as int).last() == was[i - 1]);
            assert(was[i - 1] == (fields@[i - 1].0@, fields@[i - 1].1@));
        }
    }
    fields.insert(i, (key.to_owned(), value.to_owned()));
    assert(field_texts(fields@) =~= was.take(i as int).push((key@, value@)) + was.skip(i as int));
}

fn observe(fields: &Vec<(String, String)>) -> (r: Vec<(String, String)>)
    ensures
        field_texts(r@) == observed(field_texts(fields@)),
{
    let ghost all = field_texts(fields@);
    let mut out: Vec<(String, String)> = Vec::new();
    let mut i: usize = 0;
    assert(field_texts(out@) =~= observed(all.take(0)));
    while i < fields.len()
        invariant
            i <= fields.len(),
            all == field_texts(fields@),
            field_texts(out@) == observed(all.take(i as int)),
        decreases fields.len() - i,
    {
        proof {
            assert(all.take(i + 1).drop_last() =~= all.take(i as int));
            assert(all.take(i + 1).last() == all[i as int]);
            assert(all[i as int] == (fields@[i as int].0@, fields@[i as int].1@));
        }
        if !text::same(fields[i].0.as_str(), "alerts") {
            put(&mut out, fields[i].0.as_str(), fields[i].1.as_str());
        }
        i = i + 1;
    }
    assert(all.take(all.len() as int) =~= all);
    out
}

/// The fields with commas between them.
pub open spec fn fields_text(fields: Seq<Field>) -> Seq<char>
    decreases fields.len(),
{
    if fields.len() == 0 {
        ""@
    } else {
        fields_text(fields.drop_last()) + (if fields.len() == 1 {
            ""@
        } else {
            ","@
        }) + quoted(fields.last().0) + ":"@ + fields.last().1
    }
}

fn object_json(fields: &Vec<(String, String)>) -> (r: String)
    ensures
        r@ == "{"@ + fields_text(field_texts(fields@)) + "}"@,
{
    let ghost all = field_texts(fields@);
    let mut inner = "".to_owned();
    let mut i: usize = 0;
    assert(all.take(0) =~= Seq::<Field>::empty());
    while i < fields.len()
        invariant
            i <= fields.len(),
            all == field_texts(fields@),
            inner@ == fields_text(all.take(i as int)),
        decreases fields.len() - i,
    {
        proof {
            assert(all.take(i + 1).drop_last() =~= all.take(i as int));
            assert(all.take(i + 1).last() == all[i as int]);
            assert(all[i as int] == (fields@[i as int].0@, fields@[i as int].1@));
        }
        let gap = if i == 0 {
            ""
        } else {
            ","
        };
        let key = json_string(fields[i].0.as_str());
        inner.append(gap);
        inner.append(key.as_str());
        inner.append(":");
        inner.append(fields[i].1.as_str());
        i = i + 1;
    }
    assert(all.take(all.len() as int) =~= all);
    let mut s = "{".to_owned();
    s.append(inner.as_str());
    s.append("}");
    s
}

// ---------------------------------------------------------------------------------------------
// The views.

/// One location in a view.
pub open spec fn location_text(view: Shown, l: Location) -> Seq<char> {
    match view {
        Shown::Status => l.whole@,
        Shown::Alerts => "{\"alerts\":"@ + l.alerts@ + ",\"name\":"@ + quoted(l.name@) + "}"@,
        Shown::Obs => "{"@ + fields_text(observed(field_texts(l.fields@))) + "}"@,
    }
}

fn location_json(view: Shown, l: &Location) -> (r: String)
    ensures
        r@ == location_text(view, *l),
{
    match view {
        Shown::Status => l.whole.clone(),
        Shown::Alerts => {
            let mut s = "{\"alerts\":".to_owned();
            s.append(l.alerts.as_str());
            s.append(",\"name\":");
            let name = json_string(l.name.as_str());
            s.append(name.as_str());
            s.append("}");
            s
        },
        Shown::Obs => {
            let fields = observe(&l.fields);
            object_json(&fields)
        },
    }
}

/// The first `n` locations in a view, with commas between them.
pub open spec fn locations_text(view: Shown, report: Seq<Location>, n: nat) -> Seq<char>
    decreases n,
{
    if n == 0 {
        ""@
    } else {
        locations_text(view, report, (n - 1) as nat) + (if n == 1 {
            ""@
        } else {
            ","@
        }) + location_text(view, report[n - 1])
    }
}

/// A report in a view, on the wire: a list with one object for each location, in order. The alerts
/// come with the name of the location they are for; the observations are everything else.
pub fn status_json(view: Shown, report: &Vec<Location>) -> (r: String)
    ensures
        r@ == "["@ + locations_text(view, report@, report@.len()) + "]"@,
{
    let mut list = "".to_owned();
    let mut i: usize = 0;
    while i < report.len()
        invariant
            i <= report.len(),
            list@ == locations_text(view, report@, i as nat),
        decreases report.len() - i,
    {
        let one = location_json(view, &report[i]);
        let gap = if i == 0 {
            ""
        } else {
            ","
        };
        list.append(gap);
        list.append(one.as_str());
        i = i + 1;
    }
    let mut s = "[".to_owned();
    s.append(list.as_str());
    s.append("]");
    s
}

// ---------------------------------------------------------------------------------------------
// What a view holds.

/// The keys are in order, so each is there once.
pub open spec fn in_order(fields: Seq<Field>) -> bool {
    forall|i: int, j: int|
        0 <= i < j < fields.len() ==> comes_before(
            (#[trigger] fields[i]).0,
            (#[trigger] fields[j]).0,
        )
}

/// The value that a key was last given.
pub open spec fn last_value(fields: Seq<Field>, key: Seq<char>) -> Option<Seq<char>>
    decreases fields.len(),
{
    if fields.len() == 0 {
        None
    } else if fields.last().0 == key {
        Some(fields.last().1)
    } else {
        last_value(fields.drop_last(), key)
    }
}

proof fn lemma_put_in(fields: Seq<Field>, key: Seq<char>, value: Seq<char>)
    requires
        in_order(fields),
    ensures
        in_order(put_in(fields, key, value)),
        last_value(put_in(fields, key, value), key) == Some(value),
        forall|k: Seq<char>|
            k != key ==> #[trigger] last_value(put_in(fields, key, value), k) == last_value(
                fields,
                k,
            ),
        forall|i: int|
            0 <= i < put_in(fields, key, value).len() ==> (#[trigger] put_in(
                fields,
                key,
                value,
            )[i]).0 == key || exists|j: int|
                0 <= j < fields.len() && (#[trigger] fields[j]).0 == put_in(
                    fields,
                    key,
                    value,
                )[i].0,
    decreases fields.len(),
{
    let now = put_in(fields, key, value);
    if fields.len() == 0 || comes_before(fields.last().0, key) {
        assert(now.drop_last() =~= fields);
        assert forall|i: int, j: int| 0 <= i < j < now.len() implies comes_before(
            (#[trigger] now[i]).0,
            (#[trigger] now[j]).0,
        ) by {
            if j == fields.len() && i < fields.len() - 1 {
                assert(comes_before(fields[i].0, fields[fields.len() - 1].0));
                lemma_order_goes_on(fields[i].0, fields.last().0, key);
            }
        }
        assert forall|i: int| 0 <= i < now.len() implies (#[trigger] now[i]).0 == key || exists|
            j: int,
        |
            0 <= j < fields.len() && (#[trigger] fields[j]).0 == now[i].0 by {
            if i < fields.len() {
                assert(fields[i].0 == now[i].0);
            }
        }
    } else if fields.last().0 == key {
        assert(now.drop_last() =~= fields.drop_last());
        assert forall|i: int, j: int| 0 <= i < j < now.len() implies comes_before(
            (#[trigger] now[i]).0,
            (#[trigger] now[j]).0,
        ) by {
            assert(now[i].0 == fields[i].0 && now[j].0 == fields[j].0);
        }
        assert forall|i: int| 0 <= i < now.len() implies (#[trigger] now[i]).0 == key || exists|
            j: int,
        |
            0 <= j < fields.len() && (#[trigger] fields[j]).0 == now[i].0 by {
            assert(fields[i].0 == now[i].0);
        }
    } else {
        let rest = fields.drop_last();
        lemma_put_in(rest, key, value);
        let below = put_in(rest, key, value);
        lemma_order(key, fields.last().0);
        assert(now.drop_last() =~= below);
        assert forall|i: int, j: int| 0 <= i < j < now.len() implies comes_before(
            (#[trigger] now[i]).0,
            (#[trigger] now[j]).0,
        ) by {
            if j == below.len() {
                assert(now[i] == below[i]);
                if below[i].0 != key {
                    let k = choose|k: int|
                        0 <= k < rest.len() && (#[trigger] rest[k]).0 == below[i].0;
                    assert(comes_before(fields[k].0, fields[fields.len() - 1].0));
                }
            } else {
                assert(now[i] == below[i] && now[j] == below[j]);
            }
        }
        assert forall|k: Seq<char>| k != key implies #[trigger] last_value(now, k) == last_value(
            fields,
            k,
        ) by {
            assert(last_value(below, k) == last_value(rest, k));
        }
        assert forall|i: int| 0 <= i < now.len() implies (#[trigger] now[i]).0 == key || exists|
            j: int,
        |
            0 <= j < fields.len() && (#[trigger] fields[j]).0 == now[i].0 by {
            if i == below.len() {
                assert(fields[fields.len() - 1].0 == now[i].0);
            } else {
                assert(now[i] == below[i]);
                if below[i].0 != key {
                    let k = choose|k: int|
                        0 <= k < rest.len() && (#[trigger] rest[k]).0 == below[i].0;
                    assert(fields[k].0 == now[i].0);
                }
            }
        }
    }
}

/// The observations hold every field but the alerts, each with the value it was last given, once
/// and in the order of the keys.
pub proof fn observations_leave_out_the_alerts(fields: Seq<Field>)
    ensures
        in_order(observed(fields)),
        last_value(observed(fields), "alerts"@) is None,
        forall|k: Seq<char>|
            k != "alerts"@ ==> #[trigger] last_value(observed(fields), k) == last_value(fields, k),
    decreases fields.len(),
{
    if fields.len() > 0 {
        let rest = fields.drop_last();
        observations_leave_out_the_alerts(rest);
        if fields.last().0 != "alerts"@ {
            lemma_put_in(observed(rest), fields.last().0, fields.last().1);
            assert forall|k: Seq<char>| k != "alerts"@ implies #[trigger] last_value(
                observed(fields),
                k,
            ) == last_value(fields, k) by {
                assert(last_value(observed(rest), k) == last_value(rest, k));
            }
        } else {
            assert forall|k: Seq<char>| k != "alerts"@ implies #[trigger] last_value(
                observed(fields),
                k,
            ) == last_value(fields, k) by {
                assert(last_value(observed(rest), k) == last_value(rest, k));
            }
        }
    }
}

/// Each view has its path.
pub proof fn views_have_their_paths(path: Seq<char>)
    ensures
        Shown::named("/alerts.json"@) == Shown::Alerts,
        Shown::named("/obs.json"@) == Shown::Obs,
        Shown::named("/status.json"@) == Shown::Status,
        Shown::named(path) != Shown::Status ==> path == "/alerts.json"@ || path == "/obs.json"@,
{
    reveal_strlit("/alerts.json");
    reveal_strlit("/obs.json");
    reveal_strlit("/status.json");
    assert("/alerts.json"@[1] == 'a' && "/obs.json"@[1] == 'o' && "/status.json"@[1] == 's');
}

/// The alerts come with the name of the location they are for; the status is the whole of it.
pub proof fn alerts_come_with_their_place(l: Location)
    ensures
        location_text(Shown::Status, l) == l.whole@,
        text::holds_text(location_text(Shown::Alerts, l), "{\"alerts\":"@ + l.alerts@),
        text::holds_text(location_text(Shown::Alerts, l), ",\"name\":"@ + quoted(l.name@)),
{
    let t = location_text(Shown::Alerts, l);
    let a = "{\"alerts\":"@ + l.alerts@;
    let b = ",\"name\":"@ + quoted(l.name@);
    let none = Seq::<char>::empty();
    assert(t =~= none + a + (b + "}"@));
    text::lemma_holds_join(none, a, b + "}"@);
    assert(t =~= a + b + "}"@);
    text::lemma_holds_join(a, b, "}"@);
}

proof fn lemma_listed(l: Seq<char>, m: Seq<char>, one: Seq<char>)
    ensures
        ""@ + ""@ + one == one,
        l + ","@ + m + ","@ + one == l + ","@ + (m + ","@ + one),
{
    reveal_strlit("");
    assert(""@ + ""@ + one =~= one);
    assert(l + ","@ + m + ","@ + one =~= l + ","@ + (m + ","@ + one));
}

proof fn lemma_locations_prefix(view: Shown, a: Seq<Location>, b: Seq<Location>, n: nat)
    requires
        n <= a.len(),
    ensures
        locations_text(view, a + b, n) == locations_text(view, a, n),
    decreases n,
{
    if n > 0 {
        lemma_locations_prefix(view, a, b, (n - 1) as nat);
        assert((a + b)[n - 1] == a[n - 1]);
    }
}

proof fn lemma_locations_pushed(view: Shown, a: Seq<Location>, x: Location)
    ensures
        a.len() == 0 ==> locations_text(view, a.push(x), 1) == location_text(view, x),
        a.len() > 0 ==> locations_text(view, a.push(x), a.len() + 1) == locations_text(
            view,
            a,
            a.len(),
        ) + ","@ + location_text(view, x),
{
    let n = a.len() + 1;
    let all = a.push(x);
    lemma_listed(""@, ""@, location_text(view, x));
    assert(locations_text(view, all, 0) == ""@);
    assert(all =~= a + seq![x]);
    lemma_locations_prefix(view, a, seq![x], a.len());
    assert(all[n - 1] == x);
}

/// The locations are listed in order, each once, with a comma between them.
pub proof fn locations_go_in_order(view: Shown, a: Seq<Location>, b: Seq<Location>)
    requires
        a.len() > 0 && b.len() > 0,
    ensures
        a.len() == 1 ==> locations_text(view, a, a.len()) == location_text(view, a[0]),
        locations_text(view, a + b, (a + b).len()) == locations_text(view, a, a.len()) + ","@
            + locations_text(view, b, b.len()),
    decreases b.len(),
{
    if a.len() == 1 {
        lemma_locations_pushed(view, Seq::empty(), a[0]);
        assert(Seq::<Location>::empty().push(a[0]) =~= a);
    }
    let c = b.drop_last();
    let x = b.last();
    assert(c.push(x) =~= b);
    assert((a + c).push(x) =~= a + b);
    lemma_locations_pushed(view, a + c, x);
    lemma_locations_pushed(view, c, x);
    if c.len() == 0 {
        assert(a + c =~= a);
    } else {
        locations_go_in_order(view, a, c);
        lemma_listed(
            locations_text(view, a, a.len()),
            locations_text(view, c, c.len()),
            location_text(view, x),
        );
    }
}

/// The fields of an object go in order, each key in quotes before its value.
pub proof fn fields_go_in_order(a: Seq<Field>, b: Seq<Field>)
    requires
        a.len() > 0 && b.len() > 0,
    ensures
        a.len() == 1 ==> fields_text(a) == quoted(a[0].0) + ":"@ + a[0].1,
        fields_text(a + b) == fields_text(a) + ","@ + fields_text(b),
    decreases b.len(),
{
    reveal_strlit("");
    let none = Seq::<Field>::empty();
    assert(fields_text(none) == ""@);
    if a.len() == 1 {
        assert(a.drop_last() =~= none);
        assert(fields_text(a) =~= quoted(a[0].0) + ":"@ + a[0].1);
    }
    let c = b.drop_last();
    let x = b.last();
    assert((a + b).drop_last() =~= a + c);
    assert((a + b).last() == x);
    if c.len() == 0 {
        assert(c =~= none);
        assert(a + c =~= a);
        assert(fields_text(a + b) =~= fields_text(a) + ","@ + fields_text(b));
    } else {
        fields_go_in_order(a, c);
        assert(fields_text(a + b) =~= fields_text(a) + ","@ + fields_text(b));
    }
}

} // verus!
