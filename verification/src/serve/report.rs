//! The status report, read back for the gauges: which locations have a temperature, and which have
//! their alerts counted.

use crate::cloud::opt_text;
use vstd::prelude::*;

verus! {

/// What one location of a report says, as far as the gauges go.
#[derive(Debug)]
pub struct Row {
    pub name: Option<String>,
    /// The temperature: a binary64 number, by its bits.
    pub number: Option<u64>,
    /// How many alerts are listed.
    pub items: Option<u64>,
}

/// A row as texts and numbers.
pub type RowText = (Option<Seq<char>>, Option<u64>, Option<u64>);

/// The rows as texts and numbers.
pub open spec fn row_texts(rows: Seq<Row>) -> Seq<RowText> {
    rows.map_values(|r: Row| (opt_text(r.name), r.number, r.items))
}

/// What `serde_json` reads in a JSON list of objects: of each, the text under the first key, the
/// bits of the number under the second, and the length of the list under the third, each where
/// there is one. `None` where the bytes are no JSON list.
pub uninterp spec fn report_rows(
    body: Seq<u8>,
    text_key: Seq<char>,
    number_key: Seq<char>,
    list_key: Seq<char>,
) -> Option<Seq<(Option<Seq<char>>, Option<u64>, Option<u64>)>>;

/// `serde_json::from_slice` into a list of values, of which each is looked into by its keys.
#[verifier::external_body]
fn read_rows(body: &[u8], text_key: &str, number_key: &str, list_key: &str) -> (r: Option<Vec<Row>>)
    ensures
        match report_rows(body@, text_key@, number_key@, list_key@) {
            Some(rows) => r is Some && row_texts(r->0@) == rows,
            None => r is None,
        },
{
    let rows: Vec<serde_json::Value> = serde_json::from_slice(body).ok()?;
    Some(rows.iter().map(|v| Row {
        name: v.get(text_key).and_then(|t| t.as_str()).map(|t| t.to_owned()),
        number: v.get(number_key).and_then(|n| n.as_f64()).map(|n| n.to_bits()),
        items: v.get(list_key).and_then(|l| l.as_array()).map(|l| l.len() as u64),
    }).collect())
}

/// A named number.
pub type Named = (Seq<char>, u64);

/// The named numbers as texts.
pub open spec fn named_texts(v: Seq<(String, u64)>) -> Seq<Named> {
    v.map_values(|e: (String, u64)| (e.0@, e.1))
}

/// The locations with a name and a list of alerts, in order, and how many are listed.
pub open spec fn alerts_in(rows: Seq<RowText>) -> Seq<Named>
    decreases rows.len(),
{
    if rows.len() == 0 {
        Seq::empty()
    } else {
        let rest = alerts_in(rows.drop_last());
        match (rows.last().0, rows.last().2) {
            (Some(name), Some(n)) => rest.push((name, n)),
            _ => rest,
        }
    }
}

/// The locations with a name and a temperature, in order, and the bits of that temperature.
pub open spec fn temps_in(rows: Seq<RowText>) -> Seq<Named>
    decreases rows.len(),
{
    if rows.len() == 0 {
        Seq::empty()
    } else {
        let rest = temps_in(rows.drop_last());
        match (rows.last().0, rows.last().1) {
            (Some(name), Some(bits)) => rest.push((name, bits)),
            _ => rest,
        }
    }
}

/// The locations of a report whose alerts are counted.
pub fn alerts_of(rows: &Vec<Row>) -> (r: Vec<(String, u64)>)
    ensures
        named_texts(r@) == alerts_in(row_texts(rows@)),
{
    let ghost all = row_texts(rows@);
    let mut out: Vec<(String, u64)> = Vec::new();
    let mut i: usize = 0;
    assert(named_texts(out@) =~= alerts_in(all.take(0)));
    while i < rows.len()
        invariant
            i <= rows.len(),
            all == row_texts(rows@),
            named_texts(out@) == alerts_in(all.take(i as int)),
        decreases rows.len() - i,
    {
        let ghost before = named_texts(out@);
        proof {
            assert(all.take(i + 1).drop_last() =~= all.take(i as int));
            assert(all.take(i + 1).last() == all[i as int]);
        }
        if let Some(name) = &rows[i].name {
            if let Some(n) = rows[i].items {
                out.push((name.clone(), n));
                assert(named_texts(out@) =~= before.push((name@, n)));
            }
        }
        i = i + 1;
    }
    assert(all.take(all.len() as int) =~= all);
    out
}

/// The locations of a report that have a temperature.
pub fn temps_of(rows: &Vec<Row>) -> (r: Vec<(String, u64)>)
    ensures
        named_texts(r@) == temps_in(row_texts(rows@)),
{
    let ghost all = row_texts(rows@);
    let mut out: Vec<(String, u64)> = Vec::new();
    let mut i: usize = 0;
    assert(named_texts(out@) =~= temps_in(all.take(0)));
    while i < rows.len()
        invariant
            i <= rows.len(),
            all == row_texts(rows@),
            named_texts(out@) == temps_in(all.take(i as int)),
        decreases rows.len() - i,
    {
        let ghost before = named_texts(out@);
        proof {
            assert(all.take(i + 1).drop_last() =~= all.take(i as int));
            assert(all.take(i + 1).last() == all[i as int]);
        }
        if let Some(name) = &rows[i].name {
            if let Some(bits) = rows[i].number {
                out.push((name.clone(), bits));
                assert(named_texts(out@) =~= before.push((name@, bits)));
            }
        }
        i = i + 1;
    }
    assert(all.take(all.len() as int) =~= all);
    out
}

/// What a status report says, as rows.
pub open spec fn status_rows(body: Seq<u8>) -> Option<Seq<RowText>> {
    report_rows(body, "name"@, "temp_f"@, "alerts"@)
}

/// The locations of a status report whose alerts are counted; `None` where it cannot be read.
pub fn spot_alerts(body: &[u8]) -> (r: Option<Vec<(String, u64)>>)
    ensures
        match status_rows(body@) {
            Some(rows) => r is Some && named_texts(r->0@) == alerts_in(rows),
            None => r is None,
        },
{
    match read_rows(body, "name", "temp_f", "alerts") {
        Some(rows) => Some(alerts_of(&rows)),
        None => None,
    }
}

/// The locations of a status report that have a temperature, and the bits of that temperature in
/// degrees Fahrenheit; `None` where it cannot be read.
pub fn spot_temps(body: &[u8]) -> (r: Option<Vec<(String, u64)>>)
    ensures
        match status_rows(body@) {
            Some(rows) => r is Some && named_texts(r->0@) == temps_in(rows),
            None => r is None,
        },
{
    match read_rows(body, "name", "temp_f", "alerts") {
        Some(rows) => Some(temps_of(&rows)),
        None => None,
    }
}

/// A location with a name and alerts is counted, one without either is not, and they stay in order.
pub proof fn alerts_are_counted_in_order(a: Seq<RowText>, b: Seq<RowText>)
    ensures
        a.len() == 0 ==> alerts_in(a) == Seq::<Named>::empty(),
        a.len() == 1 && a[0].0 is Some && a[0].2 is Some ==> alerts_in(a) == seq![
            (a[0].0->0, a[0].2->0),
        ],
        a.len() == 1 && !(a[0].0 is Some && a[0].2 is Some) ==> alerts_in(a) == Seq::<Named>::empty(),
        alerts_in(a + b) == alerts_in(a) + alerts_in(b),
    decreases b.len(),
{
    if a.len() == 1 {
        assert(a.drop_last() =~= Seq::<RowText>::empty());
        assert(alerts_in(a.drop_last()) == Seq::<Named>::empty());
        assert(Seq::<Named>::empty().push((a[0].0->0, a[0].2->0)) =~= seq![(a[0].0->0, a[0].2->0)]);
    }
    if b.len() == 0 {
        assert(a + b =~= a);
        assert(alerts_in(a + b) =~= alerts_in(a) + alerts_in(b));
    } else {
        assert((a + b).drop_last() =~= a + b.drop_last());
        assert((a + b).last() == b.last());
        alerts_are_counted_in_order(a, b.drop_last());
        assert(alerts_in(a + b) =~= alerts_in(a) + alerts_in(b));
    }
}

/// A location with a name and a temperature is told, one without either is not, and they stay in
/// order.
pub proof fn temperatures_are_told_in_order(a: Seq<RowText>, b: Seq<RowText>)
    ensures
        a.len() == 0 ==> temps_in(a) == Seq::<Named>::empty(),
        a.len() == 1 && a[0].0 is Some && a[0].1 is Some ==> temps_in(a) == seq![
            (a[0].0->0, a[0].1->0),
        ],
        a.len() == 1 && !(a[0].0 is Some && a[0].1 is Some) ==> temps_in(a) == Seq::<Named>::empty(),
        temps_in(a + b) == temps_in(a) + temps_in(b),
    decreases b.len(),
{
    if a.len() == 1 {
        assert(a.drop_last() =~= Seq::<RowText>::empty());
        assert(temps_in(a.drop_last()) == Seq::<Named>::empty());
        assert(Seq::<Named>::empty().push((a[0].0->0, a[0].1->0)) =~= seq![(a[0].0->0, a[0].1->0)]);
    }
    if b.len() == 0 {
        assert(a + b =~= a);
        assert(temps_in(a + b) =~= temps_in(a) + temps_in(b));
    } else {
        assert((a + b).drop_last() =~= a + b.drop_last());
        assert((a + b).last() == b.last());
        temperatures_are_told_in_order(a, b.drop_last());
        assert(temps_in(a + b) =~= temps_in(a) + temps_in(b));
    }
}

} // verus!
