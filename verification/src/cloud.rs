//! Query strings: `name=value` pairs between ampersands, values with percent escapes.

use crate::text;
use vstd::prelude::*;
use vstd::utf8::*;

verus! {

/// What `String::from_utf8_lossy` makes of the bytes.
pub uninterp spec fn lossy_text(bytes: Seq<u8>) -> Seq<char>;

/// `String::from_utf8_lossy` of the standard library: the text that the bytes write in UTF-8. What
/// is no UTF-8 is replaced, in a way that the bytes alone decide.
#[verifier::external_body]
fn utf8_lossy(bytes: &[u8]) -> (r: String)
    ensures
        r@ == lossy_text(bytes@),
        valid_utf8(bytes@) ==> r@ == decode_utf8(bytes@),
{
    String::from_utf8_lossy(bytes).into_owned()
}

/// The value of a hexadecimal digit.
pub open spec fn hex_digit(b: u8) -> Option<u8> {
    if 48 <= b <= 57 {
        Some((b - 48) as u8)
    } else if 97 <= b <= 102 {
        Some((b - 87) as u8)
    } else if 65 <= b <= 70 {
        Some((b - 55) as u8)
    } else {
        None
    }
}

/// A percent sign and two hexadecimal digits stand at the start of `bs`.
pub open spec fn escape_first(bs: Seq<u8>) -> bool {
    bs.len() >= 3 && bs[0] == 37 && hex_digit(bs[1]) is Some && hex_digit(bs[2]) is Some
}

/// The bytes with every percent escape replaced by the byte it stands for.
pub open spec fn unescaped(bs: Seq<u8>) -> Seq<u8>
    decreases bs.len(),
{
    if bs.len() == 0 {
        bs
    } else if escape_first(bs) {
        seq![(hex_digit(bs[1])->0 * 16 + hex_digit(bs[2])->0) as u8] + unescaped(bs.skip(3))
    } else {
        seq![bs[0]] + unescaped(bs.skip(1))
    }
}

/// The text that `value` writes with percent escapes.
pub open spec fn decoded_text(value: Seq<char>) -> Seq<char> {
    lossy_text(unescaped(encode_utf8(value)))
}

fn hex_digit_exec(b: u8) -> (r: Option<u8>)
    ensures
        r == hex_digit(b),
{
    if 48 <= b && b <= 57 {
        Some(b - 48)
    } else if 97 <= b && b <= 102 {
        Some(b - 87)
    } else if 65 <= b && b <= 70 {
        Some(b - 55)
    } else {
        None
    }
}

proof fn lemma_no_escape(bs: Seq<u8>)
    requires
        !bs.contains(37u8),
    ensures
        unescaped(bs) == bs,
    decreases bs.len(),
{
    if bs.len() > 0 {
        assert(bs[0] != 37) by {
            assert(bs.contains(bs[0]));
        }
        let t = bs.skip(1);
        if t.contains(37u8) {
            assert(bs[t.index_of(37u8) + 1] == 37u8);
        }
        lemma_no_escape(t);
        assert(seq![bs[0]] + t =~= bs);
    }
}

/// The text that `value` writes with percent escapes. ASCII without a percent sign stands for
/// itself.
pub fn decode(value: &str) -> (r: String)
    ensures
        r@ == decoded_text(value@),
        is_ascii_chars(value@) && !value@.contains('%') ==> r@ == value@,
{
    let bs = value.as_bytes();
    let mut out: Vec<u8> = Vec::new();
    let mut i: usize = 0;
    assert(bs@.skip(0) =~= bs@);
    assert(out@ + unescaped(bs@.skip(0)) =~= unescaped(bs@));
    while i < bs.len()
        invariant
            i <= bs.len(),
            out@ + unescaped(bs@.skip(i as int)) == unescaped(bs@),
        decreases bs.len() - i,
    {
        let ghost t = bs@.skip(i as int);
        let ghost before = out@;
        if bs[i] == 37 && bs.len() - i >= 3 {
            let h = hex_digit_exec(bs[i + 1]);
            let l = hex_digit_exec(bs[i + 2]);
            assert(t[1] == bs@[i + 1] && t[2] == bs@[i + 2]);
            if h.is_some() && l.is_some() {
                let b: u8 = h.unwrap() * 16 + l.unwrap();
                out.push(b);
                assert(t.skip(3) =~= bs@.skip(i + 3));
                assert(out@ + unescaped(t.skip(3)) =~= before + unescaped(t));
                i = i + 3;
                continue ;
            }
        }
        out.push(bs[i]);
        assert(t.skip(1) =~= bs@.skip(i + 1));
        assert(out@ + unescaped(t.skip(1)) =~= before + unescaped(t));
        i = i + 1;
    }
    assert(out@ =~= unescaped(bs@));
    proof {
        if is_ascii_chars(value@) && !value@.contains('%') {
            is_ascii_chars_encode_utf8(value@);
            assert forall|k: int| 0 <= k < bs@.len() implies bs@[k] != 37u8 by {
                assert(value@.contains(value@[k]));
                assert(bs@[k] == value@[k] as u8);
            }
            lemma_no_escape(bs@);
            encode_utf8_valid_utf8(value@);
            encode_utf8_decode_utf8(value@);
        }
    }
    utf8_lossy(out.as_slice())
}

/// The value of the first pair with the name `name`.
pub open spec fn first_value(pairs: Seq<Seq<char>>, name: Seq<char>) -> Option<Seq<char>>
    decreases pairs.len(),
{
    if pairs.len() == 0 {
        None
    } else {
        match text::cut_text(pairs[0], '=') {
            Some((k, v)) => if k == name {
                Some(v)
            } else {
                first_value(pairs.drop_first(), name)
            },
            None => first_value(pairs.drop_first(), name),
        }
    }
}

/// The raw value of the parameter `name`, percent escapes and all.
pub open spec fn raw_param(query: Seq<char>, name: Seq<char>) -> Option<Seq<char>> {
    first_value(text::parts_text(query, '&'), name)
}

/// The value of the parameter `name`.
pub open spec fn param_text(query: Seq<char>, name: Seq<char>) -> Option<Seq<char>> {
    match raw_param(query, name) {
        Some(v) => Some(decoded_text(v)),
        None => None,
    }
}

/// The view of an optional text.
pub open spec fn opt_text(o: Option<String>) -> Option<Seq<char>> {
    match o {
        Some(s) => Some(s@),
        None => None,
    }
}

fn raw(query: &str, name: &str) -> (r: Option<String>)
    ensures
        opt_text(r) == raw_param(query@, name@),
{
    let pairs = text::parts(query, '&');
    let ghost all = text::texts(pairs@);
    let mut i: usize = 0;
    assert(all.skip(0) =~= all);
    while i < pairs.len()
        invariant
            i <= pairs.len(),
            all == text::texts(pairs@),
            all == text::parts_text(query@, '&'),
            first_value(all, name@) == first_value(all.skip(i as int), name@),
        decreases pairs.len() - i,
    {
        let ghost t = all.skip(i as int);
        assert(t[0] == pairs@[i as int]@);
        assert(t.drop_first() =~= all.skip(i + 1));
        if let Some((k, v)) = text::cut(pairs[i].as_str(), '=') {
            if text::same(k.as_str(), name) {
                return Some(v);
            }
        }
        i = i + 1;
    }
    None
}

/// The parameter `name` of a query string, if the query has it: the first pair of that name.
pub fn param(query: &str, name: &str) -> (r: Option<String>)
    ensures
        opt_text(r) == param_text(query@, name@),
        r is Some ==> is_ascii_chars(raw_param(query@, name@)->0) && !(raw_param(
            query@,
            name@,
        )->0).contains('%') ==> (r->0)@ == raw_param(query@, name@)->0,
{
    match raw(query, name) {
        Some(v) => Some(decode(v.as_str())),
        None => None,
    }
}

// ---------------------------------------------------------------------------------------------
// What a query says.

/// A hexadecimal digit as a byte, in capitals or not.
pub open spec fn digit_byte(d: int, capital: bool) -> u8 {
    if d < 10 {
        (48 + d) as u8
    } else if capital {
        (55 + d) as u8
    } else {
        (87 + d) as u8
    }
}

/// An escape is the byte that its two digits write, in capitals or not; any byte but a percent sign
/// stands for itself.
pub proof fn escapes_are_their_bytes(b: u8, n: u8, capital: bool, rest: Seq<u8>)
    ensures
        b != 37 ==> unescaped(seq![b] + rest) == seq![b] + unescaped(rest),
        unescaped(
            seq![37u8, digit_byte(n as int / 16, capital), digit_byte(n as int % 16, capital)]
                + rest,
        ) == seq![n] + unescaped(rest),
        unescaped(Seq::empty()) == Seq::<u8>::empty(),
{
    let one = seq![b] + rest;
    assert(one.skip(1) =~= rest);
    let hi = digit_byte(n as int / 16, capital);
    let lo = digit_byte(n as int % 16, capital);
    let esc = seq![37u8, hi, lo] + rest;
    assert(esc.skip(3) =~= rest);
    assert(esc[1] == hi && esc[2] == lo);
    assert(hex_digit(hi) == Some((n / 16) as u8));
    assert(hex_digit(lo) == Some((n % 16) as u8));
    assert(escape_first(esc));
}

/// A parameter is what stands behind its name and an equals sign, up to the next ampersand; the
/// first of a name counts, and a part without an equals sign is none.
pub proof fn parameters_are_found_by_name(
    name: Seq<char>,
    value: Seq<char>,
    other: Seq<char>,
    rest: Seq<char>,
    wanted: Seq<char>,
)
    requires
        !name.contains('=') && !name.contains('&'),
        !value.contains('&'),
        !other.contains('=') && !other.contains('&'),
    ensures
        raw_param(name + seq!['='] + value, name) == Some(value),
        raw_param(name + seq!['='] + value + seq!['&'] + rest, name) == Some(value),
        wanted != name ==> raw_param(name + seq!['='] + value + seq!['&'] + rest, wanted)
            == raw_param(rest, wanted),
        wanted != name ==> raw_param(name + seq!['='] + value, wanted) is None,
        raw_param(other + seq!['&'] + rest, wanted) == raw_param(rest, wanted),
        raw_param(other, wanted) is None,
{
    let pair = name + seq!['='] + value;
    assert(!pair.contains('&')) by {
        if pair.contains('&') {
            let k = pair.index_of('&');
            if k < name.len() {
                assert(name[k] == '&');
            } else if k > name.len() {
                assert(value[k - name.len() - 1] == '&');
            }
        }
    }
    text::parts_undo_joining(pair, rest, '&');
    text::parts_undo_joining(other, rest, '&');
    text::cutting_undoes_joining(name, value, '=');
    text::cutting_undoes_joining(other, value, '=');
    let tail = text::parts_text(rest, '&');
    let none = Seq::<Seq<char>>::empty();
    assert((seq![pair] + tail).drop_first() =~= tail);
    assert((seq![other] + tail).drop_first() =~= tail);
    assert(seq![pair].drop_first() =~= none);
    assert(seq![other].drop_first() =~= none);
    reveal_with_fuel(first_value, 2);
}

} // verus!
