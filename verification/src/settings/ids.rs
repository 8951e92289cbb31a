//! Ids for places and rules: eight characters that nobody types.

use crate::text;
use vstd::prelude::*;

verus! {

/// `getrandom::fill`: four bytes of the system's randomness, or `None` where it has none to give.
/// Nothing is promised of the bytes.
#[verifier::external_body]
fn random_bytes() -> (r: Option<[u8; 4]>) {
    let mut b = [0u8; 4];
    getrandom::fill(&mut b).ok().map(|_| b)
}

/// `chrono::Utc::now`: the nanoseconds past the second. Nothing is promised of the number.
#[verifier::external_body]
fn nanos_now() -> (r: u32) {
    chrono::Utc::now().timestamp_subsec_nanos()
}

/// Four bytes, each in two hexadecimal digits.
pub open spec fn id_form(b: Seq<u8>) -> Seq<char> {
    text::hex_text(b[0] as nat, 2) + text::hex_text(b[1] as nat, 2) + text::hex_text(
        b[2] as nat,
        2,
    ) + text::hex_text(b[3] as nat, 2)
}

/// Four bytes, each in two hexadecimal digits.
pub fn id_text(b: [u8; 4]) -> (r: String)
    ensures
        r@ == id_form(b@),
{
    let mut s = text::hex(b[0] as u64, 2);
    let t = text::hex(b[1] as u64, 2);
    s.append(t.as_str());
    let t = text::hex(b[2] as u64, 2);
    s.append(t.as_str());
    let t = text::hex(b[3] as u64, 2);
    s.append(t.as_str());
    s
}

/// The four bytes of a number, the lowest first.
pub open spec fn low_bytes(n: u32) -> Seq<u8> {
    seq![
        (n % 256) as u8,
        (n / 256 % 256) as u8,
        (n / 65_536 % 256) as u8,
        (n / 16_777_216) as u8,
    ]
}

/// The id that four drawn bytes write; where none could be drawn, the one that the clock's
/// nanoseconds write.
pub fn id_from(drawn: Option<[u8; 4]>, nanos: u32) -> (r: String)
    ensures
        r@ == match drawn {
            Some(b) => id_form(b@),
            None => id_form(low_bytes(nanos)),
        },
        is_marker_id(r@),
{
    let b: [u8; 4] = match drawn {
        Some(b) => b,
        None => [
            (nanos % 256) as u8,
            (nanos / 256 % 256) as u8,
            (nanos / 65_536 % 256) as u8,
            (nanos / 16_777_216) as u8,
        ],
    };
    assert(b@.len() == 4);
    assert(drawn is None ==> b@ =~= low_bytes(nanos));
    id_text(b)
}

/// A text that four bytes write.
pub open spec fn is_marker_id(s: Seq<char>) -> bool {
    exists|b: Seq<u8>| b.len() == 4 && s == #[trigger] id_form(b)
}

/// A fresh id: eight hexadecimal characters from the system's randomness, which is plenty for a
/// list a person types by hand.
///
/// A duplicate would only collapse two places' alert cooldowns; where there is no randomness, an id
/// from the clock beats refusing to make the place.
pub fn new_marker_id() -> (r: String)
    ensures
        is_marker_id(r@),
{
    match random_bytes() {
        Some(b) => {
            assert(b@.len() == 4);
            id_from(Some(b), 0)
        },
        None => id_from(None, nanos_now()),
    }
}

/// Every id has eight characters, each a hexadecimal digit.
pub proof fn ids_are_eight_digits(s: Seq<char>)
    requires
        is_marker_id(s),
    ensures
        s.len() == 8,
        forall|i: int| 0 <= i < 8 ==> text::is_hex_char(#[trigger] s[i]),
{
    let b = choose|b: Seq<u8>| b.len() == 4 && s == #[trigger] id_form(b);
    text::lemma_hex_len(b[0] as nat, 2);
    text::lemma_hex_len(b[1] as nat, 2);
    text::lemma_hex_len(b[2] as nat, 2);
    text::lemma_hex_len(b[3] as nat, 2);
    let p = text::hex_text(b[0] as nat, 2);
    let q = text::hex_text(b[1] as nat, 2);
    let r = text::hex_text(b[2] as nat, 2);
    let t = text::hex_text(b[3] as nat, 2);
    assert forall|i: int| 0 <= i < 8 implies text::is_hex_char(#[trigger] s[i]) by {
        if i < 2 {
            assert(s[i] == p[i]);
        } else if i < 4 {
            assert(s[i] == q[i - 2]);
        } else if i < 6 {
            assert(s[i] == r[i - 4]);
        } else {
            assert(s[i] == t[i - 6]);
        }
    }
}

/// The four bytes of a number make it up again, the lowest first, and an id holds each in order.
pub proof fn bytes_make_up_their_number(n: u32)
    ensures
        low_bytes(n).len() == 4,
        low_bytes(n)[0] + 256 * low_bytes(n)[1] + 65_536 * low_bytes(n)[2] + 16_777_216
            * low_bytes(n)[3] == n,
{
}

/// An id reads as one number of eight hexadecimal digits, its first byte the highest.
pub proof fn ids_read_as_one_number(b: Seq<u8>)
    requires
        b.len() == 4,
    ensures
        id_form(b) == text::hex_text(
            (16_777_216 * b[0] + 65_536 * b[1] + 256 * b[2] + b[3]) as nat,
            8,
        ),
{
    lemma_hex_joins(b[0] as nat, b[1] as nat);
    let two = (256 * b[0] + b[1]) as nat;
    lemma_hex_more(two, b[2] as nat, 4);
    let three = (256 * two + b[2]) as nat;
    lemma_hex_more(three, b[3] as nat, 6);
    assert(id_form(b) =~= text::hex_text((256 * three + b[3]) as nat, 8));
}

proof fn lemma_hex_joins(a: nat, b: nat)
    requires
        b < 256,
    ensures
        text::hex_text(256 * a + b, 4) == text::hex_text(a, 2) + text::hex_text(b, 2),
{
    lemma_hex_more(a, b, 2);
}

proof fn lemma_hex_more(a: nat, b: nat, w: nat)
    requires
        b < 256,
    ensures
        text::hex_text(256 * a + b, w + 2) == text::hex_text(a, w) + text::hex_text(b, 2),
{
    let n = 256 * a + b;
    text::hex_is_sixteen_digits(n, w + 1);
    text::hex_is_sixteen_digits(n / 16, w);
    text::hex_is_sixteen_digits(b, 1);
    text::hex_is_sixteen_digits(b / 16, 0);
    assert(n % 16 == b % 16 && (n / 16) % 16 == b / 16 && (n / 16) / 16 == a && (b / 16) % 16 == b
        / 16);
    text::hex_is_sixteen_digits(b / 16 / 16, 0);
    assert(text::hex_text(n, w + 2) =~= text::hex_text(a, w) + text::hex_text(b, 2));
}

} // verus!
