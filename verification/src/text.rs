//! Text as a sequence of characters: conversions, numbers in decimal and hexadecimal, and the
//! few operations on strings that the rest of the library is stated with.

use vstd::prelude::*;

verus! {

/// `String::push` of the standard library puts the character behind the last one and leaves the
/// others as they are.
pub assume_specification[ String::push ](s: &mut String, ch: char)
    ensures
        final(s)@ == old(s)@.push(ch),
;

/// The characters of `s`, in order.
pub fn chars_of(s: &str) -> (r: Vec<char>)
    ensures
        r@ == s@,
{
    let mut out: Vec<char> = Vec::new();
    for c in it: s.chars()
        invariant
            it.seq() == s@,
            out@ == s@.take(it.index() as int),
    {
        out.push(c);
        assert(out@ =~= s@.take(it.index() as int + 1));
    }
    assert(out@ =~= s@);
    out
}

/// The text made of `cs[from..to]`.
pub fn text_of_range(cs: &Vec<char>, from: usize, to: usize) -> (r: String)
    requires
        from <= to <= cs.len(),
    ensures
        r@ == cs@.subrange(from as int, to as int),
{
    let mut out = String::new();
    let mut i: usize = from;
    while i < to
        invariant
            from <= i <= to <= cs.len(),
            out@ == cs@.subrange(from as int, i as int),
        decreases to - i,
    {
        out.push(cs[i]);
        i = i + 1;
        assert(out@ =~= cs@.subrange(from as int, i as int));
    }
    out
}

/// The text made of `cs`.
pub fn text_of(cs: &Vec<char>) -> (r: String)
    ensures
        r@ == cs@,
{
    let r = text_of_range(cs, 0, cs.len());
    assert(cs@.subrange(0, cs.len() as int) =~= cs@);
    r
}

/// Whether two texts are the same.
pub fn same(a: &str, b: &str) -> (r: bool)
    ensures
        r == (a@ == b@),
{
    a.to_owned() == b.to_owned()
}

/// The decimal digit `d` as a character.
pub open spec fn digit_char(d: int) -> char {
    (48 + d) as char
}

/// `n` in decimal, without leading zeros.
pub open spec fn decimal_text(n: nat) -> Seq<char>
    decreases n,
{
    if n < 10 {
        seq![digit_char(n as int)]
    } else {
        decimal_text(n / 10).push(digit_char((n % 10) as int))
    }
}

/// `d` as a decimal digit.
pub fn digit(d: u8) -> (r: char)
    requires
        d < 10,
    ensures
        r == digit_char(d as int),
{
    (48 + d) as char
}

/// `n` in decimal, without leading zeros.
pub fn decimal(n: u64) -> (r: String)
    ensures
        r@ == decimal_text(n as nat),
    decreases n,
{
    if n < 10 {
        let mut s = String::new();
        s.push(digit(n as u8));
        assert(s@ =~= seq![digit_char(n as int)]);
        s
    } else {
        let mut s = decimal(n / 10);
        s.push(digit((n % 10) as u8));
        s
    }
}

// ---------------------------------------------------------------------------------------------
// Numbers.

/// The hexadecimal digit `d` as a character, in lower case.
pub open spec fn hex_char(d: int) -> char {
    if d < 10 {
        (48 + d) as char
    } else {
        (87 + d) as char
    }
}

/// The low `width` hexadecimal digits of `n`.
pub open spec fn hex_text(n: nat, width: nat) -> Seq<char>
    decreases width,
{
    if width == 0 {
        Seq::empty()
    } else {
        hex_text(n / 16, (width - 1) as nat).push(hex_char((n % 16) as int))
    }
}

/// A hexadecimal digit in lower case.
pub open spec fn is_hex_char(c: char) -> bool {
    '0' <= c <= '9' || 'a' <= c <= 'f'
}

pub(crate) proof fn lemma_hex_len(n: nat, width: nat)
    ensures
        hex_text(n, width).len() == width,
        forall|i: int| 0 <= i < width ==> is_hex_char(#[trigger] hex_text(n, width)[i]),
    decreases width,
{
    if width > 0 {
        lemma_hex_len(n / 16, (width - 1) as nat);
    }
}

/// `n` has no more than `width` hexadecimal digits.
pub open spec fn hex_fits(n: nat, width: nat) -> bool
    decreases width,
{
    if width == 0 {
        n == 0
    } else {
        hex_fits(n / 16, (width - 1) as nat)
    }
}

/// A number is told by its hexadecimal digits.
pub(crate) proof fn lemma_hex_tells(a: nat, b: nat, width: nat)
    requires
        hex_fits(a, width),
        hex_fits(b, width),
        hex_text(a, width) == hex_text(b, width),
    ensures
        a == b,
    decreases width,
{
    if width > 0 {
        let s = hex_text(a, width);
        let t = hex_text(b, width);
        assert(s.last() == t.last());
        assert(s.drop_last() =~= hex_text(a / 16, (width - 1) as nat));
        assert(t.drop_last() =~= hex_text(b / 16, (width - 1) as nat));
        lemma_hex_tells(a / 16, b / 16, (width - 1) as nat);
        assert(a % 16 == b % 16);
    }
}

pub(crate) proof fn lemma_hex_fits(n: u64)
    ensures
        hex_fits(n as nat, 16),
{
    reveal_with_fuel(hex_fits, 17);
}

/// The low `width` hexadecimal digits of `n`, in lower case.
pub fn hex(n: u64, width: u8) -> (r: String)
    ensures
        r@ == hex_text(n as nat, width as nat),
    decreases width,
{
    if width == 0 {
        String::new()
    } else {
        let mut s = hex(n / 16, width - 1);
        let d: u8 = (n % 16) as u8;
        if d < 10 {
            s.push((48 + d) as char);
        } else {
            s.push((87 + d) as char);
        }
        s
    }
}

pub open spec fn is_digit_char(c: char) -> bool {
    '0' <= c <= '9'
}

pub open spec fn all_digits(s: Seq<char>) -> bool {
    forall|i: int| 0 <= i < s.len() ==> is_digit_char(#[trigger] s[i])
}

/// The number that the digits `s` write in decimal.
pub open spec fn digits_value(s: Seq<char>) -> nat
    decreases s.len(),
{
    if s.len() == 0 {
        0
    } else {
        digits_value(s.drop_last()) * 10 + (s.last() as nat - 48) as nat
    }
}

/// The number that `s` writes in decimal: at least one digit and nothing else.
pub open spec fn plain_number(s: Seq<char>) -> Option<nat> {
    if s.len() > 0 && all_digits(s) {
        Some(digits_value(s))
    } else {
        None
    }
}

/// The number that `s` writes in decimal, one plus sign before it allowed.
pub open spec fn signed_number(s: Seq<char>) -> Option<nat> {
    if s.len() > 0 && s[0] == '+' {
        plain_number(s.skip(1))
    } else {
        plain_number(s)
    }
}

/// `n`, if it is no larger than `max`.
pub open spec fn at_most(n: Option<nat>, max: nat) -> Option<nat> {
    match n {
        Some(v) => if v <= max {
            Some(v)
        } else {
            None
        },
        None => None,
    }
}

/// What a reader of numbers up to `max` makes of `n`.
pub open spec fn reads_as(r: Option<u64>, n: Option<nat>, max: u64) -> bool {
    match at_most(n, max as nat) {
        Some(v) => r is Some && r->0 == v,
        None => r is None,
    }
}


fn number_from(cs: &Vec<char>, from: usize, max: u64) -> (r: Option<u64>)
    requires
        from <= cs.len(),
    ensures
        reads_as(r, plain_number(cs@.skip(from as int)), max),
{
    let ghost t = cs@.skip(from as int);
    if from == cs.len() {
        return None;
    }
    let mut acc: u64 = 0;
    let mut over = false;
    let mut i: usize = from;
    assert(t.take(0) =~= Seq::<char>::empty());
    while i < cs.len()
        invariant
            from <= i <= cs.len(),
            t == cs@.skip(from as int),
            forall|j: int| 0 <= j < i - from ==> is_digit_char(#[trigger] t[j]),
            !over ==> acc == digits_value(t.take(i - from)) && acc <= max,
            over ==> digits_value(t.take(i - from)) > max,
        decreases cs.len() - i,
    {
        let c = cs[i];
        assert(t[i - from] == c);
        if c < '0' || c > '9' {
            assert(!all_digits(t));
            return None;
        }
        let d: u64 = (c as u32 - 48) as u64;
        proof {
            let k = i - from;
            assert(t.take(k + 1).drop_last() =~= t.take(k));
            assert(t.take(k + 1).last() == c);
            assert(digits_value(t.take(k)) * 10 >= digits_value(t.take(k)));
        }
        if !over {
            let next: u128 = acc as u128 * 10 + d as u128;
            if next > max as u128 {
                over = true;
            } else {
                acc = next as u64;
            }
        }
        i = i + 1;
    }
    assert(t.take(t.len() as int) =~= t);
    assert(all_digits(t));
    if over {
        None
    } else {
        Some(acc)
    }
}

/// The number that `s` writes in digits alone, if it is no larger than `max`.
pub fn parse_digits(s: &str, max: u64) -> (r: Option<u64>)
    ensures
        reads_as(r, plain_number(s@), max),
{
    let cs = chars_of(s);
    assert(cs@.skip(0) =~= s@);
    number_from(&cs, 0, max)
}

/// The number that `s` writes in decimal, one plus sign before it allowed, if it is no larger
/// than `max`.
pub fn parse_number(s: &str, max: u64) -> (r: Option<u64>)
    ensures
        reads_as(r, signed_number(s@), max),
{
    let cs = chars_of(s);
    if cs.len() > 0 && cs[0] == '+' {
        number_from(&cs, 1, max)
    } else {
        assert(cs@.skip(0) =~= s@);
        number_from(&cs, 0, max)
    }
}

// ---------------------------------------------------------------------------------------------
// Classes of characters.

/// White space, as Unicode has it.
pub open spec fn is_space(c: char) -> bool {
    let u = c as u32;
    ||| 9 <= u <= 13
    ||| u == 32
    ||| u == 0x85
    ||| u == 0xa0
    ||| u == 0x1680
    ||| 0x2000 <= u <= 0x200a
    ||| u == 0x2028
    ||| u == 0x2029
    ||| u == 0x202f
    ||| u == 0x205f
    ||| u == 0x3000
}

pub fn space(c: char) -> (r: bool)
    ensures
        r == is_space(c),
{
    let u: u32 = c as u32;
    (9 <= u && u <= 13) || u == 32 || u == 0x85 || u == 0xa0 || u == 0x1680 || (0x2000 <= u && u
        <= 0x200a) || u == 0x2028 || u == 0x2029 || u == 0x202f || u == 0x205f || u == 0x3000
}

/// A letter or digit of ASCII.
pub open spec fn is_ascii_alnum(c: char) -> bool {
    '0' <= c <= '9' || 'a' <= c <= 'z' || 'A' <= c <= 'Z'
}

pub fn ascii_alnum(c: char) -> (r: bool)
    ensures
        r == is_ascii_alnum(c),
{
    ('0' <= c && c <= '9') || ('a' <= c && c <= 'z') || ('A' <= c && c <= 'Z')
}

/// `c` with a small ASCII letter made large.
pub open spec fn upper_char(c: char) -> char {
    if 'a' <= c <= 'z' {
        (c as u32 - 32) as char
    } else {
        c
    }
}

/// `s` with its small ASCII letters made large.
pub open spec fn upper_text(s: Seq<char>) -> Seq<char> {
    s.map_values(|c: char| upper_char(c))
}

/// `c` with a large ASCII letter made small.
pub open spec fn lower_char(c: char) -> char {
    if 'A' <= c <= 'Z' {
        (c as u32 + 32) as char
    } else {
        c
    }
}

/// `s` with its large ASCII letters made small.
pub open spec fn lower_text(s: Seq<char>) -> Seq<char> {
    s.map_values(|c: char| lower_char(c))
}

pub fn upper(s: &str) -> (r: String)
    ensures
        r@ == upper_text(s@),
{
    let cs = chars_of(s);
    let mut out = String::new();
    let mut i: usize = 0;
    assert(out@ =~= upper_text(cs@.take(0)));
    while i < cs.len()
        invariant
            i <= cs.len(),
            out@ == upper_text(cs@.take(i as int)),
        decreases cs.len() - i,
    {
        let c = cs[i];
        if 'a' <= c && c <= 'z' {
            out.push(((c as u8) - 32) as char);
        } else {
            out.push(c);
        }
        i = i + 1;
        assert(out@ =~= upper_text(cs@.take(i as int)));
    }
    assert(cs@.take(cs.len() as int) =~= s@);
    out
}

pub fn lower(s: &str) -> (r: String)
    ensures
        r@ == lower_text(s@),
{
    let cs = chars_of(s);
    let mut out = String::new();
    let mut i: usize = 0;
    assert(out@ =~= lower_text(cs@.take(0)));
    while i < cs.len()
        invariant
            i <= cs.len(),
            out@ == lower_text(cs@.take(i as int)),
        decreases cs.len() - i,
    {
        let c = cs[i];
        if 'A' <= c && c <= 'Z' {
            out.push(((c as u8) + 32) as char);
        } else {
            out.push(c);
        }
        i = i + 1;
        assert(out@ =~= lower_text(cs@.take(i as int)));
    }
    assert(cs@.take(cs.len() as int) =~= s@);
    out
}

/// Whether two texts agree up to the case of ASCII letters.
pub fn same_ignoring_case(a: &str, b: &str) -> (r: bool)
    ensures
        r == (lower_text(a@) == lower_text(b@)),
{
    let x = lower(a);
    let y = lower(b);
    x == y
}

/// Whether every character of `s` is a letter or digit of ASCII.
pub open spec fn all_alnum(s: Seq<char>) -> bool {
    forall|i: int| 0 <= i < s.len() ==> is_ascii_alnum(#[trigger] s[i])
}

pub fn is_alnum(s: &str) -> (r: bool)
    ensures
        r == all_alnum(s@),
{
    let cs = chars_of(s);
    let mut i: usize = 0;
    while i < cs.len()
        invariant
            i <= cs.len(),
            cs@ == s@,
            forall|j: int| 0 <= j < i ==> is_ascii_alnum(#[trigger] cs@[j]),
        decreases cs.len() - i,
    {
        if !ascii_alnum(cs[i]) {
            assert(!is_ascii_alnum(s@[i as int]));
            return false;
        }
        i = i + 1;
    }
    true
}

// ---------------------------------------------------------------------------------------------
// Trimming.

/// `s` without the white space at its start.
pub open spec fn trim_start_text(s: Seq<char>) -> Seq<char>
    decreases s.len(),
{
    if s.len() > 0 && is_space(s[0]) {
        trim_start_text(s.drop_first())
    } else {
        s
    }
}

/// `s` without the white space at its end.
pub open spec fn trim_end_text(s: Seq<char>) -> Seq<char>
    decreases s.len(),
{
    if s.len() > 0 && is_space(s.last()) {
        trim_end_text(s.drop_last())
    } else {
        s
    }
}

/// `s` without the white space at its ends.
pub open spec fn trim_text(s: Seq<char>) -> Seq<char> {
    trim_end_text(trim_start_text(s))
}

pub fn trim(s: &str) -> (r: String)
    ensures
        r@ == trim_text(s@),
{
    let cs = chars_of(s);
    let mut from: usize = 0;
    assert(cs@.skip(0) =~= s@);
    while from < cs.len() && space(cs[from])
        invariant
            from <= cs.len(),
            trim_start_text(s@) == trim_start_text(cs@.skip(from as int)),
        decreases cs.len() - from,
    {
        assert(cs@.skip(from as int).drop_first() =~= cs@.skip(from + 1));
        from = from + 1;
    }
    let ghost t = cs@.skip(from as int);
    assert(trim_start_text(s@) == t);
    let mut to: usize = cs.len();
    assert(t.take(to - from) =~= t);
    while from < to && space(cs[to - 1])
        invariant
            from <= to <= cs.len(),
            t == cs@.skip(from as int),
            trim_end_text(t) == trim_end_text(t.take(to - from)),
        decreases to,
    {
        assert(t.take(to - from).drop_last() =~= t.take(to - from - 1));
        assert(t.take(to - from).last() == cs@[to - 1]);
        to = to - 1;
    }
    assert(from < to ==> t.take(to - from).last() == cs@[to - 1]);
    assert(t.take(to - from) =~= cs@.subrange(from as int, to as int));
    text_of_range(&cs, from, to)
}

/// `s` without the characters `c` at its start.
pub open spec fn skip_leading(s: Seq<char>, c: char) -> Seq<char>
    decreases s.len(),
{
    if s.len() > 0 && s[0] == c {
        skip_leading(s.drop_first(), c)
    } else {
        s
    }
}

/// `s` without the characters `c` at its start.
pub fn without_leading(s: &str, c: char) -> (r: String)
    ensures
        r@ == skip_leading(s@, c),
{
    let cs = chars_of(s);
    let mut from: usize = 0;
    assert(cs@.skip(0) =~= s@);
    while from < cs.len() && cs[from] == c
        invariant
            from <= cs.len(),
            skip_leading(s@, c) == skip_leading(cs@.skip(from as int), c),
        decreases cs.len() - from,
    {
        assert(cs@.skip(from as int).drop_first() =~= cs@.skip(from + 1));
        from = from + 1;
    }
    assert(cs@.skip(from as int) =~= cs@.subrange(from as int, cs.len() as int));
    text_of_range(&cs, from, cs.len())
}

// ---------------------------------------------------------------------------------------------
// Finding.

/// The first place of `c` in `s`, or the length of `s` where there is none.
pub open spec fn place_of(s: Seq<char>, c: char) -> int
    decreases s.len(),
{
    if s.len() == 0 || s[0] == c {
        0
    } else {
        1 + place_of(s.drop_first(), c)
    }
}

/// The first place of `c` is where it is said to be.
pub(crate) proof fn lemma_place(s: Seq<char>, c: char, i: int)
    requires
        0 <= i <= s.len(),
        forall|j: int| 0 <= j < i ==> s[j] != c,
        i < s.len() ==> s[i] == c,
    ensures
        place_of(s, c) == i,
    decreases s.len(),
{
    if i > 0 {
        assert(s[0] != c);
        lemma_place(s.drop_first(), c, i - 1);
    }
}

/// What stands at the first place of `c` and before it.
pub(crate) proof fn lemma_place_is_first(s: Seq<char>, c: char)
    ensures
        0 <= place_of(s, c) <= s.len(),
        forall|j: int| 0 <= j < place_of(s, c) ==> s[j] != c,
        place_of(s, c) < s.len() ==> s[place_of(s, c)] == c,
        place_of(s, c) < s.len() <==> s.contains(c),
    decreases s.len(),
{
    if s.len() > 0 && s[0] != c {
        let t = s.drop_first();
        lemma_place_is_first(t, c);
        assert forall|j: int| 0 <= j < place_of(s, c) implies s[j] != c by {
            if j > 0 {
                assert(s[j] == t[j - 1]);
            }
        }
        if s.contains(c) {
            let k = s.index_of(c);
            assert(t[k - 1] == c);
        }
        if t.contains(c) {
            assert(s[t.index_of(c) + 1] == c);
        }
    } else if s.len() > 0 {
        assert(s[0] == c);
    }
}

/// The first place of `c` in `cs` from `from` on, or the length of `cs`.
pub fn find_from(cs: &Vec<char>, from: usize, c: char) -> (i: usize)
    requires
        from <= cs.len(),
    ensures
        from <= i <= cs.len(),
        i - from == place_of(cs@.skip(from as int), c),
        i < cs.len() ==> cs@[i as int] == c,
        forall|j: int| from <= j < i ==> cs@[j] != c,
{
    let mut i: usize = from;
    while i < cs.len() && cs[i] != c
        invariant
            from <= i <= cs.len(),
            forall|j: int| from <= j < i ==> cs@[j] != c,
        decreases cs.len() - i,
    {
        i = i + 1;
    }
    proof {
        lemma_place(cs@.skip(from as int), c, i - from);
    }
    i
}

/// `s` cut at the first `c`, which is in neither part; `None` where there is no `c`.
pub open spec fn cut_text(s: Seq<char>, c: char) -> Option<(Seq<char>, Seq<char>)> {
    if s.contains(c) {
        Some((s.take(place_of(s, c)), s.skip(place_of(s, c) + 1)))
    } else {
        None
    }
}

/// `s` cut at the first `c`.
pub fn cut(s: &str, c: char) -> (r: Option<(String, String)>)
    ensures
        match cut_text(s@, c) {
            Some((a, b)) => r is Some && (r->0).0@ == a && (r->0).1@ == b,
            None => r is None,
        },
{
    let cs = chars_of(s);
    let i = find_from(&cs, 0, c);
    proof {
        assert(cs@.skip(0) =~= s@);
        lemma_place_is_first(s@, c);
    }
    if i < cs.len() {
        let a = text_of_range(&cs, 0, i);
        let b = text_of_range(&cs, i + 1, cs.len());
        assert(a@ =~= s@.take(i as int));
        assert(b@ =~= s@.skip(i + 1));
        Some((a, b))
    } else {
        None
    }
}

/// `s` cut at every `c`: one part more than there are cuts.
pub open spec fn parts_text(s: Seq<char>, c: char) -> Seq<Seq<char>>
    decreases s.len(),
    via parts_text_shrinks
{
    if s.contains(c) {
        seq![s.take(place_of(s, c))] + parts_text(s.skip(place_of(s, c) + 1), c)
    } else {
        seq![s]
    }
}

#[via_fn]
proof fn parts_text_shrinks(s: Seq<char>, c: char) {
    lemma_place_is_first(s, c);
}

/// The texts of a list.
pub open spec fn texts(v: Seq<String>) -> Seq<Seq<char>> {
    v.map_values(|s: String| s@)
}

/// `s` cut at every `c`.
pub fn parts(s: &str, c: char) -> (r: Vec<String>)
    ensures
        texts(r@) == parts_text(s@, c),
        r@.len() >= 1,
{
    let cs = chars_of(s);
    let mut out: Vec<String> = Vec::new();
    let mut from: usize = 0;
    assert(cs@.skip(0) =~= s@);
    assert(texts(out@) =~= Seq::<Seq<char>>::empty());
    assert(texts(out@) + parts_text(cs@.skip(0), c) =~= parts_text(s@, c));
    loop
        invariant
            from <= cs.len(),
            cs@ == s@,
            texts(out@) + parts_text(cs@.skip(from as int), c) == parts_text(s@, c),
        decreases cs.len() - from,
    {
        let i = find_from(&cs, from, c);
        let ghost t = cs@.skip(from as int);
        let ghost before = texts(out@);
        proof {
            lemma_place_is_first(t, c);
        }
        let part = text_of_range(&cs, from, i);
        assert(part@ =~= t.take(i - from));
        out.push(part);
        assert(texts(out@) =~= before.push(t.take(i - from)));
        if i == cs.len() {
            assert(t.take(i - from) =~= t);
            assert(texts(out@) =~= before + parts_text(t, c));
            return out;
        }
        assert(t.skip(i - from + 1) =~= cs@.skip(i + 1));
        assert(texts(out@) + parts_text(cs@.skip(i + 1), c) =~= before + parts_text(t, c));
        from = i + 1;
    }
}

/// Whether `t` stands in `s` at the place `i`.
pub open spec fn stands_at(s: Seq<char>, t: Seq<char>, i: int) -> bool {
    0 <= i && i + t.len() <= s.len() && s.subrange(i, i + t.len()) == t
}

/// Whether `t` stands somewhere in `s`.
pub open spec fn holds_text(s: Seq<char>, t: Seq<char>) -> bool {
    exists|i: int| #[trigger] stands_at(s, t, i)
}

fn at_place(cs: &Vec<char>, ts: &Vec<char>, i: usize) -> (r: bool)
    requires
        i <= cs.len(),
    ensures
        r == stands_at(cs@, ts@, i as int),
{
    if ts.len() > cs.len() - i {
        return false;
    }
    let mut j: usize = 0;
    while j < ts.len()
        invariant
            i + ts.len() <= cs.len(),
            j <= ts.len(),
            forall|k: int| 0 <= k < j ==> cs@[i + k] == #[trigger] ts@[k],
        decreases ts.len() - j,
    {
        if cs[i + j] != ts[j] {
            assert(cs@.subrange(i as int, i + ts.len())[j as int] != ts@[j as int]);
            return false;
        }
        j = j + 1;
    }
    assert(cs@.subrange(i as int, i + ts.len()) =~= ts@);
    true
}

/// Whether `t` stands somewhere in `s`.
pub fn holds(s: &str, t: &str) -> (r: bool)
    ensures
        r == holds_text(s@, t@),
{
    let cs = chars_of(s);
    let ts = chars_of(t);
    let mut i: usize = 0;
    while i < cs.len()
        invariant
            i <= cs.len(),
            cs@ == s@,
            ts@ == t@,
            forall|k: int| 0 <= k < i ==> !#[trigger] stands_at(s@, t@, k),
        decreases cs.len() - i,
    {
        if at_place(&cs, &ts, i) {
            return true;
        }
        i = i + 1;
    }
    if at_place(&cs, &ts, i) {
        return true;
    }
    false
}

/// `s` starts with `t`.
pub open spec fn starts(s: Seq<char>, t: Seq<char>) -> bool {
    stands_at(s, t, 0)
}

/// Whether `s` starts with `t`.
pub fn starts_with(s: &str, t: &str) -> (r: bool)
    ensures
        r == starts(s@, t@),
{
    let cs = chars_of(s);
    let ts = chars_of(t);
    at_place(&cs, &ts, 0)
}

/// `s` ends with `t`.
pub open spec fn ends(s: Seq<char>, t: Seq<char>) -> bool {
    t.len() <= s.len() && s.skip(s.len() - t.len()) == t
}

/// Whether `s` ends with `t`.
pub fn ends_with(s: &str, t: &str) -> (r: bool)
    ensures
        r == ends(s@, t@),
{
    let cs = chars_of(s);
    let ts = chars_of(t);
    if ts.len() > cs.len() {
        return false;
    }
    assert(s@.skip(s@.len() - t@.len()) =~= s@.subrange(s@.len() - t@.len(), s@.len() as int));
    at_place(&cs, &ts, cs.len() - ts.len())
}

/// What follows `t` in `s`, where `s` starts with `t`.
pub open spec fn after_text(s: Seq<char>, t: Seq<char>) -> Option<Seq<char>> {
    if starts(s, t) {
        Some(s.skip(t.len() as int))
    } else {
        None
    }
}

/// What follows `t` in `s`, where `s` starts with `t`.
pub fn after(s: &str, t: &str) -> (r: Option<String>)
    ensures
        match after_text(s@, t@) {
            Some(rest) => r is Some && (r->0)@ == rest,
            None => r is None,
        },
{
    let cs = chars_of(s);
    let ts = chars_of(t);
    if at_place(&cs, &ts, 0) {
        let rest = text_of_range(&cs, ts.len(), cs.len());
        assert(rest@ =~= s@.skip(t@.len() as int));
        Some(rest)
    } else {
        None
    }
}

/// Whether `c` stands somewhere in `s`.
pub fn holds_char(s: &str, c: char) -> (r: bool)
    ensures
        r == s@.contains(c),
{
    let cs = chars_of(s);
    let i = find_from(&cs, 0, c);
    proof {
        assert(cs@.skip(0) =~= s@);
        lemma_place_is_first(s@, c);
    }
    i < cs.len()
}

// ---------------------------------------------------------------------------------------------
// Words.

/// How many characters of `s` come before its first white space.
pub open spec fn word_len(s: Seq<char>) -> int
    decreases s.len(),
{
    if s.len() == 0 || is_space(s[0]) {
        0
    } else {
        1 + word_len(s.drop_first())
    }
}

pub(crate) proof fn lemma_word_len(s: Seq<char>, i: int)
    requires
        0 <= i <= s.len(),
        forall|j: int| 0 <= j < i ==> !is_space(#[trigger] s[j]),
        i < s.len() ==> is_space(s[i]),
    ensures
        word_len(s) == i,
    decreases s.len(),
{
    if i > 0 {
        assert(!is_space(s[0]));
        assert forall|j: int| 0 <= j < i - 1 implies !is_space(#[trigger] s.drop_first()[j]) by {
            assert(!is_space(s[j + 1]));
        }
        lemma_word_len(s.drop_first(), i - 1);
    }
}

pub(crate) proof fn lemma_word_len_bound(s: Seq<char>)
    ensures
        0 <= word_len(s) <= s.len(),
        s.len() > 0 && !is_space(s[0]) ==> word_len(s) > 0,
    decreases s.len(),
{
    if s.len() > 0 && !is_space(s[0]) {
        lemma_word_len_bound(s.drop_first());
    }
}

proof fn lemma_trim_start_shrinks(s: Seq<char>)
    ensures
        trim_start_text(s).len() <= s.len(),
        trim_start_text(s).len() > 0 ==> !is_space(trim_start_text(s)[0]),
    decreases s.len(),
{
    if s.len() > 0 && is_space(s[0]) {
        lemma_trim_start_shrinks(s.drop_first());
    }
}

/// The words of `s`: the pieces between white space.
pub open spec fn words_text(s: Seq<char>) -> Seq<Seq<char>>
    decreases s.len(),
    via words_text_shrinks
{
    let t = trim_start_text(s);
    if t.len() == 0 {
        Seq::empty()
    } else {
        seq![t.take(word_len(t))] + words_text(t.skip(word_len(t)))
    }
}

#[via_fn]
proof fn words_text_shrinks(s: Seq<char>) {
    lemma_trim_start_shrinks(s);
    lemma_word_len_bound(trim_start_text(s));
}

/// The words of `s`.
pub fn words(s: &str) -> (r: Vec<String>)
    ensures
        texts(r@) == words_text(s@),
{
    let cs = chars_of(s);
    let mut out: Vec<String> = Vec::new();
    let mut from: usize = 0;
    assert(cs@.skip(0) =~= s@);
    assert(texts(out@) + words_text(cs@.skip(0)) =~= words_text(s@));
    loop
        invariant
            from <= cs.len(),
            cs@ == s@,
            texts(out@) + words_text(cs@.skip(from as int)) == words_text(s@),
        decreases cs.len() - from,
    {
        let ghost u = cs@.skip(from as int);
        let ghost before = texts(out@);
        let mut at: usize = from;
        while at < cs.len() && space(cs[at])
            invariant
                from <= at <= cs.len(),
                trim_start_text(u) == trim_start_text(cs@.skip(at as int)),
            decreases cs.len() - at,
        {
            assert(cs@.skip(at as int).drop_first() =~= cs@.skip(at + 1));
            at = at + 1;
        }
        let ghost t = cs@.skip(at as int);
        assert(trim_start_text(u) == t);
        if at == cs.len() {
            assert(words_text(u) =~= Seq::<Seq<char>>::empty());
            assert(texts(out@) =~= words_text(s@));
            return out;
        }
        let mut end: usize = at;
        while end < cs.len() && !space(cs[end])
            invariant
                at <= end <= cs.len(),
                t == cs@.skip(at as int),
                forall|j: int| 0 <= j < end - at ==> !is_space(#[trigger] t[j]),
            decreases cs.len() - end,
        {
            assert(t[end - at] == cs@[end as int]);
            end = end + 1;
        }
        proof {
            assert(end < cs.len() ==> t[end - at] == cs@[end as int]);
            lemma_word_len(t, end - at);
            lemma_word_len_bound(t);
        }
        let word = text_of_range(&cs, at, end);
        assert(word@ =~= t.take(end - at));
        out.push(word);
        assert(texts(out@) =~= before.push(t.take(end - at)));
        assert(t.skip(end - at) =~= cs@.skip(end as int));
        assert(texts(out@) + words_text(cs@.skip(end as int)) =~= before + words_text(u));
        from = end;
    }
}

// ---------------------------------------------------------------------------------------------
// Putting together.

/// Two texts one after the other.
pub fn join2(a: &str, b: &str) -> (r: String)
    ensures
        r@ == a@ + b@,
{
    let mut s = a.to_owned();
    s.append(b);
    s
}

// ---------------------------------------------------------------------------------------------
// First places of a text, and replacing.

/// The first place from `i` on where `t` stands in `s`, or -1.
pub open spec fn text_place_from(s: Seq<char>, t: Seq<char>, i: int) -> int
    decreases s.len() + 1 - i,
{
    if i < 0 || i > s.len() {
        -1
    } else if stands_at(s, t, i) {
        i
    } else {
        text_place_from(s, t, i + 1)
    }
}

/// The first place where `t` stands in `s`, or -1.
pub open spec fn text_place(s: Seq<char>, t: Seq<char>) -> int {
    text_place_from(s, t, 0)
}

pub(crate) proof fn lemma_text_place_from(s: Seq<char>, t: Seq<char>, i: int)
    requires
        0 <= i,
    ensures
        text_place_from(s, t, i) == -1 || (i <= text_place_from(s, t, i) <= s.len() && stands_at(
            s,
            t,
            text_place_from(s, t, i),
        )),
        text_place_from(s, t, i) == -1 ==> forall|k: int| i <= k ==> !#[trigger] stands_at(s, t, k),
        text_place_from(s, t, i) != -1 ==> forall|k: int|
            i <= k < text_place_from(s, t, i) ==> !#[trigger] stands_at(s, t, k),
    decreases s.len() + 1 - i,
{
    if i <= s.len() && !stands_at(s, t, i) {
        lemma_text_place_from(s, t, i + 1);
    }
}

fn find_text_from(cs: &Vec<char>, ts: &Vec<char>, from: usize) -> (r: Option<usize>)
    requires
        from <= cs.len(),
    ensures
        match r {
            Some(i) => text_place_from(cs@, ts@, from as int) == i && from <= i && i + ts@.len()
                <= cs@.len(),
            None => text_place_from(cs@, ts@, from as int) == -1,
        },
{
    let mut i: usize = from;
    while i < cs.len()
        invariant
            from <= i <= cs.len(),
            text_place_from(cs@, ts@, from as int) == text_place_from(cs@, ts@, i as int),
        decreases cs.len() - i,
    {
        if at_place(cs, ts, i) {
            return Some(i);
        }
        i = i + 1;
    }
    if at_place(cs, ts, i) {
        Some(i)
    } else {
        assert(text_place_from(cs@, ts@, i + 1) == -1);
        None
    }
}

/// The first place where `t` stands in `s`.
pub fn find(s: &str, t: &str) -> (r: Option<usize>)
    ensures
        match r {
            Some(i) => text_place(s@, t@) == i && i + t@.len() <= s@.len(),
            None => text_place(s@, t@) == -1,
        },
{
    let cs = chars_of(s);
    let ts = chars_of(t);
    find_text_from(&cs, &ts, 0)
}

/// `s` with every `from`, read left to right, replaced by `to`. Nothing is replaced where `from`
/// is empty.
pub open spec fn replaced(s: Seq<char>, from: Seq<char>, to: Seq<char>) -> Seq<char>
    decreases s.len(),
    via replaced_shrinks
{
    if from.len() == 0 || text_place(s, from) < 0 {
        s
    } else {
        s.take(text_place(s, from)) + to + replaced(
            s.skip(text_place(s, from) + from.len()),
            from,
            to,
        )
    }
}

#[via_fn]
proof fn replaced_shrinks(s: Seq<char>, from: Seq<char>, to: Seq<char>) {
    lemma_text_place_from(s, from, 0);
}

/// `s` with every `from` replaced by `to`.
pub fn replace(s: &str, from: &str, to: &str) -> (r: String)
    ensures
        r@ == replaced(s@, from@, to@),
{
    if from.is_empty() {
        return s.to_owned();
    }
    let fs = chars_of(from);
    let mut cs = chars_of(s);
    let mut out = String::new();
    assert(out@ + replaced(cs@, from@, to@) =~= replaced(s@, from@, to@));
    loop
        invariant
            fs@ == from@,
            from@.len() > 0,
            out@ + replaced(cs@, from@, to@) == replaced(s@, from@, to@),
        decreases cs@.len(),
    {
        let ghost before = out@;
        match find_text_from(&cs, &fs, 0) {
            None => {
                let tail = text_of(&cs);
                out.append(tail.as_str());
                assert(out@ =~= before + replaced(cs@, from@, to@));
                return out;
            },
            Some(i) => {
                proof {
                    lemma_text_place_from(cs@, from@, 0);
                }
                let head = text_of_range(&cs, 0, i);
                out.append(head.as_str());
                out.append(to);
                let end: usize = cs.len();
                let rest = text_of_range(&cs, i + fs.len(), end);
                let rest = chars_of(rest.as_str());
                assert(head@ =~= cs@.take(i as int));
                assert(rest@ =~= cs@.skip(i + fs@.len()));
                assert(out@ + replaced(rest@, from@, to@) =~= before + replaced(cs@, from@, to@));
                cs = rest;
            },
        }
    }
}

/// The number that `s` writes in decimal, with one sign before it allowed.
pub open spec fn integer_of(s: Seq<char>) -> Option<int> {
    if s.len() > 0 && s[0] == '-' {
        match plain_number(s.skip(1)) {
            Some(n) => Some(-(n as int)),
            None => None,
        }
    } else {
        match signed_number(s) {
            Some(n) => Some(n as int),
            None => None,
        }
    }
}

/// The number that `s` writes in decimal, if 64 bits can hold it.
pub fn parse_integer(s: &str) -> (r: Option<i64>)
    ensures
        match integer_of(s@) {
            Some(v) => if i64::MIN <= v <= i64::MAX {
                r is Some && r->0 == v
            } else {
                r is None
            },
            None => r is None,
        },
{
    let cs = chars_of(s);
    if cs.len() > 0 && cs[0] == '-' {
        match number_from(&cs, 1, 9_223_372_036_854_775_808) {
            Some(n) => {
                if n == 9_223_372_036_854_775_808 {
                    Some(i64::MIN)
                } else {
                    Some(-(n as i64))
                }
            },
            None => None,
        }
    } else {
        match parse_number(s, 9_223_372_036_854_775_807) {
            Some(n) => Some(n as i64),
            None => None,
        }
    }
}

// ---------------------------------------------------------------------------------------------
// What the operations mean.

/// Cutting takes the text apart where the character first stands, and only there: what is put
/// together around it comes apart again.
pub proof fn cutting_undoes_joining(a: Seq<char>, b: Seq<char>, c: char)
    requires
        !a.contains(c),
    ensures
        cut_text(a + seq![c] + b, c) == Some((a, b)),
        cut_text(a, c) is None,
{
    let s = a + seq![c] + b;
    assert(s[a.len() as int] == c);
    assert forall|j: int| 0 <= j < a.len() implies s[j] != c by {
        assert(s[j] == a[j]);
    }
    lemma_place(s, c, a.len() as int);
    assert(s.take(a.len() as int) =~= a);
    assert(s.skip(a.len() as int + 1) =~= b);
}

/// The parts of a text are what stands between the cuts, in order.
pub proof fn parts_undo_joining(a: Seq<char>, b: Seq<char>, c: char)
    requires
        !a.contains(c),
    ensures
        parts_text(a + seq![c] + b, c) == seq![a] + parts_text(b, c),
        parts_text(a, c) == seq![a],
{
    cutting_undoes_joining(a, b, c);
    assert((a + seq![c] + b)[a.len() as int] == c);
}

proof fn lemma_trim_start(s: Seq<char>) -> (a: int)
    ensures
        0 <= a <= s.len(),
        trim_start_text(s) == s.skip(a),
        forall|i: int| 0 <= i < a ==> is_space(#[trigger] s[i]),
        a < s.len() ==> !is_space(s[a]),
    decreases s.len(),
{
    if s.len() > 0 && is_space(s[0]) {
        let t = s.drop_first();
        let b = lemma_trim_start(t);
        assert(t.skip(b) =~= s.skip(b + 1));
        assert forall|i: int| 0 <= i < b + 1 implies is_space(#[trigger] s[i]) by {
            if i > 0 {
                assert(s[i] == t[i - 1]);
            }
        }
        b + 1
    } else {
        assert(s.skip(0) =~= s);
        0
    }
}

proof fn lemma_trim_end(s: Seq<char>) -> (b: int)
    ensures
        0 <= b <= s.len(),
        trim_end_text(s) == s.take(b),
        forall|i: int| b <= i < s.len() ==> is_space(#[trigger] s[i]),
        b > 0 ==> !is_space(s[b - 1]),
    decreases s.len(),
{
    if s.len() > 0 && is_space(s.last()) {
        let t = s.drop_last();
        let b = lemma_trim_end(t);
        assert(t.take(b) =~= s.take(b));
        assert forall|i: int| b <= i < s.len() implies is_space(#[trigger] s[i]) by {
            if i < t.len() {
                assert(s[i] == t[i]);
            }
        }
        b
    } else {
        assert(s.take(s.len() as int) =~= s);
        s.len() as int
    }
}

/// Trimming takes white space off both ends, all of it and nothing else.
pub proof fn trimming_takes_only_space(s: Seq<char>) -> (r: (int, int))
    ensures
        0 <= r.0 <= r.1 <= s.len(),
        trim_text(s) == s.subrange(r.0, r.1),
        forall|i: int| 0 <= i < r.0 || r.1 <= i < s.len() ==> is_space(#[trigger] s[i]),
        trim_text(s).len() > 0 ==> !is_space(trim_text(s)[0]) && !is_space(trim_text(s).last()),
{
    let a = lemma_trim_start(s);
    let t = s.skip(a);
    let b = lemma_trim_end(t);
    assert(t.take(b) =~= s.subrange(a, a + b));
    assert forall|i: int| 0 <= i < a || a + b <= i < s.len() implies is_space(#[trigger] s[i]) by {
        if i >= a {
            assert(s[i] == t[i - a]);
        }
    }
    if trim_text(s).len() > 0 {
        assert(trim_text(s)[0] == t[0]);
        assert(trim_text(s).last() == t[b - 1]);
    }
    (a, a + b)
}

/// What separates words is white space; what words are made of is not.
pub proof fn letters_are_no_space(c: char)
    ensures
        is_space(' ') && is_space('\t') && is_space('\n') && is_space('\r'),
        '!' <= c <= '~' ==> !is_space(c),
        is_ascii_alnum(c) <==> ('0' <= c <= '9' || 'A' <= c <= 'Z' || 'a' <= c <= 'z'),
{
}

/// A character that is no white space.
pub open spec fn inked() -> spec_fn(char) -> bool {
    |c: char| !is_space(c)
}

pub(crate) proof fn lemma_no_ink(s: Seq<char>)
    requires
        forall|i: int| 0 <= i < s.len() ==> is_space(#[trigger] s[i]),
    ensures
        s.filter(inked()) == Seq::<char>::empty(),
    decreases s.len(),
{
    reveal(Seq::filter);
    if s.len() > 0 {
        lemma_no_ink(s.drop_last());
        assert(is_space(s[s.len() - 1]));
    }
}

/// Trimming keeps everything but white space.
pub(crate) proof fn lemma_trim_keeps_ink(s: Seq<char>)
    ensures
        trim_text(s).filter(inked()) == s.filter(inked()),
{
    let (a, b) = trimming_takes_only_space(s);
    let x = s.take(a);
    let y = s.subrange(a, b);
    let z = s.skip(b);
    lemma_no_ink(x);
    lemma_no_ink(z);
    Seq::filter_distributes_over_add(x, y, inked());
    Seq::filter_distributes_over_add(x + y, z, inked());
    assert(s =~= x + y + z);
    assert(s.filter(inked()) =~= y.filter(inked()));
}

/// The words of a text are its pieces between white space, in order: leading white space starts no
/// word, and a word ends where white space begins.
pub proof fn words_stand_between_space(w: Seq<char>, gap: char, rest: Seq<char>)
    requires
        is_space(gap),
        w.len() > 0,
        forall|i: int| 0 <= i < w.len() ==> !is_space(#[trigger] w[i]),
    ensures
        words_text(seq![gap] + rest) == words_text(rest),
        words_text(w) == seq![w],
        words_text(w + seq![gap] + rest) == seq![w] + words_text(rest),
        words_text(Seq::<char>::empty()) == Seq::<Seq<char>>::empty(),
{
    let s = w + seq![gap] + rest;
    assert(s[0] == w[0]);
    assert(trim_start_text(s) == s);
    assert forall|j: int| 0 <= j < w.len() implies !is_space(#[trigger] s[j]) by {
        assert(s[j] == w[j]);
    }
    lemma_word_len(s, w.len() as int);
    assert(s.take(w.len() as int) =~= w);
    assert(s.skip(w.len() as int) =~= seq![gap] + rest);
    let g = seq![gap] + rest;
    assert(g.drop_first() =~= rest);
    assert(trim_start_text(g) == trim_start_text(rest));
    assert(words_text(g) == words_text(rest));
    assert(trim_start_text(w) == w);
    lemma_word_len(w, w.len() as int);
    assert(w.take(w.len() as int) =~= w);
    assert(w.skip(w.len() as int) =~= Seq::<char>::empty());
    assert(words_text(Seq::<char>::empty()) =~= Seq::<Seq<char>>::empty());
    assert(words_text(w) =~= seq![w]);
}

/// A number written in decimal reads back as it was, has no sign and no leading zero, and writes its
/// lowest digit last.
pub proof fn decimals_read_back(n: nat)
    ensures
        plain_number(decimal_text(n)) == Some(n),
        signed_number(decimal_text(n)) == Some(n),
        signed_number(seq!['+'] + decimal_text(n)) == Some(n),
        plain_number(seq!['+'] + decimal_text(n)) is None,
        integer_of(seq!['-'] + decimal_text(n)) == Some(-(n as int)),
        decimal_text(n).len() > 0,
        n > 0 ==> decimal_text(n)[0] != '0',
        decimal_text(n).last() as nat == 48 + n % 10,
        n >= 10 ==> decimal_text(n).drop_last() == decimal_text(n / 10),
{
    lemma_decimal_reads_back(n);
    let d = decimal_text(n);
    assert(is_digit_char(d[0]));
    let p = seq!['+'] + d;
    assert(p.skip(1) =~= d);
    assert(!is_digit_char(p[0]));
    assert((seq!['-'] + d).skip(1) =~= d);
    assert(n >= 10 ==> d.drop_last() =~= decimal_text(n / 10));
}

proof fn lemma_decimal_reads_back(n: nat)
    ensures
        all_digits(decimal_text(n)),
        digits_value(decimal_text(n)) == n,
        decimal_text(n).len() > 0,
        n > 0 ==> decimal_text(n)[0] != '0',
    decreases n,
{
    reveal_with_fuel(digits_value, 2);
    let t = decimal_text(n);
    if n >= 10 {
        lemma_decimal_reads_back(n / 10);
        assert(t.drop_last() =~= decimal_text(n / 10));
        assert(t[0] == decimal_text(n / 10)[0]);
    } else {
        assert(t.drop_last() =~= Seq::<char>::empty());
    }
}

/// Digits are worth ten times more one place further left.
pub proof fn digits_are_decimal(s: Seq<char>, d: char)
    requires
        is_digit_char(d),
    ensures
        digits_value(s.push(d)) == 10 * digits_value(s) + (d as int - 48),
        digits_value(Seq::<char>::empty()) == 0,
        is_digit_char(d) <==> '0' <= d <= '9',
{
    assert(s.push(d).drop_last() =~= s);
}

/// Hexadecimal digits, the lowest last.
pub proof fn hex_is_sixteen_digits(n: nat, width: nat)
    ensures
        hex_text(n, 0) == Seq::<char>::empty(),
        hex_text(n, width + 1) == hex_text(n / 16, width).push(
            "0123456789abcdef"@[(n % 16) as int],
        ),
{
    reveal_strlit("0123456789abcdef");
}

/// Changing the case of letters changes nothing else, and undoes itself as far as case goes.
pub proof fn case_is_of_letters(s: Seq<char>, i: int)
    requires
        0 <= i < s.len(),
    ensures
        upper_text(s).len() == s.len(),
        lower_text(s).len() == s.len(),
        lower_text(upper_text(s)) == lower_text(s),
        upper_text(lower_text(s)) == upper_text(s),
        !('a' <= s[i] <= 'z') ==> upper_text(s)[i] == s[i],
        !('A' <= s[i] <= 'Z') ==> lower_text(s)[i] == s[i],
        'a' <= s[i] <= 'z' ==> 'A' <= upper_text(s)[i] <= 'Z' && upper_text(s)[i] as int - 'A' as int
            == s[i] as int - 'a' as int,
        'A' <= s[i] <= 'Z' ==> 'a' <= lower_text(s)[i] <= 'z' && lower_text(s)[i] as int - 'a' as int
            == s[i] as int - 'A' as int,
{
    assert(lower_text(upper_text(s)) =~= lower_text(s));
    assert(upper_text(lower_text(s)) =~= upper_text(s));
}

/// Replacing puts the new text where the old one first stands, goes on behind it, and leaves a text
/// alone that does not hold the old one.
pub proof fn replacing_goes_left_to_right(
    a: Seq<char>,
    from: Seq<char>,
    to: Seq<char>,
    b: Seq<char>,
)
    requires
        from.len() > 0,
        forall|k: int| 0 <= k < a.len() ==> !#[trigger] stands_at(a + from + b, from, k),
    ensures
        replaced(a + from + b, from, to) == a + to + replaced(b, from, to),
        !holds_text(b, from) ==> replaced(b, from, to) == b,
{
    let s = a + from + b;
    let n = a.len() as int;
    assert(s.subrange(n, n + from.len()) =~= from);
    assert(stands_at(s, from, n));
    lemma_text_place_from(s, from, 0);
    assert(text_place(s, from) == n);
    assert(s.take(n) =~= a);
    assert(s.skip(n + from.len()) =~= b);
    lemma_text_place_from(b, from, 0);
    if !holds_text(b, from) && text_place(b, from) >= 0 {
        assert(stands_at(b, from, text_place(b, from)));
    }
}

/// A text starts, ends and is found with what was put at its start, its end and its middle.
pub proof fn joined_texts_are_found(a: Seq<char>, t: Seq<char>, b: Seq<char>)
    ensures
        starts(t + b, t),
        ends(a + t, t),
        holds_text(a + t + b, t),
        starts(b, t) ==> b == t + b.skip(t.len() as int),
        ends(a, t) ==> a == a.take(a.len() - t.len()) + t,
        after_text(t + b, t) == Some(b),
{
    assert((t + b).subrange(0, t.len() as int) =~= t);
    assert((t + b).skip(t.len() as int) =~= b);
    assert((a + t).skip((a + t).len() - t.len()) =~= t);
    let n = a.len() as int;
    assert((a + t + b).subrange(n, n + t.len()) =~= t);
    assert(stands_at(a + t + b, t, n));
    if starts(b, t) {
        assert(b =~= b.subrange(0, t.len() as int) + b.skip(t.len() as int));
    }
    if ends(a, t) {
        assert(a =~= a.take(a.len() - t.len()) + a.skip(a.len() - t.len()));
    }
}

/// Leading characters are skipped, all of them and nothing else.
pub proof fn skipping_takes_the_lead(s: Seq<char>, c: char)
    ensures
        skip_leading(seq![c] + s, c) == skip_leading(s, c),
        s.len() > 0 && s[0] != c ==> skip_leading(s, c) == s,
        skip_leading(Seq::<char>::empty(), c) == Seq::<char>::empty(),
{
    assert((seq![c] + s).drop_first() =~= s);
}

pub(crate) proof fn lemma_ends_join(a: Seq<char>, t: Seq<char>)
    ensures
        ends(a + t, t),
{
    assert((a + t).skip((a + t).len() - t.len()) =~= t);
}

pub(crate) proof fn lemma_starts_join(t: Seq<char>, b: Seq<char>)
    ensures
        starts(t + b, t),
{
    assert((t + b).subrange(0, t.len() as int) =~= t);
}

pub(crate) proof fn lemma_holds_join(a: Seq<char>, t: Seq<char>, b: Seq<char>)
    ensures
        holds_text(a + t + b, t),
{
    let n = a.len() as int;
    assert((a + t + b).subrange(n, n + t.len()) =~= t);
    assert(stands_at(a + t + b, t, n));
}

pub(crate) proof fn lemma_ends_split(a: Seq<char>, t: Seq<char>)
    requires
        ends(a, t),
    ensures
        a == a.take(a.len() - t.len()) + t,
{
    assert(a =~= a.take(a.len() - t.len()) + a.skip(a.len() - t.len()));
}

/// A text put together of parts holds every part, with the one after it.
pub(crate) proof fn lemma_parts_are_held(parts: Seq<Seq<char>>, i: int)
    requires
        0 <= i < parts.len() - 1,
    ensures
        holds_text(parts.flatten(), parts[i] + parts[i + 1]),
    decreases parts.len(),
{
    let n = parts.len() as int;
    let front = parts.drop_last();
    assert(parts =~= front.push(parts.last()));
    front.lemma_flatten_push(parts.last());
    let f = front.flatten();
    if i < n - 2 {
        lemma_parts_are_held(front, i);
        lemma_holds_grow(f, parts[i] + parts[i + 1], parts.last());
    } else {
        let head = front.drop_last();
        assert(front =~= head.push(front.last()));
        head.lemma_flatten_push(front.last());
        let h = head.flatten();
        let none = Seq::<char>::empty();
        assert(parts.flatten() =~= h + (parts[i] + parts[i + 1]) + none);
        lemma_holds_join(h, parts[i] + parts[i + 1], none);
    }
}

pub(crate) proof fn lemma_holds_grow(a: Seq<char>, t: Seq<char>, b: Seq<char>)
    requires
        holds_text(a, t),
    ensures
        holds_text(a + b, t),
        holds_text(b + a, t),
{
    let k = choose|k: int| stands_at(a, t, k);
    assert(stands_at(a, t, k));
    assert((a + b).subrange(k, k + t.len()) =~= a.subrange(k, k + t.len()));
    assert(stands_at(a + b, t, k));
    let m = b.len() + k;
    assert((b + a).subrange(m, m + t.len()) =~= a.subrange(k, k + t.len()));
    assert(stands_at(b + a, t, m));
}

/// A text put together of parts begins with the first and ends with the last two.
pub(crate) proof fn lemma_flat_ends(parts: Seq<Seq<char>>)
    requires
        parts.len() >= 2,
    ensures
        starts(parts.flatten(), parts[0]),
        ends(parts.flatten(), parts[parts.len() - 2] + parts.last()),
    decreases parts.len(),
{
    let n = parts.len() as int;
    let front = parts.drop_last();
    assert(parts =~= front.push(parts.last()));
    front.lemma_flatten_push(parts.last());
    let head = front.drop_last();
    assert(front =~= head.push(front.last()));
    head.lemma_flatten_push(front.last());
    let h = head.flatten();
    let last = parts[n - 2] + parts.last();
    assert(parts.flatten() =~= h + last);
    lemma_ends_join(h, last);
    if n == 2 {
        assert(h =~= Seq::<char>::empty());
        assert(parts.flatten() =~= parts[0] + parts.last());
        lemma_starts_join(parts[0], parts.last());
    } else {
        lemma_flat_ends(front);
        let f = front.flatten();
        let rest = f.skip(parts[0].len() as int);
        assert(f =~= parts[0] + rest);
        assert(parts.flatten() =~= parts[0] + (rest + parts.last()));
        lemma_starts_join(parts[0], rest + parts.last());
    }
}

pub(crate) proof fn lemma_starts_grow(a: Seq<char>, t: Seq<char>, b: Seq<char>)
    requires
        starts(a, t),
    ensures
        starts(a + b, t),
{
    assert((a + b).take(t.len() as int) =~= a.take(t.len() as int));
}

/// The last part of a text is what follows its last separator.
pub(crate) proof fn lemma_last_part(x: Seq<char>, b: Seq<char>, c: char)
    requires
        !b.contains(c),
    ensures
        parts_text(x + seq![c] + b, c).len() > 0,
        parts_text(x + seq![c] + b, c).last() == b,
    decreases x.len(),
{
    parts_undo_joining(b, b, c);
    if x.contains(c) {
        let k = lemma_first_cut(x, c);
        let (p, q) = (x.take(k), x.skip(k + 1));
        let rest = q + seq![c] + b;
        lemma_last_part(q, b, c);
        assert(x + seq![c] + b =~= p + seq![c] + rest);
        parts_undo_joining(p, rest, c);
    } else {
        parts_undo_joining(x, b, c);
    }
}

proof fn lemma_first_cut(x: Seq<char>, c: char) -> (k: int)
    requires
        x.contains(c),
    ensures
        0 <= k < x.len(),
        x[k] == c,
        !x.take(k).contains(c),
    decreases x.len(),
{
    let t = x.drop_last();
    if t.contains(c) {
        let k = lemma_first_cut(t, c);
        assert(t.take(k) =~= x.take(k));
        k
    } else {
        let k = x.len() - 1;
        assert(x.take(k) =~= t);
        let j = x.index_of(c);
        if j < k {
            assert(t[j] == c);
        }
        k
    }
}

} // verus!
