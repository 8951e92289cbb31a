//! A response, before it is written, and the text it starts with on the wire.

use crate::text;
use vstd::prelude::*;
use vstd::utf8::*;

verus! {

/// How long a JSON answer is reused before the feeds are asked again, in milliseconds.
pub const JSON_TTL_MS: u64 = 60_000;

/// How long a rendered radar image is reused, in milliseconds and in seconds. A volume is about
/// five minutes wide, so is this.
pub const SNAPSHOT_TTL_MS: u64 = 300_000;

pub const SNAPSHOT_TTL_SECS: u64 = 300;

/// A response, before it is written.
#[derive(Debug)]
pub struct Reply {
    pub status: &'static str,
    pub ctype: &'static str,
    pub body: Vec<u8>,
    pub headers: Vec<(&'static str, String)>,
}

/// A header's name and value.
pub type HeaderText = (Seq<char>, Seq<char>);

/// The headers as texts.
pub open spec fn header_texts(headers: Seq<(&'static str, String)>) -> Seq<HeaderText> {
    headers.map_values(|h: (&'static str, String)| (h.0@, h.1@))
}

impl Reply {
    /// What the reply says.
    pub open spec fn says(
        self,
        status: Seq<char>,
        ctype: Seq<char>,
        body: Seq<u8>,
        headers: Seq<HeaderText>,
    ) -> bool {
        &&& self.status@ == status
        &&& self.ctype@ == ctype
        &&& self.body@ == body
        &&& header_texts(self.headers@) == headers
    }

    /// The reply refuses or fails with a short JSON body.
    pub open spec fn is_error(self, status: Seq<char>, body: Seq<char>) -> bool {
        self.says(status, "application/json"@, encode_utf8(body), Seq::<HeaderText>::empty())
    }

    /// A reply with no headers of its own.
    pub fn plain(status: &'static str, ctype: &'static str, body: Vec<u8>) -> (r: Reply)
        ensures
            r.says(status@, ctype@, body@, Seq::<HeaderText>::empty()),
    {
        let headers: Vec<(&'static str, String)> = Vec::new();
        assert(header_texts(headers@) =~= Seq::<HeaderText>::empty());
        Reply { status, ctype, body, headers }
    }
}

/// A failure in JSON, with the body `body`.
pub fn error_reply(status: &'static str, body: &str) -> (r: Reply)
    ensures
        r.is_error(status@, body@),
{
    Reply::plain(status, "application/json", body.as_bytes_vec())
}

pub fn not_found() -> (r: Reply)
    ensures
        r.is_error("404 Not Found"@, "{\"error\":\"no such endpoint\"}"@),
{
    error_reply("404 Not Found", "{\"error\":\"no such endpoint\"}")
}

/// How a character is written inside a JSON string.
pub open spec fn json_char(c: char) -> Seq<char> {
    let u = c as u32;
    if c == '"' || c == '\\' {
        seq!['\\', c]
    } else if u == 8 {
        seq!['\\', 'b']
    } else if u == 9 {
        seq!['\\', 't']
    } else if u == 10 {
        seq!['\\', 'n']
    } else if u == 12 {
        seq!['\\', 'f']
    } else if u == 13 {
        seq!['\\', 'r']
    } else if u < 32 {
        seq!['\\', 'u', '0', '0'] + text::hex_text(u as nat, 2)
    } else {
        seq![c]
    }
}

/// `s` as it is written inside a JSON string.
pub open spec fn json_inner(s: Seq<char>) -> Seq<char>
    decreases s.len(),
{
    if s.len() == 0 {
        Seq::empty()
    } else {
        json_inner(s.drop_last()) + json_char(s.last())
    }
}

/// `serde_json::Value::String` as text: the quoted string, with quotes, backslashes and control
/// characters escaped and everything else as it stands.
#[verifier::external_body]
pub(crate) fn json_string(s: &str) -> (r: String)
    ensures
        r@ == seq!['"'] + json_inner(s@) + seq!['"'],
{
    serde_json::Value::String(s.to_owned()).to_string()
}

/// The body of a failed request.
pub open spec fn failure_text(why: Seq<char>) -> Seq<char> {
    "{\"error\":"@ + (seq!['"'] + json_inner(why) + seq!['"']) + "}"@
}

/// A request that failed: the feeds or the renderer could not answer, for the reason `why`.
pub fn error_json(why: &str) -> (r: Reply)
    ensures
        r.is_error("503 Service Unavailable"@, failure_text(why@)),
{
    let quoted = json_string(why);
    let mut body = "{\"error\":".to_owned();
    body.append(quoted.as_str());
    body.append("}");
    error_reply("503 Service Unavailable", body.as_str())
}

/// `public, max-age=` and the seconds.
pub open spec fn max_age_text(secs: u64) -> Seq<char> {
    "public, max-age="@ + text::decimal_text(secs as nat)
}

pub fn max_age(secs: u64) -> (r: String)
    ensures
        r@ == max_age_text(secs),
{
    let n = text::decimal(secs);
    text::join2("public, max-age=", n.as_str())
}

/// A rendered image, with the one header that lets a CDN in front of this server do its job.
///
/// The default is `no-cache`, which is right for the JSON routes and wrong for a render: the same
/// frame is reused for five minutes here, so saying so out loud costs nothing and keeps repeat
/// views off the box entirely.
pub fn image_reply(ctype: &'static str, body: Vec<u8>) -> (r: Reply)
    ensures
        r.says(
            "200 OK"@,
            ctype@,
            body@,
            seq![("Cache-Control"@, max_age_text(SNAPSHOT_TTL_SECS))],
        ),
{
    let mut headers: Vec<(&'static str, String)> = Vec::new();
    headers.push(("Cache-Control", max_age(SNAPSHOT_TTL_SECS)));
    assert(header_texts(headers@) =~= seq![("Cache-Control"@, max_age_text(SNAPSHOT_TTL_SECS))]);
    Reply { status: "200 OK", ctype, body, headers }
}

/// Whether one of the headers has the name `name`.
pub open spec fn names_header(headers: Seq<HeaderText>, name: Seq<char>) -> bool {
    exists|i: int| 0 <= i < headers.len() && (#[trigger] headers[i]).0 == name
}

/// The header lines, one after the other.
pub open spec fn header_lines(headers: Seq<HeaderText>) -> Seq<char>
    decreases headers.len(),
{
    if headers.len() == 0 {
        Seq::empty()
    } else {
        header_lines(headers.drop_last()) + headers.last().0 + ": "@ + headers.last().1 + "\r\n"@
    }
}

/// The start of a response on the wire, up to and with the blank line. An answer that does not
/// say how long it is good for is not to be reused.
pub open spec fn head_text(
    status: Seq<char>,
    ctype: Seq<char>,
    body_len: nat,
    headers: Seq<HeaderText>,
) -> Seq<char> {
    "HTTP/1.1 "@ + status + "\r\nContent-Type: "@ + ctype + "\r\nContent-Length: "@
        + text::decimal_text(body_len) + "\r\nConnection: close\r\n"@ + (if names_header(
        headers,
        "Cache-Control"@,
    ) {
        Seq::<char>::empty()
    } else {
        "Cache-Control: no-cache\r\n"@
    }) + header_lines(headers) + "\r\n"@
}

/// The start of a response on the wire.
///
/// `no-cache` stays the default for everything this server builds itself: those answers speak for
/// saved locations and go stale in a minute. A route that knows better says so.
pub fn response_head(reply: &Reply) -> (r: String)
    ensures
        r@ == head_text(
            reply.status@,
            reply.ctype@,
            reply.body@.len(),
            header_texts(reply.headers@),
        ),
{
    let ghost hs = header_texts(reply.headers@);
    let mut head = "HTTP/1.1 ".to_owned();
    head.append(reply.status);
    head.append("\r\nContent-Type: ");
    head.append(reply.ctype);
    head.append("\r\nContent-Length: ");
    let n = text::decimal(reply.body.len() as u64);
    head.append(n.as_str());
    head.append("\r\nConnection: close\r\n");
    let ghost start = head@;
    let mut own = false;
    let mut i: usize = 0;
    while i < reply.headers.len()
        invariant
            i <= reply.headers.len(),
            hs == header_texts(reply.headers@),
            own == exists|j: int| 0 <= j < i && (#[trigger] hs[j]).0 == "Cache-Control"@,
        decreases reply.headers.len() - i,
    {
        assert(hs[i as int].0 == reply.headers@[i as int].0@);
        if text::same(reply.headers[i].0, "Cache-Control") {
            own = true;
            assert(hs[i as int].0 == "Cache-Control"@);
        }
        i = i + 1;
    }
    if !own {
        head.append("Cache-Control: no-cache\r\n");
    }
    let ghost with_default = head@;
    let mut i: usize = 0;
    assert(head@ =~= with_default + header_lines(hs.take(0)));
    while i < reply.headers.len()
        invariant
            i <= reply.headers.len(),
            hs == header_texts(reply.headers@),
            head@ == with_default + header_lines(hs.take(i as int)),
        decreases reply.headers.len() - i,
    {
        let ghost so_far = head@;
        head.append(reply.headers[i].0);
        head.append(": ");
        head.append(reply.headers[i].1.as_str());
        head.append("\r\n");
        proof {
            let next = hs.take(i + 1);
            assert(next.drop_last() =~= hs.take(i as int));
            assert(next.last() == hs[i as int]);
            assert(head@ =~= with_default + header_lines(next));
        }
        i = i + 1;
    }
    assert(hs.take(hs.len() as int) =~= hs);
    head.append("\r\n");
    assert(head@ =~= head_text(reply.status@, reply.ctype@, reply.body@.len(), hs));
    head
}

// ---------------------------------------------------------------------------------------------
// What a response says on the wire.

/// Header lines stand one after the other, each with its name, its value and the end of the line.
pub proof fn headers_have_their_own_lines(a: Seq<HeaderText>, h: HeaderText, b: Seq<HeaderText>)
    ensures
        header_lines(Seq::empty()) == Seq::<char>::empty(),
        header_lines(seq![h]) == h.0 + ": "@ + h.1 + "\r\n"@,
        header_lines(a + b) == header_lines(a) + header_lines(b),
    decreases b.len(),
{
    let none = Seq::<HeaderText>::empty();
    assert(seq![h].drop_last() =~= none);
    assert(header_lines(none) =~= Seq::<char>::empty());
    assert(header_lines(seq![h]) =~= h.0 + ": "@ + h.1 + "\r\n"@);
    if b.len() == 0 {
        assert(a + b =~= a);
        assert(header_lines(a + b) =~= header_lines(a) + header_lines(b));
    } else {
        headers_have_their_own_lines(a, h, b.drop_last());
        assert((a + b).drop_last() =~= a + b.drop_last());
        assert((a + b).last() == b.last());
        let x = header_lines(a);
        let y = header_lines(b.drop_last());
        let l = b.last();
        assert((x + y) + l.0 + ": "@ + l.1 + "\r\n"@ =~= x + (y + l.0 + ": "@ + l.1 + "\r\n"@));
    }
}

/// The start of a response names its status first, says what the body is and how long, closes the
/// connection, and ends with a blank line. It says how long the answer is good for exactly once: its
/// own word, or that it is not to be reused.
pub proof fn heads_describe_their_body(
    status: Seq<char>,
    ctype: Seq<char>,
    n: nat,
    headers: Seq<HeaderText>,
)
    ensures
        ({
            let head = head_text(status, ctype, n, headers);
            &&& text::starts(head, "HTTP/1.1 "@ + status + "\r\n"@)
            &&& text::holds_text(head, "\r\nContent-Type: "@ + ctype + "\r\n"@)
            &&& text::holds_text(
                head,
                "\r\nContent-Length: "@ + text::decimal_text(n) + "\r\nConnection: close\r\n"@,
            )
            &&& text::ends(head, header_lines(headers) + "\r\n"@)
            &&& !(exists|i: int|
                0 <= i < headers.len() && (#[trigger] headers[i]).0 == "Cache-Control"@) ==> text::ends(
                head,
                "Cache-Control: no-cache\r\n"@ + (header_lines(headers) + "\r\n"@),
            )
            &&& (exists|i: int|
                0 <= i < headers.len() && (#[trigger] headers[i]).0 == "Cache-Control"@) ==> text::ends(
                head,
                "Connection: close\r\n"@ + (header_lines(headers) + "\r\n"@),
            )
        }),
{
    lemma_head_words();
    let cache = if names_header(headers, "Cache-Control"@) {
        Seq::<char>::empty()
    } else {
        "Cache-Control: no-cache\r\n"@
    };
    lemma_head_parts(
        "HTTP/1.1 "@,
        status,
        "\r\n"@,
        "Content-Type: "@,
        ctype,
        "Content-Length: "@,
        text::decimal_text(n),
        "Connection: close\r\n"@,
        cache,
        header_lines(headers),
    );
    lemma_head_tail(
        "HTTP/1.1 "@,
        status,
        "\r\n"@,
        "Content-Type: "@,
        ctype,
        "Content-Length: "@,
        text::decimal_text(n),
        "Connection: close\r\n"@,
        cache,
        header_lines(headers),
    );
}

proof fn lemma_head_words()
    ensures
        "\r\nContent-Type: "@ == "\r\n"@ + "Content-Type: "@,
        "\r\nContent-Length: "@ == "\r\n"@ + "Content-Length: "@,
        "\r\nConnection: close\r\n"@ == "\r\n"@ + "Connection: close\r\n"@,
{
    reveal_strlit("\r\n");
    reveal_strlit("\r\nContent-Type: ");
    reveal_strlit("Content-Type: ");
    reveal_strlit("\r\nContent-Length: ");
    reveal_strlit("Content-Length: ");
    reveal_strlit("\r\nConnection: close\r\n");
    reveal_strlit("Connection: close\r\n");
    assert("\r\nContent-Type: "@ =~= "\r\n"@ + "Content-Type: "@);
    assert("\r\nContent-Length: "@ =~= "\r\n"@ + "Content-Length: "@);
    assert("\r\nConnection: close\r\n"@ =~= "\r\n"@ + "Connection: close\r\n"@);
}

proof fn lemma_head_parts(
    http: Seq<char>,
    status: Seq<char>,
    nl: Seq<char>,
    tmark: Seq<char>,
    ctype: Seq<char>,
    lmark: Seq<char>,
    len: Seq<char>,
    close: Seq<char>,
    cache: Seq<char>,
    lines: Seq<char>,
)
    ensures
        ({
            let head = http + status + (nl + tmark) + ctype + (nl + lmark) + len + (nl + close)
                + cache + lines + nl;
            &&& text::starts(head, http + status + nl)
            &&& text::holds_text(head, (nl + tmark) + ctype + nl)
            &&& text::holds_text(head, (nl + lmark) + len + (nl + close))
        }),
{
    let first = http + status + nl;
    let h1 = http + status + (nl + tmark);
    assert(h1 =~= first + tmark);
    text::lemma_starts_join(first, tmark);
    let kind = (nl + tmark) + ctype + nl;
    let h2 = h1 + ctype + (nl + lmark);
    assert(h2 =~= (http + status) + kind + lmark);
    text::lemma_holds_join(http + status, kind, lmark);
    let size = (nl + lmark) + len + (nl + close);
    let h3 = h2 + len + (nl + close);
    let none = Seq::<char>::empty();
    assert(h3 =~= (h1 + ctype) + size + none);
    text::lemma_holds_join(h1 + ctype, size, none);
    text::lemma_starts_grow(h1, first, ctype);
    text::lemma_starts_grow(h1 + ctype, first, nl + lmark);
    text::lemma_starts_grow(h2, first, len);
    text::lemma_starts_grow(h2 + len, first, nl + close);
    text::lemma_holds_grow(h2, kind, len);
    text::lemma_holds_grow(h2 + len, kind, nl + close);
    text::lemma_starts_grow(h3, first, cache);
    text::lemma_starts_grow(h3 + cache, first, lines);
    text::lemma_starts_grow(h3 + cache + lines, first, nl);
    text::lemma_holds_grow(h3, kind, cache);
    text::lemma_holds_grow(h3 + cache, kind, lines);
    text::lemma_holds_grow(h3 + cache + lines, kind, nl);
    text::lemma_holds_grow(h3, size, cache);
    text::lemma_holds_grow(h3 + cache, size, lines);
    text::lemma_holds_grow(h3 + cache + lines, size, nl);
}

proof fn lemma_head_tail(
    http: Seq<char>,
    status: Seq<char>,
    nl: Seq<char>,
    tmark: Seq<char>,
    ctype: Seq<char>,
    lmark: Seq<char>,
    len: Seq<char>,
    close: Seq<char>,
    cache: Seq<char>,
    lines: Seq<char>,
)
    ensures
        ({
            let head = http + status + (nl + tmark) + ctype + (nl + lmark) + len + (nl + close)
                + cache + lines + nl;
            &&& text::ends(head, lines + nl)
            &&& text::ends(head, cache + (lines + nl))
            &&& cache.len() == 0 ==> text::ends(head, close + (lines + nl))
        }),
{
    let a = http + status + (nl + tmark) + ctype + (nl + lmark) + len + nl;
    let head = http + status + (nl + tmark) + ctype + (nl + lmark) + len + (nl + close) + cache
        + lines + nl;
    assert(head =~= (a + close + cache) + (lines + nl));
    text::lemma_ends_join(a + close + cache, lines + nl);
    assert(head =~= (a + close) + (cache + (lines + nl)));
    text::lemma_ends_join(a + close, cache + (lines + nl));
    if cache.len() == 0 {
        assert(head =~= a + (close + (lines + nl)));
        text::lemma_ends_join(a, close + (lines + nl));
    }
}

/// A picture may be kept for five minutes, by whoever stands between.
pub proof fn pictures_are_good_for_five_minutes()
    ensures
        max_age_text(SNAPSHOT_TTL_SECS) == "public, max-age=300"@,
        SNAPSHOT_TTL_MS == 1000 * SNAPSHOT_TTL_SECS,
        JSON_TTL_MS == 60_000,
{
    reveal_strlit("public, max-age=300");
    reveal_strlit("public, max-age=");
    reveal_with_fuel(text::decimal_text, 4);
    assert(max_age_text(SNAPSHOT_TTL_SECS) =~= "public, max-age=300"@);
}

/// A text in JSON is read back character by character: quotes and backslashes behind a backslash,
/// control characters in an escape, and everything else as it stands.
pub proof fn json_texts_escape_what_they_must(s: Seq<char>, c: char)
    ensures
        json_inner(Seq::empty()) == Seq::<char>::empty(),
        json_inner(s.push(c)) == json_inner(s) + json_char(c),
        c == '"' ==> json_char(c) == seq!['\\', '"'],
        c == '\\' ==> json_char(c) == seq!['\\', '\\'],
        c == '\n' ==> json_char(c) == seq!['\\', 'n'],
        c != '"' && c != '\\' && c as u32 >= 32 ==> json_char(c) == seq![c],
        (c as u32) < 32 ==> json_char(c).len() >= 2 && json_char(c)[0] == '\\',
{
    assert(s.push(c).drop_last() =~= s);
}

/// A failure tells why, as a text in JSON.
pub proof fn failures_tell_why(why: Seq<char>)
    ensures
        text::starts(failure_text(why), "{\"error\":"@ + seq!['"'] + json_inner(why)),
        text::ends(failure_text(why), seq!['"'] + "}"@),
        failure_text(why).len() == json_inner(why).len() + 12,
{
    reveal_strlit("{\"error\":");
    reveal_strlit("}");
    let a = "{\"error\":"@ + seq!['"'] + json_inner(why);
    let b = seq!['"'] + "}"@;
    assert(failure_text(why) =~= a + b);
    text::lemma_starts_join(a, b);
    text::lemma_ends_join(a, b);
}

} // verus!
