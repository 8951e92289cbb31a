//! Reading a request: its target, its headers, and whether whoever asks may have the answer.

use crate::cloud;
use crate::secret::constant_time_eq;
use crate::serve::reply::{error_reply, Reply};
use crate::text;
use vstd::prelude::*;

verus! {

/// The `token=` query parameter, if the request carried one.
pub fn query_token(query: &str) -> (r: Option<String>)
    ensures
        cloud::opt_text(r) == cloud::param_text(query@, "token"@),
        r is Some ==> vstd::utf8::is_ascii_chars(cloud::raw_param(query@, "token"@)->0) && !(
        cloud::raw_param(query@, "token"@)->0).contains('%') ==> (r->0)@ == cloud::raw_param(
            query@,
            "token"@,
        )->0,
{
    cloud::param(query, "token")
}

/// What a request line asks for: its second word.
pub open spec fn target_text(line: Seq<char>) -> Seq<char> {
    if text::words_text(line).len() > 1 {
        text::words_text(line)[1]
    } else {
        "/"@
    }
}

/// The path and the query of a target.
pub open spec fn split_target(target: Seq<char>) -> (Seq<char>, Seq<char>) {
    match text::cut_text(target, '?') {
        Some((p, q)) => (p, q),
        None => (target, ""@),
    }
}

/// The path and the query that a request line like `GET /status.json?x=1 HTTP/1.1` asks for.
pub fn parse_target(line: &str) -> (r: (String, String))
    ensures
        (r.0@, r.1@) == split_target(target_text(line@)),
{
    let words = text::words(line);
    let ghost ws = text::texts(words@);
    let target: String = if words.len() > 1 {
        assert(ws[1] == words@[1]@);
        words[1].clone()
    } else {
        "/".to_owned()
    };
    match text::cut(target.as_str(), '?') {
        Some((p, q)) => (p, q),
        None => (target, "".to_owned()),
    }
}

/// The most header lines that are read: a client that sends a header wall is hung up on rather
/// than humoured.
pub const MAX_HEADERS: u8 = 64;

/// What the headers read so far say.
#[derive(Debug)]
pub struct Headers {
    /// How many lines were read.
    pub seen: u8,
    /// A bearer token came that is the server's.
    pub bearer: bool,
    pub if_none_match: Option<String>,
    pub range: Option<String>,
}

/// The headers as texts.
pub struct HeadersText {
    pub seen: int,
    pub bearer: bool,
    pub if_none_match: Option<Seq<char>>,
    pub range: Option<Seq<char>>,
}

/// Whether the name is `expected`, up to white space around it and the case of ASCII letters.
pub open spec fn names(name: Seq<char>, expected: Seq<char>) -> bool {
    text::lower_text(text::trim_text(name)) == text::lower_text(expected)
}

/// Whether an `Authorization` value carries the token.
pub open spec fn bears(value: Seq<char>, token: Seq<char>) -> bool {
    match text::after_text(text::trim_text(value), "Bearer "@) {
        Some(bearer) => text::trim_text(bearer) == token,
        None => false,
    }
}

/// What the headers say after one more line that is not blank.
pub open spec fn headers_after(h: HeadersText, line: Seq<char>, token: Seq<char>) -> HeadersText {
    let seen = h.seen + 1;
    match text::cut_text(line, ':') {
        None => HeadersText { seen, ..h },
        Some((name, value)) => if names(name, "authorization"@) {
            HeadersText { seen, bearer: h.bearer || bears(value, token), ..h }
        } else if names(name, "if-none-match"@) {
            HeadersText { seen, if_none_match: Some(text::trim_text(value)), ..h }
        } else if names(name, "range"@) {
            HeadersText { seen, range: Some(text::trim_text(value)), ..h }
        } else {
            HeadersText { seen, ..h }
        },
    }
}

impl Headers {
    pub open spec fn text(self) -> HeadersText {
        HeadersText {
            seen: self.seen as int,
            bearer: self.bearer,
            if_none_match: cloud::opt_text(self.if_none_match),
            range: cloud::opt_text(self.range),
        }
    }

    /// Nothing read yet.
    pub fn new() -> (h: Headers)
        ensures
            h.seen == 0,
            !h.bearer,
            h.if_none_match is None,
            h.range is None,
    {
        Headers { seen: 0, bearer: false, if_none_match: None, range: None }
    }

    /// Read one header line, and say whether another is wanted. A blank line, or the end of the
    /// stream, which reads as one, ends the headers; so does the last line that is allowed.
    pub fn read_line(&mut self, line: &str, token: &str) -> (more: bool)
        requires
            old(self).seen < MAX_HEADERS,
        ensures
            text::trim_text(line@).len() == 0 ==> !more && *final(self) == *old(self),
            text::trim_text(line@).len() > 0 ==> final(self).text() == headers_after(
                old(self).text(),
                line@,
                token@,
            ) && more == (final(self).seen < MAX_HEADERS),
    {
        let bare = text::trim(line);
        if bare.as_str().is_empty() {
            return false;
        }
        if let Some((name, value)) = text::cut(line, ':') {
            let name = text::trim(name.as_str());
            let value = text::trim(value.as_str());
            if text::same_ignoring_case(name.as_str(), "authorization") {
                if let Some(bearer) = text::after(value.as_str(), "Bearer ") {
                    let bearer = text::trim(bearer.as_str());
                    if constant_time_eq(bearer.as_str(), token) {
                        self.bearer = true;
                    }
                }
            } else if text::same_ignoring_case(name.as_str(), "if-none-match") {
                self.if_none_match = Some(value);
            } else if text::same_ignoring_case(name.as_str(), "range") {
                self.range = Some(value);
            }
        }
        self.seen = self.seen + 1;
        self.seen < MAX_HEADERS
    }
}

/// Whether a request carries the server's token: there is none to carry, or a bearer header or a
/// `token=` parameter has it.
pub open spec fn is_authorized(token: Seq<char>, query: Seq<char>, bearer: bool) -> bool {
    token.len() == 0 || bearer || cloud::param_text(query, "token"@) == Some(token)
}

/// Whether a request carries the server's token.
///
/// A dashboard that can only put things in a URL (a picture element, a widget) has no header to
/// set, so `?token=` is accepted too.
pub fn authorized(token: &str, query: &str, headers: &Headers) -> (r: bool)
    ensures
        r == is_authorized(token@, query@, headers.bearer),
{
    let open = token.is_empty();
    let by_query = match query_token(query) {
        Some(t) => constant_time_eq(t.as_str(), token),
        None => false,
    };
    open || headers.bearer || by_query
}

// ---------------------------------------------------------------------------------------------
// What is public.

/// A radar that is known, and whether it is a NEXRAD with an archive of volumes.
#[derive(Debug)]
pub struct RadarSite {
    pub id: String,
    pub nexrad: bool,
}

/// A radar of that name is known.
pub open spec fn knows_site(sites: Seq<RadarSite>, id: Seq<char>) -> bool {
    exists|i: int| 0 <= i < sites.len() && (#[trigger] sites[i]).id@ == id
}

/// A NEXRAD of that name is known.
pub open spec fn knows_nexrad(sites: Seq<RadarSite>, id: Seq<char>) -> bool {
    exists|i: int| 0 <= i < sites.len() && (#[trigger] sites[i]).id@ == id && sites[i].nexrad
}

/// The name of a query part: what comes before its equals sign.
pub open spec fn part_name(part: Seq<char>) -> Seq<char> {
    match text::cut_text(part, '=') {
        Some((k, _)) => k,
        None => part,
    }
}

/// The names that a query turns knobs with. `t=` is a cache-buster: it changes no pixel.
pub open spec fn knobs(parts: Seq<Seq<char>>) -> Seq<Seq<char>>
    decreases parts.len(),
{
    if parts.len() == 0 {
        Seq::empty()
    } else {
        let rest = knobs(parts.drop_last());
        let part = parts.last();
        if part.len() == 0 || part_name(part) == "t"@ {
            rest
        } else {
            rest.push(part_name(part))
        }
    }
}

/// The knobs of a query.
pub open spec fn query_knobs(query: Seq<char>) -> Seq<Seq<char>> {
    knobs(text::parts_text(query, '&'))
}

/// A page that is public as it stands, with no knob turned.
pub open spec fn is_fixed_page(path: Seq<char>) -> bool {
    path == "/health.json"@ || path == "/national.png"@ || path == "/national.mp4"@
}

/// A loop of one radar.
pub open spec fn is_loop(path: Seq<char>) -> bool {
    path == "/loop.gif"@ || path == "/loop.mp4"@
}

/// Only the site is chosen, and perhaps the product.
pub open spec fn picks_site_and_product(names: Seq<Seq<char>>) -> bool {
    names == seq!["site"@] || names == seq!["site"@, "product"@] || names == seq![
        "product"@,
        "site"@,
    ]
}

/// The product is left alone, or is one of the two that a viewer reads.
pub open spec fn product_is_public(query: Seq<char>) -> bool {
    match cloud::param_text(query, "product"@) {
        Some(p) => p == "REF"@ || p == "VEL"@,
        None => true,
    }
}

/// The request is for one of the frames that the site embeds: a health page or national mosaic
/// with no knob turned, or the default frame of a known radar. A loop steps the volume archive,
/// which only NEXRAD has.
pub open spec fn preset(sites: Seq<RadarSite>, path: Seq<char>, query: Seq<char>) -> bool {
    if is_fixed_page(path) {
        query_knobs(query).len() == 0
    } else if path == "/snapshot.png"@ || is_loop(path) {
        &&& picks_site_and_product(query_knobs(query))
        &&& product_is_public(query)
        &&& match cloud::param_text(query, "site"@) {
            Some(site) => knows_site(sites, site) && (is_loop(path) ==> knows_nexrad(sites, site)),
            None => false,
        }
    } else {
        false
    }
}

fn knobs_of(query: &str) -> (r: Vec<String>)
    ensures
        text::texts(r@) == query_knobs(query@),
{
    let parts = text::parts(query, '&');
    let ghost all = text::texts(parts@);
    let mut out: Vec<String> = Vec::new();
    let mut i: usize = 0;
    assert(text::texts(out@) =~= knobs(all.take(0)));
    while i < parts.len()
        invariant
            i <= parts.len(),
            all == text::texts(parts@),
            text::texts(out@) == knobs(all.take(i as int)),
        decreases parts.len() - i,
    {
        let part = parts[i].as_str();
        let ghost before = text::texts(out@);
        proof {
            let next = all.take(i + 1);
            assert(next.drop_last() =~= all.take(i as int));
            assert(next.last() == part@);
        }
        if !part.is_empty() {
            let name: String = match text::cut(part, '=') {
                Some((k, _)) => k,
                None => part.to_owned(),
            };
            if !text::same(name.as_str(), "t") {
                out.push(name);
                assert(text::texts(out@) =~= before.push(part_name(part@)));
            }
        }
        i = i + 1;
    }
    assert(all.take(all.len() as int) =~= all);
    out
}

fn are_one(names: &Vec<String>, a: &str) -> (r: bool)
    ensures
        r == (text::texts(names@) == seq![a@]),
{
    let ghost ns = text::texts(names@);
    if names.len() != 1 {
        assert(ns.len() != 1);
        return false;
    }
    assert(ns[0] == names@[0]@);
    if text::same(names[0].as_str(), a) {
        assert(ns =~= seq![a@]);
        true
    } else {
        assert(ns[0] != seq![a@][0]);
        false
    }
}

fn are_two(names: &Vec<String>, a: &str, b: &str) -> (r: bool)
    ensures
        r == (text::texts(names@) == seq![a@, b@]),
{
    let ghost ns = text::texts(names@);
    if names.len() != 2 {
        assert(ns.len() != 2);
        return false;
    }
    assert(ns[0] == names@[0]@);
    assert(ns[1] == names@[1]@);
    if text::same(names[0].as_str(), a) && text::same(names[1].as_str(), b) {
        assert(ns =~= seq![a@, b@]);
        true
    } else {
        assert(ns[0] != seq![a@, b@][0] || ns[1] != seq![a@, b@][1]);
        false
    }
}

fn knows(sites: &Vec<RadarSite>, id: &str) -> (r: (bool, bool))
    ensures
        r.0 == knows_site(sites@, id@),
        r.1 == knows_nexrad(sites@, id@),
{
    let mut known = false;
    let mut nexrad = false;
    let mut i: usize = 0;
    while i < sites.len()
        invariant
            i <= sites.len(),
            known == exists|j: int| 0 <= j < i && (#[trigger] sites@[j]).id@ == id@,
            nexrad == exists|j: int|
                0 <= j < i && (#[trigger] sites@[j]).id@ == id@ && sites@[j].nexrad,
        decreases sites.len() - i,
    {
        if text::same(sites[i].id.as_str(), id) {
            known = true;
            assert(sites@[i as int].id@ == id@);
            if sites[i].nexrad {
                nexrad = true;
            }
        }
        i = i + 1;
    }
    (known, nexrad)
}

/// Whether an unauthenticated request on a public server is one of the frames the site embeds.
///
/// The site registry is the allowlist: one default frame per known radar, plus the national mosaic
/// and the health page. There is no way to ask for a large render of an arbitrary product by
/// guessing a URL: every knob but `site` and `product` has to be absent, and `site` has to be a
/// radar we know.
pub fn is_preset(path: &str, query: &str, sites: &Vec<RadarSite>) -> (r: bool)
    ensures
        r == preset(sites@, path@, query@),
{
    let names = knobs_of(query);
    assert(text::texts(names@).len() == names@.len());
    if text::same(path, "/health.json") || text::same(path, "/national.png") || text::same(
        path,
        "/national.mp4",
    ) {
        return names.len() == 0;
    }
    let looping = text::same(path, "/loop.gif") || text::same(path, "/loop.mp4");
    if !text::same(path, "/snapshot.png") && !looping {
        return false;
    }
    if !are_one(&names, "site") && !are_two(&names, "site", "product") && !are_two(
        &names,
        "product",
        "site",
    ) {
        return false;
    }
    if let Some(product) = cloud::param(query, "product") {
        if !text::same(product.as_str(), "REF") && !text::same(product.as_str(), "VEL") {
            return false;
        }
    }
    match cloud::param(query, "site") {
        Some(site) => {
            let (known, nexrad) = knows(sites, site.as_str());
            known && (!looping || nexrad)
        },
        None => false,
    }
}

/// What becomes of a request at the door.
#[derive(Clone, Copy, Debug, PartialEq, Eq, Structural)]
pub enum Access {
    /// It is answered.
    Granted,
    /// A public server answers only its presets without the token.
    PresetsOnly,
    /// The token is missing or wrong.
    Unauthorized,
}

/// What becomes of a request at the door.
pub open spec fn access(authorized: bool, public: bool, preset: bool) -> Access {
    if authorized {
        Access::Granted
    } else if public {
        if preset {
            Access::Granted
        } else {
            Access::PresetsOnly
        }
    } else {
        Access::Unauthorized
    }
}

/// What becomes of a request at the door: with the token, everything is answered. Without it, a
/// public server answers the fixed frames the site embeds and nothing else, and any other answers
/// nothing.
pub fn gate(
    token: &str,
    public: bool,
    sites: &Vec<RadarSite>,
    path: &str,
    query: &str,
    headers: &Headers,
) -> (r: Access)
    ensures
        r == access(
            is_authorized(token@, query@, headers.bearer),
            public,
            preset(sites@, path@, query@),
        ),
{
    if authorized(token, query, headers) {
        Access::Granted
    } else if public {
        if is_preset(path, query, sites) {
            Access::Granted
        } else {
            Access::PresetsOnly
        }
    } else {
        Access::Unauthorized
    }
}

/// How a request that is not let in is answered.
pub fn refusal(access: Access) -> (r: Option<Reply>)
    ensures
        match access {
            Access::Granted => r is None,
            Access::PresetsOnly => r is Some && (r->0).is_error(
                "403 Forbidden"@,
                "{\"error\":\"presets only\"}"@,
            ),
            Access::Unauthorized => r is Some && (r->0).is_error(
                "401 Unauthorized"@,
                "{\"error\":\"missing or bad bearer token\"}"@,
            ),
        },
{
    match access {
        Access::Granted => None,
        Access::PresetsOnly => Some(
            error_reply("403 Forbidden", "{\"error\":\"presets only\"}"),
        ),
        Access::Unauthorized => Some(
            error_reply("401 Unauthorized", "{\"error\":\"missing or bad bearer token\"}"),
        ),
    }
}

/// Nothing but a preset is ever answered without the token, where there is one.
pub proof fn nothing_but_presets_without_the_token(
    token: Seq<char>,
    public: bool,
    sites: Seq<RadarSite>,
    path: Seq<char>,
    query: Seq<char>,
    bearer: bool,
)
    requires
        token.len() > 0,
        !bearer,
        cloud::param_text(query, "token"@) != Some(token),
        access(is_authorized(token, query, bearer), public, preset(sites, path, query))
            == Access::Granted,
    ensures
        public,
        preset(sites, path, query),
{
}

// ---------------------------------------------------------------------------------------------
// What a request says.

/// A word of a request line.
pub open spec fn is_word(w: Seq<char>) -> bool {
    w.len() > 0 && forall|i: int| 0 <= i < w.len() ==> !text::is_space(#[trigger] w[i])
}

/// A request line asks for its second word, whatever the method and the version: the path up to the
/// first question mark, and the query behind it. A line without a second word asks for the front
/// page.
pub proof fn request_lines_name_their_target(
    method: Seq<char>,
    path: Seq<char>,
    query: Seq<char>,
    version: Seq<char>,
)
    requires
        is_word(method),
        is_word(path),
        !path.contains('?'),
        forall|i: int| 0 <= i < query.len() ==> !text::is_space(#[trigger] query[i]),
    ensures
        split_target(
            target_text(method + seq![' '] + (path + seq!['?'] + query) + seq![' '] + version),
        ) == (path, query),
        split_target(target_text(method + seq![' '] + path + seq![' '] + version)) == (path, ""@),
        split_target(target_text(method)) == ("/"@, ""@),
{
    let target = path + seq!['?'] + query;
    assert(is_word(target)) by {
        assert forall|i: int| 0 <= i < target.len() implies !text::is_space(
            #[trigger] target[i],
        ) by {
            if i < path.len() {
                assert(target[i] == path[i]);
            } else if i > path.len() {
                assert(target[i] == query[i - path.len() - 1]);
            }
        }
    }
    lemma_second_word(method, target, version);
    lemma_second_word(method, path, version);
    text::cutting_undoes_joining(path, query, '?');
    text::words_stand_between_space(method, ' ', version);
    reveal_strlit("/");
    assert(!"/"@.contains('?')) by {
        if "/"@.contains('?') {
            assert("/"@["/"@.index_of('?')] == '/');
        }
    }
    text::cutting_undoes_joining("/"@, query, '?');
}

proof fn lemma_second_word(method: Seq<char>, target: Seq<char>, version: Seq<char>)
    requires
        is_word(method),
        is_word(target),
    ensures
        target_text(method + seq![' '] + target + seq![' '] + version) == target,
{
    let rest = target + seq![' '] + version;
    let line = method + seq![' '] + target + seq![' '] + version;
    assert(line =~= method + seq![' '] + rest);
    text::words_stand_between_space(method, ' ', rest);
    text::words_stand_between_space(target, ' ', version);
    assert(text::words_text(line)[1] == target);
}

/// A header is read by its name, whatever the case of its letters and the white space around it: a
/// bearer token that is the server's lets in, and no other value ever does; a range and a list of
/// tags are taken as they stand, without the white space around them. What is let in stays so.
pub proof fn headers_are_read_by_name(
    h: HeadersText,
    name: Seq<char>,
    value: Seq<char>,
    token: Seq<char>,
)
    requires
        !name.contains(':'),
    ensures
        ({
            let after = headers_after(h, name + seq![':'] + value, token);
            let bare = text::lower_text(text::trim_text(name));
            let said = text::trim_text(value);
            &&& after.seen == h.seen + 1
            &&& after.range == if bare == "range"@ {
                Some(said)
            } else {
                h.range
            }
            &&& after.if_none_match == if bare == "if-none-match"@ {
                Some(said)
            } else {
                h.if_none_match
            }
            &&& after.bearer && !h.bearer ==> bare == "authorization"@ && text::starts(
                said,
                "Bearer "@,
            ) && text::trim_text(said.skip(7)) == token
            &&& h.bearer ==> after.bearer
            &&& bare == "authorization"@ && text::starts(said, "Bearer "@) && text::trim_text(
                said.skip(7),
            ) == token ==> after.bearer
        }),
{
    reveal_strlit("Bearer ");
    reveal_strlit("range");
    reveal_strlit("if-none-match");
    reveal_strlit("authorization");
    text::cutting_undoes_joining(name, value, ':');
    assert(text::lower_text("range"@) =~= "range"@);
    assert(text::lower_text("if-none-match"@) =~= "if-none-match"@);
    assert(text::lower_text("authorization"@) =~= "authorization"@);
    assert("range"@.len() == 5 && "if-none-match"@.len() == 13 && "authorization"@.len() == 13);
    assert("if-none-match"@[0] == 'i' && "authorization"@[0] == 'a');
}

/// The token opens everything: with it in the header or the query, or where the server has none,
/// every request is answered, public or not.
pub proof fn the_token_opens_everything(
    token: Seq<char>,
    query: Seq<char>,
    bearer: bool,
    public: bool,
    preset: bool,
)
    requires
        token.len() == 0 || bearer || cloud::param_text(query, "token"@) == Some(token),
    ensures
        access(is_authorized(token, query, bearer), public, preset) == Access::Granted,
{
}

/// Without the token a public server answers presets, and says so of everything else; a private one
/// answers nothing.
pub proof fn strangers_get_presets_alone(public: bool, preset: bool)
    ensures
        access(false, public, preset) == Access::Granted <==> public && preset,
        access(false, public, preset) == Access::PresetsOnly <==> public && !preset,
        access(false, public, preset) == Access::Unauthorized <==> !public,
{
}

proof fn lemma_knob_is_seen(parts: Seq<Seq<char>>, i: int)
    requires
        0 <= i < parts.len(),
        parts[i].len() > 0,
        part_name(parts[i]) != "t"@,
    ensures
        knobs(parts).contains(part_name(parts[i])),
    decreases parts.len(),
{
    let t = parts.drop_last();
    let rest = knobs(t);
    let all = knobs(parts);
    if i < t.len() {
        assert(t[i] == parts[i]);
        lemma_knob_is_seen(t, i);
        let k = rest.index_of(part_name(parts[i]));
        assert(all[k] == part_name(parts[i]));
    } else {
        assert(all.last() == part_name(parts[i]));
    }
}

/// A query that turns any knob but the site and the product is no preset, wherever in the query it
/// stands and whatever it is set to; and no page but the six that the site embeds is one.
pub proof fn other_knobs_are_no_preset(
    sites: Seq<RadarSite>,
    path: Seq<char>,
    query: Seq<char>,
    i: int,
    name: Seq<char>,
    value: Seq<char>,
)
    requires
        preset(sites, path, query),
    ensures
        path == "/health.json"@ || path == "/national.png"@ || path == "/national.mp4"@ || path
            == "/snapshot.png"@ || path == "/loop.gif"@ || path == "/loop.mp4"@,
        0 <= i < text::parts_text(query, '&').len() && !name.contains('=') && text::parts_text(
            query,
            '&',
        )[i] == name + seq!['='] + value ==> name == "t"@ || (name == "site"@ || name
            == "product"@) && (path == "/snapshot.png"@ || path == "/loop.gif"@ || path
            == "/loop.mp4"@),
        path == "/snapshot.png"@ ==> cloud::param_text(query, "site"@) is Some && exists|k: int|
            0 <= k < sites.len() && (#[trigger] sites[k]).id@ == cloud::param_text(
                query,
                "site"@,
            )->0,
        path == "/loop.gif"@ || path == "/loop.mp4"@ ==> cloud::param_text(query, "site"@) is Some
            && exists|k: int|
            0 <= k < sites.len() && (#[trigger] sites[k]).id@ == cloud::param_text(
                query,
                "site"@,
            )->0 && sites[k].nexrad,
        path == "/snapshot.png"@ || path == "/loop.gif"@ || path == "/loop.mp4"@
            ==> cloud::param_text(query, "product"@) is None || cloud::param_text(
            query,
            "product"@,
        ) == Some("REF"@) || cloud::param_text(query, "product"@) == Some("VEL"@),
{
    reveal_strlit("/health.json");
    reveal_strlit("/national.png");
    reveal_strlit("/national.mp4");
    reveal_strlit("/snapshot.png");
    reveal_strlit("/loop.gif");
    reveal_strlit("/loop.mp4");
    assert("/snapshot.png"@[1] == 's' && "/loop.gif"@[1] == 'l' && "/loop.mp4"@[1] == 'l');
    assert("/health.json"@[1] == 'h' && "/national.png"@[1] == 'n' && "/national.mp4"@[1] == 'n');
    let parts = text::parts_text(query, '&');
    if 0 <= i < parts.len() && !name.contains('=') && parts[i] == name + seq!['='] + value {
        text::cutting_undoes_joining(name, value, '=');
        assert(part_name(parts[i]) == name);
        if name != "t"@ {
            lemma_knob_is_seen(parts, i);
            let ks = query_knobs(query);
            let k = ks.index_of(name);
            assert(ks[k] == name);
        }
    }
}

/// The default frame of a known radar is a preset, and so is its loop where it is a NEXRAD; the
/// health page and the mosaics are where no knob is turned.
pub proof fn default_frames_are_presets(
    sites: Seq<RadarSite>,
    i: int,
    query: Seq<char>,
    value: Seq<char>,
)
    requires
        0 <= i < sites.len(),
        query == "site="@ + value,
        !value.contains('&'),
        cloud::param_text(query, "site"@) == Some(sites[i].id@),
        cloud::param_text(query, "product"@) is None,
    ensures
        preset(sites, "/snapshot.png"@, query),
        sites[i].nexrad ==> preset(sites, "/loop.gif"@, query) && preset(
            sites,
            "/loop.mp4"@,
            query,
        ),
        preset(sites, "/health.json"@, ""@),
        preset(sites, "/national.png"@, ""@),
        preset(sites, "/national.mp4"@, ""@),
        !preset(sites, "/status.json"@, ""@),
{
    reveal_strlit("/health.json");
    reveal_strlit("/national.png");
    reveal_strlit("/national.mp4");
    reveal_strlit("/snapshot.png");
    reveal_strlit("/loop.gif");
    reveal_strlit("/loop.mp4");
    reveal_strlit("/status.json");
    reveal_strlit("site=");
    reveal_strlit("site");
    reveal_strlit("t");
    reveal_strlit("");
    assert("/snapshot.png"@[2] == 'n' && "/loop.gif"@[1] == 'l' && "/loop.mp4"@[1] == 'l');
    assert("/health.json"@[1] == 'h' && "/national.png"@[1] == 'n' && "/national.mp4"@[1] == 'n');
    assert("/status.json"@[1] == 's' && "/status.json"@[2] == 't' && "/snapshot.png"@[1] == 's');
    assert(!query.contains('&')) by {
        if query.contains('&') {
            let k = query.index_of('&');
            if k >= 5 {
                assert(value[k - 5] == '&');
            }
        }
    }
    text::parts_undo_joining(query, query, '&');
    assert(query =~= "site"@ + seq!['='] + value);
    assert(!"site"@.contains('='));
    text::cutting_undoes_joining("site"@, value, '=');
    let parts = seq![query];
    assert(parts.drop_last() =~= Seq::<Seq<char>>::empty());
    reveal_with_fuel(knobs, 3);
    assert("site"@.len() == 4 && "t"@.len() == 1);
    assert(query_knobs(query) =~= seq!["site"@]);
    assert(knows_site(sites, sites[i].id@));
    text::parts_undo_joining(""@, query, '&');
    let blank = seq![""@];
    assert(blank.drop_last() =~= Seq::<Seq<char>>::empty());
    assert(query_knobs(""@) =~= Seq::<Seq<char>>::empty());
}

} // verus!
