//! Which endpoint a path names, how requests are counted, and which file a static path is.

use crate::serve::reply::{error_json, failure_text, image_reply, max_age_text, not_found, HeaderText, Reply, SNAPSHOT_TTL_SECS};
use crate::text;
use vstd::prelude::*;

verus! {

/// What a path asks for.
#[derive(Clone, Copy, Debug, PartialEq, Eq, Structural)]
pub enum Endpoint {
    /// The built-in dashboard.
    Index,
    Status,
    Alerts,
    Obs,
    Cells,
    Health,
    Snapshot,
    National,
    NationalClip,
    LoopGif,
    LoopMp4,
    Metrics,
    Proxy,
    /// The front page of the web root.
    StaticIndex,
    /// A file of the web root.
    Static,
    NotFound,
}

/// What a path asks for on a server with or without a web root.
pub open spec fn endpoint_of(path: Seq<char>, web_root: bool) -> Endpoint {
    if path == "/"@ {
        if web_root {
            Endpoint::StaticIndex
        } else {
            Endpoint::Index
        }
    } else if path == "/status.json"@ {
        Endpoint::Status
    } else if path == "/alerts.json"@ {
        Endpoint::Alerts
    } else if path == "/obs.json"@ {
        Endpoint::Obs
    } else if path == "/cells.json"@ {
        Endpoint::Cells
    } else if path == "/health.json"@ {
        Endpoint::Health
    } else if path == "/snapshot.png"@ {
        Endpoint::Snapshot
    } else if path == "/national.png"@ {
        Endpoint::National
    } else if path == "/national.mp4"@ {
        Endpoint::NationalClip
    } else if path == "/loop.gif"@ {
        Endpoint::LoopGif
    } else if path == "/loop.mp4"@ {
        Endpoint::LoopMp4
    } else if path == "/metrics"@ {
        Endpoint::Metrics
    } else if text::starts(path, "/proxy/"@) {
        Endpoint::Proxy
    } else if web_root {
        Endpoint::Static
    } else {
        Endpoint::NotFound
    }
}

/// What a path asks for. A path that names no endpoint is a file where there is a web root, and
/// nothing where there is none.
pub fn route(path: &str, web_root: bool) -> (r: Endpoint)
    ensures
        r == endpoint_of(path@, web_root),
{
    if text::same(path, "/") {
        if web_root {
            Endpoint::StaticIndex
        } else {
            Endpoint::Index
        }
    } else if text::same(path, "/status.json") {
        Endpoint::Status
    } else if text::same(path, "/alerts.json") {
        Endpoint::Alerts
    } else if text::same(path, "/obs.json") {
        Endpoint::Obs
    } else if text::same(path, "/cells.json") {
        Endpoint::Cells
    } else if text::same(path, "/health.json") {
        Endpoint::Health
    } else if text::same(path, "/snapshot.png") {
        Endpoint::Snapshot
    } else if text::same(path, "/national.png") {
        Endpoint::National
    } else if text::same(path, "/national.mp4") {
        Endpoint::NationalClip
    } else if text::same(path, "/loop.gif") {
        Endpoint::LoopGif
    } else if text::same(path, "/loop.mp4") {
        Endpoint::LoopMp4
    } else if text::same(path, "/metrics") {
        Endpoint::Metrics
    } else if text::starts_with(path, "/proxy/") {
        Endpoint::Proxy
    } else if web_root {
        Endpoint::Static
    } else {
        Endpoint::NotFound
    }
}

// ---------------------------------------------------------------------------------------------
// Answers.

/// What an endpoint's answer is, on the wire.
pub open spec fn answer_type(e: Endpoint) -> Seq<char> {
    match e {
        Endpoint::Index => "text/html; charset=utf-8"@,
        Endpoint::Metrics => "text/plain; version=0.0.4; charset=utf-8"@,
        Endpoint::Snapshot | Endpoint::National => "image/png"@,
        Endpoint::LoopGif => "image/gif"@,
        Endpoint::NationalClip | Endpoint::LoopMp4 => "video/mp4"@,
        _ => "application/json"@,
    }
}

/// Whether an endpoint's answer is a render, which may be reused for as long as it is kept here.
pub open spec fn is_render(e: Endpoint) -> bool {
    matches!(e, Endpoint::Snapshot
        | Endpoint::National
        | Endpoint::NationalClip
        | Endpoint::LoopGif
        | Endpoint::LoopMp4)
}

/// Whether the endpoint answers with what this server builds itself.
pub open spec fn is_built(e: Endpoint) -> bool {
    !matches!(e, Endpoint::Proxy | Endpoint::StaticIndex | Endpoint::Static | Endpoint::NotFound)
}

/// How an endpoint is answered once its answer was built, or failed to be for a reason.
pub fn answer(e: Endpoint, built: Result<Vec<u8>, String>) -> (r: Reply)
    requires
        is_built(e),
    ensures
        match built {
            Ok(body) => r.says(
                "200 OK"@,
                answer_type(e),
                body@,
                if is_render(e) {
                    seq![("Cache-Control"@, max_age_text(SNAPSHOT_TTL_SECS))]
                } else {
                    Seq::<HeaderText>::empty()
                },
            ),
            Err(why) => r.is_error("503 Service Unavailable"@, failure_text(why@)),
        },
{
    match built {
        Err(why) => error_json(why.as_str()),
        Ok(body) => match e {
            Endpoint::Index => Reply::plain("200 OK", "text/html; charset=utf-8", body),
            Endpoint::Metrics => Reply::plain(
                "200 OK",
                "text/plain; version=0.0.4; charset=utf-8",
                body,
            ),
            Endpoint::Snapshot | Endpoint::National => image_reply("image/png", body),
            Endpoint::LoopGif => image_reply("image/gif", body),
            Endpoint::NationalClip | Endpoint::LoopMp4 => image_reply("video/mp4", body),
            _ => Reply::plain("200 OK", "application/json", body),
        },
    }
}

// ---------------------------------------------------------------------------------------------
// Counting.

/// The route labels that the metrics report, in counter order.
pub const ROUTES: [&'static str; 10] = [
    "index",
    "json",
    "cells",
    "snapshot",
    "national",
    "loop",
    "metrics",
    "proxy",
    "denied",
    "other",
];

/// The label that a path is counted under.
pub open spec fn label_of(path: Seq<char>) -> Seq<char> {
    if path == "/"@ {
        "index"@
    } else if path == "/status.json"@ || path == "/alerts.json"@ || path == "/obs.json"@ || path
        == "/health.json"@ {
        "json"@
    } else if path == "/cells.json"@ {
        "cells"@
    } else if path == "/snapshot.png"@ {
        "snapshot"@
    } else if path == "/national.png"@ || path == "/national.mp4"@ {
        "national"@
    } else if path == "/loop.gif"@ || path == "/loop.mp4"@ {
        "loop"@
    } else if path == "/metrics"@ {
        "metrics"@
    } else if text::starts(path, "/proxy/"@) {
        "proxy"@
    } else {
        "other"@
    }
}

/// The label that a path is counted under.
pub fn route_label(path: &str) -> (r: &'static str)
    ensures
        r@ == label_of(path@),
{
    if text::same(path, "/") {
        "index"
    } else if text::same(path, "/status.json") || text::same(path, "/alerts.json") || text::same(
        path,
        "/obs.json",
    ) || text::same(path, "/health.json") {
        "json"
    } else if text::same(path, "/cells.json") {
        "cells"
    } else if text::same(path, "/snapshot.png") {
        "snapshot"
    } else if text::same(path, "/national.png") || text::same(path, "/national.mp4") {
        "national"
    } else if text::same(path, "/loop.gif") || text::same(path, "/loop.mp4") {
        "loop"
    } else if text::same(path, "/metrics") {
        "metrics"
    } else if text::starts_with(path, "/proxy/") {
        "proxy"
    } else {
        "other"
    }
}

/// One counter per label in [`ROUTES`].
#[derive(Debug)]
pub struct Requests {
    pub counts: [u64; 10],
}

/// The place of a label in [`ROUTES`], or 10 where it is not one.
pub open spec fn counter_of(label: Seq<char>) -> int {
    if label == "index"@ {
        0
    } else if label == "json"@ {
        1
    } else if label == "cells"@ {
        2
    } else if label == "snapshot"@ {
        3
    } else if label == "national"@ {
        4
    } else if label == "loop"@ {
        5
    } else if label == "metrics"@ {
        6
    } else if label == "proxy"@ {
        7
    } else if label == "denied"@ {
        8
    } else if label == "other"@ {
        9
    } else {
        10
    }
}

impl Requests {
    pub fn new() -> (r: Requests)
        ensures
            forall|i: int| 0 <= i < 10 ==> #[trigger] r.counts@[i] == 0,
    {
        Requests { counts: [0, 0, 0, 0, 0, 0, 0, 0, 0, 0] }
    }
}

/// Count one request under `label`; a label without a counter counts nothing.
pub fn count(requests: &mut Requests, label: &str)
    ensures
        forall|i: int|
            0 <= i < 10 ==> #[trigger] final(requests).counts@[i] == if i == counter_of(label@) {
                if old(requests).counts@[i] == u64::MAX {
                    0
                } else {
                    (old(requests).counts@[i] + 1) as u64
                }
            } else {
                old(requests).counts@[i]
            },
{
    let mut i: usize = 0;
    while i < 10
        invariant
            i <= 10,
            requests.counts@ == old(requests).counts@,
            counter_of(label@) >= i,
        decreases 10 - i,
    {
        if text::same(label, ROUTES[i]) {
            let n: u64 = requests.counts[i].wrapping_add(1);
            requests.counts[i] = n;
            return ;
        }
        i = i + 1;
    }
}

// ---------------------------------------------------------------------------------------------
// Static files.

/// The file under the web root that a path names, or `None` where the path is refused: a request
/// path is chosen by whoever asks, so anything with `..` or a backslash is refused outright rather
/// than normalized. A directory has an `index.html` or it has nothing.
pub open spec fn static_path(path: Seq<char>) -> Option<Seq<char>> {
    let rel = text::skip_leading(path, '/');
    if text::holds_text(rel, ".."@) || text::starts(rel, "/"@) || rel.contains('\\') {
        None
    } else if rel.len() == 0 || text::ends(rel, "/"@) {
        Some(rel + "index.html"@)
    } else {
        Some(rel)
    }
}

/// The file under the web root that a path names.
pub fn static_file(path: &str) -> (r: Option<String>)
    ensures
        match static_path(path@) {
            Some(p) => r is Some && (r->0)@ == p,
            None => r is None,
        },
{
    let rel = text::without_leading(path, '/');
    if text::holds(rel.as_str(), "..") || text::starts_with(rel.as_str(), "/") || text::holds_char(
        rel.as_str(),
        '\\',
    ) {
        return None;
    }
    if rel.as_str().is_empty() || text::ends_with(rel.as_str(), "/") {
        Some(text::join2(rel.as_str(), "index.html"))
    } else {
        Some(rel)
    }
}

/// The last of the names between slashes, those that are empty or a single dot left out.
pub open spec fn last_name(parts: Seq<Seq<char>>) -> Option<Seq<char>>
    decreases parts.len(),
{
    if parts.len() == 0 {
        None
    } else if parts.last().len() == 0 || parts.last() == "."@ {
        last_name(parts.drop_last())
    } else if parts.last() == ".."@ {
        None
    } else {
        Some(parts.last())
    }
}

/// The last place of `c` in `s`, or -1.
pub open spec fn last_place(s: Seq<char>, c: char) -> int
    decreases s.len(),
{
    if s.len() == 0 {
        -1
    } else if s.last() == c {
        s.len() - 1
    } else {
        last_place(s.drop_last(), c)
    }
}

/// What follows the last dot of a file's name. A name that only starts with its dot has none.
pub open spec fn extension(path: Seq<char>) -> Option<Seq<char>> {
    match last_name(text::parts_text(path, '/')) {
        Some(name) => {
            let dot = last_place(name, '.');
            if dot > 0 {
                Some(name.skip(dot + 1))
            } else {
                None
            }
        },
        None => None,
    }
}

fn file_name(path: &str) -> (r: Option<String>)
    ensures
        match last_name(text::parts_text(path@, '/')) {
            Some(n) => r is Some && (r->0)@ == n,
            None => r is None,
        },
{
    let parts = text::parts(path, '/');
    let ghost all = text::texts(parts@);
    let mut n: usize = parts.len();
    assert(all.take(n as int) =~= all);
    while n > 0
        invariant
            n <= parts.len(),
            all == text::texts(parts@),
            all == text::parts_text(path@, '/'),
            last_name(all) == last_name(all.take(n as int)),
        decreases n,
    {
        let ghost t = all.take(n as int);
        assert(t.last() == parts@[n - 1]@);
        assert(t.drop_last() =~= all.take(n - 1));
        let part = parts[n - 1].as_str();
        if part.is_empty() || text::same(part, ".") {
            n = n - 1;
        } else if text::same(part, "..") {
            return None;
        } else {
            return Some(part.to_owned());
        }
    }
    None
}

pub(crate) fn extension_of(path: &str) -> (r: Option<String>)
    ensures
        match extension(path@) {
            Some(e) => r is Some && (r->0)@ == e,
            None => r is None,
        },
{
    match file_name(path) {
        None => None,
        Some(name) => {
            let cs = text::chars_of(name.as_str());
            let mut n: usize = cs.len();
            assert(cs@.take(n as int) =~= cs@);
            while n > 0 && cs[n - 1] != '.'
                invariant
                    n <= cs.len(),
                    last_place(cs@, '.') == last_place(cs@.take(n as int), '.'),
                decreases n,
            {
                assert(cs@.take(n as int).drop_last() =~= cs@.take(n - 1));
                assert(cs@.take(n as int).last() == cs@[n - 1]);
                n = n - 1;
            }
            assert(n > 0 ==> cs@.take(n as int).last() == cs@[n - 1]);
            if n > 1 {
                let e = text::text_of_range(&cs, n, cs.len());
                assert(e@ =~= name@.skip(n as int));
                Some(e)
            } else {
                None
            }
        },
    }
}

/// The content type of files with the extension `e`.
pub open spec fn type_of_extension(e: Option<Seq<char>>) -> Seq<char> {
    if e == Some("html"@) {
        "text/html; charset=utf-8"@
    } else if e == Some("js"@) || e == Some("mjs"@) {
        "text/javascript; charset=utf-8"@
    } else if e == Some("wasm"@) {
        "application/wasm"@
    } else if e == Some("css"@) {
        "text/css; charset=utf-8"@
    } else if e == Some("json"@) {
        "application/json"@
    } else if e == Some("webmanifest"@) {
        "application/manifest+json"@
    } else if e == Some("png"@) {
        "image/png"@
    } else if e == Some("jpg"@) || e == Some("jpeg"@) {
        "image/jpeg"@
    } else if e == Some("svg"@) {
        "image/svg+xml"@
    } else if e == Some("ico"@) {
        "image/x-icon"@
    } else {
        "application/octet-stream"@
    }
}

/// Extension to content type. `application/wasm` is the load-bearing one: browsers refuse to
/// stream-compile a module served as anything else.
pub fn content_type(path: &str) -> (r: &'static str)
    ensures
        r@ == type_of_extension(extension(path@)),
{
    match extension_of(path) {
        None => "application/octet-stream",
        Some(ext) => {
            let e = ext.as_str();
            if text::same(e, "html") {
                "text/html; charset=utf-8"
            } else if text::same(e, "js") || text::same(e, "mjs") {
                "text/javascript; charset=utf-8"
            } else if text::same(e, "wasm") {
                "application/wasm"
            } else if text::same(e, "css") {
                "text/css; charset=utf-8"
            } else if text::same(e, "json") {
                "application/json"
            } else if text::same(e, "webmanifest") {
                "application/manifest+json"
            } else if text::same(e, "png") {
                "image/png"
            } else if text::same(e, "jpg") || text::same(e, "jpeg") {
                "image/jpeg"
            } else if text::same(e, "svg") {
                "image/svg+xml"
            } else if text::same(e, "ico") {
                "image/x-icon"
            } else {
                "application/octet-stream"
            }
        },
    }
}

/// How a static path is answered, given what reading its file gave: nothing where the path is
/// refused or the file is not there.
pub fn static_reply(path: &str, read: Option<Vec<u8>>) -> (r: Reply)
    ensures
        match (static_path(path@), read) {
            (Some(p), Some(body)) => r.says(
                "200 OK"@,
                type_of_extension(extension(p)),
                body@,
                Seq::<HeaderText>::empty(),
            ),
            _ => r.is_error("404 Not Found"@, "{\"error\":\"no such endpoint\"}"@),
        },
{
    match static_file(path) {
        None => not_found(),
        Some(p) => match read {
            Some(body) => Reply::plain("200 OK", content_type(p.as_str()), body),
            None => not_found(),
        },
    }
}

/// No path leads out of the web root: what is read never climbs, and never starts at the root of
/// the file system.
pub proof fn static_paths_stay_inside(path: Seq<char>, p: Seq<char>)
    requires
        static_path(path) == Some(p),
    ensures
        !text::holds_text(p, ".."@),
        !text::starts(p, "/"@),
        !p.contains('\\'),
{
    reveal_strlit("..");
    reveal_strlit("/");
    reveal_strlit("index.html");
    let rel = text::skip_leading(path, '/');
    let page = "index.html"@;
    if p != rel {
        assert(p == rel + page);
        assert forall|i: int| !#[trigger] text::stands_at(p, ".."@, i) by {
            if text::stands_at(p, ".."@, i) {
                let t = p.subrange(i, i + 2);
                assert(t[0] == '.' && t[1] == '.');
                assert(p[i] == '.' && p[i + 1] == '.');
                if i + 2 <= rel.len() {
                    assert(rel.subrange(i, i + 2) =~= ".."@);
                    assert(text::stands_at(rel, ".."@, i));
                } else if i + 1 == rel.len() {
                    assert(p[i + 1] == page[0]);
                } else {
                    assert(p[i] == page[i - rel.len()]);
                    assert(p[i + 1] == page[i + 1 - rel.len()]);
                }
            }
        }
        if p.contains('\\') {
            let k = p.index_of('\\');
            if k < rel.len() {
                assert(rel[k] == '\\');
            } else {
                assert(page[k - rel.len()] == '\\');
            }
        }
        if text::starts(p, "/"@) {
            assert(p.subrange(0, 1)[0] == '/');
            assert(p[0] == '/');
            if rel.len() > 0 {
                assert(rel.subrange(0, 1) =~= "/"@);
                assert(text::starts(rel, "/"@));
            } else {
                assert(p[0] == page[0]);
            }
        }
    }
}

// ---------------------------------------------------------------------------------------------
// What the routes are.

/// Every endpoint answers at its own path: the pages, pictures and clips that a caller can ask for,
/// each by its name.
pub proof fn endpoints_answer_at_their_paths(web_root: bool)
    ensures
        endpoint_of("/"@, false) == Endpoint::Index,
        endpoint_of("/"@, true) == Endpoint::StaticIndex,
        endpoint_of("/status.json"@, web_root) == Endpoint::Status,
        endpoint_of("/alerts.json"@, web_root) == Endpoint::Alerts,
        endpoint_of("/obs.json"@, web_root) == Endpoint::Obs,
        endpoint_of("/cells.json"@, web_root) == Endpoint::Cells,
        endpoint_of("/health.json"@, web_root) == Endpoint::Health,
        endpoint_of("/snapshot.png"@, web_root) == Endpoint::Snapshot,
        endpoint_of("/national.png"@, web_root) == Endpoint::National,
        endpoint_of("/national.mp4"@, web_root) == Endpoint::NationalClip,
        endpoint_of("/loop.gif"@, web_root) == Endpoint::LoopGif,
        endpoint_of("/loop.mp4"@, web_root) == Endpoint::LoopMp4,
        endpoint_of("/metrics"@, web_root) == Endpoint::Metrics,
{
    lemma_paths_differ();
}

/// How long the paths are, and characters that tell them apart.
proof fn lemma_paths_differ()
    ensures
        "/"@.len() == 1,
        "/status.json"@.len() == 12,
        "/status.json"@[1] == 's',
        "/status.json"@[11] == 'n',
        "/alerts.json"@.len() == 12,
        "/alerts.json"@[1] == 'a',
        "/alerts.json"@[11] == 'n',
        "/obs.json"@.len() == 9,
        "/obs.json"@[1] == 'o',
        "/obs.json"@[8] == 'n',
        "/cells.json"@.len() == 11,
        "/cells.json"@[1] == 'c',
        "/cells.json"@[10] == 'n',
        "/health.json"@.len() == 12,
        "/health.json"@[1] == 'h',
        "/health.json"@[11] == 'n',
        "/snapshot.png"@.len() == 13,
        "/snapshot.png"@[1] == 's',
        "/snapshot.png"@[12] == 'g',
        "/national.png"@.len() == 13,
        "/national.png"@[1] == 'n',
        "/national.png"@[12] == 'g',
        "/national.mp4"@.len() == 13,
        "/national.mp4"@[1] == 'n',
        "/national.mp4"@[12] == '4',
        "/loop.gif"@.len() == 9,
        "/loop.gif"@[1] == 'l',
        "/loop.gif"@[8] == 'f',
        "/loop.mp4"@.len() == 9,
        "/loop.mp4"@[1] == 'l',
        "/loop.mp4"@[8] == '4',
        "/metrics"@.len() == 8,
        "/metrics"@[1] == 'm',
        "/metrics"@[7] == 's',
{
    reveal_strlit("/");
    reveal_strlit("/status.json");
    reveal_strlit("/alerts.json");
    reveal_strlit("/obs.json");
    reveal_strlit("/cells.json");
    reveal_strlit("/health.json");
    reveal_strlit("/snapshot.png");
    reveal_strlit("/national.png");
    reveal_strlit("/national.mp4");
    reveal_strlit("/loop.gif");
    reveal_strlit("/loop.mp4");
    reveal_strlit("/metrics");
}

/// An endpoint that this server builds itself has one path alone; the proxy has all that start with
/// its name; everything else is a file of the web root, or nothing.
pub proof fn no_two_paths_share_an_endpoint(a: Seq<char>, b: Seq<char>, web_root: bool)
    requires
        endpoint_of(a, web_root) == endpoint_of(b, web_root),
    ensures
        match endpoint_of(a, web_root) {
            Endpoint::Proxy => text::starts(a, "/proxy/"@) && text::starts(b, "/proxy/"@),
            Endpoint::Static => web_root,
            Endpoint::NotFound => !web_root,
            _ => a == b,
        },
{
}

/// What is proxied goes to the proxy, whatever follows, and nothing else does.
pub proof fn the_proxy_takes_its_paths(rest: Seq<char>, path: Seq<char>, web_root: bool)
    ensures
        endpoint_of("/proxy/"@ + rest, web_root) == Endpoint::Proxy,
        endpoint_of(path, web_root) == Endpoint::Proxy ==> text::starts(path, "/proxy/"@),
{
    text::lemma_starts_join("/proxy/"@, rest);
    lemma_proxy_is_no_other("/proxy/"@ + rest);
}

proof fn lemma_proxy_is_no_other(p: Seq<char>)
    requires
        text::starts(p, "/proxy/"@),
    ensures
        p != "/"@ && p != "/status.json"@ && p != "/alerts.json"@ && p != "/obs.json"@,
        p != "/cells.json"@ && p != "/health.json"@ && p != "/snapshot.png"@,
        p != "/national.png"@ && p != "/national.mp4"@ && p != "/loop.gif"@,
        p != "/loop.mp4"@ && p != "/metrics"@,
{
    reveal_strlit("/proxy/");
    reveal_strlit("/");
    reveal_strlit("/status.json");
    reveal_strlit("/alerts.json");
    reveal_strlit("/obs.json");
    reveal_strlit("/cells.json");
    reveal_strlit("/health.json");
    reveal_strlit("/snapshot.png");
    reveal_strlit("/national.png");
    reveal_strlit("/national.mp4");
    reveal_strlit("/loop.gif");
    reveal_strlit("/loop.mp4");
    reveal_strlit("/metrics");
    assert(p.subrange(0, 7)[1] == 'p');
    assert(p[1] == 'p');
}

/// An answer says what it is as the name of its path does: a picture, an animation, a clip, JSON, a
/// page, or the text that a scraper reads. Renders may be reused, and nothing else.
pub proof fn answers_are_what_their_names_say(path: Seq<char>)
    requires
        is_built(endpoint_of(path, false)),
    ensures
        ({
            let e = endpoint_of(path, false);
            let t = answer_type(e);
            &&& text::ends(path, ".png"@) <==> t == "image/png"@
            &&& text::ends(path, ".gif"@) <==> t == "image/gif"@
            &&& text::ends(path, ".mp4"@) <==> t == "video/mp4"@
            &&& text::ends(path, ".json"@) <==> t == "application/json"@
            &&& path == "/"@ <==> t == "text/html; charset=utf-8"@
            &&& path == "/metrics"@ <==> t == "text/plain; version=0.0.4; charset=utf-8"@
            &&& is_render(e) <==> (text::ends(path, ".png"@) || text::ends(path, ".gif"@)
                || text::ends(path, ".mp4"@))
        }),
{
    lemma_path_ends();
    lemma_paths_differ();
    lemma_types_differ();
}

proof fn lemma_types_differ()
    ensures
        "image/png"@.len() == 9,
        "image/gif"@.len() == 9,
        "video/mp4"@.len() == 9,
        "application/json"@.len() == 16,
        "text/html; charset=utf-8"@.len() == 24,
        "text/plain; version=0.0.4; charset=utf-8"@.len() == 40,
        "image/png"@[6] == 'p',
        "image/gif"@[6] == 'g',
        "video/mp4"@[6] == 'm',
{
    reveal_strlit("image/png");
    reveal_strlit("image/gif");
    reveal_strlit("video/mp4");
    reveal_strlit("application/json");
    reveal_strlit("text/html; charset=utf-8");
    reveal_strlit("text/plain; version=0.0.4; charset=utf-8");
}

/// How a path of an endpoint ends.
pub open spec fn path_ends(path: Seq<char>, png: bool, gif: bool, mp4: bool, json: bool) -> bool {
    &&& text::ends(path, ".png"@) == png
    &&& text::ends(path, ".gif"@) == gif
    &&& text::ends(path, ".mp4"@) == mp4
    &&& text::ends(path, ".json"@) == json
}

proof fn lemma_end_of(path: Seq<char>)
    ensures
        path.len() < 4 ==> path_ends(path, false, false, false, false),
        path.len() >= 5 && path.skip(path.len() - 4) == ".png"@ ==> path_ends(
            path,
            true,
            false,
            false,
            false,
        ),
        path.len() >= 5 && path.skip(path.len() - 4) == ".gif"@ ==> path_ends(
            path,
            false,
            true,
            false,
            false,
        ),
        path.len() >= 5 && path.skip(path.len() - 4) == ".mp4"@ ==> path_ends(
            path,
            false,
            false,
            true,
            false,
        ),
        path.len() >= 5 && path.skip(path.len() - 5) == ".json"@ ==> path_ends(
            path,
            false,
            false,
            false,
            true,
        ),
{
    reveal_strlit(".png");
    reveal_strlit(".gif");
    reveal_strlit(".mp4");
    reveal_strlit(".json");
    assert(".png"@[3] == 'g' && ".gif"@[3] == 'f' && ".mp4"@[3] == '4' && ".json"@[4] == 'n');
    if path.len() >= 5 {
        let t = path.skip(path.len() - 4);
        let u = path.skip(path.len() - 5);
        assert(t[3] == path[path.len() - 1]);
        assert(u[4] == path[path.len() - 1]);
    }
}

proof fn lemma_path_ends()
    ensures
        path_ends("/"@, false, false, false, false),
        path_ends("/status.json"@, false, false, false, true),
        path_ends("/alerts.json"@, false, false, false, true),
        path_ends("/obs.json"@, false, false, false, true),
        path_ends("/cells.json"@, false, false, false, true),
        path_ends("/health.json"@, false, false, false, true),
        path_ends("/snapshot.png"@, true, false, false, false),
        path_ends("/national.png"@, true, false, false, false),
        path_ends("/national.mp4"@, false, false, true, false),
        path_ends("/loop.gif"@, false, true, false, false),
        path_ends("/loop.mp4"@, false, false, true, false),
        path_ends("/metrics"@, false, false, false, false),
        "/metrics"@ != "/"@,
{
    reveal_strlit("/");
    reveal_strlit("/status.json");
    reveal_strlit("/alerts.json");
    reveal_strlit("/obs.json");
    reveal_strlit("/cells.json");
    reveal_strlit("/health.json");
    reveal_strlit("/snapshot.png");
    reveal_strlit("/national.png");
    reveal_strlit("/national.mp4");
    reveal_strlit("/loop.gif");
    reveal_strlit("/loop.mp4");
    reveal_strlit("/metrics");
    reveal_strlit(".png");
    reveal_strlit(".gif");
    reveal_strlit(".mp4");
    reveal_strlit(".json");
    assert("/status.json"@.skip(7) =~= ".json"@);
    assert("/alerts.json"@.skip(7) =~= ".json"@);
    assert("/obs.json"@.skip(4) =~= ".json"@);
    assert("/cells.json"@.skip(6) =~= ".json"@);
    assert("/health.json"@.skip(7) =~= ".json"@);
    assert("/snapshot.png"@.skip(9) =~= ".png"@);
    assert("/national.png"@.skip(9) =~= ".png"@);
    assert("/national.mp4"@.skip(9) =~= ".mp4"@);
    assert("/loop.gif"@.skip(5) =~= ".gif"@);
    assert("/loop.mp4"@.skip(5) =~= ".mp4"@);
    lemma_end_of("/"@);
    lemma_end_of("/status.json"@);
    lemma_end_of("/alerts.json"@);
    lemma_end_of("/obs.json"@);
    lemma_end_of("/cells.json"@);
    lemma_end_of("/health.json"@);
    lemma_end_of("/snapshot.png"@);
    lemma_end_of("/national.png"@);
    lemma_end_of("/national.mp4"@);
    lemma_end_of("/loop.gif"@);
    lemma_end_of("/loop.mp4"@);
    let m = "/metrics"@;
    assert(m.skip(4)[3] == 's' && m.skip(3)[4] == 's');
    assert(".png"@[3] == 'g' && ".gif"@[3] == 'f' && ".mp4"@[3] == '4' && ".json"@[4] == 'n');
}

/// Requests are counted under the name of what they ask for: each label stands for its endpoints and
/// for no others.
pub proof fn labels_name_the_endpoints(path: Seq<char>)
    ensures
        ({
            let e = endpoint_of(path, false);
            let l = label_of(path);
            &&& e == Endpoint::Index ==> l == "index"@
            &&& e == Endpoint::Status || e == Endpoint::Alerts || e == Endpoint::Obs || e
                == Endpoint::Health ==> l == "json"@
            &&& e == Endpoint::Cells ==> l == "cells"@
            &&& e == Endpoint::Snapshot ==> l == "snapshot"@
            &&& e == Endpoint::National || e == Endpoint::NationalClip ==> l == "national"@
            &&& e == Endpoint::LoopGif || e == Endpoint::LoopMp4 ==> l == "loop"@
            &&& e == Endpoint::Metrics ==> l == "metrics"@
            &&& e == Endpoint::Proxy ==> l == "proxy"@
            &&& e == Endpoint::NotFound ==> l == "other"@
        }),
{
    lemma_paths_differ();
    if text::starts(path, "/proxy/"@) {
        lemma_proxy_is_no_other(path);
    }
}

/// Every label has a counter of its own, at its place in the list that the metrics report.
pub proof fn labels_have_their_own_counters(i: int)
    requires
        0 <= i < 10,
    ensures
        counter_of(ROUTES@[i]@) == i,
        ROUTES@.len() == 10,
{
    reveal_strlit("index");
    reveal_strlit("json");
    reveal_strlit("cells");
    reveal_strlit("snapshot");
    reveal_strlit("national");
    reveal_strlit("loop");
    reveal_strlit("metrics");
    reveal_strlit("proxy");
    reveal_strlit("denied");
    reveal_strlit("other");
    assert("index"@[0] == 'i' && "json"@[0] == 'j' && "cells"@[0] == 'c' && "snapshot"@[0] == 's');
    assert("national"@[0] == 'n' && "loop"@[0] == 'l' && "metrics"@[0] == 'm');
    assert("proxy"@[0] == 'p' && "denied"@[0] == 'd' && "other"@[0] == 'o');
}

/// A static path is the file of that name: the slashes before it are dropped, and a directory is its
/// index page. Nothing that climbs is a file.
pub proof fn static_paths_are_their_files(name: Seq<char>)
    requires
        name.len() > 0,
        name[0] != '/',
        !text::holds_text(name, ".."@),
        !name.contains('\\'),
    ensures
        name.last() != '/' ==> static_path("/"@ + name) == Some(name) && static_path(name) == Some(
            name,
        ),
        name.last() == '/' ==> static_path("/"@ + name) == Some(name + "index.html"@),
        static_path("/"@) == Some("index.html"@),
        static_path("/"@ + ".."@ + name) is None,
{
    reveal_strlit("/");
    reveal_strlit("..");
    reveal_strlit("index.html");
    assert("/"@ =~= seq!['/']);
    text::skipping_takes_the_lead(name, '/');
    let none = Seq::<char>::empty();
    text::skipping_takes_the_lead(none, '/');
    assert("/"@ =~= seq!['/'] + none);
    assert(none + "index.html"@ =~= "index.html"@);
    assert(!text::starts(name, "/"@)) by {
        if text::starts(name, "/"@) {
            assert(name.subrange(0, 1)[0] == '/');
        }
    }
    assert(text::ends(name, "/"@) <==> name.last() == '/') by {
        let t = name.skip(name.len() - 1);
        assert(t[0] == name.last());
        if name.last() == '/' {
            assert(t =~= "/"@);
        }
    }
    assert(!text::holds_text(none, ".."@)) by {
        if text::holds_text(none, ".."@) {
            let k = choose|k: int| text::stands_at(none, ".."@, k);
            assert(text::stands_at(none, ".."@, k));
        }
    }
    let up = ".."@ + name;
    assert("/"@ + ".."@ + name =~= seq!['/'] + up);
    text::skipping_takes_the_lead(up, '/');
    text::lemma_holds_join(none, ".."@, name);
    assert(none + ".."@ + name =~= up);
}

proof fn lemma_last_dot(stem: Seq<char>, ext: Seq<char>)
    requires
        !ext.contains('.'),
    ensures
        last_place(stem + seq!['.'] + ext, '.') == stem.len(),
    decreases ext.len(),
{
    let s = stem + seq!['.'] + ext;
    if ext.len() > 0 {
        let t = ext.drop_last();
        assert(ext[ext.len() - 1] == ext.last());
        if t.contains('.') {
            assert(ext[t.index_of('.')] == '.');
        }
        lemma_last_dot(stem, t);
        assert(s.drop_last() =~= stem + seq!['.'] + t);
    }
}

/// The extension of a path is what follows the last dot of its last name; a name that only begins
/// with a dot has none.
pub proof fn extensions_follow_the_last_dot(dir: Seq<char>, stem: Seq<char>, ext: Seq<char>)
    requires
        !stem.contains('/') && !ext.contains('/') && !ext.contains('.'),
        stem.len() > 0,
        ext.len() > 0,
    ensures
        extension(dir + seq!['/'] + (stem + seq!['.'] + ext)) == Some(ext),
        extension(stem + seq!['.'] + ext) == Some(ext),
        extension(seq!['.'] + ext) is None,
{
    reveal_strlit(".");
    reveal_strlit("..");
    let name = stem + seq!['.'] + ext;
    assert(!name.contains('/')) by {
        if name.contains('/') {
            let k = name.index_of('/');
            if k < stem.len() {
                assert(stem[k] == '/');
            } else if k > stem.len() {
                assert(ext[k - stem.len() - 1] == '/');
            }
        }
    }
    assert(name.last() == ext.last());
    assert(ext[ext.len() - 1] != '.');
    text::lemma_last_part(dir, name, '/');
    text::parts_undo_joining(name, name, '/');
    lemma_last_dot(stem, ext);
    assert(name.skip(stem.len() as int + 1) =~= ext);
    let none = Seq::<char>::empty();
    lemma_last_dot(none, ext);
    let hidden = seq!['.'] + ext;
    assert(none + seq!['.'] + ext =~= hidden);
    assert(!hidden.contains('/')) by {
        if hidden.contains('/') {
            let k = hidden.index_of('/');
            assert(ext[k - 1] == '/');
        }
    }
    text::parts_undo_joining(hidden, hidden, '/');
    assert(hidden.last() == ext.last());
}

/// A file is served as what its extension says: pages, styles and scripts as text, pictures as
/// images, and what is not known as bytes.
pub proof fn files_are_what_their_extension_says()
    ensures
        type_of_extension(Some("html"@)) == "text/"@ + "html"@ + "; charset=utf-8"@,
        type_of_extension(Some("css"@)) == "text/"@ + "css"@ + "; charset=utf-8"@,
        type_of_extension(Some("js"@)) == "text/"@ + "javascript"@ + "; charset=utf-8"@,
        type_of_extension(Some("mjs"@)) == type_of_extension(Some("js"@)),
        type_of_extension(Some("png"@)) == "image/"@ + "png"@,
        type_of_extension(Some("jpeg"@)) == "image/"@ + "jpeg"@,
        type_of_extension(Some("jpg"@)) == type_of_extension(Some("jpeg"@)),
        type_of_extension(Some("json"@)) == "application/"@ + "json"@,
        type_of_extension(Some("wasm"@)) == "application/"@ + "wasm"@,
        type_of_extension(None) == "application/octet-stream"@,
{
    reveal_strlit("html");
    reveal_strlit("css");
    reveal_strlit("js");
    reveal_strlit("mjs");
    reveal_strlit("png");
    reveal_strlit("jpeg");
    reveal_strlit("jpg");
    reveal_strlit("json");
    reveal_strlit("wasm");
    reveal_strlit("webmanifest");
    reveal_strlit("svg");
    reveal_strlit("ico");
    reveal_strlit("javascript");
    reveal_strlit("text/");
    reveal_strlit("image/");
    reveal_strlit("application/");
    reveal_strlit("; charset=utf-8");
    reveal_strlit("text/html; charset=utf-8");
    reveal_strlit("text/css; charset=utf-8");
    reveal_strlit("text/javascript; charset=utf-8");
    reveal_strlit("image/png");
    reveal_strlit("image/jpeg");
    reveal_strlit("application/json");
    reveal_strlit("application/wasm");
    assert("html"@[0] == 'h' && "wasm"@[0] == 'w' && "json"@[0] == 'j' && "jpeg"@[1] == 'p'
        && "json"@[1] == 's');
    assert("css"@[0] == 'c' && "mjs"@[0] == 'm' && "png"@[0] == 'p' && "jpg"@[0] == 'j');
    assert("html"@.len() == 4 && "css"@.len() == 3 && "js"@.len() == 2 && "wasm"@.len() == 4);
    assert("text/html; charset=utf-8"@ =~= "text/"@ + "html"@ + "; charset=utf-8"@);
    assert("text/css; charset=utf-8"@ =~= "text/"@ + "css"@ + "; charset=utf-8"@);
    assert("text/javascript; charset=utf-8"@ =~= "text/"@ + "javascript"@ + "; charset=utf-8"@);
    assert("image/png"@ =~= "image/"@ + "png"@);
    assert("image/jpeg"@ =~= "image/"@ + "jpeg"@);
    assert("application/json"@ =~= "application/"@ + "json"@);
    assert("application/wasm"@ =~= "application/"@ + "wasm"@);
}

} // verus!
