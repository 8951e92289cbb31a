//! The same-origin proxy for the browser build: which hosts, which bytes, and for how long.

use crate::answers::{
    capacity, fresh, get_entries, has, held, is_fresh, keep_proxied, lru_get, put_entries,
    within_bytes, ProxyHit, PROXY_CACHE_BYTES,
};
use crate::cloud::opt_text;
use crate::serve::reply::{error_reply, header_texts, max_age, max_age_text, HeaderText, Reply};
use crate::text;
use crate::tiles::style::{BasemapStyle, Provider};
use lru::LruCache;
use std::hash::BuildHasher;
use vstd::prelude::*;

verus! {

/// The archived Level 2 bucket: the same handful of volumes every client on a radar asks for.
pub const ARCHIVE_BUCKET: &'static str = "unidata-nexrad-level2.s3.amazonaws.com";

/// Nothing bigger than this comes back through the proxy. An archive volume is a few MB; this is
/// generous for every feed on the list and still bounds a broken upstream.
pub const PROXY_MAX_BYTES: usize = 67_108_864;

/// The hosts that the proxy fetches from: NEXRAD archives and the live chunk stream, gridded and
/// satellite feeds, the weather services, basemap and imagery tiles, cameras. Compiled in rather
/// than configured: this list is what keeps the proxy from being an open relay.
pub open spec fn is_allowed_host(host: Seq<char>) -> bool {
    ||| host == "unidata-nexrad-level2.s3.amazonaws.com"@
    ||| host == "unidata-nexrad-level2-chunks.s3.amazonaws.com"@
    ||| host == "unidata-nexrad-level3.s3.amazonaws.com"@
    ||| host == "noaa-mrms-pds.s3.amazonaws.com"@
    ||| host == "noaa-hrrr-bdp-pds.s3.amazonaws.com"@
    ||| host == "noaa-rap-pds.s3.amazonaws.com"@
    ||| host == "noaa-nam-pds.s3.amazonaws.com"@
    ||| host == "noaa-nbm-grib2-pds.s3.amazonaws.com"@
    ||| host == "noaa-goes19.s3.amazonaws.com"@
    ||| host == "noaa-goes18.s3.amazonaws.com"@
    ||| host == "noaa-gfs-bdp-pds.s3.amazonaws.com"@
    ||| host == "data.ecmwf.int"@
    ||| host == "mrms.ncep.noaa.gov"@
    ||| host == "www.nohrsc.noaa.gov"@
    ||| host == "api.weather.gov"@
    ||| host == "tgftp.nws.noaa.gov"@
    ||| host == "mapservices.weather.noaa.gov"@
    ||| host == "www.spc.noaa.gov"@
    ||| host == "www.nhc.noaa.gov"@
    ||| host == "ftp.nhc.noaa.gov"@
    ||| host == "www.ndbc.noaa.gov"@
    ||| host == "api.water.noaa.gov"@
    ||| host == "aviationweather.gov"@
    ||| host == "tfr.faa.gov"@
    ||| host == "services.dat.noaa.gov"@
    ||| host == "apps.dat.noaa.gov"@
    ||| host == "mesonet.agron.iastate.edu"@
    ||| host == "weather.uwyo.edu"@
    ||| host == "mping.ou.edu"@
    ||| host == "www.spotternetwork.org"@
    ||| host == "api.open-meteo.com"@
    ||| host == "gibs.earthdata.nasa.gov"@
    ||| host == "feeds.meteoalarm.org"@
    ||| host == "opendata.dwd.de"@
    ||| host == "maps.dwd.de"@
    ||| host == "geo.weather.gc.ca"@
    ||| host == "s3.waw3-1.cloudferro.com"@
    ||| host == "api.mapbox.com"@
    ||| host == "api.maptiler.com"@
    ||| host == "basemaps.cartocdn.com"@
    ||| host == "basemap.nationalmap.gov"@
    ||| host == "server.arcgisonline.com"@
    ||| host == "services3.arcgis.com"@
    ||| host == "tiles.openfreemap.org"@
    ||| host == "tile.openstreetmap.org"@
    ||| host == "a.tile.openstreetmap.fr"@
    ||| host == "a.tile-cyclosm.openstreetmap.fr"@
    ||| host == "a.tile.opentopomap.org"@
    ||| host == "weathercams.faa.gov"@
    ||| host == "images.wcams-static.faa.gov"@
    ||| host == "cwwp2.dot.ca.gov"@
}

/// Whether the proxy fetches from `host`. Exact match only.
pub fn allowed_host(host: &str) -> (r: bool)
    ensures
        r == is_allowed_host(host@),
{
    text::same(host, "unidata-nexrad-level2.s3.amazonaws.com")
        || text::same(host, "unidata-nexrad-level2-chunks.s3.amazonaws.com")
        || text::same(host, "unidata-nexrad-level3.s3.amazonaws.com")
        || text::same(host, "noaa-mrms-pds.s3.amazonaws.com")
        || text::same(host, "noaa-hrrr-bdp-pds.s3.amazonaws.com")
        || text::same(host, "noaa-rap-pds.s3.amazonaws.com")
        || text::same(host, "noaa-nam-pds.s3.amazonaws.com")
        || text::same(host, "noaa-nbm-grib2-pds.s3.amazonaws.com")
        || text::same(host, "noaa-goes19.s3.amazonaws.com")
        || text::same(host, "noaa-goes18.s3.amazonaws.com")
        || text::same(host, "noaa-gfs-bdp-pds.s3.amazonaws.com")
        || text::same(host, "data.ecmwf.int")
        || text::same(host, "mrms.ncep.noaa.gov")
        || text::same(host, "www.nohrsc.noaa.gov")
        || text::same(host, "api.weather.gov")
        || text::same(host, "tgftp.nws.noaa.gov")
        || text::same(host, "mapservices.weather.noaa.gov")
        || text::same(host, "www.spc.noaa.gov")
        || text::same(host, "www.nhc.noaa.gov")
        || text::same(host, "ftp.nhc.noaa.gov")
        || text::same(host, "www.ndbc.noaa.gov")
        || text::same(host, "api.water.noaa.gov")
        || text::same(host, "aviationweather.gov")
        || text::same(host, "tfr.faa.gov")
        || text::same(host, "services.dat.noaa.gov")
        || text::same(host, "apps.dat.noaa.gov")
        || text::same(host, "mesonet.agron.iastate.edu")
        || text::same(host, "weather.uwyo.edu")
        || text::same(host, "mping.ou.edu")
        || text::same(host, "www.spotternetwork.org")
        || text::same(host, "api.open-meteo.com")
        || text::same(host, "gibs.earthdata.nasa.gov")
        || text::same(host, "feeds.meteoalarm.org")
        || text::same(host, "opendata.dwd.de")
        || text::same(host, "maps.dwd.de")
        || text::same(host, "geo.weather.gc.ca")
        || text::same(host, "s3.waw3-1.cloudferro.com")
        || text::same(host, "api.mapbox.com")
        || text::same(host, "api.maptiler.com")
        || text::same(host, "basemaps.cartocdn.com")
        || text::same(host, "basemap.nationalmap.gov")
        || text::same(host, "server.arcgisonline.com")
        || text::same(host, "services3.arcgis.com")
        || text::same(host, "tiles.openfreemap.org")
        || text::same(host, "tile.openstreetmap.org")
        || text::same(host, "a.tile.openstreetmap.fr")
        || text::same(host, "a.tile-cyclosm.openstreetmap.fr")
        || text::same(host, "a.tile.opentopomap.org")
        || text::same(host, "weathercams.faa.gov")
        || text::same(host, "images.wcams-static.faa.gov")
        || text::same(host, "cwwp2.dot.ca.gov")
}

/// The feeds that go stale in seconds.
pub open spec fn is_live_host(host: Seq<char>) -> bool {
    ||| host == "unidata-nexrad-level2-chunks.s3.amazonaws.com"@
    ||| host == "api.weather.gov"@
    ||| host == "opendata.dwd.de"@
}

/// Whether the feeds of `host` go stale in seconds.
pub fn live_host(host: &str) -> (r: bool)
    ensures
        r == is_live_host(host@),
{
    text::same(host, "unidata-nexrad-level2-chunks.s3.amazonaws.com")
        || text::same(host, "api.weather.gov")
        || text::same(host, "opendata.dwd.de")
}

/// How long a proxied response may be reused, in seconds. A bucket listing is how the app finds the
/// newest volume, so it is good for as long as a live feed. A map image with no `TIME` is whatever
/// the layer's default frame happens to be, which turns over every five minutes; one naming a frame
/// is that frame forever. An hour for the archive, not forever: the newest object is re-uploaded
/// while the radar is still writing it.
pub open spec fn reuse_seconds(host: Seq<char>, query: Seq<char>) -> u64 {
    if text::holds_text(query, "list-type="@) {
        15
    } else if host == "maps.dwd.de"@ || host == "geo.weather.gc.ca"@ {
        if text::holds_text(query, "TIME="@) {
            300
        } else {
            15
        }
    } else if host == "unidata-nexrad-level2.s3.amazonaws.com"@ {
        3600
    } else if is_live_host(host) {
        15
    } else {
        300
    }
}

/// How long a proxied response may be reused, in seconds.
pub fn cache_seconds(host: &str, query: &str) -> (r: u64)
    ensures
        r == reuse_seconds(host@, query@),
{
    if text::holds(query, "list-type=") {
        return 15;
    }
    if text::same(host, "maps.dwd.de") || text::same(host, "geo.weather.gc.ca") {
        return if text::holds(query, "TIME=") {
            300
        } else {
            15
        };
    }
    if text::same(host, "unidata-nexrad-level2.s3.amazonaws.com") {
        return 3600;
    }
    if live_host(host) {
        15
    } else {
        300
    }
}

// ---------------------------------------------------------------------------------------------
// What is fetched.

/// What a proxy request asks for, or why it is refused.
#[derive(Debug)]
pub struct ProxyTarget {
    pub host: String,
    pub url: String,
}

/// The host and the rest of a proxy path, which starts with `/proxy/`.
pub open spec fn proxy_parts(path: Seq<char>) -> Option<(Seq<char>, Seq<char>)> {
    match text::after_text(path, "/proxy/"@) {
        Some(tail) => text::cut_text(tail, '/'),
        None => None,
    }
}

/// The upstream address.
pub open spec fn upstream_url(host: Seq<char>, rest: Seq<char>, query: Seq<char>) -> Seq<char> {
    if query.len() == 0 {
        "https://"@ + host + "/"@ + rest
    } else {
        "https://"@ + host + "/"@ + rest + "?"@ + query
    }
}

/// What `GET /proxy/{host}/{rest}` fetches, if it is allowed: `https://{host}/{rest}`, from a host
/// that is on the list exactly.
pub fn proxy_target(path: &str, query: &str) -> (r: Option<ProxyTarget>)
    ensures
        match proxy_parts(path@) {
            Some((host, rest)) => if is_allowed_host(host) {
                r is Some && (r->0).host@ == host && (r->0).url@ == upstream_url(
                    host,
                    rest,
                    query@,
                )
            } else {
                r is None
            },
            None => r is None,
        },
{
    let tail = match text::after(path, "/proxy/") {
        Some(t) => t,
        None => {
            return None;
        },
    };
    match text::cut(tail.as_str(), '/') {
        None => None,
        Some((host, rest)) => {
            if !allowed_host(host.as_str()) {
                return None;
            }
            let mut url = "https://".to_owned();
            url.append(host.as_str());
            url.append("/");
            url.append(rest.as_str());
            if !query.is_empty() {
                url.append("?");
                url.append(query);
            }
            Some(ProxyTarget { host, url })
        },
    }
}

/// A proxied address always starts with a listed host: no path or query reaches another.
pub proof fn only_listed_hosts_are_fetched(path: Seq<char>, query: Seq<char>)
    requires
        proxy_parts(path) is Some,
        is_allowed_host((proxy_parts(path)->0).0),
    ensures
        text::starts(
            upstream_url((proxy_parts(path)->0).0, (proxy_parts(path)->0).1, query),
            "https://"@ + (proxy_parts(path)->0).0 + "/"@,
        ),
        !((proxy_parts(path)->0).0).contains('/'),
{
    let tail = text::after_text(path, "/proxy/"@)->0;
    let host = (proxy_parts(path)->0).0;
    let rest = (proxy_parts(path)->0).1;
    text::lemma_place_is_first(tail, '/');
    let prefix = "https://"@ + host + "/"@;
    let url = upstream_url(host, rest, query);
    assert(url.subrange(0, prefix.len() as int) =~= prefix);
    if host.contains('/') {
        let k = host.index_of('/');
        assert(tail[k] == '/');
    }
}

/// The answer to a proxy request that is refused.
pub fn proxy_forbidden() -> (r: Reply)
    ensures
        r.is_error("403 Forbidden"@, "{\"error\":\"host not proxyable\"}"@),
{
    error_reply("403 Forbidden", "{\"error\":\"host not proxyable\"}")
}

/// The answer where the upstream could not be read, for a byte range or as a whole.
pub fn proxy_failed(ranged: bool) -> (r: Reply)
    ensures
        r.is_error(
            "502 Bad Gateway"@,
            if ranged {
                "{\"error\":\"upstream range fetch failed\"}"@
            } else {
                "{\"error\":\"upstream fetch failed\"}"@
            },
        ),
{
    if ranged {
        error_reply("502 Bad Gateway", "{\"error\":\"upstream range fetch failed\"}")
    } else {
        error_reply("502 Bad Gateway", "{\"error\":\"upstream fetch failed\"}")
    }
}

/// Take one more chunk of an upstream body, unless it is then over the limit: stopped mid-stream
/// rather than after the fact.
pub fn take_chunk(body: &mut Vec<u8>, chunk: &[u8]) -> (ok: bool)
    requires
        old(body)@.len() <= PROXY_MAX_BYTES,
    ensures
        ok == (old(body)@.len() + chunk@.len() <= PROXY_MAX_BYTES),
        final(body)@ == if ok {
            old(body)@ + chunk@
        } else {
            old(body)@
        },
        final(body)@.len() <= PROXY_MAX_BYTES,
        old(body)@.is_prefix_of(final(body)@),
{
    if chunk.len() > PROXY_MAX_BYTES - body.len() {
        return false;
    }
    let ghost before = body@;
    let mut i: usize = 0;
    while i < chunk.len()
        invariant
            i <= chunk.len(),
            body@ == before + chunk@.take(i as int),
        decreases chunk.len() - i,
    {
        body.push(chunk[i]);
        i = i + 1;
        assert(body@ =~= before + chunk@.take(i as int));
    }
    assert(chunk@.take(chunk@.len() as int) =~= chunk@);
    true
}

/// An upstream content type mapped onto one of ours.
pub open spec fn our_type(upstream: Seq<char>) -> Seq<char> {
    let t = text::trim_text(text::parts_text(upstream, ';')[0]);
    if t == "application/json"@ || t == "application/geo+json"@ {
        "application/json"@
    } else if t == "application/xml"@ || t == "text/xml"@ {
        "application/xml"@
    } else if t == "text/plain"@ || t == "text/html"@ {
        "text/plain; charset=utf-8"@
    } else if t == "image/png"@ {
        "image/png"@
    } else if t == "image/jpeg"@ {
        "image/jpeg"@
    } else if t == "image/webp"@ {
        "image/webp"@
    } else if t == "application/x-protobuf"@ || t == "application/vnd.mapbox-vector-tile"@ {
        "application/x-protobuf"@
    } else {
        "application/octet-stream"@
    }
}

/// An upstream content type mapped onto one of ours. The upstream header is remote text going into
/// our response headers, so it is matched against a fixed set rather than copied.
///
/// HTML is deliberately downgraded: proxied bytes are served from our own origin, and no feed on
/// the list needs a page that a browser will execute.
pub fn proxy_content_type(upstream: &str) -> (r: &'static str)
    ensures
        r@ == our_type(upstream@),
{
    let parts = text::parts(upstream, ';');
    assert(text::texts(parts@)[0] == parts@[0]@);
    let t = text::trim(parts[0].as_str());
    let t = t.as_str();
    if text::same(t, "application/json") || text::same(t, "application/geo+json") {
        "application/json"
    } else if text::same(t, "application/xml") || text::same(t, "text/xml") {
        "application/xml"
    } else if text::same(t, "text/plain") || text::same(t, "text/html") {
        "text/plain; charset=utf-8"
    } else if text::same(t, "image/png") {
        "image/png"
    } else if text::same(t, "image/jpeg") {
        "image/jpeg"
    } else if text::same(t, "image/webp") {
        "image/webp"
    } else if text::same(t, "application/x-protobuf") || text::same(
        t,
        "application/vnd.mapbox-vector-tile",
    ) {
        "application/x-protobuf"
    } else {
        "application/octet-stream"
    }
}

// ---------------------------------------------------------------------------------------------
// Byte ranges.

/// The start and the end that `spec` writes as `START-[END]`, in digits alone, not reversed.
pub open spec fn range_bounds(spec: Seq<char>) -> Option<(nat, Option<nat>)> {
    match text::cut_text(spec, '-') {
        None => None,
        Some((start, end)) => match text::at_most(text::plain_number(start), u64::MAX as nat) {
            None => None,
            Some(s) => if end.len() == 0 {
                Some((s, None))
            } else {
                match text::at_most(text::plain_number(end), u64::MAX as nat) {
                    Some(e) => if e < s {
                        None
                    } else {
                        Some((s, Some(e)))
                    },
                    None => None,
                }
            },
        },
    }
}

/// The byte range that a header asks for, if it is a single well-formed one.
pub open spec fn byte_range(raw: Seq<char>) -> Option<(Seq<char>, nat)> {
    match text::after_text(text::trim_text(raw), "bytes="@) {
        None => None,
        Some(spec) => if spec.contains(',') {
            None
        } else {
            match range_bounds(spec) {
                Some((s, _)) => Some(("bytes="@ + spec, s)),
                None => None,
            }
        },
    }
}

/// Accept only a single well-formed `bytes=START-[END]` range. Multi-ranges (a comma), suffix
/// ranges (`bytes=-500`) and anything with stray characters are rejected: the value is forwarded
/// verbatim upstream, so it has to be exactly what it looks like. Returns the canonical header
/// value and the start offset.
pub fn valid_byte_range(raw: &str) -> (r: Option<(String, u64)>)
    ensures
        match byte_range(raw@) {
            Some((header, start)) => r is Some && (r->0).0@ == header && (r->0).1 == start,
            None => r is None,
        },
{
    let bare = text::trim(raw);
    let spec = match text::after(bare.as_str(), "bytes=") {
        Some(s) => s,
        None => {
            return None;
        },
    };
    if text::holds_char(spec.as_str(), ',') {
        return None;
    }
    match text::cut(spec.as_str(), '-') {
        None => None,
        Some((start, end)) => {
            let start: u64 = match text::parse_digits(start.as_str(), u64::MAX) {
                Some(n) => n,
                None => {
                    return None;
                },
            };
            if !end.as_str().is_empty() {
                match text::parse_digits(end.as_str(), u64::MAX) {
                    Some(e) => {
                        if e < start {
                            return None;
                        }
                    },
                    None => {
                        return None;
                    },
                }
            }
            Some((text::join2("bytes=", spec.as_str()), start))
        },
    }
}

/// A range that is forwarded is made of digits, one dash and its unit: nothing in it can end a
/// header line or start another.
pub proof fn forwarded_ranges_are_plain(raw: Seq<char>, i: int)
    requires
        byte_range(raw) is Some,
        6 <= i < (byte_range(raw)->0).0.len(),
    ensures
        (byte_range(raw)->0).0[i] == '-' || text::is_digit_char((byte_range(raw)->0).0[i]),
{
    reveal_strlit("bytes=");
    let spec = text::after_text(text::trim_text(raw), "bytes="@)->0;
    let header = (byte_range(raw)->0).0;
    assert(header == "bytes="@ + spec);
    let k = i - 6;
    assert(header[i] == spec[k]);
    text::lemma_place_is_first(spec, '-');
    let p = text::place_of(spec, '-');
    let (start, end) = text::cut_text(spec, '-')->0;
    if k < p {
        assert(start[k] == spec[k]);
        assert(text::all_digits(start));
    } else if k > p {
        assert(end[k - p - 1] == spec[k]);
        assert(text::all_digits(end));
    }
}

/// The headers of a ranged answer.
pub open spec fn range_headers(start: u64, len: nat, partial: bool) -> Seq<HeaderText> {
    let always = seq![("Accept-Ranges"@, "bytes"@), ("Cache-Control"@, "no-store"@)];
    let last = if len > 0 {
        start + len - 1
    } else {
        start as int
    };
    if partial {
        always.push(
            (
                "Content-Range"@,
                "bytes "@ + text::decimal_text(start as nat) + "-"@ + text::decimal_text(
                    last as nat,
                ) + "/*"@,
            ),
        )
    } else {
        always
    }
}

/// The answer to a ranged request, from what the upstream sent. `Content-Range` is built from the
/// request and the body's length, never copied from upstream. A shared cache keyed only on the
/// URL must not serve this slice for another range.
pub fn range_reply(start: u64, ctype: &'static str, body: Vec<u8>, partial: bool) -> (r: Reply)
    requires
        partial ==> start + body@.len() <= u64::MAX + 1,
    ensures
        r.says(
            if partial {
                "206 Partial Content"@
            } else {
                "200 OK"@
            },
            ctype@,
            body@,
            range_headers(start, body@.len(), partial),
        ),
{
    let mut headers: Vec<(&'static str, String)> = Vec::new();
    headers.push(("Accept-Ranges", "bytes".to_owned()));
    headers.push(("Cache-Control", "no-store".to_owned()));
    assert(header_texts(headers@) =~= seq![
        ("Accept-Ranges"@, "bytes"@),
        ("Cache-Control"@, "no-store"@),
    ]);
    if partial {
        let end: u64 = if body.len() > 0 {
            start + (body.len() as u64 - 1)
        } else {
            start
        };
        let mut value = "bytes ".to_owned();
        let a = text::decimal(start);
        let b = text::decimal(end);
        value.append(a.as_str());
        value.append("-");
        value.append(b.as_str());
        value.append("/*");
        headers.push(("Content-Range", value));
    }
    assert(header_texts(headers@) =~= range_headers(start, body@.len(), partial));
    Reply {
        status: if partial {
            "206 Partial Content"
        } else {
            "200 OK"
        },
        ctype,
        body,
        headers,
    }
}

// ---------------------------------------------------------------------------------------------
// Content tags.

/// `std::hash::BuildHasher::hash_one` with the standard library's default hasher, over the length
/// and the bytes. Nothing is promised of the number: it may differ between releases and machines.
#[verifier::external_body]
fn body_hash(body: &[u8]) -> (h: u64) {
    std::hash::BuildHasherDefault::<std::collections::hash_map::DefaultHasher>::default().hash_one(
        (body.len(), body),
    )
}

/// A content hash as it stands in an `ETag`: sixteen hexadecimal digits in quotes.
pub open spec fn etag_form(h: u64) -> Seq<char> {
    seq!['"'] + text::hex_text(h as nat, 16) + seq!['"']
}

/// A content hash as it stands in an `ETag`.
pub fn etag_text(h: u64) -> (r: String)
    ensures
        r@ == etag_form(h),
{
    let digits = text::hex(h, 16);
    let mut s = String::new();
    s.push('"');
    s.append(digits.as_str());
    s.push('"');
    assert(s@ =~= etag_form(h));
    s
}

/// A cheap content hash. Not a checksum anyone trusts: an `ETag` only has to change when the bytes
/// change, and this is compared against a value we ourselves issued.
pub fn etag_of(body: &[u8]) -> (r: String)
    ensures
        exists|h: u64| r@ == etag_form(h),
{
    let h = body_hash(body);
    etag_text(h)
}

/// Whether a list of tags, between commas, names `etag`.
pub open spec fn lists_tag(list: Seq<char>, etag: Seq<char>) -> bool {
    exists|i: int|
        0 <= i < text::parts_text(list, ',').len() && text::trim_text(
            #[trigger] text::parts_text(list, ',')[i],
        ) == etag
}

fn lists(list: &str, etag: &str) -> (r: bool)
    ensures
        r == lists_tag(list@, etag@),
{
    let parts = text::parts(list, ',');
    let ghost all = text::texts(parts@);
    let mut i: usize = 0;
    while i < parts.len()
        invariant
            i <= parts.len(),
            all == text::texts(parts@),
            all == text::parts_text(list@, ','),
            forall|j: int| 0 <= j < i ==> text::trim_text(#[trigger] all[j]) != etag@,
        decreases parts.len() - i,
    {
        assert(all[i as int] == parts@[i as int]@);
        let t = text::trim(parts[i].as_str());
        if text::same(t.as_str(), etag) {
            return true;
        }
        i = i + 1;
    }
    false
}

/// The headers of a proxied answer.
pub open spec fn proxy_headers(etag: Seq<char>, ttl: u64) -> Seq<HeaderText> {
    seq![("Cache-Control"@, max_age_text(ttl)), ("ETag"@, etag)]
}

/// Whether the client already holds the bytes tagged `etag`.
pub open spec fn already_held(if_none_match: Option<Seq<char>>, etag: Seq<char>) -> bool {
    match if_none_match {
        Some(list) => lists_tag(list, etag),
        None => false,
    }
}

/// The response for a proxied body: 304 and no body if the client already holds it.
///
/// The client's `If-None-Match` is compared here and never forwarded.
pub fn proxy_reply(
    ctype: &'static str,
    body: &Vec<u8>,
    etag: &String,
    ttl: u64,
    if_none_match: &Option<String>,
) -> (r: Reply)
    ensures
        if already_held(opt_text(*if_none_match), etag@) {
            r.says(
                "304 Not Modified"@,
                ctype@,
                Seq::<u8>::empty(),
                proxy_headers(etag@, ttl),
            )
        } else {
            r.says("200 OK"@, ctype@, body@, proxy_headers(etag@, ttl))
        },
{
    let mut headers: Vec<(&'static str, String)> = Vec::new();
    headers.push(("Cache-Control", max_age(ttl)));
    headers.push(("ETag", etag.clone()));
    assert(header_texts(headers@) =~= proxy_headers(etag@, ttl));
    let held = match if_none_match {
        Some(list) => lists(list.as_str(), etag.as_str()),
        None => false,
    };
    if held {
        Reply { status: "304 Not Modified", ctype, body: Vec::new(), headers }
    } else {
        let copy = body.clone();
        assert(copy@ =~= body@);
        Reply { status: "200 OK", ctype, body: copy, headers }
    }
}

// ---------------------------------------------------------------------------------------------
// The cache of proxied responses.

/// What the proxy has served so far.
#[derive(Debug)]
pub struct ProxyCounts {
    pub hits: u64,
    pub misses: u64,
}

impl ProxyCounts {
    /// One more response served without an upstream fetch.
    pub open spec fn hit(self) -> ProxyCounts {
        ProxyCounts { hits: one_more(self.hits), misses: self.misses }
    }

    /// One more response that needs an upstream fetch.
    pub open spec fn missed(self) -> ProxyCounts {
        ProxyCounts { hits: self.hits, misses: one_more(self.misses) }
    }

    pub fn new() -> (r: ProxyCounts)
        ensures
            r.hits == 0,
            r.misses == 0,
    {
        ProxyCounts { hits: 0, misses: 0 }
    }
}

/// One more, starting over past the largest number.
pub open spec fn one_more(n: u64) -> u64 {
    if n == u64::MAX {
        0
    } else {
        (n + 1) as u64
    }
}

/// Answer from the cache, if it holds a response for `url` that is young enough: the body never
/// leaves the cache without its tag and its time to live. Asking counts as use, fresh or not.
pub fn proxy_cached(
    cache: &mut LruCache<String, ProxyHit>,
    counts: &mut ProxyCounts,
    url: &str,
    ttl: u64,
    now: u64,
    if_none_match: &Option<String>,
) -> (r: Option<Reply>)
    requires
        ttl <= 3600,
    ensures
        held(*final(cache)) == get_entries(held(*old(cache)), url@),
        capacity(*final(cache)) == capacity(*old(cache)),
        r is None ==> *final(counts) == old(counts).missed(),
        r is Some ==> *final(counts) == old(counts).hit(),
        answered_from(held(*old(cache)), url@, ttl, now, opt_text(*if_none_match), r),
{
    let ghost es = held(*cache);
    match lru_get(cache, url) {
        Some(hit) => {
            if fresh(hit.at, now, ttl * 1000) {
                counts.hits = counts.hits.wrapping_add(1);
                let reply = proxy_reply(
                    hit.ctype,
                    &hit.body,
                    &hit.etag,
                    ttl,
                    if_none_match,
                );
                assert(es.contains((url@, *hit)));
                return Some(reply);
            }
            assert(es.contains((url@, *hit)));
        },
        None => {},
    }
    counts.misses = counts.misses.wrapping_add(1);
    None
}

/// `r` is the reply for a response kept under `url` that is fresh; `None` is given only where no
/// response is kept, or one that is not fresh.
pub open spec fn answered_from(
    es: Seq<(Seq<char>, ProxyHit)>,
    url: Seq<char>,
    ttl: u64,
    now: u64,
    if_none_match: Option<Seq<char>>,
    r: Option<Reply>,
) -> bool {
    if has(es, url) {
        exists|hit: ProxyHit|
            {
                &&& #[trigger] es.contains((url, hit))
                &&& if is_fresh(hit.at, now, ttl * 1000) {
                    r is Some && if already_held(if_none_match, hit.etag@) {
                        (r->0).says(
                            "304 Not Modified"@,
                            hit.ctype@,
                            Seq::<u8>::empty(),
                            proxy_headers(hit.etag@, ttl),
                        )
                    } else {
                        (r->0).says(
                            "200 OK"@,
                            hit.ctype@,
                            hit.body@,
                            proxy_headers(hit.etag@, ttl),
                        )
                    }
                } else {
                    r is None
                }
            }
    } else {
        r is None
    }
}

/// What has to be done for a proxy request.
#[derive(Debug)]
pub enum ProxyStep {
    /// It is answered already: refused, or from the cache.
    Answer(Reply),
    /// Fetch `url` with the `Range` header, for bytes from `start` on. A range is a one-off: it
    /// goes past the cache.
    FetchRange { url: String, header: String, start: u64 },
    /// Fetch `url`; what comes back is good for `ttl` seconds.
    Fetch { url: String, ttl: u64 },
}

/// The host of a proxy path that may be fetched from.
pub open spec fn allowed_parts(path: Seq<char>) -> Option<(Seq<char>, Seq<char>)> {
    match proxy_parts(path) {
        Some((host, rest)) => if is_allowed_host(host) {
            Some((host, rest))
        } else {
            None
        },
        None => None,
    }
}

/// The range that a request asks for, if it is one that is forwarded.
pub open spec fn asked_range(range: Option<Seq<char>>) -> Option<(Seq<char>, nat)> {
    match range {
        Some(raw) => byte_range(raw),
        None => None,
    }
}

/// `GET /proxy/{host}/{rest}` for the browser build: what to fetch, or the answer at once.
///
/// The host must be on the list exactly, no client header but a validated range reaches the
/// upstream, and what the cache still holds is not fetched again.
pub fn proxy(
    cache: &mut LruCache<String, ProxyHit>,
    counts: &mut ProxyCounts,
    path: &str,
    query: &str,
    if_none_match: &Option<String>,
    range: &Option<String>,
    now: u64,
) -> (step: ProxyStep)
    ensures
        capacity(*final(cache)) == capacity(*old(cache)),
        match allowed_parts(path@) {
            None => {
                &&& step is Answer
                &&& step->Answer_0.is_error(
                    "403 Forbidden"@,
                    "{\"error\":\"host not proxyable\"}"@,
                )
                &&& held(*final(cache)) == held(*old(cache))
                &&& *final(counts) == *old(counts)
            },
            Some((host, rest)) => {
                let url = upstream_url(host, rest, query@);
                match asked_range(opt_text(*range)) {
                    Some((header, start)) => {
                        &&& step is FetchRange
                        &&& step->FetchRange_url@ == url
                        &&& step->header@ == header
                        &&& step->start == start
                        &&& held(*final(cache)) == held(*old(cache))
                        &&& *final(counts) == old(counts).missed()
                    },
                    None => {
                        let ttl = reuse_seconds(host, query@);
                        &&& held(*final(cache)) == get_entries(held(*old(cache)), url)
                        &&& match step {
                            ProxyStep::Answer(reply) => {
                                &&& answered_from(
                                    held(*old(cache)),
                                    url,
                                    ttl,
                                    now,
                                    opt_text(*if_none_match),
                                    Some(reply),
                                )
                                &&& *final(counts) == old(counts).hit()
                            },
                            ProxyStep::Fetch { url: u, ttl: t } => {
                                &&& answered_from(
                                    held(*old(cache)),
                                    url,
                                    ttl,
                                    now,
                                    opt_text(*if_none_match),
                                    None,
                                )
                                &&& *final(counts) == old(counts).missed()
                                &&& u@ == url
                                &&& t == ttl
                            },
                            ProxyStep::FetchRange { .. } => false,
                        }
                    },
                }
            },
        },
{
    let target = match proxy_target(path, query) {
        Some(t) => t,
        None => {
            return ProxyStep::Answer(proxy_forbidden());
        },
    };
    if let Some(raw) = range {
        if let Some((header, start)) = valid_byte_range(raw.as_str()) {
            counts.misses = counts.misses.wrapping_add(1);
            return ProxyStep::FetchRange { url: target.url, header, start };
        }
    }
    let ttl = cache_seconds(target.host.as_str(), query);
    match proxy_cached(cache, counts, target.url.as_str(), ttl, now, if_none_match) {
        Some(reply) => ProxyStep::Answer(reply),
        None => ProxyStep::Fetch { url: target.url, ttl },
    }
}

/// The response that is kept for a fetched body: tagged with a hash of it.
pub open spec fn is_hit(hit: ProxyHit, now: u64, ctype: Seq<char>, body: Seq<u8>) -> bool {
    &&& hit.at == now
    &&& hit.ctype@ == ctype
    &&& hit.body@ == body
    &&& exists|h: u64| hit.etag@ == etag_form(h)
}

/// Keep what the upstream sent and answer with it.
pub fn proxy_fetched(
    cache: &mut LruCache<String, ProxyHit>,
    url: String,
    ctype: &'static str,
    body: Vec<u8>,
    ttl: u64,
    now: u64,
    if_none_match: &Option<String>,
) -> (r: Reply)
    ensures
        capacity(*final(cache)) == capacity(*old(cache)),
        exists|hit: ProxyHit|
            {
                &&& is_hit(hit, now, ctype@, body@)
                &&& held(*final(cache)) == within_bytes(
                    #[trigger] put_entries(held(*old(cache)), capacity(*old(cache)), url@, hit),
                    PROXY_CACHE_BYTES as nat,
                )
                &&& if already_held(opt_text(*if_none_match), hit.etag@) {
                    r.says(
                        "304 Not Modified"@,
                        ctype@,
                        Seq::<u8>::empty(),
                        proxy_headers(hit.etag@, ttl),
                    )
                } else {
                    r.says("200 OK"@, ctype@, body@, proxy_headers(hit.etag@, ttl))
                }
            },
{
    let etag = etag_of(body.as_slice());
    let reply = proxy_reply(ctype, &body, &etag, ttl, if_none_match);
    let hit = ProxyHit { at: now, ctype, body, etag };
    let ghost kept = hit;
    keep_proxied(cache, url, hit);
    assert(is_hit(kept, now, ctype@, kept.body@));
    reply
}

// ---------------------------------------------------------------------------------------------
// What the proxy is for.

/// The address is on the host.
pub open spec fn is_on(url: Seq<char>, host: Seq<char>) -> bool {
    text::starts(url, "https://"@ + host + "/"@)
}

proof fn lemma_servers_are_hosts()
    ensures
        is_on("https://api.mapbox.com/styles/v1/mapbox/"@, "api.mapbox.com"@),
        is_on("https://api.maptiler.com/maps/"@, "api.maptiler.com"@),
        is_on("https://gibs.earthdata.nasa.gov/wmts/epsg3857/best/"@, "gibs.earthdata.nasa.gov"@),
        is_on("https://maps.dwd.de/geoserver/dwd/wms"@, "maps.dwd.de"@),
        is_on("https://geo.weather.gc.ca/geomet"@, "geo.weather.gc.ca"@),
{
    reveal_strlit("https://");
    reveal_strlit("/");
    reveal_strlit("https://api.mapbox.com/styles/v1/mapbox/");
    reveal_strlit("api.mapbox.com");
    assert("https://api.mapbox.com/styles/v1/mapbox/"@.subrange(0, 23) =~= "https://"@ + "api.mapbox.com"@ + "/"@);
    reveal_strlit("https://api.maptiler.com/maps/");
    reveal_strlit("api.maptiler.com");
    assert("https://api.maptiler.com/maps/"@.subrange(0, 25) =~= "https://"@ + "api.maptiler.com"@ + "/"@);
    reveal_strlit("https://gibs.earthdata.nasa.gov/wmts/epsg3857/best/");
    reveal_strlit("gibs.earthdata.nasa.gov");
    assert("https://gibs.earthdata.nasa.gov/wmts/epsg3857/best/"@.subrange(0, 32) =~= "https://"@ + "gibs.earthdata.nasa.gov"@ + "/"@);
    reveal_strlit("https://maps.dwd.de/geoserver/dwd/wms");
    reveal_strlit("maps.dwd.de");
    assert("https://maps.dwd.de/geoserver/dwd/wms"@.subrange(0, 20) =~= "https://"@ + "maps.dwd.de"@ + "/"@);
    reveal_strlit("https://geo.weather.gc.ca/geomet");
    reveal_strlit("geo.weather.gc.ca");
    assert("https://geo.weather.gc.ca/geomet"@.subrange(0, 26) =~= "https://"@ + "geo.weather.gc.ca"@ + "/"@);
}

proof fn lemma_pyramids_are_hosts(s: BasemapStyle) -> (host: Seq<char>)
    requires
        s.pyramid_text() is Some,
    ensures
        is_allowed_host(host),
        is_on((s.pyramid_text()->0).0, host),
{
    reveal_strlit("https://");
    reveal_strlit("/");
    let start = (s.pyramid_text()->0).0;
    match s {
        BasemapStyle::Satellite => {
            reveal_strlit("https://basemap.nationalmap.gov/arcgis/rest/services/USGSImageryOnly/MapServer/tile/");
            reveal_strlit("basemap.nationalmap.gov");
            assert("https://basemap.nationalmap.gov/arcgis/rest/services/USGSImageryOnly/MapServer/tile/"@.subrange(0, 32) =~= "https://"@ + "basemap.nationalmap.gov"@ + "/"@);
            assert(is_on(start, "basemap.nationalmap.gov"@));
            "basemap.nationalmap.gov"@
        },
        BasemapStyle::UsgsTopo => {
            reveal_strlit("https://basemap.nationalmap.gov/arcgis/rest/services/USGSTopo/MapServer/tile/");
            reveal_strlit("basemap.nationalmap.gov");
            assert("https://basemap.nationalmap.gov/arcgis/rest/services/USGSTopo/MapServer/tile/"@.subrange(0, 32) =~= "https://"@ + "basemap.nationalmap.gov"@ + "/"@);
            assert(is_on(start, "basemap.nationalmap.gov"@));
            "basemap.nationalmap.gov"@
        },
        BasemapStyle::UsgsImageryTopo => {
            reveal_strlit("https://basemap.nationalmap.gov/arcgis/rest/services/USGSImageryTopo/MapServer/tile/");
            reveal_strlit("basemap.nationalmap.gov");
            assert("https://basemap.nationalmap.gov/arcgis/rest/services/USGSImageryTopo/MapServer/tile/"@.subrange(0, 32) =~= "https://"@ + "basemap.nationalmap.gov"@ + "/"@);
            assert(is_on(start, "basemap.nationalmap.gov"@));
            "basemap.nationalmap.gov"@
        },
        BasemapStyle::EsriImagery => {
            reveal_strlit("https://server.arcgisonline.com/ArcGIS/rest/services/World_Imagery/MapServer/tile/");
            reveal_strlit("server.arcgisonline.com");
            assert("https://server.arcgisonline.com/ArcGIS/rest/services/World_Imagery/MapServer/tile/"@.subrange(0, 32) =~= "https://"@ + "server.arcgisonline.com"@ + "/"@);
            assert(is_on(start, "server.arcgisonline.com"@));
            "server.arcgisonline.com"@
        },
        BasemapStyle::EsriStreets => {
            reveal_strlit("https://server.arcgisonline.com/ArcGIS/rest/services/World_Street_Map/MapServer/tile/");
            reveal_strlit("server.arcgisonline.com");
            assert("https://server.arcgisonline.com/ArcGIS/rest/services/World_Street_Map/MapServer/tile/"@.subrange(0, 32) =~= "https://"@ + "server.arcgisonline.com"@ + "/"@);
            assert(is_on(start, "server.arcgisonline.com"@));
            "server.arcgisonline.com"@
        },
        BasemapStyle::EsriTopo => {
            reveal_strlit("https://server.arcgisonline.com/ArcGIS/rest/services/World_Topo_Map/MapServer/tile/");
            reveal_strlit("server.arcgisonline.com");
            assert("https://server.arcgisonline.com/ArcGIS/rest/services/World_Topo_Map/MapServer/tile/"@.subrange(0, 32) =~= "https://"@ + "server.arcgisonline.com"@ + "/"@);
            assert(is_on(start, "server.arcgisonline.com"@));
            "server.arcgisonline.com"@
        },
        BasemapStyle::HybridSatellite => {
            reveal_strlit("https://server.arcgisonline.com/ArcGIS/rest/services/World_Imagery/MapServer/tile/");
            reveal_strlit("server.arcgisonline.com");
            assert("https://server.arcgisonline.com/ArcGIS/rest/services/World_Imagery/MapServer/tile/"@.subrange(0, 32) =~= "https://"@ + "server.arcgisonline.com"@ + "/"@);
            assert(is_on(start, "server.arcgisonline.com"@));
            "server.arcgisonline.com"@
        },
        BasemapStyle::EsriDarkGray => {
            reveal_strlit("https://server.arcgisonline.com/ArcGIS/rest/services/Canvas/World_Dark_Gray_Base/MapServer/tile/");
            reveal_strlit("server.arcgisonline.com");
            assert("https://server.arcgisonline.com/ArcGIS/rest/services/Canvas/World_Dark_Gray_Base/MapServer/tile/"@.subrange(0, 32) =~= "https://"@ + "server.arcgisonline.com"@ + "/"@);
            assert(is_on(start, "server.arcgisonline.com"@));
            "server.arcgisonline.com"@
        },
        BasemapStyle::EsriLightGray => {
            reveal_strlit("https://server.arcgisonline.com/ArcGIS/rest/services/Canvas/World_Light_Gray_Base/MapServer/tile/");
            reveal_strlit("server.arcgisonline.com");
            assert("https://server.arcgisonline.com/ArcGIS/rest/services/Canvas/World_Light_Gray_Base/MapServer/tile/"@.subrange(0, 32) =~= "https://"@ + "server.arcgisonline.com"@ + "/"@);
            assert(is_on(start, "server.arcgisonline.com"@));
            "server.arcgisonline.com"@
        },
        BasemapStyle::EsriNatGeo => {
            reveal_strlit("https://server.arcgisonline.com/ArcGIS/rest/services/NatGeo_World_Map/MapServer/tile/");
            reveal_strlit("server.arcgisonline.com");
            assert("https://server.arcgisonline.com/ArcGIS/rest/services/NatGeo_World_Map/MapServer/tile/"@.subrange(0, 32) =~= "https://"@ + "server.arcgisonline.com"@ + "/"@);
            assert(is_on(start, "server.arcgisonline.com"@));
            "server.arcgisonline.com"@
        },
        BasemapStyle::EsriOcean => {
            reveal_strlit("https://server.arcgisonline.com/ArcGIS/rest/services/Ocean/World_Ocean_Base/MapServer/tile/");
            reveal_strlit("server.arcgisonline.com");
            assert("https://server.arcgisonline.com/ArcGIS/rest/services/Ocean/World_Ocean_Base/MapServer/tile/"@.subrange(0, 32) =~= "https://"@ + "server.arcgisonline.com"@ + "/"@);
            assert(is_on(start, "server.arcgisonline.com"@));
            "server.arcgisonline.com"@
        },
        BasemapStyle::OsmStandard => {
            reveal_strlit("https://tile.openstreetmap.org/");
            reveal_strlit("tile.openstreetmap.org");
            assert("https://tile.openstreetmap.org/"@.subrange(0, 31) =~= "https://"@ + "tile.openstreetmap.org"@ + "/"@);
            assert(is_on(start, "tile.openstreetmap.org"@));
            "tile.openstreetmap.org"@
        },
        BasemapStyle::OpenTopoMap => {
            reveal_strlit("https://a.tile.opentopomap.org/");
            reveal_strlit("a.tile.opentopomap.org");
            assert("https://a.tile.opentopomap.org/"@.subrange(0, 31) =~= "https://"@ + "a.tile.opentopomap.org"@ + "/"@);
            assert(is_on(start, "a.tile.opentopomap.org"@));
            "a.tile.opentopomap.org"@
        },
        BasemapStyle::CartoPositron => {
            reveal_strlit("https://basemaps.cartocdn.com/light_all/");
            reveal_strlit("basemaps.cartocdn.com");
            assert("https://basemaps.cartocdn.com/light_all/"@.subrange(0, 30) =~= "https://"@ + "basemaps.cartocdn.com"@ + "/"@);
            assert(is_on(start, "basemaps.cartocdn.com"@));
            "basemaps.cartocdn.com"@
        },
        BasemapStyle::CartoDarkMatter => {
            reveal_strlit("https://basemaps.cartocdn.com/dark_all/");
            reveal_strlit("basemaps.cartocdn.com");
            assert("https://basemaps.cartocdn.com/dark_all/"@.subrange(0, 30) =~= "https://"@ + "basemaps.cartocdn.com"@ + "/"@);
            assert(is_on(start, "basemaps.cartocdn.com"@));
            "basemaps.cartocdn.com"@
        },
        BasemapStyle::CartoVoyager => {
            reveal_strlit("https://basemaps.cartocdn.com/rastertiles/voyager/");
            reveal_strlit("basemaps.cartocdn.com");
            assert("https://basemaps.cartocdn.com/rastertiles/voyager/"@.subrange(0, 30) =~= "https://"@ + "basemaps.cartocdn.com"@ + "/"@);
            assert(is_on(start, "basemaps.cartocdn.com"@));
            "basemaps.cartocdn.com"@
        },
        BasemapStyle::OsmHot => {
            reveal_strlit("https://a.tile.openstreetmap.fr/hot/");
            reveal_strlit("a.tile.openstreetmap.fr");
            assert("https://a.tile.openstreetmap.fr/hot/"@.subrange(0, 32) =~= "https://"@ + "a.tile.openstreetmap.fr"@ + "/"@);
            assert(is_on(start, "a.tile.openstreetmap.fr"@));
            "a.tile.openstreetmap.fr"@
        },
        BasemapStyle::CyclOsm => {
            reveal_strlit("https://a.tile-cyclosm.openstreetmap.fr/cyclosm/");
            reveal_strlit("a.tile-cyclosm.openstreetmap.fr");
            assert("https://a.tile-cyclosm.openstreetmap.fr/cyclosm/"@.subrange(0, 40) =~= "https://"@ + "a.tile-cyclosm.openstreetmap.fr"@ + "/"@);
            assert(is_on(start, "a.tile-cyclosm.openstreetmap.fr"@));
            "a.tile-cyclosm.openstreetmap.fr"@
        },
        _ => start,
    }
}

proof fn lemma_on_host(start: Seq<char>, rest: Seq<char>, host: Seq<char>)
    requires
        is_on(start, host),
    ensures
        is_on(start + rest, host),
{
    let p = "https://"@ + host + "/"@;
    assert((start + rest).subrange(0, p.len() as int) =~= start.subrange(0, p.len() as int));
}

/// The browser build has a map: every basemap but the user's own comes from a host that the proxy
/// fetches from.
pub proof fn basemaps_can_be_proxied(
    s: BasemapStyle,
    z: u8,
    x: u32,
    y: u32,
    retina: bool,
    mapbox_key: Seq<char>,
    maptiler_key: Seq<char>,
    custom: Seq<char>,
    time: Seq<char>,
) -> (host: Seq<char>)
    requires
        s != BasemapStyle::CustomXyz,
        s.url_at(z, x, y, retina, mapbox_key, maptiler_key, custom, time) is Some,
    ensures
        is_allowed_host(host),
        is_on(s.url_at(z, x, y, retina, mapbox_key, maptiler_key, custom, time)->0, host),
{
    let url = s.url_at(z, x, y, retina, mapbox_key, maptiler_key, custom, time)->0;
    lemma_servers_are_hosts();
    let (start, host) = if s.needs() == Provider::Mapbox {
        ("https://api.mapbox.com/styles/v1/mapbox/"@, "api.mapbox.com"@)
    } else if s.needs() == Provider::MapTiler {
        ("https://api.maptiler.com/maps/"@, "api.maptiler.com"@)
    } else if s.pyramid_text() is Some {
        ((s.pyramid_text()->0).0, lemma_pyramids_are_hosts(s))
    } else if s == BasemapStyle::DwdRadarRV || s == BasemapStyle::DwdRadarWN {
        ("https://maps.dwd.de/geoserver/dwd/wms"@, "maps.dwd.de"@)
    } else if s.wms() is Some {
        ("https://geo.weather.gc.ca/geomet"@, "geo.weather.gc.ca"@)
    } else {
        ("https://gibs.earthdata.nasa.gov/wmts/epsg3857/best/"@, "gibs.earthdata.nasa.gov"@)
    };
    let rest = url.skip(start.len() as int);
    assert(url =~= start + rest);
    lemma_on_host(start, rest, host);
    host
}

/// A proxy path names a host and what is asked of it: that, with the query, is what is fetched, and
/// nothing else. A path that names no host fetches nothing.
pub proof fn proxy_paths_name_their_upstream(
    host: Seq<char>,
    rest: Seq<char>,
    query: Seq<char>,
)
    requires
        !host.contains('/'),
    ensures
        proxy_parts("/proxy/"@ + host + seq!['/'] + rest) == Some((host, rest)),
        proxy_parts("/proxy/"@ + host) is None,
        upstream_url(host, rest, Seq::empty()) == "https://"@ + host + "/"@ + rest,
        query.len() > 0 ==> upstream_url(host, rest, query) == "https://"@ + host + "/"@ + rest
            + "?"@ + query,
        is_allowed_host(host) <==> allowed_parts("/proxy/"@ + host + seq!['/'] + rest) is Some,
{
    let tail = host + seq!['/'] + rest;
    let path = "/proxy/"@ + host + seq!['/'] + rest;
    assert(path =~= "/proxy/"@ + tail);
    text::joined_texts_are_found(Seq::empty(), "/proxy/"@, tail);
    text::joined_texts_are_found(Seq::empty(), "/proxy/"@, host);
    text::cutting_undoes_joining(host, rest, '/');
}

/// How long a response is reused goes by how fast its feed moves: listings and live feeds for a
/// quarter of a minute, objects of the archive for an hour, a map image for five minutes if it names
/// its frame and as a live feed if it does not, and everything else for five minutes.
pub proof fn reuse_goes_by_the_feed(host: Seq<char>, query: Seq<char>)
    ensures
        reuse_seconds(host, query) == 15 || reuse_seconds(host, query) == 300 || reuse_seconds(
            host,
            query,
        ) == 3600,
        text::holds_text(query, "list-type="@) ==> reuse_seconds(host, query) == 15,
        reuse_seconds(host, query) == 3600 <==> host == "unidata-nexrad-level2.s3.amazonaws.com"@
            && !text::holds_text(query, "list-type="@),
        host == "api.weather.gov"@ || host == "unidata-nexrad-level2-chunks.s3.amazonaws.com"@
            || host == "opendata.dwd.de"@ ==> reuse_seconds(host, query) == 15,
        host == "maps.dwd.de"@ || host == "geo.weather.gc.ca"@ ==> (reuse_seconds(host, query) == 15
            <==> text::holds_text(query, "list-type="@) || !text::holds_text(query, "TIME="@)),
        host == "tile.openstreetmap.org"@ && !text::holds_text(query, "list-type="@)
            ==> reuse_seconds(host, query) == 300,
{
    reveal_strlit("unidata-nexrad-level2.s3.amazonaws.com");
    reveal_strlit("unidata-nexrad-level2-chunks.s3.amazonaws.com");
    reveal_strlit("api.weather.gov");
    reveal_strlit("opendata.dwd.de");
    reveal_strlit("maps.dwd.de");
    reveal_strlit("geo.weather.gc.ca");
    reveal_strlit("tile.openstreetmap.org");
    assert("unidata-nexrad-level2.s3.amazonaws.com"@.len() == 38);
    assert("unidata-nexrad-level2-chunks.s3.amazonaws.com"@.len() == 45);
    assert("api.weather.gov"@.len() == 15 && "opendata.dwd.de"@.len() == 15);
    assert("maps.dwd.de"@.len() == 11 && "geo.weather.gc.ca"@.len() == 17);
    assert("tile.openstreetmap.org"@.len() == 22);
}

/// The feeds with a pace of their own are ones that the proxy fetches from.
pub proof fn paced_feeds_can_be_proxied(host: Seq<char>)
    ensures
        is_live_host(host) ==> is_allowed_host(host),
        is_allowed_host("unidata-nexrad-level2.s3.amazonaws.com"@),
        is_allowed_host("maps.dwd.de"@),
        is_allowed_host("geo.weather.gc.ca"@),
        is_allowed_host("tgftp.nws.noaa.gov"@),
        is_allowed_host("api.weather.gov"@),
        is_allowed_host("noaa-mrms-pds.s3.amazonaws.com"@),
        is_allowed_host("noaa-hrrr-bdp-pds.s3.amazonaws.com"@),
{
}

/// What an upstream says its bytes are is read up to the first semicolon, and never makes a browser
/// run them: a page comes through as plain text, pictures and JSON as what they are.
pub proof fn proxied_types_are_safe(t: Seq<char>, params: Seq<char>, upstream: Seq<char>)
    requires
        !t.contains(';'),
    ensures
        our_type(t + seq![';'] + params) == our_type(t),
        our_type(upstream) != "text/html"@ && our_type(upstream) != "text/html; charset=utf-8"@,
        our_type("text/html"@) == "text/plain; charset=utf-8"@,
        our_type("image/png"@) == "image/png"@,
        our_type("image/jpeg"@) == "image/jpeg"@,
        our_type("image/webp"@) == "image/webp"@,
        our_type("application/json"@) == "application/json"@,
        our_type("application/geo+json"@) == "application/json"@,
        our_type("text/xml"@) == "application/xml"@,
        our_type("application/x-protobuf"@) == "application/x-protobuf"@,
        our_type("text/javascript"@) == "application/octet-stream"@,
{
    text::parts_undo_joining(t, params, ';');
    lemma_type_words();
    lemma_bare_type("text/html"@);
    lemma_bare_type("image/png"@);
    lemma_bare_type("image/jpeg"@);
    lemma_bare_type("image/webp"@);
    lemma_bare_type("application/json"@);
    lemma_bare_type("application/geo+json"@);
    lemma_bare_type("text/xml"@);
    lemma_bare_type("application/x-protobuf"@);
    lemma_bare_type("text/javascript"@);
}

/// A type of visible characters without a semicolon is read as it stands.
proof fn lemma_bare_type(t: Seq<char>)
    requires
        t.len() > 0,
        forall|i: int| 0 <= i < t.len() ==> '!' <= #[trigger] t[i] <= '~' && t[i] != ';',
    ensures
        text::trim_text(text::parts_text(t, ';')[0]) == t,
{
    if t.contains(';') {
        assert(t[t.index_of(';')] != ';');
    }
    text::parts_undo_joining(t, t, ';');
    let (a, b) = text::trimming_takes_only_space(t);
    if a > 0 {
        assert('!' <= t[0] <= '~');
        text::letters_are_no_space(t[0]);
    }
    if b < t.len() {
        assert('!' <= t[t.len() - 1] <= '~');
        text::letters_are_no_space(t[t.len() - 1]);
    }
    assert(t.subrange(0, t.len() as int) =~= t);
}

proof fn lemma_type_words()
    ensures
        forall|i: int| 0 <= i < 9 ==> '!' <= #[trigger] "text/html"@[i] <= '~' && "text/html"@[i] != ';',
        forall|i: int| 0 <= i < 9 ==> '!' <= #[trigger] "image/png"@[i] <= '~' && "image/png"@[i] != ';',
        forall|i: int| 0 <= i < 10 ==> '!' <= #[trigger] "image/jpeg"@[i] <= '~' && "image/jpeg"@[i] != ';',
        forall|i: int| 0 <= i < 10 ==> '!' <= #[trigger] "image/webp"@[i] <= '~' && "image/webp"@[i] != ';',
        forall|i: int|
            0 <= i < 16 ==> '!' <= #[trigger] "application/json"@[i] <= '~'
                && "application/json"@[i] != ';',
        forall|i: int|
            0 <= i < 20 ==> '!' <= #[trigger] "application/geo+json"@[i] <= '~'
                && "application/geo+json"@[i] != ';',
        forall|i: int| 0 <= i < 8 ==> '!' <= #[trigger] "text/xml"@[i] <= '~' && "text/xml"@[i] != ';',
        forall|i: int|
            0 <= i < 22 ==> '!' <= #[trigger] "application/x-protobuf"@[i] <= '~'
                && "application/x-protobuf"@[i] != ';',
        forall|i: int|
            0 <= i < 15 ==> '!' <= #[trigger] "text/javascript"@[i] <= '~' && "text/javascript"@[i]
                != ';',
        "text/html"@.len() == 9,
        "image/png"@.len() == 9,
        "image/jpeg"@.len() == 10,
        "image/webp"@.len() == 10,
        "application/json"@.len() == 16,
        "application/geo+json"@.len() == 20,
        "text/xml"@.len() == 8,
        "application/x-protobuf"@.len() == 22,
        "text/javascript"@.len() == 15,
        "text/plain; charset=utf-8"@.len() == 25,
        "text/html; charset=utf-8"@.len() == 24,
        "application/xml"@.len() == 15,
        "application/octet-stream"@.len() == 24,
        "text/plain"@.len() == 10,
        "application/vnd.mapbox-vector-tile"@.len() == 34,
        "text/html"@[0] == 't',
        "image/png"@[0] == 'i',
        "image/jpeg"@[6] == 'j',
        "image/webp"@[6] == 'w',
        "text/plain"@[0] == 't',
        "image/jpeg"@[0] == 'i',
        "image/webp"@[0] == 'i',
        "text/javascript"@[0] == 't',
        "application/xml"@[0] == 'a',
        "application/octet-stream"@[0] == 'a',
        "text/html; charset=utf-8"@[0] == 't',
{
    reveal_strlit("text/html");
    reveal_strlit("image/png");
    reveal_strlit("image/jpeg");
    reveal_strlit("image/webp");
    reveal_strlit("application/json");
    reveal_strlit("application/geo+json");
    reveal_strlit("text/xml");
    reveal_strlit("application/x-protobuf");
    reveal_strlit("text/javascript");
    reveal_strlit("text/plain; charset=utf-8");
    reveal_strlit("text/html; charset=utf-8");
    reveal_strlit("application/xml");
    reveal_strlit("application/octet-stream");
    reveal_strlit("text/plain");
    reveal_strlit("application/vnd.mapbox-vector-tile");
}

/// A range from one byte up to another, or from one byte on, is forwarded as it stands, with its
/// start; a reversed one, one without a start, and several at once are not.
pub proof fn single_ranges_are_forwarded(a: u64, b: u64, rest: Seq<char>)
    ensures
        ({
            let from = text::decimal_text(a as nat);
            let to = text::decimal_text(b as nat);
            let closed = "bytes="@ + (from + seq!['-'] + to);
            let open = "bytes="@ + (from + seq!['-']);
            &&& a <= b ==> byte_range(closed) == Some((closed, a as nat))
            &&& a > b ==> byte_range(closed) is None
            &&& byte_range(open) == Some((open, a as nat))
            &&& byte_range("bytes="@ + (seq!['-'] + to)) is None
            &&& rest.contains(',') && !text::is_space(rest.last()) ==> byte_range(
                "bytes="@ + rest,
            ) is None
        }),
{
    let from = text::decimal_text(a as nat);
    let to = text::decimal_text(b as nat);
    let none = Seq::<char>::empty();
    text::decimals_read_back(a as nat);
    text::decimals_read_back(b as nat);
    lemma_digits_lack(a as nat);
    lemma_digits_lack(b as nat);
    let closed = from + seq!['-'] + to;
    let open = from + seq!['-'];
    let headless = seq!['-'] + to;
    text::cutting_undoes_joining(from, to, '-');
    text::cutting_undoes_joining(from, none, '-');
    text::cutting_undoes_joining(none, to, '-');
    assert(open =~= from + seq!['-'] + none);
    assert(headless =~= none + seq!['-'] + to);
    assert(!closed.contains(',')) by {
        if closed.contains(',') {
            let k = closed.index_of(',');
            if k < from.len() {
                assert(from[k] == ',');
            } else if k > from.len() {
                assert(to[k - from.len() - 1] == ',');
            }
        }
    }
    assert(!open.contains(',')) by {
        if open.contains(',') {
            let k = open.index_of(',');
            if k < from.len() {
                assert(from[k] == ',');
            }
        }
    }
    assert(to.len() > 0 && text::is_digit_char(to.last()));
    lemma_range_spec(closed);
    lemma_range_spec(open);
    lemma_range_spec(headless);
    if rest.contains(',') && !text::is_space(rest.last()) {
        lemma_range_spec(rest);
    }
}

proof fn lemma_digits_lack(n: nat)
    ensures
        !text::decimal_text(n).contains('-'),
        !text::decimal_text(n).contains(','),
        text::is_digit_char(text::decimal_text(n).last()),
{
    text::decimals_read_back(n);
    let d = text::decimal_text(n);
    assert(text::all_digits(d));
    if d.contains('-') {
        assert(text::is_digit_char(d[d.index_of('-')]));
    }
    if d.contains(',') {
        assert(text::is_digit_char(d[d.index_of(',')]));
    }
    assert(text::is_digit_char(d[d.len() - 1]));
}

proof fn lemma_range_spec(spec: Seq<char>)
    requires
        spec.len() > 0,
        !text::is_space(spec.last()),
    ensures
        text::after_text(text::trim_text("bytes="@ + spec), "bytes="@) == Some(spec),
{
    reveal_strlit("bytes=");
    let s = "bytes="@ + spec;
    let (a, b) = text::trimming_takes_only_space(s);
    assert(s[0] == 'b');
    assert(s[s.len() - 1] == spec.last());
    text::letters_are_no_space('b');
    text::letters_are_no_space(spec.last());
    assert(s.subrange(0, s.len() as int) =~= s);
    text::joined_texts_are_found(Seq::empty(), "bytes="@, spec);
}

/// A part of a body says which bytes it is: from its start, as many as it has. It is never kept by a
/// shared cache. A whole body says no such thing.
pub proof fn parts_say_which_bytes_they_are(start: u64, len: nat)
    requires
        len > 0,
        start + len <= u64::MAX + 1,
    ensures
        range_headers(start, len, true).contains(
            (
                "Content-Range"@,
                "bytes "@ + text::decimal_text(start as nat) + "-"@ + text::decimal_text(
                    (start + len - 1) as nat,
                ) + "/*"@,
            ),
        ),
        range_headers(start, len, true).contains(("Cache-Control"@, "no-store"@)),
        range_headers(start, len, false) == seq![
            ("Accept-Ranges"@, "bytes"@),
            ("Cache-Control"@, "no-store"@),
        ],
        range_headers(start, len, true).len() == 3,
{
    let h = range_headers(start, len, true);
    assert(h[2].0 == "Content-Range"@);
    assert(h[1] == ("Cache-Control"@, "no-store"@));
}

/// A client holds a body if its tag is anywhere in the list it sends, white space or not.
pub proof fn tags_are_found_in_lists(a: Seq<char>, rest: Seq<char>, etag: Seq<char>)
    requires
        !a.contains(','),
    ensures
        lists_tag(a + seq![','] + rest, etag) <==> text::trim_text(a) == etag || lists_tag(
            rest,
            etag,
        ),
        lists_tag(a, etag) <==> text::trim_text(a) == etag,
        already_held(Some(a), etag) <==> text::trim_text(a) == etag,
        !already_held(None, etag),
{
    text::parts_undo_joining(a, rest, ',');
    let tail = text::parts_text(rest, ',');
    let all = text::parts_text(a + seq![','] + rest, ',');
    assert(all == seq![a] + tail);
    assert(text::parts_text(a, ',')[0] == a);
    if text::trim_text(a) == etag {
        assert(all[0] == a);
    }
    if lists_tag(rest, etag) {
        let i = choose|i: int| 0 <= i < tail.len() && text::trim_text(#[trigger] tail[i]) == etag;
        assert(all[i + 1] == tail[i]);
    }
    if lists_tag(a + seq![','] + rest, etag) {
        let i = choose|i: int| 0 <= i < all.len() && text::trim_text(#[trigger] all[i]) == etag;
        if i > 0 {
            assert(tail[i - 1] == all[i]);
        }
    }
}

/// A tag tells its number, and stands in quotes.
pub proof fn tags_tell_their_hash(a: u64, b: u64)
    requires
        etag_form(a) == etag_form(b),
    ensures
        a == b,
        etag_form(a).len() == 18,
        etag_form(a)[0] == '"' && etag_form(a)[17] == '"',
{
    text::lemma_hex_len(a as nat, 16);
    text::lemma_hex_len(b as nat, 16);
    let (x, y) = (text::hex_text(a as nat, 16), text::hex_text(b as nat, 16));
    assert(etag_form(a).subrange(1, 17) =~= x);
    assert(etag_form(b).subrange(1, 17) =~= y);
    text::lemma_hex_fits(a);
    text::lemma_hex_fits(b);
    text::lemma_hex_tells(a as nat, b as nat, 16);
}

/// A hit and a miss are counted apart, by one each.
pub proof fn hits_and_misses_are_counted_apart(c: ProxyCounts)
    ensures
        c.hits < u64::MAX ==> c.hit().hits == c.hits + 1,
        c.hit().misses == c.misses,
        c.misses < u64::MAX ==> c.missed().misses == c.misses + 1,
        c.missed().hits == c.hits,
{
}

/// What is answered from the cache was kept under its address, and not longer than it may be
/// reused: its body, or word that the caller has it already. Where nothing is kept nothing is
/// answered from there.
pub proof fn cached_answers_are_fresh(
    es: Seq<(Seq<char>, ProxyHit)>,
    url: Seq<char>,
    ttl: u64,
    now: u64,
    if_none_match: Option<Seq<char>>,
    r: Option<Reply>,
) -> (kept: ProxyHit)
    requires
        answered_from(es, url, ttl, now, if_none_match, r),
    ensures
        !(has(es, url)) ==> r is None,
        r is Some ==> es.contains((url, kept)) && now - kept.at < ttl * 1_000,
        r is Some && if_none_match is None ==> (r->0).body@ == kept.body@ && (r->0).ctype@
            == kept.ctype@ && (r->0).status@ == "200 OK"@,
        r is Some && (r->0).body@ != kept.body@ ==> (r->0).body@.len() == 0 && (r->0).status@
            == "304 Not Modified"@,
        forall|i: int|
            0 <= i < es.len() && (#[trigger] es[i]).0 == url && (forall|j: int|
                0 <= j < es.len() && (#[trigger] es[j]).0 == url ==> j == i) && now - es[i].1.at < ttl
                * 1_000 ==> r is Some && kept == es[i].1,
{
    let kept = if has(es, url) {
        choose|hit: ProxyHit|
            {
                &&& #[trigger] es.contains((url, hit))
                &&& if is_fresh(hit.at, now, ttl * 1000) {
                    r is Some && if already_held(if_none_match, hit.etag@) {
                        (r->0).says(
                            "304 Not Modified"@,
                            hit.ctype@,
                            Seq::<u8>::empty(),
                            proxy_headers(hit.etag@, ttl),
                        )
                    } else {
                        (r->0).says(
                            "200 OK"@,
                            hit.ctype@,
                            hit.body@,
                            proxy_headers(hit.etag@, ttl),
                        )
                    }
                } else {
                    r is None
                }
            }
    } else {
        arbitrary()
    };
    if has(es, url) {
        let k = es.index_of((url, kept));
        assert(es[k] == (url, kept));
    }
    kept
}

} // verus!
