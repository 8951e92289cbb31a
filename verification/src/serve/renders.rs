//! Rendered images on disk: which are reused, who renders, and which go.

use crate::clock;
use crate::serve::frame::{loop_extension, LoopFormat};
use crate::serve::reply::SNAPSHOT_TTL_MS;
use crate::serve::route::extension;
use crate::text;
use vstd::prelude::*;

verus! {

/// How many national renders the ring keeps: about an hour of weather, long enough to see a line
/// move, short enough to encode quickly.
pub const NATIONAL_FRAMES: usize = 15;

/// Rendered loop frames older than this are never wanted again: the window only slides forward.
pub const LOOP_FRAME_TTL_MS: u64 = 7_200_000;

/// How long a rendered snapshot stays on disk. Longer than a loop frame because a snapshot's URL
/// can be shared and fetched again.
pub const SNAPSHOT_FILE_TTL_MS: u64 = 86_400_000;

/// At most once in this time are stale snapshots swept.
pub const PRUNE_EVERY_MS: u64 = 3_600_000;

/// Why a request that finds the renderer busy fails, where there is nothing to serve.
pub const RENDERER_BUSY: &'static str = "renderer busy, and this frame has never been rendered";

/// Why there is no national loop.
pub const TOO_FEW_FRAMES: &'static str = "not enough national frames yet";

/// Edge length of the national mosaic, in pixels, and its zoom in tenths.
pub const NATIONAL_PX: u32 = 1_400;

pub const NATIONAL_ZOOM_TENTHS: u32 = 45;

/// How fast the national loop goes, in frames per second.
pub const NATIONAL_FPS: u32 = 6;

/// The file that a still is kept in.
pub fn snapshot_file(tag: &str) -> (r: String)
    ensures
        r@ == "snapshot-"@ + tag@ + ".png"@,
{
    let mut s = "snapshot-".to_owned();
    s.append(tag);
    s.append(".png");
    s
}

/// The file that a frame of a loop is kept in: it carries the minute the frame is for. `None` past
/// the end of the calendar.
pub fn loop_frame_file(tag: &str, at: i128) -> (r: Option<String>)
    requires
        clock::is_instant(at as int),
    ensures
        match clock::instant_text(at as int, "%Y%m%d-%H%M"@) {
            Some(minute) => r is Some && (r->0)@ == "loop-"@ + tag@ + "-"@ + minute + ".png"@,
            None => r is None,
        },
{
    match clock::write_instant(at, clock::FRAME_NAME) {
        Some(minute) => {
            let mut s = "loop-".to_owned();
            s.append(tag);
            s.append("-");
            s.append(minute.as_str());
            s.append(".png");
            Some(s)
        },
        None => None,
    }
}

/// The file that a loop is kept in.
pub fn loop_file(tag: &str, format: LoopFormat) -> (r: String)
    ensures
        r@ == "loop-"@ + tag@ + "."@ + loop_extension(format),
{
    let mut s = "loop-".to_owned();
    s.append(tag);
    s.append(".");
    s.append(
        match format {
            LoopFormat::Gif => "gif",
            LoopFormat::Mp4 => "mp4",
        },
    );
    s
}

/// The file that a national frame is kept in: it carries the minute it was rendered. `None` past
/// the end of the calendar.
pub fn national_file(at: i128) -> (r: Option<String>)
    requires
        clock::is_instant(at as int),
    ensures
        match clock::instant_text(at as int, "%Y%m%d-%H%M"@) {
            Some(minute) => r is Some && (r->0)@ == "national-"@ + minute + ".png"@,
            None => r is None,
        },
{
    match clock::write_instant(at, clock::FRAME_NAME) {
        Some(minute) => {
            let mut s = "national-".to_owned();
            s.append(minute.as_str());
            s.append(".png");
            Some(s)
        },
        None => None,
    }
}

/// The time of day that the archive picker is asked for, with the colon: a bare `1230` would fall
/// through to the latest volume. `None` past the end of the calendar.
pub fn archive_time(at: i128) -> (r: Option<String>)
    requires
        clock::is_instant(at as int),
    ensures
        crate::cloud::opt_text(r) == clock::instant_text(at as int, "%H:%M"@),
{
    clock::write_instant(at, clock::TIME_OF_DAY)
}

/// The bytes of a rendered file that is young enough to be given out, if there is one.
///
/// `age` is how long ago it was written, in milliseconds. Anything unreadable, empty, or without a
/// usable time is treated as absent: a missing render is a re-render, never an error.
pub fn fresh_on_disk(age: Option<u64>, bytes: Option<Vec<u8>>) -> (r: Option<Vec<u8>>)
    ensures
        r == if age is Some && age->0 < SNAPSHOT_TTL_MS && bytes is Some && (bytes->0)@.len() > 0 {
            bytes
        } else {
            None
        },
        r is Some ==> r == bytes && age is Some && age->0 < 300_000,
        age is Some && age->0 < 300_000 && bytes is Some && r is None ==> (bytes->0)@.len() == 0,
{
    match (age, bytes) {
        (Some(a), Some(b)) => {
            if a < SNAPSHOT_TTL_MS && b.len() > 0 {
                Some(b)
            } else {
                None
            }
        },
        _ => None,
    }
}

/// Whose turn it is to render.
#[derive(Clone, Copy, Debug, PartialEq, Eq, Structural)]
pub enum Turn {
    /// This request renders.
    Render,
    /// Somebody else renders; what is on disk is served, however old.
    ServeStale,
    /// Somebody else renders, and there is nothing to serve.
    Busy,
}

/// Whose turn it is to render. A request that finds the renderer busy does not wait: queued up, a
/// few hundred renders at once would keep the last of them waiting for an hour. A frame that has
/// never been rendered at all is the only case left that can fail.
pub fn try_render(free: bool, on_disk: bool) -> (r: Turn)
    ensures
        r == if free {
            Turn::Render
        } else if on_disk {
            Turn::ServeStale
        } else {
            Turn::Busy
        },
        r == Turn::Render <==> free,
        r == Turn::Busy ==> !on_disk,
{
    if free {
        Turn::Render
    } else if on_disk {
        Turn::ServeStale
    } else {
        Turn::Busy
    }
}

/// Whether a file is removed: it is of the kind that `prefix` names and was last written longer
/// ago than its time to live. One whose age is not known stays.
pub fn is_stale(name: &str, prefix: &str, age: Option<u64>, ttl_ms: u64) -> (r: bool)
    ensures
        r == (text::starts(name@, prefix@) && age is Some && age->0 > ttl_ms),
{
    text::starts_with(name, prefix) && match age {
        Some(a) => a > ttl_ms,
        None => false,
    }
}

/// Whether stale snapshots are swept now, at most once an hour; if so, `last` is now.
pub fn prune_due(last: &mut Option<u64>, now: u64) -> (due: bool)
    ensures
        due == !(*old(last) is Some && now - (*old(last))->0 < PRUNE_EVERY_MS),
        *final(last) == if due {
            Some(now)
        } else {
            *old(last)
        },
        *old(last) is None ==> due,
        *old(last) matches Some(t) ==> (due <==> t + 3_600_000 <= now),
{
    match *last {
        Some(t) => {
            if now < t || now - t < PRUNE_EVERY_MS {
                return false;
            }
        },
        None => {},
    }
    *last = Some(now);
    true
}

/// Whether the national loop is encoded again: only when the ring has moved on since, or when one
/// of the two times is not known.
pub fn needs_encode(encoded: Option<u64>, newest: Option<u64>) -> (r: bool)
    ensures
        r == !(encoded is Some && newest is Some && encoded->0 >= newest->0),
        encoded is None || newest is None ==> r,
        encoded is Some && newest is Some ==> (r <==> newest->0 > encoded->0),
{
    match (encoded, newest) {
        (Some(e), Some(n)) => e < n,
        _ => true,
    }
}

// ---------------------------------------------------------------------------------------------
// The ring of national frames.

/// `a` comes before `b` in the order of their characters.
pub open spec fn before(a: Seq<char>, b: Seq<char>) -> bool
    decreases a.len(),
{
    if b.len() == 0 {
        false
    } else if a.len() == 0 {
        true
    } else if a[0] != b[0] {
        a[0] < b[0]
    } else {
        before(a.drop_first(), b.drop_first())
    }
}

proof fn lemma_before_trans(a: Seq<char>, b: Seq<char>, c: Seq<char>)
    requires
        before(a, b),
        before(b, c),
    ensures
        before(a, c),
    decreases a.len(),
{
    if a.len() > 0 && a[0] == b[0] && b[0] == c[0] {
        lemma_before_trans(a.drop_first(), b.drop_first(), c.drop_first());
    }
}

proof fn lemma_before_total(a: Seq<char>, b: Seq<char>)
    requires
        !before(a, b),
        a != b,
    ensures
        before(b, a),
    decreases a.len(),
{
    if a.len() > 0 && b.len() > 0 && a[0] == b[0] {
        if a.drop_first() == b.drop_first() {
            assert(a =~= seq![a[0]] + a.drop_first());
            assert(b =~= seq![b[0]] + b.drop_first());
        }
        lemma_before_total(a.drop_first(), b.drop_first());
    } else if a.len() == 0 && b.len() == 0 {
        assert(a =~= b);
    }
}

fn comes_before(a: &str, b: &str) -> (r: bool)
    ensures
        r == before(a@, b@),
{
    let xs = text::chars_of(a);
    let ys = text::chars_of(b);
    let mut i: usize = 0;
    assert(xs@.skip(0) =~= a@);
    assert(ys@.skip(0) =~= b@);
    loop
        invariant
            i <= xs.len(),
            i <= ys.len(),
            before(a@, b@) == before(xs@.skip(i as int), ys@.skip(i as int)),
        decreases xs.len() - i,
    {
        if i == ys.len() {
            return false;
        }
        if i == xs.len() {
            return true;
        }
        if xs[i] != ys[i] {
            return xs[i] < ys[i];
        }
        assert(xs@.skip(i as int).drop_first() =~= xs@.skip(i + 1));
        assert(ys@.skip(i as int).drop_first() =~= ys@.skip(i + 1));
        i = i + 1;
    }
}

/// Each name comes before the next.
pub open spec fn in_name_order(names: Seq<Seq<char>>) -> bool {
    forall|i: int, j: int|
        0 <= i < j < names.len() ==> before(#[trigger] names[i], #[trigger] names[j])
}

/// `name` is a picture among the first `n` names.
pub open spec fn is_picture(names: Seq<Seq<char>>, n: int, name: Seq<char>) -> bool {
    extension(name) == Some("png"@) && exists|i: int| 0 <= i < n && #[trigger] names[i] == name
}

fn insert_name(names: &mut Vec<String>, name: String)
    requires
        in_name_order(text::texts(old(names)@)),
    ensures
        in_name_order(text::texts(final(names)@)),
        forall|t: Seq<char>|
            #[trigger] text::texts(final(names)@).contains(t) <==> text::texts(
                old(names)@).contains(t) || t == name@,
{
    let ghost was = text::texts(names@);
    let mut i: usize = 0;
    while i < names.len() && comes_before(names[i].as_str(), name.as_str())
        invariant
            text::texts(names@) == was,
            i <= names.len(),
            forall|j: int| 0 <= j < i ==> before(#[trigger] was[j], name@),
        decreases names.len() - i,
    {
        assert(was[i as int] == names@[i as int]@);
        i = i + 1;
    }
    if i < names.len() && text::same(names[i].as_str(), name.as_str()) {
        assert(was[i as int] == name@);
        assert(was.contains(name@));
        return ;
    }
    let ghost t = name@;
    proof {
        if i < names.len() {
            assert(was[i as int] == names@[i as int]@);
            lemma_before_total(was[i as int], t);
        }
    }
    names.insert(i, name);
    proof {
        let now = text::texts(names@);
        assert(now =~= was.insert(i as int, t));
        assert forall|j: int, k: int| 0 <= j < k < now.len() implies before(
            #[trigger] now[j],
            #[trigger] now[k],
        ) by {
            if k < i {
                assert(before(was[j], was[k]));
            } else if k == i {
                assert(before(was[j], t));
            } else if j == i {
                assert(now[k] == was[k - 1]);
                if k - 1 > i {
                    assert(before(was[i as int], was[k - 1]));
                    lemma_before_trans(t, was[i as int], was[k - 1]);
                }
            } else if j < i {
                assert(before(was[j], was[k - 1]));
            } else {
                assert(before(was[j - 1], was[k - 1]));
            }
        }
        assert forall|u: Seq<char>| #[trigger] now.contains(u) <==> was.contains(u) || u == t by {
            if was.contains(u) {
                let j = was.index_of(u);
                if j < i {
                    assert(now[j] == u);
                } else {
                    assert(now[j + 1] == u);
                }
            }
            if u == t {
                assert(now[i as int] == u);
            }
            if now.contains(u) {
                let j = now.index_of(u);
                if j < i {
                    assert(was[j] == u);
                } else if j > i {
                    assert(was[j - 1] == u);
                }
            }
        }
    }
}

/// The pictures among the names of a directory, in order. Names carry the minute they were rendered
/// in, so sorting them is sorting by time: oldest first.
pub fn national_frames(names: &Vec<String>) -> (r: Vec<String>)
    ensures
        in_name_order(text::texts(r@)),
        forall|t: Seq<char>|
            #[trigger] text::texts(r@).contains(t) <==> is_picture(
                text::texts(names@),
                names@.len() as int,
                t,
            ),
{
    let ghost all = text::texts(names@);
    let mut out: Vec<String> = Vec::new();
    let mut i: usize = 0;
    while i < names.len()
        invariant
            i <= names.len(),
            all == text::texts(names@),
            in_name_order(text::texts(out@)),
            forall|t: Seq<char>|
                #[trigger] text::texts(out@).contains(t) <==> is_picture(all, i as int, t),
        decreases names.len() - i,
    {
        let name = names[i].as_str();
        assert(all[i as int] == name@);
        let ghost before_this = text::texts(out@);
        if is_png(name) {
            insert_name(&mut out, name.to_owned());
        }
        assert forall|t: Seq<char>|
            #[trigger] text::texts(out@).contains(t) <==> is_picture(all, i + 1, t) by {
            if is_picture(all, i as int, t) {
                let k = choose|k: int| 0 <= k < i && #[trigger] all[k] == t;
                assert(all[k] == t);
            }
            if is_picture(all, i + 1, t) {
                let k = choose|k: int| 0 <= k < i + 1 && #[trigger] all[k] == t;
                if k < i {
                    assert(is_picture(all, i as int, t));
                }
            }
            assert(before_this.contains(t) ==> is_picture(all, i as int, t));
        }
        i = i + 1;
    }
    out
}

fn is_png(name: &str) -> (r: bool)
    ensures
        r == (extension(name@) == Some("png"@)),
{
    match crate::serve::route::extension_of(name) {
        Some(e) => text::same(e.as_str(), "png"),
        None => false,
    }
}

/// How many of the oldest frames are dropped once the ring is full: all but the newest fifteen.
pub fn ring_excess(frames: usize) -> (r: usize)
    ensures
        r == if frames > NATIONAL_FRAMES {
            frames - NATIONAL_FRAMES
        } else {
            0
        },
        frames - r <= 15,
        r > 0 ==> frames - r == 15,
{
    if frames > NATIONAL_FRAMES {
        frames - NATIONAL_FRAMES
    } else {
        0
    }
}

/// Whether the ring holds enough frames for a loop.
pub fn ring_moves(frames: usize) -> (r: bool)
    ensures
        r == (frames >= 2),
{
    frames >= 2
}

/// Names go by the first character in which they differ, so names that carry their minute go by
/// time; a name comes before a longer one that starts with it.
pub proof fn names_go_by_their_first_difference(
    p: Seq<char>,
    c: char,
    d: char,
    a: Seq<char>,
    b: Seq<char>,
)
    ensures
        c < d ==> before(p + seq![c] + a, p + seq![d] + b),
        before(p, p + seq![c] + a),
        !before(p, p),
        !before(p + seq![c] + a, p),
    decreases p.len(),
{
    let (x, y) = (p + seq![c] + a, p + seq![d] + b);
    if p.len() > 0 {
        let q = p.drop_first();
        names_go_by_their_first_difference(q, c, d, a, b);
        assert(x.drop_first() =~= q + seq![c] + a);
        assert(y.drop_first() =~= q + seq![d] + b);
    }
}

/// The ring holds fifteen frames, which six a second show; a frame of a loop lives two hours, a
/// still a day, and stale ones are swept at most hourly.
pub proof fn renders_live_for_hours()
    ensures
        NATIONAL_FRAMES == 15 && NATIONAL_FPS == 6,
        LOOP_FRAME_TTL_MS == 2 * 60 * 60 * 1000,
        SNAPSHOT_FILE_TTL_MS == 24 * 60 * 60 * 1000,
        PRUNE_EVERY_MS == 60 * 60 * 1000,
        NATIONAL_PX == 1400 && NATIONAL_ZOOM_TENTHS == 45,
{
}

} // verus!
