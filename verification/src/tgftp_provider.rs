//! The last-resort source of radar volumes: a mirror that serves completed ones only.
//!
//! It lists each site's most recent volumes in a small index, one `<size> <filename>` per line. It
//! never claims to be progressive. The last good volume is remembered, so that a network outage
//! degrades to showing it rather than to a blank pane.

use crate::text;
use chrono::{Datelike, Timelike};
use vstd::prelude::*;

verus! {

pub const DEFAULT_BASE_URL: &'static str = "https://tgftp.nws.noaa.gov/data/radar/nexrad_level2";

/// How often the index is looked at, in seconds.
pub const POLL_SECS: u64 = 60;

/// When a volume was collected: seconds since the start of 1970, UTC, and the nanoseconds past
/// them, which a leap second takes over a thousand million.
#[derive(Clone, Copy, Debug, PartialEq, Eq, Structural)]
pub struct VolumeTime {
    pub secs: i64,
    pub nanos: u32,
}

impl VolumeTime {
    /// No later than `other`.
    pub open spec fn up_to(self, other: VolumeTime) -> bool {
        self.secs < other.secs || (self.secs == other.secs && self.nanos <= other.nanos)
    }

    fn is_up_to(self, other: VolumeTime) -> (r: bool)
        ensures
            r == self.up_to(other),
    {
        self.secs < other.secs || (self.secs == other.secs && self.nanos <= other.nanos)
    }
}

/// What `chrono` reads as eight digits of year, month and day: the days since the end of the year
/// before year 1.
pub uninterp spec fn date_digits(s: Seq<char>) -> Option<i32>;

/// `chrono::NaiveDate::parse_from_str` with `%Y%m%d`.
#[verifier::external_body]
fn parse_date_digits(s: &str) -> (r: Option<i32>)
    ensures
        r == date_digits(s@),
{
    chrono::NaiveDate::parse_from_str(s, "%Y%m%d").ok().map(|d| d.num_days_from_ce())
}

/// What `chrono` reads as six digits of hour, minute and second: the seconds since midnight, and
/// the nanoseconds past them.
pub uninterp spec fn time_digits(s: Seq<char>) -> Option<(u32, u32)>;

/// `chrono::NaiveTime::parse_from_str` with `%H%M%S`.
#[verifier::external_body]
fn parse_time_digits(s: &str) -> (r: Option<(u32, u32)>)
    ensures
        r == time_digits(s@),
{
    chrono::NaiveTime::parse_from_str(s, "%H%M%S").ok().map(
        |t| (t.num_seconds_from_midnight(), t.nanosecond()),
    )
}

// ---------------------------------------------------------------------------------------------
// The index.

/// What one line of the index says: a size, a space, a file name.
pub open spec fn entry_of(line: Seq<char>) -> Option<(Seq<char>, nat)> {
    match text::cut_text(line, ' ') {
        None => None,
        Some((size, name)) => match text::at_most(
            text::signed_number(text::trim_text(size)),
            u64::MAX as nat,
        ) {
            None => None,
            Some(n) => if text::trim_text(name).len() == 0 {
                None
            } else {
                Some((text::trim_text(name), n))
            },
        },
    }
}

/// The entries of the lines that say something, in order.
pub open spec fn entries_of(lines: Seq<Seq<char>>) -> Seq<(Seq<char>, nat)>
    decreases lines.len(),
{
    if lines.len() == 0 {
        Seq::empty()
    } else {
        let rest = entries_of(lines.drop_last());
        match entry_of(lines.last()) {
            Some(e) => rest.push(e),
            None => rest,
        }
    }
}

/// The entries as texts and numbers.
pub open spec fn entry_texts(entries: Seq<(String, u64)>) -> Seq<(Seq<char>, nat)> {
    entries.map_values(|e: (String, u64)| (e.0@, e.1 as nat))
}

/// Parses the index into `(filename, size_bytes)` pairs. Skips any line that doesn't parse rather
/// than failing the whole listing: a stray blank line should not take down every other entry.
pub fn parse_dir_list(body: &str) -> (r: Vec<(String, u64)>)
    ensures
        entry_texts(r@) == entries_of(text::parts_text(body@, '\n')),
{
    let lines = text::parts(body, '\n');
    let ghost all = text::texts(lines@);
    let mut out: Vec<(String, u64)> = Vec::new();
    let mut i: usize = 0;
    assert(entry_texts(out@) =~= entries_of(all.take(0)));
    while i < lines.len()
        invariant
            i <= lines.len(),
            all == text::texts(lines@),
            entry_texts(out@) == entries_of(all.take(i as int)),
        decreases lines.len() - i,
    {
        let ghost before = entry_texts(out@);
        proof {
            assert(all.take(i + 1).drop_last() =~= all.take(i as int));
            assert(all.take(i + 1).last() == lines@[i as int]@);
        }
        if let Some((size, name)) = text::cut(lines[i].as_str(), ' ') {
            let size = text::trim(size.as_str());
            let name = text::trim(name.as_str());
            if let Some(n) = text::parse_number(size.as_str(), u64::MAX) {
                if !name.as_str().is_empty() {
                    out.push((name, n));
                    assert(entry_texts(out@) =~= before.push(entry_of(lines@[i as int]@)->0));
                }
            }
        }
        i = i + 1;
    }
    assert(all.take(all.len() as int) =~= all);
    out
}

// ---------------------------------------------------------------------------------------------
// File names.

/// The collection time that a name of the shape `{SITE}_{YYYYMMDD}_{HHMMSS}.bz2` carries.
pub open spec fn name_time(name: Seq<char>) -> Option<VolumeTime> {
    if !text::ends(name, ".bz2"@) {
        None
    } else {
        let stem = name.take(name.len() - 4);
        match text::cut_text(stem, '_') {
            None => None,
            Some((_, rest)) => match text::cut_text(rest, '_') {
                None => None,
                Some((date, time)) => match (date_digits(date), time_digits(time)) {
                    (Some(days), Some((secs, nanos))) => Some(
                        VolumeTime {
                            secs: ((days - crate::clock::DAYS_TO_1970) * 86_400 + secs) as i64,
                            nanos,
                        },
                    ),
                    _ => None,
                },
            },
        }
    }
}

/// The collection time that a file name carries. `None` for anything that doesn't have this exact
/// shape: the index is not guaranteed to hold only volume files.
pub fn parse_filename_time(filename: &str) -> (r: Option<VolumeTime>)
    ensures
        r == name_time(filename@),
{
    proof {
        reveal_strlit(".bz2");
    }
    if !text::ends_with(filename, ".bz2") {
        return None;
    }
    let cs = text::chars_of(filename);
    let stem = text::text_of_range(&cs, 0, cs.len() - 4);
    assert(stem@ =~= filename@.take(filename@.len() - 4));
    match text::cut(stem.as_str(), '_') {
        None => None,
        Some((_, rest)) => match text::cut(rest.as_str(), '_') {
            None => None,
            Some((date, time)) => {
                let d = parse_date_digits(date.as_str());
                let t = parse_time_digits(time.as_str());
                match (d, t) {
                    (Some(days), Some((secs, nanos))) => Some(
                        VolumeTime {
                            secs: (days as i64 - crate::clock::DAYS_TO_1970) * 86_400 + secs as i64,
                            nanos,
                        },
                    ),
                    _ => None,
                }
            },
        },
    }
}

/// The entry at `i` is the newest of the first `n`: every other is no later, and those behind it
/// are earlier.
pub open spec fn is_newest(entries: Seq<(String, u64)>, n: int, i: int) -> bool {
    &&& 0 <= i < n
    &&& name_time(entries[i].0@) is Some
    &&& forall|j: int|
        0 <= j < n && #[trigger] name_time(entries[j].0@) is Some ==> (name_time(
            entries[j].0@,
        )->0).up_to(name_time(entries[i].0@)->0)
    &&& forall|j: int|
        i < j < n && #[trigger] name_time(entries[j].0@) is Some ==> !(name_time(
            entries[i].0@,
        )->0).up_to(name_time(entries[j].0@)->0)
}

/// The newest entry, by the time in its name and not by its place in the list; the last of several
/// with the same time. `None` if nothing parses as a volume's name.
pub fn newest_entry(entries: &[(String, u64)]) -> (r: Option<(String, VolumeTime)>)
    ensures
        match r {
            Some((name, time)) => exists|i: int|
                #[trigger] is_newest(entries@, entries@.len() as int, i) && name@ == entries@[i].0@
                    && Some(time) == name_time(entries@[i].0@),
            None => forall|j: int|
                0 <= j < entries@.len() ==> #[trigger] name_time(entries@[j].0@) is None,
        },
{
    let mut best: Option<(usize, VolumeTime)> = None;
    let mut i: usize = 0;
    while i < entries.len()
        invariant
            i <= entries.len(),
            match best {
                Some((k, t)) => is_newest(entries@, i as int, k as int) && Some(t) == name_time(
                    entries@[k as int].0@,
                ),
                None => forall|j: int|
                    0 <= j < i ==> #[trigger] name_time(entries@[j].0@) is None,
            },
        decreases entries.len() - i,
    {
        let time = parse_filename_time(entries[i].0.as_str());
        if let Some(t) = time {
            match best {
                Some((_, b)) => {
                    if b.is_up_to(t) {
                        best = Some((i, t));
                    }
                },
                None => {
                    best = Some((i, t));
                },
            }
        }
        i = i + 1;
    }
    match best {
        Some((k, t)) => {
            assert(is_newest(entries@, entries@.len() as int, k as int));
            Some((entries[k].0.clone(), t))
        },
        None => None,
    }
}

// ---------------------------------------------------------------------------------------------
// The provider.

/// A volume that was fetched and decoded. What it decodes to is the caller's.
#[derive(Debug)]
pub struct CachedVolume<S> {
    pub name: String,
    pub time: VolumeTime,
    pub scan: S,
}

/// The mirror, and the last volume it gave.
#[derive(Debug)]
pub struct NoaaTgftpLevel2Provider<S> {
    pub base_url: String,
    pub last_known: Option<CachedVolume<S>>,
}

/// What is shown next.
#[derive(Debug)]
pub enum LatestVolume<S> {
    /// This volume, which is not the one shown.
    New { name: String, time: VolumeTime, scan: S },
    UpToDate,
}

/// What is shown next of the volume `v`, where `current` is shown: nothing new, or the volume by its
/// name and time, with a copy of its scan.
pub open spec fn shows<S: Clone>(
    v: CachedVolume<S>,
    current: Option<Seq<char>>,
    r: LatestVolume<S>,
) -> bool {
    if current == Some(v.name@) {
        r is UpToDate
    } else {
        match r {
            LatestVolume::New { name, time, scan } => {
                &&& name@ == v.name@
                &&& time == v.time
                &&& vstd::pervasive::cloned::<S>(v.scan, scan)
            },
            LatestVolume::UpToDate => false,
        }
    }
}

/// What comes of a fetch, where `known` is the last volume that was fetched and decoded: a fetch
/// that failed shows that volume again, and is an error only where there never was one.
pub open spec fn answers<S: Clone, E>(
    known: Option<CachedVolume<S>>,
    fetched: Result<CachedVolume<S>, E>,
    current: Option<Seq<char>>,
    r: Result<LatestVolume<S>, E>,
) -> bool {
    match fetched {
        Ok(v) => r is Ok && shows(v, current, r->Ok_0),
        Err(e) => match known {
            Some(v) => r is Ok && shows(v, current, r->Ok_0),
            None => r == Err::<LatestVolume<S>, E>(e),
        },
    }
}

/// What a provider of volumes can do.
#[derive(Clone, Copy, Debug, PartialEq, Eq, Structural)]
pub struct ProviderCapabilities {
    /// Radials come while the volume is still being scanned.
    pub progressive_radials: bool,
    /// Whole volumes come.
    pub completed_volume: bool,
    /// The server says when there is something new.
    pub server_push: bool,
}

/// The entry at `i` is the newest of the index: every other is no later, and those behind it are
/// earlier.
pub open spec fn is_newest_listed(es: Seq<(Seq<char>, nat)>, i: int) -> bool {
    &&& 0 <= i < es.len()
    &&& name_time(es[i].0) is Some
    &&& forall|j: int|
        0 <= j < es.len() && #[trigger] name_time(es[j].0) is Some ==> (name_time(
            es[j].0,
        )->0).up_to(name_time(es[i].0)->0)
    &&& forall|j: int|
        i < j < es.len() && #[trigger] name_time(es[j].0) is Some ==> !(name_time(
            es[i].0,
        )->0).up_to(name_time(es[j].0)->0)
}

/// The newest volume that a site's index names; an error where it names none.
pub fn newest_volume(listing: &str, site: &str) -> (r: Result<(String, VolumeTime), String>)
    ensures
        ({
            let es = entries_of(text::parts_text(listing@, '\n'));
            match r {
                Ok((name, time)) => exists|i: int|
                    #[trigger] is_newest_listed(es, i) && name@ == es[i].0 && Some(time)
                        == name_time(es[i].0),
                Err(e) => {
                    &&& forall|j: int| 0 <= j < es.len() ==> #[trigger] name_time(es[j].0) is None
                    &&& e@ == "no volume files found for "@ + site@ + " in dir.list"@
                },
            }
        }),
{
    let entries = parse_dir_list(listing);
    let ghost es = entries_of(text::parts_text(listing@, '\n'));
    assert forall|j: int| 0 <= j < es.len() implies es[j].0 == #[trigger] entries@[j].0@ by {
        assert(entry_texts(entries@)[j] == es[j]);
    }
    assert(es.len() == entries@.len()) by {
        assert(entry_texts(entries@).len() == entries@.len());
    }
    match newest_entry(entries.as_slice()) {
        Some((name, time)) => {
            proof {
                let n = entries@.len() as int;
                let i = choose|i: int|
                    #[trigger] is_newest(entries@, n, i) && name@ == entries@[i].0@ && Some(time)
                        == name_time(entries@[i].0@);
                assert forall|j: int|
                    0 <= j < es.len() && #[trigger] name_time(es[j].0) is Some implies (name_time(
                    es[j].0,
                )->0).up_to(name_time(es[i].0)->0) by {
                    assert(name_time(entries@[j].0@) is Some);
                }
                assert forall|j: int|
                    i < j < es.len() && #[trigger] name_time(es[j].0) is Some implies !(name_time(
                    es[i].0,
                )->0).up_to(name_time(es[j].0)->0) by {
                    assert(name_time(entries@[j].0@) is Some);
                }
                assert(is_newest_listed(es, i));
            }
            Ok((name, time))
        },
        None => {
            assert forall|j: int| 0 <= j < es.len() implies #[trigger] name_time(
                es[j].0,
            ) is None by {
                assert(name_time(entries@[j].0@) is None);
            }
            let mut e = "no volume files found for ".to_owned();
            e.append(site);
            e.append(" in dir.list");
            Err(e)
        },
    }
}

impl<S: Clone> NoaaTgftpLevel2Provider<S> {
    /// Completed volumes only: nothing is shown of a volume before its end, and nothing is pushed.
    pub fn capabilities(&self) -> (r: ProviderCapabilities)
        ensures
            r == (ProviderCapabilities {
                progressive_radials: false,
                completed_volume: true,
                server_push: false,
            }),
    {
        ProviderCapabilities {
            progressive_radials: false,
            completed_volume: true,
            server_push: false,
        }
    }

    pub fn new() -> (p: NoaaTgftpLevel2Provider<S>)
        ensures
            p.base_url@ == "https://tgftp.nws.noaa.gov/data/radar/nexrad_level2"@,
            p.last_known is None,
    {
        NoaaTgftpLevel2Provider {
            base_url: DEFAULT_BASE_URL.to_owned(),
            last_known: None,
        }
    }

    pub fn label(&self) -> (r: &'static str)
        ensures
            r@ == "NOAA TGFTP (degraded)"@,
    {
        "NOAA TGFTP (degraded)"
    }

    /// The address of a file of a site, whose name is in capitals there.
    pub open spec fn url_text(self, site: Seq<char>, file: Seq<char>) -> Seq<char> {
        self.base_url@ + "/"@ + text::upper_text(site) + "/"@ + file
    }

    /// The address of a volume.
    pub fn volume_url(&self, site: &str, filename: &str) -> (r: String)
        ensures
            r@ == self.url_text(site@, filename@),
    {
        let mut s = self.base_url.clone();
        s.append("/");
        let capitals = text::upper(site);
        s.append(capitals.as_str());
        s.append("/");
        s.append(filename);
        s
    }

    /// The address of a site's index.
    pub fn dir_list_url(&self, site: &str) -> (r: String)
        ensures
            r@ == self.url_text(site@, "dir.list"@),
    {
        self.volume_url(site, "dir.list")
    }

    /// What is shown next, given what was fetched and decoded, or why that failed.
    ///
    /// A network outage, or a file that does not decode, degrades to the last known-good volume
    /// rather than to a blank pane. With nothing fetched ever, it is the error.
    pub fn latest_complete_volume<E>(
        &mut self,
        fetched: Result<CachedVolume<S>, E>,
        current_name: &Option<String>,
    ) -> (r: Result<LatestVolume<S>, E>)
        ensures
            final(self).base_url == old(self).base_url,
            final(self).last_known == match fetched {
                Ok(v) => Some(v),
                Err(_) => old(self).last_known,
            },
            answers(old(self).last_known, fetched, crate::cloud::opt_text(*current_name), r),
    {
        match fetched {
            Ok(v) => {
                let r = next_shown(&v, current_name);
                self.last_known = Some(v);
                Ok(r)
            },
            Err(e) => match &self.last_known {
                Some(v) => Ok(next_shown(v, current_name)),
                None => Err(e),
            },
        }
    }
}

fn next_shown<S: Clone>(v: &CachedVolume<S>, current_name: &Option<String>) -> (r: LatestVolume<S>)
    ensures
        shows(*v, crate::cloud::opt_text(*current_name), r),
{
    let shown = match current_name {
        Some(c) => text::same(c.as_str(), v.name.as_str()),
        None => false,
    };
    if shown {
        LatestVolume::UpToDate
    } else {
        LatestVolume::New { name: v.name.clone(), time: v.time, scan: v.scan.clone() }
    }
}

/// One pass of the subscription: a new volume becomes the current one, and is handed on only if it
/// changed anything; otherwise all stays as it is.
pub fn subscribe_step<S>(current: &mut Option<String>, latest: &LatestVolume<S>, changed: bool) -> (
    update: bool)
    ensures
        match *latest {
            LatestVolume::New { name, .. } => crate::cloud::opt_text(*final(current)) == Some(name@)
                && update == changed,
            LatestVolume::UpToDate => *final(current) == *old(current) && !update,
        },
{
    match latest {
        LatestVolume::New { name, .. } => {
            *current = Some(name.clone());
            changed
        },
        LatestVolume::UpToDate => false,
    }
}

/// Once a volume was fetched and decoded, an outage shows it again, its scan with it, unless it is
/// the one that is shown: it is never an error, and nothing else is shown instead.
pub proof fn outages_keep_the_last_volume<S: Clone, E>(
    known: CachedVolume<S>,
    e: E,
    current: Option<Seq<char>>,
    r: Result<LatestVolume<S>, E>,
)
    requires
        answers(Some(known), Err(e), current, r),
    ensures
        r is Ok,
        current == Some(known.name@) ==> r->Ok_0 is UpToDate,
        current != Some(known.name@) ==> match r->Ok_0 {
            LatestVolume::New { name, time, scan } => {
                &&& name@ == known.name@
                &&& time == known.time
                &&& vstd::pervasive::cloned::<S>(known.scan, scan)
            },
            LatestVolume::UpToDate => false,
        },
{
}

// ---------------------------------------------------------------------------------------------
// What the index and its names say.

proof fn lemma_bare(s: Seq<char>)
    requires
        s.len() > 0,
        !text::is_space(s[0]),
        !text::is_space(s.last()),
    ensures
        text::trim_text(s) == s,
{
    let (a, b) = text::trimming_takes_only_space(s);
    assert(s[s.len() - 1] == s.last());
    assert(s.subrange(0, s.len() as int) =~= s);
}

/// A line of the index with a size, a space and a name is read as these; one without a space, or
/// without a size in front of it, is none.
pub proof fn index_lines_are_read(n: nat, name: Seq<char>, line: Seq<char>)
    requires
        name.len() > 0,
        !text::is_space(name[0]),
        !text::is_space(name.last()),
    ensures
        n <= u64::MAX ==> entry_of(text::decimal_text(n) + seq![' '] + name) == Some((name, n)),
        n > u64::MAX ==> entry_of(text::decimal_text(n) + seq![' '] + name) is None,
        !line.contains(' ') ==> entry_of(line) is None,
{
    let d = text::decimal_text(n);
    text::decimals_read_back(n);
    assert forall|i: int| 0 <= i < d.len() implies #[trigger] d[i] != ' ' && !text::is_space(
        d[i],
    ) by {
        assert(text::is_digit_char(d[i]));
    }
    text::cutting_undoes_joining(d, name, ' ');
    assert(d[d.len() - 1] == d.last());
    lemma_bare(d);
    lemma_bare(name);
    if !line.contains(' ') {
        text::cutting_undoes_joining(line, name, ' ');
    }
}

/// The entries stand in the order of their lines, and a line that says nothing leaves none.
pub proof fn entries_stand_in_order(a: Seq<Seq<char>>, b: Seq<Seq<char>>)
    ensures
        a.len() == 0 ==> entries_of(a).len() == 0,
        a.len() == 1 && entry_of(a[0]) is Some ==> entries_of(a) == seq![entry_of(a[0])->0],
        a.len() == 1 && entry_of(a[0]) is None ==> entries_of(a).len() == 0,
        entries_of(a + b) == entries_of(a) + entries_of(b),
    decreases b.len(),
{
    if a.len() == 1 {
        assert(a.drop_last() =~= Seq::<Seq<char>>::empty());
        assert(entries_of(a.drop_last()) =~= Seq::<(Seq<char>, nat)>::empty());
        if entry_of(a[0]) is Some {
            assert(entries_of(a) =~= seq![entry_of(a[0])->0]);
        }
    }
    if b.len() == 0 {
        assert(a + b =~= a);
        assert(entries_of(a + b) =~= entries_of(a) + entries_of(b));
    } else {
        assert((a + b).drop_last() =~= a + b.drop_last());
        assert((a + b).last() == b.last());
        entries_stand_in_order(a, b.drop_last());
        assert(entries_of(a + b) =~= entries_of(a) + entries_of(b));
    }
}

/// A name that carries its site, its date and its time between underscores tells when its volume was
/// collected; a name with another ending tells nothing.
pub proof fn names_tell_their_time(
    site: Seq<char>,
    date: Seq<char>,
    time: Seq<char>,
    name: Seq<char>,
    days: i32,
    secs: u32,
    nanos: u32,
)
    requires
        !site.contains('_'),
        !date.contains('_'),
        secs <= 86_400,
    ensures
        ({
            let t = name_time(site + seq!['_'] + date + seq!['_'] + time + ".bz2"@);
            &&& date_digits(date) == Some(days) && time_digits(time) == Some((secs, nanos)) ==> {
                &&& t is Some
                &&& (t->0).secs == (days - 719_163) * 86_400 + secs
                &&& (t->0).nanos == nanos
            }
            &&& date_digits(date) is None || time_digits(time) is None ==> t is None
        }),
        !text::ends(name, ".bz2"@) ==> name_time(name) is None,
{
    reveal_strlit(".bz2");
    let stem = site + seq!['_'] + date + seq!['_'] + time;
    let full = stem + ".bz2"@;
    assert(full =~= site + seq!['_'] + date + seq!['_'] + time + ".bz2"@);
    text::lemma_ends_join(stem, ".bz2"@);
    assert(full.take(full.len() - 4) =~= stem);
    let rest = date + seq!['_'] + time;
    assert(stem =~= site + seq!['_'] + rest);
    text::cutting_undoes_joining(site, rest, '_');
    text::cutting_undoes_joining(date, time, '_');
}

/// Times stand in the order of the clock.
pub proof fn times_stand_in_order(a: VolumeTime, b: VolumeTime)
    ensures
        a.secs < b.secs ==> a.up_to(b) && !b.up_to(a),
        a.secs == b.secs ==> (a.up_to(b) <==> a.nanos <= b.nanos),
        a.up_to(b) && b.up_to(a) <==> a == b,
{
}

/// The newest of the index carries a time, no other has a later one, and of several with its time it
/// is the last.
pub proof fn the_newest_is_the_latest(es: Seq<(Seq<char>, nat)>, i: int, j: int)
    requires
        is_newest_listed(es, i),
        0 <= j < es.len(),
        name_time(es[j].0) is Some,
    ensures
        name_time(es[i].0) is Some,
        (name_time(es[j].0)->0).secs <= (name_time(es[i].0)->0).secs,
        name_time(es[j].0) == name_time(es[i].0) ==> j <= i,
{
}

/// A volume lies in its site's directory, whose name is in capitals, under its own name.
pub proof fn volumes_lie_in_their_site<S: Clone>(
    p: NoaaTgftpLevel2Provider<S>,
    site: Seq<char>,
    file: Seq<char>,
)
    ensures
        text::starts(p.url_text(site, file), p.base_url@),
        text::ends(p.url_text(site, file), "/"@ + text::upper_text(site) + "/"@ + file),
        p.url_text(site, file).len() == p.base_url@.len() + 2 + site.len() + file.len(),
{
    reveal_strlit("/");
    let tail = "/"@ + text::upper_text(site) + "/"@ + file;
    assert(p.url_text(site, file) =~= p.base_url@ + tail);
    text::lemma_starts_join(p.base_url@, tail);
    text::lemma_ends_join(p.base_url@, tail);
}

/// A volume that was fetched is the one that is shown, and an error comes only where none ever was.
pub proof fn fetched_volumes_are_shown<S: Clone, E>(
    known: Option<CachedVolume<S>>,
    fetched: Result<CachedVolume<S>, E>,
    current: Option<Seq<char>>,
    r: Result<LatestVolume<S>, E>,
)
    requires
        answers(known, fetched, current, r),
    ensures
        fetched matches Ok(v) ==> r is Ok && match r->Ok_0 {
            LatestVolume::New { name, time, .. } => name@ == v.name@ && time == v.time && current
                != Some(v.name@),
            LatestVolume::UpToDate => current == Some(v.name@),
        },
        r is Err ==> known is None && fetched is Err && r->Err_0 == fetched->Err_0,
{
}

} // verus!
