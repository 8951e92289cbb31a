//! Speaking warnings out loud: what waits to be said, what may interrupt it, and which voice says
//! it.

use crate::settings::AlertSound;
use crate::text;
use std::collections::VecDeque;
use vstd::prelude::*;

verus! {

// ---------------------------------------------------------------------------------------------
// Voices.

/// The engine and the voice model, as configured. An empty engine means the one that is installed;
/// an empty voice means it is off, since an engine with no model has nothing to say.
#[derive(Debug)]
pub struct Piper {
    pub bin: String,
    pub voice: String,
}

/// Point the speech path at an engine and a voice model.
pub fn set_piper(piper: &mut Piper, bin: &str, voice: &str)
    ensures
        final(piper).bin@ == text::trim_text(bin@),
        final(piper).voice@ == text::trim_text(voice@),
{
    piper.bin = text::trim(bin);
    piper.voice = text::trim(voice);
}

/// The path of a downloaded voice under the data directory. One file per voice, so downloading a
/// second voice does not destroy the first.
pub open spec fn voice_path_text(id: Seq<char>) -> Seq<char> {
    "voices/"@ + id + ".onnx"@
}

/// The path of a downloaded voice under the data directory.
pub fn voice_path(id: &str) -> (r: String)
    ensures
        r@ == voice_path_text(id@),
{
    let mut s = "voices/".to_owned();
    s.append(id);
    s.append(".onnx");
    s
}

/// The voice preselected in the picker.
pub const DEFAULT_VOICE: &'static str = "en_US-lessac-medium";

/// The path of the default voice under the data directory.
pub fn default_voice_path() -> (r: String)
    ensures
        r@ == voice_path_text("en_US-lessac-medium"@),
{
    voice_path("en_US-lessac-medium")
}

/// The voices the picker offers, by id (`{lang}_{REGION}-{name}-{quality}`). A curated handful:
/// anything else is still reachable, since the voice field takes a path to any model.
pub const VOICES: [&'static str; 15] = [
    "en_US-lessac-medium",
    "en_US-amy-medium",
    "en_US-ryan-high",
    "en_US-joe-medium",
    "en_US-kusal-medium",
    "en_US-hfc_female-medium",
    "en_US-hfc_male-medium",
    "en_GB-alba-medium",
    "en_GB-jenny_dioco-medium",
    "en_GB-northern_english_male-medium",
    "es_ES-davefx-medium",
    "de_DE-thorsten-medium",
    "fr_FR-siwis-medium",
    "it_IT-riccardo-x_low",
    "pt_BR-faber-medium",
];

/// The revision of the voice repository that voices are fetched from: a commit, so that the same
/// build always downloads the same models.
pub const VOICES_REVISION: &'static str = "39ab474be869e9181350af6a65e4953eef67aaa0";

/// A character that a voice id may hold.
pub open spec fn is_voice_char(c: char) -> bool {
    text::is_ascii_alnum(c) || c == '_' || c == '-'
}

/// A language and a region on either side of an underscore.
pub open spec fn is_locale(s: Seq<char>) -> bool {
    let ps = text::parts_text(s, '_');
    ps.len() == 2 && ps[0].len() > 0 && ps[1].len() > 0
}

/// An id is a language and region, a name and a quality between dashes, none of them empty, of
/// letters, digits and underscores.
pub open spec fn is_voice_id(id: Seq<char>) -> bool {
    let ps = text::parts_text(id, '-');
    &&& ps.len() == 3
    &&& is_locale(ps[0])
    &&& ps[1].len() > 0
    &&& ps[2].len() > 0
    &&& forall|i: int| 0 <= i < id.len() ==> is_voice_char(#[trigger] id[i])
}

/// Where a voice is fetched from: the layout of the repository is derived from the id itself.
pub open spec fn voice_url_text(id: Seq<char>) -> Option<Seq<char>> {
    if is_voice_id(id) {
        let ps = text::parts_text(id, '-');
        let lang = ps[0];
        Some(
            "https://huggingface.co/rhasspy/piper-voices/resolve/39ab474be869e9181350af6a65e4953eef67aaa0/"@
                + text::parts_text(lang, '_')[0] + "/"@ + lang + "/"@ + ps[1] + "/"@ + ps[2] + "/"@
                + id + ".onnx"@,
        )
    } else {
        None
    }
}

fn is_voice_text(id: &str) -> (r: bool)
    ensures
        r == forall|i: int| 0 <= i < id@.len() ==> is_voice_char(#[trigger] id@[i]),
{
    let cs = text::chars_of(id);
    let mut i: usize = 0;
    while i < cs.len()
        invariant
            i <= cs.len(),
            cs@ == id@,
            forall|j: int| 0 <= j < i ==> is_voice_char(#[trigger] cs@[j]),
        decreases cs.len() - i,
    {
        let c = cs[i];
        if !text::ascii_alnum(c) && c != '_' && c != '-' {
            assert(!is_voice_char(id@[i as int]));
            return false;
        }
        i = i + 1;
    }
    true
}

/// Where a voice is fetched from. `None` for an id that is not shaped like one, which is how a
/// hand-typed value is refused before it becomes a URL.
pub fn voice_url(id: &str) -> (r: Option<String>)
    ensures
        match voice_url_text(id@) {
            Some(u) => r is Some && (r->0)@ == u,
            None => r is None,
        },
{
    let ps = text::parts(id, '-');
    let ghost all = text::texts(ps@);
    assert(all.len() == ps@.len());
    if ps.len() != 3 || !is_voice_text(id) {
        return None;
    }
    assert(all[0] == ps@[0]@ && all[1] == ps@[1]@ && all[2] == ps@[2]@);
    let langs = text::parts(ps[0].as_str(), '_');
    let ghost halves = text::texts(langs@);
    assert(halves.len() == langs@.len());
    if langs.len() != 2 {
        return None;
    }
    assert(halves[0] == langs@[0]@ && halves[1] == langs@[1]@);
    if langs[0].as_str().is_empty() || langs[1].as_str().is_empty() || ps[1].as_str().is_empty()
        || ps[2].as_str().is_empty() {
        return None;
    }
    let mut s =
        "https://huggingface.co/rhasspy/piper-voices/resolve/39ab474be869e9181350af6a65e4953eef67aaa0/".to_owned();
    s.append(langs[0].as_str());
    s.append("/");
    s.append(ps[0].as_str());
    s.append("/");
    s.append(ps[1].as_str());
    s.append("/");
    s.append(ps[2].as_str());
    s.append("/");
    s.append(id);
    s.append(".onnx");
    Some(s)
}

/// What the settings row shows about the voice download.
#[derive(Debug)]
pub struct VoiceStatus {
    /// A download is in flight, so the button hides rather than starting a second one.
    pub busy: bool,
    /// Progress or outcome, already phrased for the user. Empty means nothing to say.
    pub text: String,
}

/// The desk between the settings window, which asks for voices, and the frame loop, which fetches
/// them.
#[derive(Debug)]
pub struct VoiceDesk {
    pub status: Option<VoiceStatus>,
    pub wanted: Option<String>,
}

impl VoiceDesk {
    pub fn new() -> (d: VoiceDesk)
        ensures
            d.status is None,
            d.wanted is None,
    {
        VoiceDesk { status: None, wanted: None }
    }
}

/// What the settings row shows about the voice download: nothing, while nothing was said.
pub fn voice_status(desk: &VoiceDesk) -> (r: VoiceStatus)
    ensures
        match desk.status {
            Some(s) => r.busy == s.busy && r.text@ == s.text@,
            None => !r.busy && r.text@.len() == 0,
        },
{
    match &desk.status {
        Some(s) => VoiceStatus { busy: s.busy, text: s.text.clone() },
        None => VoiceStatus { busy: false, text: String::new() },
    }
}

/// Say how the download goes.
pub fn set_voice_status(desk: &mut VoiceDesk, busy: bool, text: &str)
    ensures
        final(desk).wanted == old(desk).wanted,
        final(desk).status matches Some(s) && s.busy == busy && s.text@ == text@,
{
    desk.status = Some(VoiceStatus { busy, text: text.to_owned() });
}

/// Ask for a voice download by id. The settings window cannot fetch, so it parks the request here.
pub fn request_voice_download(desk: &mut VoiceDesk, id: &str)
    ensures
        final(desk).wanted matches Some(w) && w@ == id@,
        final(desk).status matches Some(s) && s.busy && s.text@ == "starting…"@,
{
    desk.wanted = Some(id.to_owned());
    set_voice_status(desk, true, "starting…");
}

/// Take the parked request, once.
pub fn take_voice_request(desk: &mut VoiceDesk) -> (r: Option<String>)
    ensures
        r == old(desk).wanted,
        final(desk).wanted is None,
        final(desk).status == old(desk).status,
{
    desk.wanted.take()
}

// ---------------------------------------------------------------------------------------------
// The engine's own problems.

/// What is wrong with the configured engine, once anything is known to be: the engine that was
/// looked at, and the problem. Keyed by the engine, so editing the field looks again.
#[derive(Debug)]
pub struct Probe {
    pub known: Option<(String, Option<String>)>,
}

/// What the settings show of the engine, and what is to be done to find out.
#[derive(Debug)]
pub enum ProbeStep {
    /// This problem, or that all is well.
    Known(Option<String>),
    /// Nothing is known yet: look at the engine, off the frame loop.
    Look,
}

/// What the settings warn about. The first call for a given engine claims the slot, so a view that
/// redraws many times a second starts one look, not sixty.
pub fn piper_problem(probe: &mut Probe, bin: &str) -> (r: ProbeStep)
    ensures
        match old(probe).known {
            Some((b, problem)) => if b@ == bin@ {
                &&& r matches ProbeStep::Known(p) && crate::cloud::opt_text(p)
                    == crate::cloud::opt_text(problem)
                &&& *final(probe) == *old(probe)
            } else {
                &&& r is Look
                &&& final(probe).known matches Some((c, q)) && c@ == bin@ && q is None
            },
            None => {
                &&& r is Look
                &&& final(probe).known matches Some((c, q)) && c@ == bin@ && q is None
            },
        },
{
    if let Some((b, problem)) = &probe.known {
        if text::same(b.as_str(), bin) {
            let shown = match problem {
                Some(p) => Some(p.clone()),
                None => None,
            };
            return ProbeStep::Known(shown);
        }
    }
    probe.known = Some((bin.to_owned(), None));
    ProbeStep::Look
}

/// Say what was found out about an engine.
pub fn set_piper_problem(probe: &mut Probe, bin: &str, problem: Option<String>)
    ensures
        final(probe).known matches Some((b, p)) && b@ == bin@ && p == problem,
{
    probe.known = Some((bin.to_owned(), problem));
}

/// The engine to run: the configured one, or the one that is installed.
pub open spec fn engine_text(bin: Seq<char>) -> Seq<char> {
    if bin.len() == 0 {
        "piper"@
    } else {
        bin
    }
}

/// The problem of an engine whose help reads `help`: another tool of the same name also answers,
/// but takes no model.
pub open spec fn help_problem(bin: Seq<char>, help: Seq<char>) -> Option<Seq<char>> {
    if text::holds_text(text::lower_text(help), "--model"@) {
        None
    } else {
        Some(
            "`"@ + engine_text(bin)
                + "` is not the text-to-speech Piper — it takes no `--model`."@,
        )
    }
}

/// The problem of an engine whose help reads `help`, if it has one.
pub fn judge_help(bin: &str, help: &str) -> (r: Option<String>)
    ensures
        crate::cloud::opt_text(r) == help_problem(bin@, help@),
{
    let low = text::lower(help);
    if text::holds(low.as_str(), "--model") {
        return None;
    }
    let mut s = "`".to_owned();
    if bin.is_empty() {
        s.append("piper");
    } else {
        s.append(bin);
    }
    s.append("` is not the text-to-speech Piper — it takes no `--model`.");
    Some(s)
}

// ---------------------------------------------------------------------------------------------
// The queue.

/// Urgency of queued speech. Only an emergency may discard anything already waiting.
#[derive(Debug, Clone, Copy, PartialEq, Eq, Structural)]
pub enum Priority {
    Background,
    Warning,
    Emergency,
}

/// The tone before the words: which sound, and the bits of how loud.
#[derive(Debug)]
pub struct Tone {
    pub sound: AlertSound,
    pub volume: u32,
}

/// One announcement: a tone, then lines.
#[derive(Debug)]
pub struct SpeechJob {
    pub priority: Priority,
    pub tone: Option<Tone>,
    pub lines: Vec<String>,
}

/// White space of ASCII.
pub open spec fn is_ascii_space(c: char) -> bool {
    c == ' ' || c == '\t' || c == '\n' || c as u32 == 12 || c == '\r'
}

/// A sentence ends at `i`: with a full stop, an exclamation mark or a question mark before a space
/// or the end. A decimal point is no end.
pub open spec fn ends_sentence(s: Seq<char>, i: int) -> bool {
    (s[i] == '.' || s[i] == '!' || s[i] == '?') && (i + 1 >= s.len() || is_ascii_space(s[i + 1]))
}

/// `s` without white space around it, if there is anything else in it.
pub open spec fn said(s: Seq<char>) -> Seq<Seq<char>> {
    if text::trim_text(s).len() == 0 {
        Seq::empty()
    } else {
        seq![text::trim_text(s)]
    }
}

/// The sentences of `s` from `start` on, where none ends before `i`.
pub open spec fn sentences_from(s: Seq<char>, start: int, i: int) -> Seq<Seq<char>>
    decreases s.len() - i,
{
    if i < 0 || i >= s.len() {
        said(s.skip(start))
    } else if ends_sentence(s, i) {
        said(s.subrange(start, i + 1)) + sentences_from(s, i + 1, i + 1)
    } else {
        sentences_from(s, start, i + 1)
    }
}

/// The sentences of a text.
pub open spec fn sentences(s: Seq<char>) -> Seq<Seq<char>> {
    sentences_from(s, 0, 0)
}

fn push_said(out: &mut Vec<String>, cs: &Vec<char>, from: usize, to: usize)
    requires
        from <= to <= cs.len(),
    ensures
        text::texts(final(out)@) == text::texts(old(out)@) + said(
            cs@.subrange(from as int, to as int),
        ),
{
    let ghost before = text::texts(out@);
    let part = text::text_of_range(cs, from, to);
    let line = text::trim(part.as_str());
    if !line.as_str().is_empty() {
        out.push(line);
    }
    assert(text::texts(out@) =~= before + said(cs@.subrange(from as int, to as int)));
}

/// Break a script at sentence endings, so an emergency never waits behind a whole multi-sentence
/// warning once the voice reaches a natural stopping point.
pub fn split_sentences(script: &str) -> (r: Vec<String>)
    ensures
        text::texts(r@) == sentences(script@),
{
    let cs = text::chars_of(script);
    let mut out: Vec<String> = Vec::new();
    let mut start: usize = 0;
    let mut i: usize = 0;
    assert(text::texts(out@) + sentences_from(cs@, 0, 0) =~= sentences(script@));
    while i < cs.len()
        invariant
            start <= i <= cs.len(),
            cs@ == script@,
            text::texts(out@) + sentences_from(cs@, start as int, i as int) == sentences(script@),
        decreases cs.len() - i,
    {
        let c = cs[i];
        let stops = c == '.' || c == '!' || c == '?';
        let open_after = i + 1 >= cs.len() || cs[i + 1] == ' ' || cs[i + 1] == '\t' || cs[i + 1]
            == '\n' || cs[i + 1] as u32 == 12 || cs[i + 1] == '\r';
        let ghost before = text::texts(out@);
        let ghost rest = sentences_from(cs@, start as int, i as int);
        if stops && open_after {
            push_said(&mut out, &cs, start, i + 1);
            start = i + 1;
            assert(text::texts(out@) + sentences_from(cs@, i + 1, i + 1) =~= before + rest);
        }
        i = i + 1;
    }
    let ghost before = text::texts(out@);
    push_said(&mut out, &cs, start, cs.len());
    assert(cs@.subrange(start as int, cs@.len() as int) =~= cs@.skip(start as int));
    out
}

/// The sentences of several scripts, one after the other.
pub open spec fn all_sentences(lines: Seq<Seq<char>>) -> Seq<Seq<char>>
    decreases lines.len(),
{
    if lines.len() == 0 {
        Seq::empty()
    } else {
        all_sentences(lines.drop_last()) + sentences(lines.last())
    }
}

impl SpeechJob {
    /// An announcement of these scripts, cut into sentences.
    pub fn new(priority: Priority, tone: Option<Tone>, lines: Vec<String>) -> (j: SpeechJob)
        ensures
            j.priority == priority,
            j.tone == tone,
            text::texts(j.lines@) == all_sentences(text::texts(lines@)),
    {
        let ghost all = text::texts(lines@);
        let mut out: Vec<String> = Vec::new();
        let mut i: usize = 0;
        assert(text::texts(out@) =~= all_sentences(all.take(0)));
        while i < lines.len()
            invariant
                i <= lines.len(),
                all == text::texts(lines@),
                text::texts(out@) == all_sentences(all.take(i as int)),
            decreases lines.len() - i,
        {
            proof {
                assert(all.take(i + 1).drop_last() =~= all.take(i as int));
                assert(all.take(i + 1).last() == lines@[i as int]@);
            }
            let ghost before = text::texts(out@);
            let mut more = split_sentences(lines[i].as_str());
            let ghost added = text::texts(more@);
            out.append(&mut more);
            assert(text::texts(out@) =~= before + added);
            i = i + 1;
        }
        assert(all.take(all.len() as int) =~= all);
        SpeechJob { priority, tone, lines: out }
    }

    /// Nothing is to be heard.
    pub fn is_empty(&self) -> (r: bool)
        ensures
            r == (self.tone is None && self.lines@.len() == 0),
    {
        self.tone.is_none() && self.lines.len() == 0
    }
}

/// The emergencies of a queue, in order.
pub open spec fn emergencies(queue: Seq<SpeechJob>) -> Seq<SpeechJob>
    decreases queue.len(),
{
    if queue.len() == 0 {
        Seq::empty()
    } else if queue.last().priority == Priority::Emergency {
        emergencies(queue.drop_last()).push(queue.last())
    } else {
        emergencies(queue.drop_last())
    }
}

/// The queue after an announcement was put into it: at its end, and an emergency discards
/// everything waiting that is none.
pub open spec fn queued(queue: Seq<SpeechJob>, job: SpeechJob) -> Seq<SpeechJob> {
    if job.priority == Priority::Emergency {
        emergencies(queue).push(job)
    } else {
        queue.push(job)
    }
}

/// Put an announcement into the queue.
pub fn enqueue(queue: &mut VecDeque<SpeechJob>, job: SpeechJob)
    ensures
        final(queue)@ == queued(old(queue)@, job),
{
    if job.priority == Priority::Emergency {
        let ghost all = queue@;
        let mut kept: VecDeque<SpeechJob> = VecDeque::new();
        let ghost mut done: int = 0;
        assert(kept@ =~= emergencies(all.take(0)));
        while queue.len() > 0
            invariant
                0 <= done <= all.len(),
                queue@ == all.skip(done),
                kept@ == emergencies(all.take(done)),
            decreases queue@.len(),
        {
            proof {
                assert(queue@[0] == all[done]);
                assert(all.take(done + 1).drop_last() =~= all.take(done));
                assert(all.take(done + 1).last() == all[done]);
                assert(all.skip(done).skip(1) =~= all.skip(done + 1));
            }
            let next = queue.pop_front();
            if let Some(j) = next {
                if j.priority == Priority::Emergency {
                    kept.push_back(j);
                }
            }
            proof {
                done = done + 1;
            }
            assert(queue@ =~= all.skip(done));
        }
        assert(all.take(all.len() as int) =~= all);
        *queue = kept;
    }
    queue.push_back(job);
}

/// An emergency waits.
pub open spec fn has_emergency(queue: Seq<SpeechJob>) -> bool {
    exists|i: int| 0 <= i < queue.len() && (#[trigger] queue[i]).priority == Priority::Emergency
}

/// Whether an emergency waits.
pub fn emergency_waiting(queue: &VecDeque<SpeechJob>) -> (r: bool)
    ensures
        r == has_emergency(queue@),
{
    let mut i: usize = 0;
    while i < queue.len()
        invariant
            i <= queue@.len(),
            forall|j: int|
                0 <= j < i ==> (#[trigger] queue@[j]).priority != Priority::Emergency,
        decreases queue@.len() - i,
    {
        if queue[i].priority == Priority::Emergency {
            assert(queue@[i as int].priority == Priority::Emergency);
            return true;
        }
        i = i + 1;
    }
    false
}

/// Whether the announcement being made stops at the next sentence: it is no emergency, and one
/// waits.
pub fn should_preempt(current: Priority, queue: &VecDeque<SpeechJob>) -> (r: bool)
    ensures
        r == (current != Priority::Emergency && has_emergency(queue@)),
{
    current != Priority::Emergency && emergency_waiting(queue)
}

/// Queue the tone, then the words. Says whether there is anything to be heard.
pub fn announce(
    queue: &mut VecDeque<SpeechJob>,
    priority: Priority,
    tone: Option<Tone>,
    lines: Vec<String>,
) -> (r: bool)
    ensures
        r == !(tone is None && all_sentences(text::texts(lines@)).len() == 0),
        !r ==> final(queue)@ == old(queue)@,
        r ==> exists|job: SpeechJob|
            {
                &&& job.priority == priority
                &&& job.tone == tone
                &&& text::texts(job.lines@) == all_sentences(text::texts(lines@))
                &&& final(queue)@ == #[trigger] queued(old(queue)@, job)
            },
{
    let job = SpeechJob::new(priority, tone, lines);
    assert(text::texts(job.lines@).len() == job.lines@.len());
    if job.is_empty() {
        return false;
    }
    let ghost put = job;
    enqueue(queue, job);
    assert(queue@ == queued(old(queue)@, put));
    true
}

/// Queue something to say without urgency: it waits for a warning to finish rather than
/// interrupting it.
pub fn speak(queue: &mut VecDeque<SpeechJob>, words: &str) -> (r: bool)
    ensures
        r == (sentences(words@).len() > 0),
        !r ==> final(queue)@ == old(queue)@,
        r ==> exists|job: SpeechJob|
            {
                &&& job.priority == Priority::Background
                &&& job.tone is None
                &&& text::texts(job.lines@) == sentences(words@)
                &&& final(queue)@ == #[trigger] queued(old(queue)@, job)
            },
{
    let mut lines: Vec<String> = Vec::new();
    lines.push(words.to_owned());
    proof {
        let ls = text::texts(lines@);
        reveal_with_fuel(all_sentences, 2);
        assert(ls =~= seq![words@]);
        assert(ls.drop_last() =~= Seq::<Seq<char>>::empty());
        assert(all_sentences(ls) =~= sentences(words@));
    }
    announce(queue, Priority::Background, None, lines)
}

/// Only emergencies wait behind an emergency, and every one that waited still does.
pub proof fn emergencies_come_through(queue: Seq<SpeechJob>, job: SpeechJob, i: int)
    requires
        job.priority == Priority::Emergency,
    ensures
        0 <= i < queued(queue, job).len() ==> queued(queue, job)[i].priority
            == Priority::Emergency,
        0 <= i < queue.len() && queue[i].priority == Priority::Emergency ==> queued(
            queue,
            job,
        ).contains(queue[i]),
        queued(queue, job).last() == job,
{
    lemma_emergencies(queue);
    let q = queued(queue, job);
    if 0 <= i < queue.len() && queue[i].priority == Priority::Emergency {
        let k = emergencies(queue).index_of(queue[i]);
        assert(q[k] == queue[i]);
    }
}

proof fn lemma_emergencies(queue: Seq<SpeechJob>)
    ensures
        forall|i: int|
            0 <= i < emergencies(queue).len() ==> (#[trigger] emergencies(queue)[i]).priority
                == Priority::Emergency,
        forall|i: int|
            0 <= i < queue.len() && queue[i].priority == Priority::Emergency ==> emergencies(
                queue,
            ).contains(#[trigger] queue[i]),
    decreases queue.len(),
{
    if queue.len() > 0 {
        let t = queue.drop_last();
        lemma_emergencies(t);
        assert forall|i: int|
            0 <= i < queue.len() && queue[i].priority == Priority::Emergency implies emergencies(
            queue,
        ).contains(#[trigger] queue[i]) by {
            if i < t.len() {
                assert(t[i] == queue[i]);
                let k = emergencies(t).index_of(queue[i]);
                assert(emergencies(queue)[k] == queue[i]);
            } else {
                assert(emergencies(queue).last() == queue[i]);
            }
        }
    }
}

/// Ordinary speech stays in order: nothing that waits is discarded or passed.
pub proof fn ordinary_speech_waits_its_turn(queue: Seq<SpeechJob>, job: SpeechJob)
    requires
        job.priority != Priority::Emergency,
    ensures
        queued(queue, job).drop_last() == queue,
        queued(queue, job).last() == job,
{
    assert(queued(queue, job).drop_last() =~= queue);
}

/// An announcement keeps the order of its scripts: those of two lists, one after the other, are said
/// one after the other, and one script is its sentences.
pub proof fn scripts_are_said_in_order(a: Seq<Seq<char>>, b: Seq<Seq<char>>, s: Seq<char>)
    ensures
        all_sentences(a + b) == all_sentences(a) + all_sentences(b),
        all_sentences(seq![s]) == sentences(s),
        all_sentences(Seq::<Seq<char>>::empty()) == Seq::<Seq<char>>::empty(),
    decreases b.len(),
{
    let one = seq![s];
    assert(one.drop_last() =~= Seq::<Seq<char>>::empty());
    assert(all_sentences(one.drop_last()) =~= Seq::<Seq<char>>::empty());
    assert(all_sentences(one) =~= sentences(s));
    if b.len() == 0 {
        assert(a + b =~= a);
        assert(all_sentences(a + b) =~= all_sentences(a) + all_sentences(b));
    } else {
        assert((a + b).drop_last() =~= a + b.drop_last());
        scripts_are_said_in_order(a, b.drop_last(), s);
        assert(all_sentences(a + b) =~= all_sentences(a) + all_sentences(b));
    }
}

/// A full stop, an exclamation mark or a question mark.
pub open spec fn is_stop(c: char) -> bool {
    c == '.' || c == '!' || c == '?'
}

/// No sentence ends inside the text: no stop in it has a space behind it.
pub open spec fn is_one_sentence(t: Seq<char>) -> bool {
    forall|i: int|
        0 <= i < t.len() - 1 && is_stop(#[trigger] t[i]) ==> t[i + 1] != ' ' && t[i + 1] != '\t'
            && t[i + 1] != '\n' && t[i + 1] != '\r'
}

proof fn lemma_one_sentence(s: Seq<char>, from: int, to: int)
    requires
        0 <= from <= to <= s.len(),
        forall|k: int| from <= k < to - 1 ==> !#[trigger] ends_sentence(s, k),
    ensures
        is_one_sentence(s.subrange(from, to)),
        is_one_sentence(text::trim_text(s.subrange(from, to))),
{
    let t = s.subrange(from, to);
    assert forall|i: int| 0 <= i < t.len() - 1 && is_stop(#[trigger] t[i]) implies t[i + 1] != ' '
        && t[i + 1] != '\t' && t[i + 1] != '\n' && t[i + 1] != '\r' by {
        assert(!ends_sentence(s, from + i));
        assert(t[i] == s[from + i] && t[i + 1] == s[from + i + 1]);
    }
    let (a, b) = text::trimming_takes_only_space(t);
    let u = t.subrange(a, b);
    assert forall|i: int| 0 <= i < u.len() - 1 && is_stop(#[trigger] u[i]) implies u[i + 1] != ' '
        && u[i + 1] != '\t' && u[i + 1] != '\n' && u[i + 1] != '\r' by {
        assert(u[i] == t[a + i] && u[i + 1] == t[a + i + 1]);
    }
}

/// A sentence that was cut off ends with the stop it was cut off at.
proof fn lemma_stop_stays(s: Seq<char>, from: int, to: int)
    requires
        0 <= from < to <= s.len(),
        is_stop(s[to - 1]),
    ensures
        text::trim_text(s.subrange(from, to)).len() > 0,
        is_stop(text::trim_text(s.subrange(from, to)).last()),
{
    let t = s.subrange(from, to);
    let (a, b) = text::trimming_takes_only_space(t);
    assert(t[t.len() - 1] == s[to - 1]);
    assert(!text::is_space(t[t.len() - 1]));
    assert(b == t.len());
}

proof fn lemma_sentences_from(s: Seq<char>, start: int, i: int)
    requires
        0 <= start <= i <= s.len(),
        forall|k: int| start <= k < i ==> !#[trigger] ends_sentence(s, k),
    ensures
        sentences_from(s, start, i).flatten().filter(text::inked()) == s.skip(start).filter(
            text::inked(),
        ),
        forall|j: int|
            0 <= j < sentences_from(s, start, i).len() ==> {
                let t = #[trigger] sentences_from(s, start, i)[j];
                &&& t.len() > 0
                &&& !text::is_space(t[0])
                &&& !text::is_space(t.last())
                &&& is_one_sentence(t)
                &&& j < sentences_from(s, start, i).len() - 1 ==> is_stop(t.last())
            },
    decreases s.len() - i,
{
    let p = text::inked();
    if i >= s.len() {
        let u = s.skip(start);
        assert(u =~= s.subrange(start, s.len() as int));
        lemma_one_sentence(s, start, s.len() as int);
        lemma_said(u);
    } else if ends_sentence(s, i) {
        let u = s.subrange(start, i + 1);
        let rest = sentences_from(s, i + 1, i + 1);
        lemma_one_sentence(s, start, i + 1);
        lemma_stop_stays(s, start, i + 1);
        lemma_said(u);
        lemma_sentences_from(s, i + 1, i + 1);
        let all = sentences_from(s, start, i);
        assert(all =~= seq![text::trim_text(u)] + rest);
        assert(all.drop_first() =~= rest);
        assert(all.flatten() =~= text::trim_text(u) + rest.flatten());
        Seq::filter_distributes_over_add(text::trim_text(u), rest.flatten(), p);
        Seq::filter_distributes_over_add(u, s.skip(i + 1), p);
        assert(s.skip(start) =~= u + s.skip(i + 1));
        text::lemma_trim_keeps_ink(u);
        let (a, b) = text::trimming_takes_only_space(u);
        assert forall|j: int| 0 <= j < all.len() implies {
            let t = #[trigger] all[j];
            &&& t.len() > 0
            &&& !text::is_space(t[0])
            &&& !text::is_space(t.last())
            &&& is_one_sentence(t)
            &&& j < all.len() - 1 ==> is_stop(t.last())
        } by {
            if j > 0 {
                assert(all[j] == rest[j - 1]);
            }
        }
    } else {
        lemma_sentences_from(s, start, i + 1);
    }
}

proof fn lemma_said(u: Seq<char>)
    ensures
        said(u).flatten().filter(text::inked()) == u.filter(text::inked()),
        said(u).len() <= 1,
        said(u).len() == 1 ==> {
            let t = said(u)[0];
            &&& t == text::trim_text(u)
            &&& t.len() > 0
            &&& !text::is_space(t[0])
            &&& !text::is_space(t.last())
        },
{
    let p = text::inked();
    text::lemma_trim_keeps_ink(u);
    let (a, b) = text::trimming_takes_only_space(u);
    let t = text::trim_text(u);
    if t.len() == 0 {
        assert(said(u).flatten() =~= Seq::<char>::empty());
        reveal(Seq::filter);
        assert(t.filter(p) =~= Seq::<char>::empty());
    } else {
        said(u).lemma_flatten_one_element();
    }
}

/// A script is said whole and in order: its sentences hold every character of it but white space,
/// one after the other. Each is one sentence, with something to say and no white space around it,
/// and all but the last end with a stop.
pub proof fn scripts_are_said_whole(s: Seq<char>)
    ensures
        sentences(s).flatten().filter(text::inked()) == s.filter(text::inked()),
        forall|j: int|
            0 <= j < sentences(s).len() ==> {
                let t = #[trigger] sentences(s)[j];
                &&& t.len() > 0
                &&& !text::is_space(t[0])
                &&& !text::is_space(t.last())
                &&& is_one_sentence(t)
                &&& j < sentences(s).len() - 1 ==> is_stop(t.last())
            },
{
    lemma_sentences_from(s, 0, 0);
    assert(s.skip(0) =~= s);
}

/// The emergencies among announcements.
pub open spec fn urgent() -> spec_fn(SpeechJob) -> bool {
    |j: SpeechJob| j.priority == Priority::Emergency
}

/// An emergency goes behind the emergencies that wait, which stay in order, and nothing else stays.
pub proof fn emergencies_keep_their_order(queue: Seq<SpeechJob>, job: SpeechJob)
    requires
        job.priority == Priority::Emergency,
    ensures
        queued(queue, job) == queue.filter(urgent()).push(job),
{
    lemma_emergencies_are_kept(queue);
}

proof fn lemma_emergencies_are_kept(queue: Seq<SpeechJob>)
    ensures
        emergencies(queue) == queue.filter(urgent()),
    decreases queue.len(),
{
    reveal(Seq::filter);
    if queue.len() > 0 {
        lemma_emergencies_are_kept(queue.drop_last());
    } else {
        assert(emergencies(queue) =~= queue.filter(urgent()));
    }
}

/// A voice is fetched from where its id says: by language, by language and region, by name and by
/// quality, from the one pinned revision.
pub proof fn voices_are_found_by_their_id(
    lang: Seq<char>,
    region: Seq<char>,
    name: Seq<char>,
    quality: Seq<char>,
)
    requires
        lang.len() > 0 && region.len() > 0 && name.len() > 0 && quality.len() > 0,
        text::all_alnum(lang),
        text::all_alnum(region),
        text::all_alnum(name),
        text::all_alnum(quality),
    ensures
        ({
            let locale = lang + seq!['_'] + region;
            let id = locale + seq!['-'] + name + seq!['-'] + quality;
            voice_url_text(id) == Some(
                "https://huggingface.co/rhasspy/piper-voices/resolve/39ab474be869e9181350af6a65e4953eef67aaa0/"@
                    + lang + "/"@ + locale + "/"@ + name + "/"@ + quality + "/"@ + id + ".onnx"@,
            )
        }),
{
    let locale = lang + seq!['_'] + region;
    let id = locale + seq!['-'] + name + seq!['-'] + quality;
    lemma_alnum_lacks(lang);
    lemma_alnum_lacks(region);
    lemma_alnum_lacks(name);
    lemma_alnum_lacks(quality);
    assert(!locale.contains('-')) by {
        if locale.contains('-') {
            let k = locale.index_of('-');
            if k < lang.len() {
                assert(lang[k] == '-');
            } else if k > lang.len() {
                assert(region[k - lang.len() - 1] == '-');
            }
        }
    }
    text::parts_undo_joining(lang, region, '_');
    text::parts_undo_joining(region, region, '_');
    let rest = name + seq!['-'] + quality;
    assert(id =~= locale + seq!['-'] + rest);
    text::parts_undo_joining(locale, rest, '-');
    text::parts_undo_joining(name, quality, '-');
    text::parts_undo_joining(quality, quality, '-');
    let ps = text::parts_text(id, '-');
    assert(ps =~= seq![locale, name, quality]);
    assert(text::parts_text(locale, '_') =~= seq![lang, region]);
    assert forall|i: int| 0 <= i < id.len() implies is_voice_char(#[trigger] id[i]) by {
        let (a, b, c) = (locale.len() as int, name.len() as int, quality.len() as int);
        if i < a {
            assert(id[i] == locale[i]);
        } else if i < a + 1 {
            assert(id[i] == '-');
        } else if i < a + 1 + b {
            assert(id[i] == name[i - a - 1]);
        } else if i < a + 2 + b {
            assert(id[i] == '-');
        } else {
            assert(id[i] == quality[i - a - b - 2]);
        }
    }
}

proof fn lemma_alnum_lacks(s: Seq<char>)
    requires
        text::all_alnum(s),
    ensures
        !s.contains('-'),
        !s.contains('_'),
{
    if s.contains('-') {
        assert(text::is_ascii_alnum(s[s.index_of('-')]));
    }
    if s.contains('_') {
        assert(text::is_ascii_alnum(s[s.index_of('_')]));
    }
}

/// No two voices share a file, whatever their ids.
pub proof fn voices_have_their_own_files(a: Seq<char>, b: Seq<char>)
    requires
        voice_path_text(a) == voice_path_text(b),
    ensures
        a == b,
        text::starts(voice_path_text(a), "voices/"@),
        text::ends(voice_path_text(a), ".onnx"@),
{
    reveal_strlit("voices/");
    reveal_strlit(".onnx");
    let x = voice_path_text(a);
    assert(x.subrange(7, x.len() - 5) =~= a);
    assert(x.subrange(7, x.len() - 5) =~= b);
    text::joined_texts_are_found(Seq::empty(), "voices/"@, a + ".onnx"@);
    assert(x =~= "voices/"@ + (a + ".onnx"@));
    text::joined_texts_are_found("voices/"@ + a, ".onnx"@, Seq::empty());
}

/// An engine whose help speaks of a model, in whatever case, is taken to be the right one; any other
/// is named in what is wrong with it.
pub proof fn the_right_engine_takes_a_model(
    bin: Seq<char>,
    before: Seq<char>,
    flag: Seq<char>,
    after: Seq<char>,
    help: Seq<char>,
)
    requires
        text::lower_text(flag) == "--model"@,
        bin.len() > 0,
    ensures
        help_problem(bin, before + flag + after) is None,
        help_problem(bin, help) is Some ==> text::holds_text(help_problem(bin, help)->0, bin),
        help_problem(bin, Seq::empty()) is Some,
{
    let l = text::lower_text(before + flag + after);
    text::joined_texts_are_found(text::lower_text(before), "--model"@, text::lower_text(after));
    assert(l =~= text::lower_text(before) + text::lower_text(flag) + text::lower_text(after));
    let tail = "` is not the text-to-speech Piper — it takes no `--model`."@;
    text::joined_texts_are_found("`"@, bin, tail);
    reveal_strlit("--model");
    let e = text::lower_text(Seq::empty());
    if text::holds_text(e, "--model"@) {
        let k = choose|k: int| text::stands_at(e, "--model"@, k);
        assert(text::stands_at(e, "--model"@, k));
    }
}

/// A voice is named by its language and region, its own name and its quality, of letters and digits;
/// nothing that could leave its directory names one.
pub proof fn voices_are_named_in_three_parts(
    language: Seq<char>,
    region: Seq<char>,
    name: Seq<char>,
    quality: Seq<char>,
    other: Seq<char>,
)
    requires
        text::all_alnum(language) && text::all_alnum(region) && text::all_alnum(name)
            && text::all_alnum(quality),
        language.len() > 0 && region.len() > 0 && name.len() > 0 && quality.len() > 0,
    ensures
        is_voice_id(language + seq!['_'] + region + seq!['-'] + name + seq!['-'] + quality),
        other.contains('/') || other.contains('.') || other.contains('\\') ==> !is_voice_id(other),
        !other.contains('-') ==> !is_voice_id(other),
{
    let locale = language + seq!['_'] + region;
    let rest = name + seq!['-'] + quality;
    let id = language + seq!['_'] + region + seq!['-'] + name + seq!['-'] + quality;
    assert(id =~= locale + seq!['-'] + rest);
    lemma_plain(language);
    lemma_plain(region);
    lemma_plain(name);
    lemma_plain(quality);
    assert(!locale.contains('-')) by {
        if locale.contains('-') {
            let k = locale.index_of('-');
            if k < language.len() {
                assert(language[k] == '-');
            } else if k > language.len() {
                assert(region[k - language.len() - 1] == '-');
            }
        }
    }
    text::parts_undo_joining(locale, rest, '-');
    text::parts_undo_joining(name, quality, '-');
    text::parts_undo_joining(quality, quality, '-');
    text::parts_undo_joining(language, region, '_');
    text::parts_undo_joining(region, region, '_');
    assert(text::parts_text(id, '-') =~= seq![locale, name, quality]);
    assert(text::parts_text(locale, '_') =~= seq![language, region]);
    assert forall|i: int| 0 <= i < id.len() implies is_voice_char(#[trigger] id[i]) by {
        let (a, b, c) = (language.len() as int, region.len() as int, name.len() as int);
        if i < a {
            assert(id[i] == language[i]);
        } else if a < i < a + 1 + b {
            assert(id[i] == region[i - a - 1]);
        } else if a + 1 + b < i < a + b + c + 2 {
            assert(id[i] == name[i - a - b - 2]);
        } else if i > a + b + c + 2 {
            assert(id[i] == quality[i - a - b - c - 3]);
        }
    }
    assert forall|c: char| other.contains(c) && is_voice_id(other) implies is_voice_char(c) by {
        assert(is_voice_char(other[other.index_of(c)]));
    }
    if !other.contains('-') {
        text::parts_undo_joining(other, other, '-');
    }
}

proof fn lemma_plain(s: Seq<char>)
    requires
        text::all_alnum(s),
    ensures
        !s.contains('-') && !s.contains('_'),
{
    if s.contains('-') {
        assert(text::is_ascii_alnum(s[s.index_of('-')]));
    }
    if s.contains('_') {
        assert(text::is_ascii_alnum(s[s.index_of('_')]));
    }
}

} // verus!
