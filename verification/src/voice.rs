//! How an announcement is heard: the loop that works through the queue, and the engines that a line
//! is handed to.

use crate::settings::Number32;
use crate::speech::{engine_text, has_emergency, should_preempt, Piper, Priority, SpeechJob, Tone};
use crate::text;
use std::collections::VecDeque;
use vstd::prelude::*;

verus! {

// ---------------------------------------------------------------------------------------------
// Working through the queue.

/// What the speaker does next.
#[derive(Debug)]
pub enum SpeechStep {
    /// Nothing waits.
    Wait,
    /// Play this to its end.
    Play(Tone),
    /// Say this to its end.
    Say(String),
}

/// The announcement being made: how urgent it is, and the lines that are left, the next one last.
#[derive(Debug)]
pub struct Current {
    pub priority: Priority,
    pub rest: Vec<String>,
}

/// One announcement at a time: the tone, then the words.
#[derive(Debug)]
pub struct Speaker {
    pub current: Option<Current>,
}

/// What is next, without a look at what is being said: announcements are taken from the front of
/// the queue, until one has a tone, or a line that no emergency keeps from being said.
pub open spec fn upcoming(queue: Seq<SpeechJob>) -> (int, bool)
    decreases queue.len(),
{
    if queue.len() == 0 {
        (0, false)
    } else {
        let job = queue[0];
        let rest = queue.skip(1);
        if job.tone is Some || (job.lines@.len() > 0 && !(job.priority != Priority::Emergency
            && has_emergency(rest))) {
            (1, true)
        } else {
            (upcoming(rest).0 + 1, upcoming(rest).1)
        }
    }
}

/// The lines from last to first.
pub open spec fn turned(lines: Seq<String>) -> Seq<String> {
    Seq::new(lines.len(), |i: int| lines[lines.len() - 1 - i])
}

impl Speaker {
    /// The next line of the announcement being made may be said.
    pub open spec fn goes_on(self, queue: Seq<SpeechJob>) -> bool {
        match self.current {
            Some(c) => c.rest@.len() > 0 && !(c.priority != Priority::Emergency && has_emergency(
                queue,
            )),
            None => false,
        }
    }

    /// Nothing is being said.
    pub fn new() -> (s: Speaker)
        ensures
            s.current is None,
    {
        Speaker { current: None }
    }

    /// What to do next. Between two lines of an announcement, an emergency that waits takes its
    /// place; what it cuts short is not taken up again.
    pub fn next(&mut self, queue: &mut VecDeque<SpeechJob>) -> (step: SpeechStep)
        ensures
            old(self).goes_on(old(queue)@) ==> {
                &&& final(queue)@ == old(queue)@
                &&& step matches SpeechStep::Say(line) && line
                    == (old(self).current->0).rest@.last()
                &&& final(self).current matches Some(c) && c.priority
                    == (old(self).current->0).priority && c.rest@ == (old(self).current->0).rest@.drop_last()
            },
            !old(self).goes_on(old(queue)@) ==> {
                let (n, found) = upcoming(old(queue)@);
                &&& 0 <= n <= old(queue)@.len()
                &&& final(queue)@ == old(queue)@.skip(n)
                &&& !found ==> step is Wait && final(self).current is None
                &&& found ==> {
                    let job = old(queue)@[n - 1];
                    &&& final(self).current matches Some(c) && c.priority == job.priority && match
                    job.tone {
                        Some(t) => step == SpeechStep::Play(t) && c.rest@ == turned(job.lines@),
                        None => step == SpeechStep::Say(job.lines@[0]) && c.rest@ == turned(
                            job.lines@,
                        ).drop_last(),
                    }
                }
            },
    {
        let ghost was = queue@;
        let taken = self.current.take();
        if let Some(c) = taken {
            let mut c = c;
            if c.rest.len() > 0 && !should_preempt(c.priority, queue) {
                let line = c.rest.pop().unwrap();
                self.current = Some(c);
                return SpeechStep::Say(line);
            }
        }
        let ghost mut done: int = 0;
        assert(was.skip(0) =~= was);
        while queue.len() > 0
            invariant
                0 <= done <= was.len(),
                queue@ == was.skip(done),
                self.current is None,
                !old(self).goes_on(was),
                was == old(queue)@,
                upcoming(was).0 == upcoming(was.skip(done)).0 + done,
                upcoming(was).1 == upcoming(was.skip(done)).1,
            decreases queue@.len(),
        {
            let ghost before = queue@;
            proof {
                assert(before[0] == was[done]);
                assert(was.skip(done).skip(1) =~= was.skip(done + 1));
            }
            let job = queue.pop_front().unwrap();
            assert(queue@ =~= before.skip(1));
            proof {
                done = done + 1;
            }
            assert(queue@ == was.skip(done));
            let SpeechJob { priority, tone, lines } = job;
            let ghost all = lines@;
            let some = lines.len() > 0;
            let mut rest = turn(lines);
            match tone {
                Some(t) => {
                    self.current = Some(Current { priority, rest });
                    return SpeechStep::Play(t);
                },
                None => {
                    if some && !should_preempt(priority, queue) {
                        let line = rest.pop().unwrap();
                        assert(line == all[0]);
                        self.current = Some(Current { priority, rest });
                        return SpeechStep::Say(line);
                    }
                },
            }
        }
        assert(was.skip(done) =~= Seq::<SpeechJob>::empty());
        SpeechStep::Wait
    }

    /// A line could not be said: the rest of its announcement is dropped.
    pub fn failed(&mut self)
        ensures
            final(self).current is None,
    {
        self.current = None;
    }
}

fn turn(lines: Vec<String>) -> (r: Vec<String>)
    ensures
        r@ == turned(lines@),
{
    let ghost all = lines@;
    let mut lines = lines;
    let mut r: Vec<String> = Vec::new();
    while lines.len() > 0
        invariant
            lines@.len() + r@.len() == all.len(),
            lines@ == all.take(lines@.len() as int),
            forall|i: int| 0 <= i < r@.len() ==> r@[i] == all[all.len() - 1 - i],
        decreases lines@.len(),
    {
        let ghost n = lines@.len() as int;
        let line = lines.pop().unwrap();
        assert(line == all[n - 1]);
        assert(lines@ =~= all.take(n - 1));
        r.push(line);
    }
    assert(r@ =~= turned(all));
    r
}

/// Once an emergency waits, nothing less urgent says another line.
pub proof fn emergencies_cut_in(s: Speaker, queue: Seq<SpeechJob>)
    requires
        has_emergency(queue),
        s.current is Some,
        (s.current->0).priority != Priority::Emergency,
    ensures
        !s.goes_on(queue),
{
}

// ---------------------------------------------------------------------------------------------
// Loudness.

/// The bits of 1, of infinity, and of the sign.
pub const FULL_VOLUME: u32 = 0x3f800000;

pub const INFINITE: u32 = 0x7f800000;

pub const SIGN: u32 = 0x80000000;

/// A loudness held between none and full: more than full is full, less than none is none; what is
/// no number stays as it is.
pub open spec fn held_volume(v: u32) -> u32 {
    if v <= FULL_VOLUME {
        v
    } else if v <= INFINITE {
        FULL_VOLUME
    } else if v <= SIGN {
        v
    } else if v <= SIGN + INFINITE {
        0
    } else {
        v
    }
}

/// How loud the speech path is, from the slider that the alert tones use.
pub fn set_volume(v: Number32) -> (r: Number32)
    ensures
        r.bits == held_volume(v.bits),
{
    let b: u32 = v.bits;
    let bits: u32 = if b <= FULL_VOLUME {
        b
    } else if b <= INFINITE {
        FULL_VOLUME
    } else if b <= SIGN {
        b
    } else if b <= SIGN + INFINITE {
        0
    } else {
        b
    };
    Number32 { bits }
}

// ---------------------------------------------------------------------------------------------
// The neural voice.

/// A program to run.
#[derive(Debug)]
pub struct Run {
    pub bin: String,
    pub args: Vec<String>,
}

impl Run {
    pub open spec fn is(self, bin: Seq<char>, args: Seq<Seq<char>>) -> bool {
        self.bin@ == bin && text::texts(self.args@) == args
    }
}

/// What the neural voice does with a line.
#[derive(Debug)]
pub enum PiperStep {
    /// Nothing: the platform's engine speaks. What is wrong, where that is known.
    Skip(Option<String>),
    /// Run this, with the line as its input, and play the sound it puts out.
    Start(Run),
}

/// Whether the neural voice speaks: a voice has to be configured, and its model to be there.
pub fn piper(config: &Piper, voice_exists: bool) -> (r: PiperStep)
    ensures
        if config.voice@.len() == 0 {
            r matches PiperStep::Skip(p) && p is None
        } else if !voice_exists {
            r matches PiperStep::Skip(Some(p)) && p@ == "voice model not found: "@ + config.voice@
        } else {
            r matches PiperStep::Start(run) && run.is(
                engine_text(config.bin@),
                seq!["--model"@, config.voice@, "--output_file"@, "-"@],
            )
        },
{
    if config.voice.as_str().is_empty() {
        return PiperStep::Skip(None);
    }
    if !voice_exists {
        let p = text::join2("voice model not found: ", config.voice.as_str());
        return PiperStep::Skip(Some(p));
    }
    let bin = if config.bin.as_str().is_empty() {
        "piper".to_owned()
    } else {
        config.bin.clone()
    };
    let mut args: Vec<String> = Vec::new();
    args.push("--model".to_owned());
    args.push(config.voice.clone());
    args.push("--output_file".to_owned());
    args.push("-".to_owned());
    assert(text::texts(args@) =~= seq!["--model"@, config.voice@, "--output_file"@, "-"@]);
    PiperStep::Start(Run { bin, args })
}

/// The outcome of a line handed to the neural voice: whether it spoke, else why it failed where
/// that is worth a warning; and what is to be said of the engine, where anything is.
#[derive(Debug)]
pub struct PiperEnd {
    pub spoke: Result<bool, String>,
    /// `Some(None)` says that all is well.
    pub problem: Option<Option<String>>,
}

/// The nudge for a machine with a voice selected and no engine to speak it.
pub fn not_found_text(linux: bool) -> (r: &'static str)
    ensures
        r@ == nudge(linux),
{
    if linux {
        "Piper is not installed — on Arch: `yay -S piper-tts-bin` (not `extra/piper`, which is a mouse tool). Or point the field above at the binary."
    } else {
        "Piper is not installed — download piper-tts from github.com/rhasspy/piper/releases and point the field above at the binary."
    }
}

pub open spec fn nudge(linux: bool) -> Seq<char> {
    if linux {
        "Piper is not installed — on Arch: `yay -S piper-tts-bin` (not `extra/piper`, which is a mouse tool). Or point the field above at the binary."@
    } else {
        "Piper is not installed — download piper-tts from github.com/rhasspy/piper/releases and point the field above at the binary."@
    }
}

/// The engine could not be started. Not installed is the common case, and no failure worth a
/// warning, but worth saying in the settings, where the user asked for this voice.
pub fn piper_unstarted(bin: &str, missing: bool, why: &str, linux: bool) -> (r: PiperEnd)
    ensures
        if missing {
            &&& r.spoke == Ok::<bool, String>(false)
            &&& r.problem matches Some(Some(p)) && p@ == nudge(linux)
        } else {
            &&& r.spoke matches Err(e) && e@ == "spawn "@ + bin@ + ": "@ + why@
            &&& r.problem is None
        },
{
    if missing {
        PiperEnd { spoke: Ok(false), problem: Some(Some(not_found_text(linux).to_owned())) }
    } else {
        let mut e = "spawn ".to_owned();
        e.append(bin);
        e.append(": ");
        e.append(why);
        PiperEnd { spoke: Err(e), problem: None }
    }
}

/// The engine ran. One that failed, or put out no sound, is likely another tool of the same name.
pub fn piper_ran(bin: &str, status: &str, success: bool, sound_bytes: usize) -> (r: PiperEnd)
    ensures
        if success && sound_bytes > 0 {
            &&& r.spoke == Ok::<bool, String>(true)
            &&& r.problem == Some(None::<String>)
        } else {
            &&& r.spoke matches Err(e) && e@ == "piper exited "@ + status@
            &&& r.problem matches Some(Some(p)) && p@ == bin@ + " exited "@ + status@
                + " with no audio — is this the text-to-speech piper?"@
        },
{
    if success && sound_bytes > 0 {
        PiperEnd { spoke: Ok(true), problem: Some(None) }
    } else {
        let mut p = bin.to_owned();
        p.append(" exited ");
        p.append(status);
        p.append(" with no audio — is this the text-to-speech piper?");
        PiperEnd { spoke: Err(text::join2("piper exited ", status)), problem: Some(Some(p)) }
    }
}

// ---------------------------------------------------------------------------------------------
// The platform's engines.

/// Where the app runs, as far as its speech engines go.
#[derive(Debug, Clone, Copy, PartialEq, Eq, Structural)]
pub enum Platform {
    Linux,
    MacOs,
    Windows,
    Other,
}

/// A script for the speech engine of Windows, with the line's quotes doubled.
pub open spec fn windows_script(line: Seq<char>) -> Seq<char> {
    "Add-Type -AssemblyName System.Speech; (New-Object System.Speech.Synthesis.SpeechSynthesizer).Speak('"@
        + text::replaced(line, "'"@, "''"@) + "')"@
}

/// The engines of a platform, in the order they are tried.
pub open spec fn engines(p: Platform, line: Seq<char>) -> Seq<(Seq<char>, Seq<Seq<char>>)> {
    match p {
        Platform::Linux => seq![
            ("spd-say"@, seq!["-w"@, line]),
            ("espeak-ng"@, seq![line]),
            ("espeak"@, seq![line]),
        ],
        Platform::MacOs => seq![("say"@, seq![line])],
        Platform::Windows => seq![
            ("powershell"@, seq!["-NoProfile"@, "-Command"@, windows_script(line)]),
        ],
        Platform::Other => seq![],
    }
}

fn one_arg(bin: &str, arg: &str) -> (r: Run)
    ensures
        r.is(bin@, seq![arg@]),
{
    let mut args: Vec<String> = Vec::new();
    args.push(arg.to_owned());
    assert(text::texts(args@) =~= seq![arg@]);
    Run { bin: bin.to_owned(), args }
}

/// The engines of a platform, in the order they are tried: the first that succeeds has spoken, and
/// one that is not installed is passed over. Where none has, the line is not said.
pub fn candidates(p: Platform, line: &str) -> (r: Vec<Run>)
    ensures
        r@.len() == engines(p, line@).len(),
        forall|i: int|
            0 <= i < r@.len() ==> (#[trigger] r@[i]).is(
                engines(p, line@)[i].0,
                engines(p, line@)[i].1,
            ),
{
    let mut v: Vec<Run> = Vec::new();
    match p {
        Platform::Linux => {
            let mut args: Vec<String> = Vec::new();
            args.push("-w".to_owned());
            args.push(line.to_owned());
            assert(text::texts(args@) =~= seq!["-w"@, line@]);
            v.push(Run { bin: "spd-say".to_owned(), args });
            v.push(one_arg("espeak-ng", line));
            v.push(one_arg("espeak", line));
        },
        Platform::MacOs => {
            v.push(one_arg("say", line));
        },
        Platform::Windows => {
            let mut script = "Add-Type -AssemblyName System.Speech; (New-Object System.Speech.Synthesis.SpeechSynthesizer).Speak('".to_owned();
            let doubled = text::replace(line, "'", "''");
            script.append(doubled.as_str());
            script.append("')");
            let ghost said = script@;
            let mut args: Vec<String> = Vec::new();
            args.push("-NoProfile".to_owned());
            args.push("-Command".to_owned());
            args.push(script);
            assert(text::texts(args@) =~= seq!["-NoProfile"@, "-Command"@, said]);
            v.push(Run { bin: "powershell".to_owned(), args });
        },
        Platform::Other => {},
    }
    v
}

/// What is done next to have a line said.
#[derive(Debug)]
pub enum EngineStep {
    /// Run the engine at this place.
    Run(usize),
    /// It has been said.
    Spoken,
    /// It cannot be said, for this reason.
    Failed(String),
}

/// A line being said: the platform's engines, how many of them have been run, and whether the line
/// has been said.
#[derive(Debug)]
pub struct Attempts {
    pub runs: Vec<Run>,
    pub tried: usize,
    pub spoken: bool,
}

impl Attempts {
    /// The answers of the engines that have been run are these, in order: all but the last failed,
    /// and the line has been said only where the last did not.
    pub open spec fn follows(self, answers: Seq<bool>) -> bool {
        &&& self.tried == answers.len()
        &&& self.tried <= self.runs@.len()
        &&& forall|i: int| 0 <= i < answers.len() - 1 ==> !#[trigger] answers[i]
        &&& answers.len() > 0 ==> self.spoken == answers.last()
    }

    /// What comes after the neural voice, which said the line, was not there to say it, or failed:
    /// anything but success falls through to the platform's engines rather than going silent.
    pub fn new(p: Platform, line: &str, neural: &Result<bool, String>) -> (a: Attempts)
        ensures
            a.runs@.len() == engines(p, line@).len(),
            forall|i: int|
                0 <= i < a.runs@.len() ==> (#[trigger] a.runs@[i]).is(
                    engines(p, line@)[i].0,
                    engines(p, line@)[i].1,
                ),
            a.tried == 0,
            a.spoken == (*neural == Ok::<bool, String>(true)),
            a.follows(Seq::empty()),
    {
        let spoken = match neural {
            Ok(said) => *said,
            Err(_) => false,
        };
        Attempts { runs: candidates(p, line), tried: 0, spoken }
    }

    /// What is done next: the engines are run one after the other until one has said the line.
    pub fn step(&self) -> (r: EngineStep)
        ensures
            match r {
                EngineStep::Spoken => self.spoken,
                EngineStep::Run(i) => !self.spoken && i == self.tried && i < self.runs@.len(),
                EngineStep::Failed(why) => !self.spoken && self.tried >= self.runs@.len() && why@
                    == "no speech engine found (tried spd-say / espeak)"@,
            },
    {
        if self.spoken {
            EngineStep::Spoken
        } else if self.tried < self.runs.len() {
            EngineStep::Run(self.tried)
        } else {
            EngineStep::Failed("no speech engine found (tried spd-say / espeak)".to_owned())
        }
    }

    /// The engine whose turn it was has ended: with success, or in any other way, not being
    /// installed among them.
    pub fn ended(&mut self, success: bool)
        requires
            old(self).tried < old(self).runs@.len(),
            !old(self).spoken,
        ensures
            final(self).runs == old(self).runs,
            final(self).tried == old(self).tried + 1,
            final(self).spoken == success,
            forall|answers: Seq<bool>|
                #[trigger] old(self).follows(answers) ==> final(self).follows(
                    answers.push(success),
                ),
    {
        assert(self.tried < self.runs.len());
        self.tried = self.tried + 1;
        self.spoken = success;
    }
}

/// A line is given up only after every engine of the platform was run and none of them said it.
pub proof fn every_engine_is_tried(a: Attempts, answers: Seq<bool>)
    requires
        a.follows(answers),
        !a.spoken,
        a.tried >= a.runs@.len(),
    ensures
        answers.len() == a.runs@.len(),
        forall|i: int| 0 <= i < answers.len() ==> !#[trigger] answers[i],
{
    assert forall|i: int| 0 <= i < answers.len() implies !#[trigger] answers[i] by {
        if i == answers.len() - 1 {
            assert(answers[i] == answers.last());
        }
    }
}

/// The lines of an announcement are said first to last: what is left to say after its first line is
/// what is left of the announcement without it.
pub proof fn lines_are_said_first_to_last(lines: Seq<String>, said: int)
    requires
        0 <= said < lines.len(),
    ensures
        turned(lines).take(lines.len() - said).last() == lines[said],
        turned(lines).take(lines.len() - said).len() == lines.len() - said,
        turned(lines).len() == lines.len(),
        turned(lines).last() == lines[0],
        turned(lines).drop_last() == turned(lines.skip(1)),
{
    assert(turned(lines).drop_last() =~= turned(lines.skip(1)));
}

/// What is passed over has nothing to be heard, or is cut short by an emergency that waits behind
/// it; what is taken up has a tone, or a line that may be said.
pub proof fn only_silence_is_passed_over(queue: Seq<SpeechJob>)
    ensures
        ({
            let (n, found) = upcoming(queue);
            &&& 0 <= n <= queue.len()
            &&& found ==> n >= 1
            &&& !found ==> n == queue.len()
            &&& forall|i: int|
                0 <= i < n && !(found && i == n - 1) ==> (#[trigger] queue[i]).tone is None && (
                queue[i].lines@.len() == 0 || (queue[i].priority != Priority::Emergency
                    && exists|j: int|
                    i < j < queue.len() && (#[trigger] queue[j]).priority == Priority::Emergency))
            &&& found ==> queue[n - 1].tone is Some || (queue[n - 1].lines@.len() > 0 && (
            queue[n - 1].priority == Priority::Emergency || forall|j: int|
                n <= j < queue.len() ==> (#[trigger] queue[j]).priority != Priority::Emergency))
        }),
    decreases queue.len(),
{
    if queue.len() > 0 {
        let rest = queue.skip(1);
        only_silence_is_passed_over(rest);
        let (n, found) = upcoming(queue);
        let job = queue[0];
        let taken = job.tone is Some || (job.lines@.len() > 0 && !(job.priority
            != Priority::Emergency && has_emergency(rest)));
        if taken {
            if job.tone is None && job.priority != Priority::Emergency {
                assert forall|j: int| 1 <= j < queue.len() implies (#[trigger] queue[j]).priority
                    != Priority::Emergency by {
                    assert(rest[j - 1] == queue[j]);
                }
            }
        } else {
            assert forall|i: int| 0 <= i < n && !(found && i == n - 1) implies (
            #[trigger] queue[i]).tone is None && (queue[i].lines@.len() == 0 || (queue[i].priority
                != Priority::Emergency && exists|j: int|
                i < j < queue.len() && (#[trigger] queue[j]).priority == Priority::Emergency)) by {
                if i == 0 {
                    if job.lines@.len() > 0 {
                        let k = choose|k: int|
                            0 <= k < rest.len() && (#[trigger] rest[k]).priority
                                == Priority::Emergency;
                        assert(queue[k + 1].priority == Priority::Emergency);
                    }
                } else {
                    assert(rest[i - 1] == queue[i]);
                    if queue[i].lines@.len() > 0 {
                        let k = choose|k: int|
                            i - 1 < k < rest.len() && (#[trigger] rest[k]).priority
                                == Priority::Emergency;
                        assert(queue[k + 1].priority == Priority::Emergency);
                    }
                }
            }
            if found {
                assert(rest[n - 2] == queue[n - 1]);
                if queue[n - 1].tone is None && queue[n - 1].priority != Priority::Emergency {
                    assert forall|j: int| n <= j < queue.len() implies (
                    #[trigger] queue[j]).priority != Priority::Emergency by {
                        assert(rest[j - 1] == queue[j]);
                    }
                }
            }
        }
    }
}

/// A loudness is never more than full nor less than none, and one that is in between stays as it is.
/// (Positive numbers are ordered as their bits are; 0x3f800000 is one, 0x80000000 is minus zero.)
pub proof fn loudness_stays_in_its_range(v: u32)
    ensures
        v <= 0x3f80_0000 ==> held_volume(v) == v,
        0x3f80_0000 <= v <= 0x7f80_0000 ==> held_volume(v) == 0x3f80_0000,
        0x8000_0000 < v <= 0xff80_0000 ==> held_volume(v) == 0,
        held_volume(held_volume(v)) == held_volume(v),
{
}

/// Every engine is told the line, as its last word; where the line stands in a script its quotes are
/// doubled, so it cannot end there early. A platform without engines says nothing.
pub proof fn engines_are_told_the_line(p: Platform, line: Seq<char>, i: int)
    requires
        0 <= i < engines(p, line).len(),
    ensures
        p != Platform::Other,
        engines(p, line)[i].1.len() > 0,
        p != Platform::Windows ==> engines(p, line)[i].1.last() == line,
        p == Platform::Windows ==> engines(p, line)[i].1.last() == windows_script(line),
        text::ends(windows_script(line), text::replaced(line, "'"@, "''"@) + "')"@),
{
    let head = "Add-Type -AssemblyName System.Speech; (New-Object System.Speech.Synthesis.SpeechSynthesizer).Speak('"@;
    let tail = text::replaced(line, "'"@, "''"@) + "')"@;
    assert(windows_script(line) =~= head + tail);
    text::lemma_ends_join(head, tail);
}

} // verus!
