//! Trigger detection: a rolling buffer of the most recently typed characters
//! is matched, after every key press, against the configured trigger phrases.
//! A match for a mode that expects an argument switches the detector into
//! argument capture, which accumulates characters until a terminator
//! (whitespace or Return) completes the event. The whole transition relation
//! is the spec function [`detector_step`]; the executable detector is proved
//! to follow it step by step.

use vstd::prelude::*;

use crate::generator::GenerationMode;
use crate::guard::InjectionGuard;
use crate::keys::{KeyClass, KeyEvent};
use crate::text::string_from_chars;

verus! {

/// Longest argument the detector will capture before giving up on a command
/// the user never completes.
pub const MAX_ARGUMENT: usize = 256;

/// One configured trigger: a literal phrase and the mode it requests.
pub struct TriggerSpec {
    pub phrase: Vec<char>,
    pub mode: GenerationMode,
}

/// A completed trigger: which mode fired and the captured argument text
/// (empty for modes that take none).
#[derive(Clone, Debug, PartialEq, Eq)]
pub enum TriggerEvent {
    SetMasterKey(String),
    GenerateForContext(String),
}

impl TriggerEvent {
    /// The mode this event requests.
    pub open spec fn spec_mode(self) -> GenerationMode {
        match self {
            TriggerEvent::SetMasterKey(_) => GenerationMode::SetMasterKey,
            TriggerEvent::GenerateForContext(_) => GenerationMode::GenerateForContext,
        }
    }

    /// The captured argument text.
    pub open spec fn spec_arg(self) -> Seq<char> {
        match self {
            TriggerEvent::SetMasterKey(s) => s@,
            TriggerEvent::GenerateForContext(s) => s@,
        }
    }

    fn from_mode(mode: GenerationMode, arg: String) -> (t: TriggerEvent)
        ensures
            t.spec_mode() == mode,
            t.spec_arg() == arg@,
    {
        match mode {
            GenerationMode::SetMasterKey => TriggerEvent::SetMasterKey(arg),
            GenerationMode::GenerateForContext => TriggerEvent::GenerateForContext(arg),
        }
    }

    /// The mode, for callers outside the proof.
    pub fn mode(&self) -> (m: GenerationMode)
        ensures
            m == self.spec_mode(),
    {
        match self {
            TriggerEvent::SetMasterKey(_) => GenerationMode::SetMasterKey,
            TriggerEvent::GenerateForContext(_) => GenerationMode::GenerateForContext,
        }
    }

    /// The captured argument, for callers outside the proof.
    pub fn argument(&self) -> (s: &str)
        ensures
            s@ == self.spec_arg(),
    {
        match self {
            TriggerEvent::SetMasterKey(s) => s.as_str(),
            TriggerEvent::GenerateForContext(s) => s.as_str(),
        }
    }
}

/// The detector's abstract state: the rolling buffer, and the capture
/// sub-state (which mode is collecting an argument, and the text so far).
#[verifier::ext_equal]
pub struct DetectorModel {
    pub buffer: Seq<char>,
    pub capture: Option<(GenerationMode, Seq<char>)>,
}

impl DetectorModel {
    /// The reset state: empty buffer, no capture in progress.
    pub open spec fn init() -> DetectorModel {
        DetectorModel { buffer: Seq::empty(), capture: None }
    }
}

/// Length of the longest configured phrase: the rolling buffer's capacity.
pub open spec fn max_phrase_len(ts: Seq<TriggerSpec>) -> nat
    decreases ts.len(),
{
    if ts.len() == 0 {
        0
    } else {
        let rest = max_phrase_len(ts.drop_last());
        let l = ts.last().phrase@.len();
        if l > rest {
            l
        } else {
            rest
        }
    }
}

proof fn lemma_max_phrase_len_push(ts: Seq<TriggerSpec>, t: TriggerSpec)
    ensures
        max_phrase_len(ts.push(t)) == if t.phrase@.len() > max_phrase_len(ts) {
            t.phrase@.len()
        } else {
            max_phrase_len(ts)
        },
{
    assert(ts.push(t).drop_last() =~= ts);
    assert(ts.push(t).last() == t);
}

/// Every configured phrase fits in the rolling buffer.
pub proof fn lemma_max_phrase_len_ge(ts: Seq<TriggerSpec>, i: int)
    requires
        0 <= i < ts.len(),
    ensures
        ts[i].phrase@.len() <= max_phrase_len(ts),
    decreases ts.len(),
{
    if i < ts.len() - 1 {
        lemma_max_phrase_len_ge(ts.drop_last(), i);
    }
}

/// Appending one character to the rolling buffer, dropping the oldest
/// character when the capacity `max` is exceeded.
pub open spec fn push_rolling(buf: Seq<char>, max: nat, c: char) -> Seq<char> {
    let b = buf.push(c);
    if b.len() > max {
        b.subrange(b.len() - max, b.len() as int)
    } else {
        b
    }
}

/// The trigger the buffer currently completes, among the first `n`
/// configured ones: of all phrases that are suffixes of the buffer, the
/// longest wins, and on equal length the earliest-registered wins.
pub open spec fn best_match_upto(ts: Seq<TriggerSpec>, buf: Seq<char>, n: int) -> Option<int>
    decreases n,
{
    if n <= 0 {
        None
    } else {
        let prev = best_match_upto(ts, buf, n - 1);
        if ts[n - 1].phrase@.is_suffix_of(buf) {
            match prev {
                None => Some(n - 1),
                Some(j) => if ts[n - 1].phrase@.len() > ts[j].phrase@.len() {
                    Some(n - 1)
                } else {
                    Some(j)
                },
            }
        } else {
            prev
        }
    }
}

/// The trigger the buffer currently completes, if any.
pub open spec fn best_match(ts: Seq<TriggerSpec>, buf: Seq<char>) -> Option<int> {
    best_match_upto(ts, buf, ts.len() as int)
}

/// What [`best_match`] selects: a matching phrase, longest first and
/// earliest-registered on ties — so of two overlapping phrases where one is a
/// suffix of the other, the longer always wins, and only one trigger ever
/// fires per key press.
pub proof fn lemma_best_match_upto_props(ts: Seq<TriggerSpec>, buf: Seq<char>, n: int)
    requires
        0 <= n <= ts.len(),
    ensures
        match best_match_upto(ts, buf, n) {
            Some(i) => {
                &&& 0 <= i < n
                &&& ts[i].phrase@.is_suffix_of(buf)
                &&& forall|j: int|
                    0 <= j < n && #[trigger] ts[j].phrase@.is_suffix_of(buf) ==> ts[j].phrase@.len()
                        < ts[i].phrase@.len() || (ts[j].phrase@.len() == ts[i].phrase@.len() && i
                        <= j)
            },
            None => forall|j: int| 0 <= j < n ==> !(#[trigger] ts[j].phrase@.is_suffix_of(buf)),
        },
    decreases n,
{
    if n > 0 {
        lemma_best_match_upto_props(ts, buf, n - 1);
    }
}

/// Whether the event ends argument capture: Return, or a produced whitespace
/// character.
pub open spec fn is_capture_terminator(ev: KeyEvent) -> bool {
    ||| ev.class is Return
    ||| (ev.ch matches Some(c) && (c == ' ' || c == '\t'))
}

fn capture_terminator(ev: &KeyEvent) -> (b: bool)
    ensures
        b == is_capture_terminator(*ev),
{
    match ev.class {
        KeyClass::Return => true,
        _ => match ev.ch {
            Some(c) => c == ' ' || c == '\t',
            None => false,
        },
    }
}

/// One step of the detector while capturing an argument for `mode`.
///
/// A terminator completes the event if any argument text was captured, and
/// abandons the capture otherwise; Backspace abandons it; a produced
/// character extends the argument, up to [`MAX_ARGUMENT`], past which the
/// capture is abandoned; other keys change nothing.
pub open spec fn step_capturing(mode: GenerationMode, arg: Seq<char>, ev: KeyEvent) -> (
    DetectorModel,
    Option<(GenerationMode, Seq<char>)>,
) {
    if is_capture_terminator(ev) {
        if arg.len() > 0 {
            (DetectorModel::init(), Some((mode, arg)))
        } else {
            (DetectorModel::init(), None)
        }
    } else if ev.class is Backspace {
        (DetectorModel::init(), None)
    } else {
        match ev.ch {
            Some(c) => if arg.len() >= MAX_ARGUMENT as nat {
                (DetectorModel::init(), None)
            } else {
                (DetectorModel { buffer: Seq::empty(), capture: Some((mode, arg.push(c))) }, None)
            },
            None => (DetectorModel { buffer: Seq::empty(), capture: Some((mode, arg)) }, None),
        }
    }
}

/// One step of the detector while idle.
///
/// Return and Backspace break the typed sequence and clear the buffer; a
/// produced character rolls into the buffer, and if the buffer then completes
/// a trigger the buffer is cleared and the trigger either emits at once or
/// begins argument capture; other keys change nothing.
pub open spec fn step_idle(ts: Seq<TriggerSpec>, max: nat, buffer: Seq<char>, ev: KeyEvent) -> (
    DetectorModel,
    Option<(GenerationMode, Seq<char>)>,
) {
    if ev.class is Return || ev.class is Backspace {
        (DetectorModel::init(), None)
    } else {
        match ev.ch {
            Some(c) => {
                let b = push_rolling(buffer, max, c);
                match best_match(ts, b) {
                    Some(i) => {
                        let mode = ts[i].mode;
                        if mode.spec_takes_argument() {
                            (
                                DetectorModel {
                                    buffer: Seq::empty(),
                                    capture: Some((mode, Seq::empty())),
                                },
                                None,
                            )
                        } else {
                            (DetectorModel::init(), Some((mode, Seq::empty())))
                        }
                    },
                    None => (DetectorModel { buffer: b, capture: None }, None),
                }
            },
            None => (DetectorModel { buffer, capture: None }, None),
        }
    }
}

/// The detector's full transition relation for one incoming key event.
/// Auto-repeats and modifier chords are ignored outright.
pub open spec fn detector_step(ts: Seq<TriggerSpec>, max: nat, s: DetectorModel, ev: KeyEvent) -> (
    DetectorModel,
    Option<(GenerationMode, Seq<char>)>,
) {
    if ev.is_suppressed_kind() {
        (s, None)
    } else {
        match s.capture {
            Some(cap) => step_capturing(cap.0, cap.1, ev),
            None => step_idle(ts, max, s.buffer, ev),
        }
    }
}

/// Whether the returned event carries exactly the emission the step relation
/// calls for.
pub open spec fn emits_like(r: Option<TriggerEvent>, out: Option<(GenerationMode, Seq<char>)>) -> bool {
    match (r, out) {
        (None, None) => true,
        (Some(t), Some(o)) => t.spec_mode() == o.0 && t.spec_arg() == o.1,
        _ => false,
    }
}

struct CaptureState {
    mode: GenerationMode,
    arg: Vec<char>,
}

/// The trigger detector: configured phrases, the rolling buffer, the capture
/// sub-state, and a handle to the injection guard it consults before every
/// event.
pub struct TriggerDetector {
    triggers: Vec<TriggerSpec>,
    max_len: usize,
    buffer: Vec<char>,
    capture: Option<CaptureState>,
    guard: InjectionGuard,
}

impl TriggerDetector {
    /// The configured triggers.
    pub closed spec fn spec_triggers(self) -> Seq<TriggerSpec> {
        self.triggers@
    }

    /// The detector's abstract state.
    pub closed spec fn model(self) -> DetectorModel {
        DetectorModel {
            buffer: self.buffer@,
            capture: match self.capture {
                Some(c) => Some((c.mode, c.arg@)),
                None => None,
            },
        }
    }

    /// Well-formedness: the buffer capacity is the longest phrase's length,
    /// the buffer never exceeds it, and while capturing, the buffer is empty
    /// and the argument bounded.
    pub closed spec fn wf(self) -> bool {
        &&& self.triggers@.len() >= 1
        &&& (forall|i: int|
            0 <= i < self.triggers@.len() ==> #[trigger] self.triggers@[i].phrase@.len() >= 1)
        &&& self.max_len as nat == max_phrase_len(self.triggers@)
        &&& 1 <= self.max_len
        &&& self.buffer@.len() <= self.max_len
        &&& match self.capture {
            Some(c) => c.mode.spec_takes_argument() && c.arg@.len() <= MAX_ARGUMENT
                && self.buffer@.len() == 0,
            None => true,
        }
    }

    /// Builds a detector for the given phrase table. Phrases must be
    /// non-empty; the table must be non-empty.
    pub fn new(triggers: Vec<(String, GenerationMode)>, guard: InjectionGuard) -> (d:
        TriggerDetector)
        requires
            triggers@.len() >= 1,
            forall|i: int| 0 <= i < triggers@.len() ==> #[trigger] triggers@[i].0@.len() >= 1,
        ensures
            d.wf(),
            d.model() == DetectorModel::init(),
            d.spec_triggers().len() == triggers@.len(),
            forall|i: int|
                0 <= i < triggers@.len() ==> #[trigger] d.spec_triggers()[i].phrase@
                    == triggers@[i].0@ && d.spec_triggers()[i].mode == triggers@[i].1,
    {
        let n = triggers.len();
        let mut specs: Vec<TriggerSpec> = Vec::new();
        let mut max_len: usize = 0;
        let mut i: usize = 0;
        while i < n
            invariant
                n == triggers@.len(),
                i <= n,
                specs@.len() == i,
                forall|j: int| 0 <= j < n ==> #[trigger] triggers@[j].0@.len() >= 1,
                forall|j: int|
                    0 <= j < i ==> (#[trigger] specs@[j]).phrase@ == triggers@[j].0@
                        && specs@[j].mode == triggers@[j].1,
                max_len as nat == max_phrase_len(specs@),
            decreases n - i,
        {
            let pair = &triggers[i];
            let phrase = crate::text::str_to_chars(pair.0.as_str());
            let spec_t = TriggerSpec { phrase, mode: pair.1 };
            proof {
                lemma_max_phrase_len_push(specs@, spec_t);
            }
            if spec_t.phrase.len() > max_len {
                max_len = spec_t.phrase.len();
            }
            let ghost specs0 = specs@;
            specs.push(spec_t);
            proof {
                assert forall|j: int| 0 <= j < i + 1 implies (#[trigger] specs@[j]).phrase@
                    == triggers@[j].0@ && specs@[j].mode == triggers@[j].1 by {
                    if j < i {
                        assert(specs0[j].phrase@ == triggers@[j].0@ && specs0[j].mode
                            == triggers@[j].1);
                        assert(specs@[j] == specs0[j]);
                    } else {
                        assert(specs@[j] == spec_t);
                    }
                }
            }
            i = i + 1;
        }
        proof {
            lemma_max_phrase_len_ge(specs@, 0);
        }
        let d = TriggerDetector {
            triggers: specs,
            max_len,
            buffer: Vec::new(),
            capture: None,
            guard,
        };
        assert(d.model() =~= DetectorModel::init());
        d
    }

    fn best_match_index(&self) -> (r: Option<usize>)
        ensures
            match (r, best_match(self.triggers@, self.buffer@)) {
                (None, None) => true,
                (Some(i), Some(j)) => i as int == j && i < self.triggers@.len(),
                _ => false,
            },
    {
        let mut best: Option<usize> = None;
        let mut i: usize = 0;
        let n = self.triggers.len();
        while i < n
            invariant
                n == self.triggers@.len(),
                i <= n,
                match (best, best_match_upto(self.triggers@, self.buffer@, i as int)) {
                    (None, None) => true,
                    (Some(bi), Some(bj)) => bi as int == bj && bi < i,
                    _ => false,
                },
            decreases n - i,
        {
            if ends_with(&self.buffer, &self.triggers[i].phrase) {
                best = match best {
                    None => Some(i),
                    Some(j) => if self.triggers[i].phrase.len() > self.triggers[j].phrase.len() {
                        Some(i)
                    } else {
                        Some(j)
                    },
                };
            }
            i = i + 1;
        }
        best
    }

    /// Feeds one key event with an explicitly supplied injection-flag value:
    /// when the flag is set, nothing changes and nothing is emitted; when it
    /// is clear, the detector performs exactly one [`detector_step`].
    pub fn process_key(&mut self, ev: &KeyEvent, injection_active: bool) -> (r: Option<
        TriggerEvent,
    >)
        requires
            old(self).wf(),
        ensures
            final(self).wf(),
            final(self).spec_triggers() == old(self).spec_triggers(),
            injection_active ==> final(self).model() == old(self).model() && r is None,
            !injection_active ==> ({
                let (s2, out) = detector_step(
                    old(self).spec_triggers(),
                    max_phrase_len(old(self).spec_triggers()),
                    old(self).model(),
                    *ev,
                );
                final(self).model() == s2 && emits_like(r, out)
            }),
    {
        if injection_active {
            return None;
        }
        if ev.autorepeat || ev.modifier_held {
            return None;
        }
        let ghost m0 = self.model();
        let cap = self.capture.take();
        match cap {
            Some(mut c) => {
                if capture_terminator(ev) {
                    if c.arg.len() > 0 {
                        let arg_string = string_from_chars(&c.arg);
                        let t = TriggerEvent::from_mode(c.mode, arg_string);
                        assert(self.model() =~= DetectorModel::init());
                        Some(t)
                    } else {
                        assert(self.model() =~= DetectorModel::init());
                        None
                    }
                } else if matches!(ev.class, KeyClass::Backspace) {
                    assert(self.model() =~= DetectorModel::init());
                    None
                } else if let Some(ch) = ev.ch {
                    if c.arg.len() >= MAX_ARGUMENT {
                        assert(self.model() =~= DetectorModel::init());
                        None
                    } else {
                        c.arg.push(ch);
                        self.capture = Some(c);
                        None
                    }
                } else {
                    self.capture = Some(c);
                    None
                }
            },
            None => {
                if matches!(ev.class, KeyClass::Return) || matches!(ev.class, KeyClass::Backspace) {
                    self.buffer.clear();
                    assert(self.model() =~= DetectorModel::init());
                    None
                } else if let Some(ch) = ev.ch {
                    let ghost b0 = self.buffer@;
                    if self.buffer.len() == self.max_len {
                        self.buffer.remove(0);
                    }
                    self.buffer.push(ch);
                    proof {
                        assert(self.buffer@ =~= push_rolling(b0, self.max_len as nat, ch));
                    }
                    match self.best_match_index() {
                        Some(i) => {
                            let mode = self.triggers[i].mode;
                            self.buffer.clear();
                            if mode.takes_argument() {
                                self.capture = Some(CaptureState { mode, arg: Vec::new() });
                                None
                            } else {
                                let t = TriggerEvent::from_mode(mode, String::new());
                                Some(t)
                            }
                        },
                        None => None,
                    }
                } else {
                    None
                }
            },
        }
    }

    /// Feeds one key event, consulting the injection guard first. Either the
    /// guard was observed held — nothing changes, nothing is emitted — or the
    /// transition is exactly one [`detector_step`].
    pub fn process_event(&mut self, ev: &KeyEvent) -> (r: Option<TriggerEvent>)
        requires
            old(self).wf(),
        ensures
            final(self).wf(),
            final(self).spec_triggers() == old(self).spec_triggers(),
            (final(self).model() == old(self).model() && r is None) || ({
                let (s2, out) = detector_step(
                    old(self).spec_triggers(),
                    max_phrase_len(old(self).spec_triggers()),
                    old(self).model(),
                    *ev,
                );
                final(self).model() == s2 && emits_like(r, out)
            }),
    {
        let active = self.guard.is_active();
        self.process_key(ev, active)
    }
}

/// The events produced by typing the characters of `p` in order, as plain
/// presses: no chord, no auto-repeat, no control keys in between.
pub open spec fn plain_char_events(p: Seq<char>) -> Seq<KeyEvent> {
    Seq::new(
        p.len(),
        |i: int|
            KeyEvent { class: KeyClass::Other, ch: Some(p[i]), autorepeat: false, modifier_held: false },
    )
}

/// Running the detector over a whole sequence of events from state `s`,
/// collecting every emission in order.
pub open spec fn run_steps(
    ts: Seq<TriggerSpec>,
    max: nat,
    s: DetectorModel,
    evs: Seq<KeyEvent>,
) -> (DetectorModel, Seq<(GenerationMode, Seq<char>)>)
    decreases evs.len(),
{
    if evs.len() == 0 {
        (s, Seq::empty())
    } else {
        let prev = run_steps(ts, max, s, evs.drop_last());
        let step = detector_step(ts, max, prev.0, evs.last());
        match step.1 {
            Some(o) => (step.0, prev.1.push(o)),
            None => (step.0, prev.1),
        }
    }
}

/// A well-formed trigger table: non-empty, no empty phrase, all phrases
/// distinct.
pub open spec fn well_formed_triggers(ts: Seq<TriggerSpec>) -> bool {
    &&& ts.len() >= 1
    &&& (forall|i: int| 0 <= i < ts.len() ==> (#[trigger] ts[i]).phrase@.len() >= 1)
    &&& (forall|i: int, j: int|
        0 <= i < j < ts.len() ==> (#[trigger] ts[i]).phrase@ != (#[trigger] ts[j]).phrase@)
}

/// No configured phrase already matches while `p` is still being typed: no
/// phrase is a suffix of a proper non-empty prefix of `p`. Without this, an
/// online detector must fire for the phrase that completed first.
pub open spec fn no_premature_match(ts: Seq<TriggerSpec>, p: Seq<char>) -> bool {
    forall|k: int, j: int|
        0 < k < p.len() && 0 <= j < ts.len() ==> !(#[trigger] ts[j].phrase@.is_suffix_of(
            p.take(k),
        ))
}

proof fn lemma_run_prefix(ts: Seq<TriggerSpec>, t: int, k: int)
    requires
        well_formed_triggers(ts),
        0 <= t < ts.len(),
        no_premature_match(ts, ts[t].phrase@),
        0 <= k < ts[t].phrase@.len(),
    ensures
        ({
            let p = ts[t].phrase@;
            let r = run_steps(
                ts,
                max_phrase_len(ts),
                DetectorModel::init(),
                plain_char_events(p).take(k),
            );
            &&& r.0.buffer == p.take(k)
            &&& r.0.capture is None
            &&& r.1 == Seq::<(GenerationMode, Seq<char>)>::empty()
        }),
    decreases k,
{
    let p = ts[t].phrase@;
    let max = max_phrase_len(ts);
    let evs = plain_char_events(p);
    if k == 0 {
        assert(evs.take(0) =~= Seq::<KeyEvent>::empty());
        assert(p.take(0) =~= Seq::<char>::empty());
    } else {
        lemma_run_prefix(ts, t, k - 1);
        let pre = evs.take(k - 1);
        let cur = evs.take(k);
        assert(cur.drop_last() =~= pre);
        assert(cur.last() == evs[k - 1]);
        let r1 = run_steps(ts, max, DetectorModel::init(), pre);
        let ev = evs[k - 1];
        lemma_max_phrase_len_ge(ts, t);
        let b = push_rolling(p.take(k - 1), max, p[k - 1]);
        assert(p.take(k - 1).push(p[k - 1]) =~= p.take(k));
        assert(b == p.take(k));
        lemma_best_match_upto_props(ts, p.take(k), ts.len() as int);
        if best_match(ts, b) is Some {
            let i = best_match(ts, b)->Some_0;
            assert(ts[i].phrase@.is_suffix_of(p.take(k)));
            assert(false);
        }
    }
}

/// Typing a configured trigger phrase from the reset state, as a contiguous
/// run of plain character presses, fires that trigger exactly once: nothing
/// is emitted before the last key; at the last key the detector either emits
/// the phrase's event with an empty argument, or begins argument capture for
/// its mode — and the rolling buffer is empty either way. Requires that no
/// phrase already matches while this one is still being typed (otherwise the
/// earlier match fires instead) and that phrases are distinct.
pub proof fn lemma_phrase_fires_once(ts: Seq<TriggerSpec>, t: int)
    requires
        well_formed_triggers(ts),
        0 <= t < ts.len(),
        no_premature_match(ts, ts[t].phrase@),
    ensures
        ({
            let p = ts[t].phrase@;
            let r = run_steps(ts, max_phrase_len(ts), DetectorModel::init(), plain_char_events(p));
            &&& r.0.buffer == Seq::<char>::empty()
            &&& (ts[t].mode.spec_takes_argument() ==> r.0.capture == Some(
                (ts[t].mode, Seq::<char>::empty()),
            ) && r.1 == Seq::<(GenerationMode, Seq<char>)>::empty())
            &&& (!ts[t].mode.spec_takes_argument() ==> r.0.capture is None && r.1 == seq![
                (ts[t].mode, Seq::<char>::empty()),
            ])
        }),
{
    let p = ts[t].phrase@;
    let max = max_phrase_len(ts);
    let evs = plain_char_events(p);
    let n = p.len() as int;
    lemma_run_prefix(ts, t, n - 1);
    assert(evs.take(n) =~= evs);
    assert(evs.drop_last() =~= evs.take(n - 1));
    let r1 = run_steps(ts, max, DetectorModel::init(), evs.take(n - 1));
    let ev = evs[n - 1];
    lemma_max_phrase_len_ge(ts, t);
    let b = push_rolling(p.take(n - 1), max, p[n - 1]);
    assert(p.take(n - 1).push(p[n - 1]) =~= p);
    assert(b == p);
    lemma_best_match_upto_props(ts, p, ts.len() as int);
    assert(p.subrange(0, p.len() as int) =~= p);
    assert(p.is_suffix_of(p));
    if best_match(ts, p) is None {
        assert(!ts[t].phrase@.is_suffix_of(p));
        assert(false);
    }
    let i = best_match(ts, p)->Some_0;
    assert(ts[i].phrase@.is_suffix_of(p));
    assert(ts[i].phrase@.len() <= p.len());
    assert(ts[t].phrase@.is_suffix_of(p));
    assert(ts[i].phrase@.len() == p.len());
    assert(ts[i].phrase@ =~= p);
    if i != t {
        if i < t {
            assert(ts[i].phrase@ != ts[t].phrase@);
        } else {
            assert(ts[t].phrase@ != ts[i].phrase@);
        }
        assert(false);
    }
}

/// Two overlapping configured phrases where one is a proper suffix of the
/// other: typing the longer phrase fires the longer trigger exactly once —
/// never the shorter one, never both.
pub proof fn lemma_suffix_overlap_longer_wins(ts: Seq<TriggerSpec>, t: int, u: int)
    requires
        well_formed_triggers(ts),
        0 <= t < ts.len(),
        0 <= u < ts.len(),
        u != t,
        ts[u].phrase@.is_suffix_of(ts[t].phrase@),
        no_premature_match(ts, ts[t].phrase@),
    ensures
        ({
            let p = ts[t].phrase@;
            let r = run_steps(ts, max_phrase_len(ts), DetectorModel::init(), plain_char_events(p));
            &&& r.0.buffer == Seq::<char>::empty()
            &&& (ts[t].mode.spec_takes_argument() ==> r.0.capture == Some(
                (ts[t].mode, Seq::<char>::empty()),
            ) && r.1 == Seq::<(GenerationMode, Seq<char>)>::empty())
            &&& (!ts[t].mode.spec_takes_argument() ==> r.0.capture is None && r.1 == seq![
                (ts[t].mode, Seq::<char>::empty()),
            ])
        }),
{
    lemma_phrase_fires_once(ts, t);
}

/// Abandoned capture: a Return arriving while the expected argument is still
/// empty returns the detector to idle without emitting anything.
pub proof fn lemma_return_abandons_empty_capture(
    ts: Seq<TriggerSpec>,
    max: nat,
    mode: GenerationMode,
)
    ensures
        ({
            let s = DetectorModel { buffer: Seq::empty(), capture: Some((mode, Seq::empty())) };
            let ev = KeyEvent {
                class: KeyClass::Return,
                ch: None,
                autorepeat: false,
                modifier_held: false,
            };
            let r = detector_step(ts, max, s, ev);
            r.0 == DetectorModel::init() && r.1 is None
        }),
{
    let s = DetectorModel { buffer: Seq::empty(), capture: Some((mode, Seq::empty())) };
    let ev = KeyEvent { class: KeyClass::Return, ch: None, autorepeat: false, modifier_held: false };
    let r = detector_step(ts, max, s, ev);
    assert(r.0 =~= DetectorModel::init());
}

fn ends_with(buf: &Vec<char>, phrase: &Vec<char>) -> (b: bool)
    ensures
        b == phrase@.is_suffix_of(buf@),
{
    let pl = phrase.len();
    let bl = buf.len();
    if pl > bl {
        return false;
    }
    let off = bl - pl;
    let mut i: usize = 0;
    while i < pl
        invariant
            pl <= bl,
            off == bl - pl,
            bl == buf@.len(),
            pl == phrase@.len(),
            i <= pl,
            forall|j: int| 0 <= j < i ==> buf@[off + j] == phrase@[j],
        decreases pl - i,
    {
        if buf[off + i] != phrase[i] {
            proof {
                assert(buf@.subrange(off as int, bl as int)[i as int] == buf@[off + i]);
            }
            return false;
        }
        i = i + 1;
    }
    proof {
        assert(phrase@ =~= buf@.subrange(off as int, bl as int));
    }
    true
}

} // verus!
