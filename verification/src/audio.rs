//! Listening: which microphone and stream to open, and what the capture
//! callback does with each buffer around the voice-activity detector.
//! The detector itself measures energy in floating point and stays with
//! the capture code; everything decided here is decided on whole numbers.
use crate::executor::{base64_encoded, encode_base64, reply_result_text};
use crate::json::{get, json_of, parse_json, str_of, Json};
use crate::text::{chars_of, contains, has_sub, lowercase, push_str, same, string_of, to_lowercase};
use vstd::prelude::*;

verus! {

// ---------------------------------------------------------------------
// Choosing the microphone
// ---------------------------------------------------------------------

/// How likely a device name is to be the built-in microphone, from its
/// lower-cased name: the front generic input first, then the system
/// default, an analog input, anything that is not Bluetooth, HDMI or a
/// monitor of an output, and the plain "default" device last.
pub open spec fn device_score_spec(lower: Seq<char>) -> u8 {
    if has_sub(lower, "front"@) && has_sub(lower, "generic"@) {
        100
    } else if has_sub(lower, "sysdefault"@) && has_sub(lower, "generic"@) {
        90
    } else if has_sub(lower, "analog"@) && !has_sub(lower, "hdmi"@) {
        80
    } else if !has_sub(lower, "bluez"@) && !has_sub(lower, "hdmi"@) && !has_sub(lower, "monitor"@) {
        70
    } else if lower == "default"@ {
        60
    } else {
        0
    }
}

/// The score of a device by its name as reported.
pub open spec fn name_score(name: Seq<char>) -> u8 {
    device_score_spec(lowercase(name))
}

pub fn device_score(name: &str) -> (r: u8)
    ensures
        r == name_score(name@),
{
    let lower = chars_of(to_lowercase(name).as_str());
    let generic = contains(&lower, &chars_of("generic"));
    let hdmi = contains(&lower, &chars_of("hdmi"));
    if contains(&lower, &chars_of("front")) && generic {
        100
    } else if contains(&lower, &chars_of("sysdefault")) && generic {
        90
    } else if contains(&lower, &chars_of("analog")) && !hdmi {
        80
    } else if !contains(&lower, &chars_of("bluez")) && !hdmi && !contains(&lower, &chars_of("monitor")) {
        70
    } else if same(&lower, &chars_of("default")) {
        60
    } else {
        0
    }
}

/// Whether some device carries exactly the wanted name.
pub open spec fn is_listed(names: Seq<String>, wanted: Seq<char>) -> bool {
    exists|i: int| 0 <= i < names.len() && #[trigger] names[i]@ == wanted
}

/// Whether the device the user asked for by name is present.
pub open spec fn asked_and_present(names: Seq<String>, wanted: Option<&str>) -> bool {
    match wanted {
        Some(w) => is_listed(names, w@),
        None => false,
    }
}

/// `i` is the first device with the wanted name.
pub open spec fn first_named(names: Seq<String>, wanted: Seq<char>, i: int) -> bool {
    &&& 0 <= i < names.len()
    &&& names[i]@ == wanted
    &&& forall|j: int| 0 <= j < i ==> #[trigger] names[j]@ != wanted
}

/// `i` is the first device with the highest score.
pub open spec fn first_best(names: Seq<String>, i: int) -> bool {
    &&& 0 <= i < names.len()
    &&& forall|j: int| 0 <= j < names.len() ==> name_score(#[trigger] names[j]@) <= name_score(names[i]@)
    &&& forall|j: int| 0 <= j < i ==> name_score(#[trigger] names[j]@) < name_score(names[i]@)
}

/// Which input device to open, by index into the devices whose names could
/// be read: the first one named exactly as asked, when one is; otherwise
/// the first with the best score. `None` (no named devices at all) means
/// the host's default input.
pub fn choose_input_device(names: &[String], wanted: Option<&str>) -> (r: Option<usize>)
    ensures
        asked_and_present(names@, wanted) ==> (r matches Some(i) && first_named(names@, wanted->0@, i as int)),
        !asked_and_present(names@, wanted) ==> (r is None <==> names@.len() == 0),
        !asked_and_present(names@, wanted) ==> (r matches Some(i) ==> first_best(names@, i as int)),
{
    if let Some(w) = wanted {
        let mut j: usize = 0;
        while j < names.len()
            invariant
                wanted == Some(w),
                j <= names.len(),
                forall|k: int| 0 <= k < j ==> #[trigger] names@[k]@ != w@,
            decreases names.len() - j,
        {
            if same(&chars_of(names[j].as_str()), &chars_of(w)) {
                assert(names@[j as int]@ == w@);
                return Some(j);
            }
            j = j + 1;
        }
    }
    if names.len() == 0 {
        return None;
    }
    let mut best: usize = 0;
    let mut best_score: u8 = device_score(names[0].as_str());
    let mut k: usize = 1;
    while k < names.len()
        invariant
            1 <= k <= names.len(),
            best < k,
            best_score == name_score(names@[best as int]@),
            forall|j: int| 0 <= j < k ==> name_score(#[trigger] names@[j]@) <= best_score,
            forall|j: int| 0 <= j < best ==> name_score(#[trigger] names@[j]@) < best_score,
        decreases names.len() - k,
    {
        let s = device_score(names[k].as_str());
        if s > best_score {
            best = k;
            best_score = s;
        }
        k = k + 1;
    }
    Some(best)
}

// ---------------------------------------------------------------------
// Choosing the stream
// ---------------------------------------------------------------------

/// A sample format a device offers.
#[derive(Clone, Copy, Debug, PartialEq, Eq, Structural)]
pub enum InputFormat {
    F32,
    I16,
    I32,
    U16,
    /// Any format the capture code cannot convert.
    Other,
}

/// One stream configuration range a device supports.
#[derive(Clone, Copy, Debug, PartialEq, Eq, Structural)]
pub struct StreamRange {
    pub format: InputFormat,
    pub min_rate: u32,
    pub max_rate: u32,
    pub channels: u16,
}

/// Floating point first, then the integer formats the capture converts;
/// anything else ranks 9 and is never chosen.
pub open spec fn format_rank(f: InputFormat) -> u8 {
    match f {
        InputFormat::F32 => 0,
        InputFormat::I16 => 1,
        InputFormat::I32 => 2,
        InputFormat::U16 => 3,
        InputFormat::Other => 9,
    }
}

pub open spec fn offers(r: StreamRange, rate: u32) -> bool {
    r.min_rate <= rate <= r.max_rate
}

/// The rate to open a range at: 16 kHz when offered (no resampling), then
/// 48, 32 and 44.1 kHz, and only then the range's maximum.
pub open spec fn pick_rate_spec(r: StreamRange) -> u32 {
    if offers(r, 16000) {
        16000
    } else if offers(r, 48000) {
        48000
    } else if offers(r, 32000) {
        32000
    } else if offers(r, 44100) {
        44100
    } else {
        r.max_rate
    }
}

pub fn pick_rate(r: &StreamRange) -> (rate: u32)
    ensures
        rate == pick_rate_spec(*r),
{
    let candidates: [u32; 4] = [16000, 48000, 32000, 44100];
    let mut i: usize = 0;
    while i < 4
        invariant
            i <= 4,
            candidates@ == seq![16000u32, 48000u32, 32000u32, 44100u32],
            forall|j: int| 0 <= j < i ==> !offers(*r, #[trigger] candidates@[j]),
        decreases 4 - i,
    {
        let c = candidates[i];
        if r.min_rate <= c && c <= r.max_rate {
            return c;
        }
        i = i + 1;
    }
    assert(!offers(*r, candidates@[0]) && !offers(*r, candidates@[1]));
    assert(!offers(*r, candidates@[2]) && !offers(*r, candidates@[3]));
    r.max_rate
}

pub open spec fn usable(r: StreamRange) -> bool {
    format_rank(r.format) < 9
}

/// The order of preference: format, then whether the rate needs
/// resampling, then the rate, then the channel count.
pub open spec fn key_lt(a: StreamRange, b: StreamRange) -> bool {
    let (ra, rb) = (pick_rate_spec(a), pick_rate_spec(b));
    let (sa, sb) = (ra != 16000, rb != 16000);
    if format_rank(a.format) != format_rank(b.format) {
        format_rank(a.format) < format_rank(b.format)
    } else if sa != sb {
        !sa
    } else if ra != rb {
        ra < rb
    } else {
        a.channels < b.channels
    }
}

fn rank_of(f: InputFormat) -> (r: u8)
    ensures
        r == format_rank(f),
{
    match f {
        InputFormat::F32 => 0,
        InputFormat::I16 => 1,
        InputFormat::I32 => 2,
        InputFormat::U16 => 3,
        InputFormat::Other => 9,
    }
}

fn precedes(a: &StreamRange, b: &StreamRange) -> (r: bool)
    ensures
        r == key_lt(*a, *b),
{
    let (ra, rb) = (pick_rate(a), pick_rate(b));
    let (sa, sb) = (ra != 16000, rb != 16000);
    let (fa, fb) = (rank_of(a.format), rank_of(b.format));
    if fa != fb {
        fa < fb
    } else if sa != sb {
        !sa
    } else if ra != rb {
        ra < rb
    } else {
        a.channels < b.channels
    }
}

/// The configuration to open, as an index and a rate: among the usable
/// ranges, the first one that no other precedes.
pub open spec fn best_stream(ranges: Seq<StreamRange>, i: int) -> bool {
    &&& 0 <= i < ranges.len()
    &&& usable(ranges[i])
    &&& forall|j: int| 0 <= j < ranges.len() && usable(#[trigger] ranges[j]) ==> !key_lt(ranges[j], ranges[i])
    &&& forall|j: int| 0 <= j < i && usable(#[trigger] ranges[j]) ==> key_lt(ranges[i], ranges[j])
}

proof fn lemma_key_total(a: StreamRange, b: StreamRange)
    ensures
        !key_lt(a, b) && !key_lt(b, a) ==> format_rank(a.format) == format_rank(b.format)
            && pick_rate_spec(a) == pick_rate_spec(b) && a.channels == b.channels,
        key_lt(a, b) ==> !key_lt(b, a),
{
}

proof fn lemma_key_trans(a: StreamRange, b: StreamRange, c: StreamRange)
    ensures
        key_lt(a, b) && key_lt(b, c) ==> key_lt(a, c),
        !key_lt(b, a) && !key_lt(c, b) ==> !key_lt(c, a),
{
}

/// The stream configuration to open, or `None` when the device offers no
/// format the capture can use.
pub fn choose_stream(ranges: &[StreamRange]) -> (r: Option<(usize, u32)>)
    ensures
        r is None <==> forall|j: int| 0 <= j < ranges@.len() ==> !usable(#[trigger] ranges@[j]),
        r matches Some((i, rate)) ==> best_stream(ranges@, i as int) && rate == pick_rate_spec(ranges@[i as int]),
{
    let mut best: Option<usize> = None;
    let mut k: usize = 0;
    while k < ranges.len()
        invariant
            k <= ranges.len(),
            best is None <==> forall|j: int| 0 <= j < k ==> !usable(#[trigger] ranges@[j]),
            best matches Some(b) ==> b < k && usable(ranges@[b as int])
                && (forall|j: int| 0 <= j < k && usable(#[trigger] ranges@[j]) ==> !key_lt(ranges@[j], ranges@[b as int]))
                && (forall|j: int| 0 <= j < b && usable(#[trigger] ranges@[j]) ==> key_lt(ranges@[b as int], ranges@[j])),
        decreases ranges.len() - k,
    {
        let cur = ranges[k];
        if rank_of(cur.format) < 9 {
            match best {
                None => {
                    best = Some(k);
                },
                Some(b) => {
                    if precedes(&cur, &ranges[b]) {
                        proof {
                            assert forall|j: int| 0 <= j < k + 1 && usable(#[trigger] ranges@[j]) implies !key_lt(ranges@[j], cur) by {
                                if j < k {
                                    lemma_key_trans(ranges@[j], ranges@[b as int], cur);
                                    lemma_key_total(cur, ranges@[b as int]);
                                    if key_lt(ranges@[j], cur) {
                                        lemma_key_trans(ranges@[j], cur, ranges@[b as int]);
                                    }
                                }
                            }
                            assert forall|j: int| 0 <= j < k && usable(#[trigger] ranges@[j]) implies key_lt(cur, ranges@[j]) by {
                                lemma_key_total(ranges@[j], ranges@[b as int]);
                                lemma_key_trans(cur, ranges@[b as int], ranges@[j]);
                                if !key_lt(cur, ranges@[j]) {
                                    lemma_key_total(cur, ranges@[j]);
                                }
                            }
                        }
                        best = Some(k);
                    } else {
                        assert(!key_lt(cur, ranges@[b as int]));
                    }
                },
            }
        }
        k = k + 1;
    }
    match best {
        None => None,
        Some(b) => Some((b, pick_rate(&ranges[b]))),
    }
}

// ---------------------------------------------------------------------
// The capture callback
// ---------------------------------------------------------------------

/// Audio right after the stream opens is ignored for this long, in
/// nanoseconds: opening a stream makes a full-scale click on some hardware.
pub const STREAM_SETTLE_NS: u64 = 1_500_000_000;

/// After speech output ends, the room's echo decays for this long, in
/// nanoseconds, before listening resumes.
pub const POST_SPEECH_COOLDOWN_NS: u64 = 250_000_000;

/// Utterances shorter than this many samples (1.5 s at 16 kHz) are dropped.
pub const MIN_UTTERANCE_SAMPLES: usize = 24000;

/// What the capture callback remembers between buffers.
#[derive(Clone, Copy, Debug, PartialEq, Eq, Structural)]
pub struct CaptureGate {
    /// Speech output was playing at the last buffer.
    pub was_speaking_aloud: bool,
    /// When the post-speech cooldown started, in nanoseconds on a monotonic
    /// clock.
    pub cooldown_since: Option<u64>,
}

/// What to do with one buffer before the detector sees it.
#[derive(Clone, Copy, Debug, PartialEq, Eq, Structural)]
pub struct Admission {
    /// Clear the detector's state first.
    pub reset_detector: bool,
    /// Hand the buffer to the detector.
    pub analyse: bool,
}

/// Time since `start`, as a monotonic clock reports it: never negative.
pub open spec fn since(start: u64, now: u64) -> int {
    if now >= start {
        now - start
    } else {
        0
    }
}

/// One buffer's admission: nothing while stopped or settling; while speech
/// output plays, the detector is cleared and the buffer dropped; when it
/// has just ended, the detector is cleared and a cooldown starts; during
/// the cooldown buffers are dropped.
pub open spec fn intake_spec(g: CaptureGate, running: bool, open_for_ns: u64, speaking_aloud: bool, now: u64) -> (
    CaptureGate,
    Admission,
) {
    if !running || open_for_ns < STREAM_SETTLE_NS {
        (g, Admission { reset_detector: false, analyse: false })
    } else if speaking_aloud {
        (CaptureGate { was_speaking_aloud: true, ..g }, Admission { reset_detector: true, analyse: false })
    } else {
        let reset = g.was_speaking_aloud;
        let cooldown = if reset {
            Some(now)
        } else {
            g.cooldown_since
        };
        match cooldown {
            Some(start) => if since(start, now) < POST_SPEECH_COOLDOWN_NS {
                (
                    CaptureGate { was_speaking_aloud: false, cooldown_since: Some(start) },
                    Admission { reset_detector: reset, analyse: false },
                )
            } else {
                (
                    CaptureGate { was_speaking_aloud: false, cooldown_since: None },
                    Admission { reset_detector: reset, analyse: true },
                )
            },
            None => (
                CaptureGate { was_speaking_aloud: false, cooldown_since: None },
                Admission { reset_detector: reset, analyse: true },
            ),
        }
    }
}

impl CaptureGate {
    pub fn new() -> (g: CaptureGate)
        ensures
            !g.was_speaking_aloud,
            g.cooldown_since is None,
    {
        CaptureGate { was_speaking_aloud: false, cooldown_since: None }
    }

    /// Decide what to do with a buffer that arrived `open_for_ns` after the
    /// stream opened, at `now`.
    pub fn intake(&mut self, running: bool, open_for_ns: u64, speaking_aloud: bool, now: u64) -> (a: Admission)
        ensures
            (*final(self), a) == intake_spec(*old(self), running, open_for_ns, speaking_aloud, now),
    {
        if !running || open_for_ns < STREAM_SETTLE_NS {
            return Admission { reset_detector: false, analyse: false };
        }
        if speaking_aloud {
            self.was_speaking_aloud = true;
            return Admission { reset_detector: true, analyse: false };
        }
        let reset = self.was_speaking_aloud;
        if reset {
            self.was_speaking_aloud = false;
            self.cooldown_since = Some(now);
        }
        match self.cooldown_since {
            Some(start) => {
                let elapsed: u64 = if now >= start { now - start } else { 0 };
                if elapsed < POST_SPEECH_COOLDOWN_NS {
                    Admission { reset_detector: reset, analyse: false }
                } else {
                    self.cooldown_since = None;
                    Admission { reset_detector: reset, analyse: true }
                }
            },
            None => Admission { reset_detector: reset, analyse: true },
        }
    }
}

/// What the detector's answer for one buffer leads to.
#[derive(Clone, Copy, Debug, PartialEq, Eq, Structural)]
pub enum CaptureStep {
    /// Send the utterance to be transcribed; the interface shows thinking.
    Ship,
    /// Too short to be speech; the interface goes back to idle.
    DropShort,
    /// Never loud enough to be speech; the interface goes back to idle.
    DropNoise,
    /// The detector ended an utterance and kept nothing; idle again.
    Ended,
    /// Speech began: signal it, and the interface shows listening.
    Started,
    /// Nothing changed.
    Quiet,
}

pub open spec fn capture_step_spec(utterance_len: Option<usize>, loud_enough: bool, was_speaking: bool, now_speaking: bool) -> CaptureStep {
    match utterance_len {
        Some(n) => if n < MIN_UTTERANCE_SAMPLES {
            CaptureStep::DropShort
        } else if !loud_enough {
            CaptureStep::DropNoise
        } else {
            CaptureStep::Ship
        },
        None => if was_speaking && !now_speaking {
            CaptureStep::Ended
        } else if !was_speaking && now_speaking {
            CaptureStep::Started
        } else {
            CaptureStep::Quiet
        },
    }
}

/// Given what the detector returned (the length of a finished utterance,
/// if any, and whether its peak energy reached the configured minimum) and
/// whether it was and is in speech, what the capture does next.
pub fn capture_step(utterance_len: Option<usize>, loud_enough: bool, was_speaking: bool, now_speaking: bool) -> (r: CaptureStep)
    ensures
        r == capture_step_spec(utterance_len, loud_enough, was_speaking, now_speaking),
{
    match utterance_len {
        Some(n) => {
            if n < MIN_UTTERANCE_SAMPLES {
                CaptureStep::DropShort
            } else if !loud_enough {
                CaptureStep::DropNoise
            } else {
                CaptureStep::Ship
            }
        },
        None => {
            if was_speaking && !now_speaking {
                CaptureStep::Ended
            } else if !was_speaking && now_speaking {
                CaptureStep::Started
            } else {
                CaptureStep::Quiet
            }
        },
    }
}

pub open spec fn shown_after_spec(s: CaptureStep) -> Option<Seq<char>> {
    match s {
        CaptureStep::Ship => Some("thinking"@),
        CaptureStep::DropShort | CaptureStep::DropNoise | CaptureStep::Ended => Some("idle"@),
        CaptureStep::Started => Some("listening"@),
        CaptureStep::Quiet => None,
    }
}

/// The interface state to publish after a step, if any.
pub fn shown_after(s: CaptureStep) -> (r: Option<&'static str>)
    ensures
        match shown_after_spec(s) {
            Some(t) => r matches Some(x) && x@ == t,
            None => r is None,
        },
{
    match s {
        CaptureStep::Ship => Some("thinking"),
        CaptureStep::DropShort => Some("idle"),
        CaptureStep::DropNoise => Some("idle"),
        CaptureStep::Ended => Some("idle"),
        CaptureStep::Started => Some("listening"),
        CaptureStep::Quiet => None,
    }
}

/// What a transcription attempt leads to.
#[derive(Debug, PartialEq, Eq)]
pub enum Transcribed {
    /// The user said this: it goes on as their intent.
    Heard(String),
    /// The worker answered with no text: silence, back to idle.
    Silence,
    /// No answer after every attempt: the interface shows an error.
    Failed,
}

/// The outcome of transcribing an utterance, from the worker's text (or
/// nothing when every attempt failed): text is the user's intent, empty
/// text is silence, no text is a failure.
pub fn transcription_outcome(text: Option<&str>) -> (r: Transcribed)
    ensures
        match text {
            Some(t) => if t@.len() > 0 {
                r matches Transcribed::Heard(s) && s@ == t@
            } else {
                r is Silence
            },
            None => r is Failed,
        },
{
    match text {
        Some(t) => {
            let cs = chars_of(t);
            if cs.len() > 0 {
                Transcribed::Heard(crate::text::string_of(&cs))
            } else {
                Transcribed::Silence
            }
        },
        None => Transcribed::Failed,
    }
}

/// The request that asks the worker to transcribe an utterance, its
/// samples given as bytes (each sample's little-endian bytes in turn):
/// the JSON `serde_json` writes for it, keys in order.
pub open spec fn stt_request_spec(audio: Seq<u8>) -> Seq<char> {
    "{\"payload\":{\"audio\":\""@ + base64_encoded(audio) + "\",\"request_type\":\"stt\"},\"type\":\"WorkerRequest\"}"@
}

pub fn stt_request(audio: &[u8]) -> (r: String)
    ensures
        r@ == stt_request_spec(audio@),
{
    let mut m: Vec<char> = Vec::new();
    push_str(&mut m, "{\"payload\":{\"audio\":\"");
    let b = encode_base64(audio);
    push_str(&mut m, b.as_str());
    push_str(&mut m, "\",\"request_type\":\"stt\"},\"type\":\"WorkerRequest\"}");
    let r = string_of(&m);
    assert(r@ =~= stt_request_spec(audio@));
    r
}

/// The text in the worker's reply to a transcription request: the string
/// at `payload.result.text`; nothing when the reply is not JSON or holds
/// no such string.
pub open spec fn stt_text_spec(reply: Option<Json>) -> Option<Seq<char>> {
    match reply {
        Some(v) => reply_result_text(v, "text"@),
        None => None,
    }
}

pub fn stt_reply_text(reply: &str) -> (r: Option<String>)
    ensures
        match stt_text_spec(json_of(reply@)) {
            Some(t) => r matches Some(s) && s@ == t,
            None => r is None,
        },
{
    let parsed = parse_json(reply);
    match &parsed {
        Ok(v) => match get(v, "payload") {
            Some(p) => match get(p, "result") {
                Some(res) => match str_of(get(res, "text")) {
                    Some(t) => Some(string_of(&chars_of(t))),
                    None => None,
                },
                None => None,
            },
            None => None,
        },
        Err(_) => None,
    }
}

/// Tries a transcription gets.
pub const STT_ATTEMPTS: u32 = 5;

/// How long try number `attempt` (from 1) may wait for the worker, in
/// seconds: the first may have to wait for the model to load.
pub fn stt_attempt_limit_secs(attempt: u32) -> (r: u64)
    ensures
        r == (if attempt == 1 { 300u64 } else { 60u64 }),
{
    if attempt == 1 {
        300
    } else {
        60
    }
}

/// What follows one try of a transcription.
#[derive(Clone, Copy, Debug, PartialEq, Eq, Structural)]
pub enum SttNext {
    /// The worker gave text: pass it on.
    Deliver,
    /// No text: pause, then try again.
    PauseAndRetry,
    /// No text on the last try: pause, then report the failure.
    PauseAndGiveUp,
}

pub open spec fn stt_next_spec(attempt: u32, got_text: bool) -> SttNext {
    if got_text {
        SttNext::Deliver
    } else if attempt >= STT_ATTEMPTS {
        SttNext::PauseAndGiveUp
    } else {
        SttNext::PauseAndRetry
    }
}

pub fn stt_next(attempt: u32, got_text: bool) -> (r: SttNext)
    ensures
        r == stt_next_spec(attempt, got_text),
{
    if got_text {
        SttNext::Deliver
    } else if attempt >= STT_ATTEMPTS {
        SttNext::PauseAndGiveUp
    } else {
        SttNext::PauseAndRetry
    }
}

/// Shipped utterances are long enough and loud enough; nothing else is
/// shipped.
pub proof fn law_only_long_loud_utterances_ship(n: Option<usize>, loud: bool, was: bool, now: bool)
    ensures
        capture_step_spec(n, loud, was, now) == CaptureStep::Ship <==> (n matches Some(len) && len
            >= MIN_UTTERANCE_SAMPLES && loud),
{
}

/// While speech output plays, no buffer reaches the detector, and the first
/// buffer after it ends never does either.
pub proof fn law_own_voice_is_never_heard(g: CaptureGate, running: bool, open_for: u64, now: u64, later: u64)
    ensures
        !intake_spec(g, running, open_for, true, now).1.analyse,
        ({
            let g1 = intake_spec(g, running, open_for, true, now).0;
            !intake_spec(g1, running, open_for, false, later).1.analyse
        }),
{
}

// ---------------------------------------------------------------------
// Where an utterance starts and ends, counted in frames
// ---------------------------------------------------------------------

/// The frame counts that decide where an utterance starts and ends.
#[derive(Clone, Copy, Debug, PartialEq, Eq, Structural)]
pub struct VadCounts {
    /// Loud frames lately: one more for each loud frame, one fewer (down to
    /// none) for each quiet frame before speech starts.
    pub speech_frames: usize,
    /// Quiet frames in a row since speech started.
    pub silence_frames: usize,
    pub is_speaking: bool,
    /// Speech has run past the soft ceiling, so a shorter pause ends it.
    pub past_soft_ceiling: bool,
}

/// The limits, in frames (and samples for the hard ceiling).
#[derive(Clone, Copy, Debug, PartialEq, Eq, Structural)]
pub struct VadLimits {
    pub min_speech_frames: usize,
    pub soft_max_frames: usize,
    pub silence_frames: usize,
    pub grace_silence_frames: usize,
    pub hard_max_samples: usize,
}

/// Why an utterance ended.
#[derive(Clone, Copy, Debug, PartialEq, Eq, Structural)]
pub enum VadEnd {
    /// A pause as long as the silence limit.
    Silence,
    /// Past the soft ceiling, a pause as long as the grace limit.
    Grace,
    /// The buffer reached the hard ceiling while speech went on.
    HardCeiling,
}

impl VadCounts {
    pub fn new() -> (r: Self)
        ensures
            r == (VadCounts { speech_frames: 0, silence_frames: 0, is_speaking: false, past_soft_ceiling: false }),
    {
        VadCounts { speech_frames: 0, silence_frames: 0, is_speaking: false, past_soft_ceiling: false }
    }
}

pub open spec fn vad_step_spec(c: VadCounts, lim: VadLimits, loud: bool, buffered: usize) -> (
    VadCounts,
    Option<VadEnd>,
) {
    if loud {
        let sf = (c.speech_frames + 1) as usize;
        let speaking = c.is_speaking || sf >= lim.min_speech_frames;
        let n = VadCounts {
            speech_frames: sf,
            silence_frames: 0,
            is_speaking: speaking,
            past_soft_ceiling: c.past_soft_ceiling || sf >= lim.soft_max_frames,
        };
        (n, if speaking && buffered >= lim.hard_max_samples { Some(VadEnd::HardCeiling) } else { None })
    } else if c.is_speaking {
        let qf = (c.silence_frames + 1) as usize;
        let n = VadCounts { silence_frames: qf, ..c };
        let required = if c.past_soft_ceiling { lim.grace_silence_frames } else { lim.silence_frames };
        if qf >= required {
            (n, Some(if c.past_soft_ceiling { VadEnd::Grace } else { VadEnd::Silence }))
        } else {
            (n, if buffered >= lim.hard_max_samples { Some(VadEnd::HardCeiling) } else { None })
        }
    } else {
        let n = VadCounts {
            speech_frames: if c.speech_frames > 0 { (c.speech_frames - 1) as usize } else { 0 },
            ..c
        };
        (n, None)
    }
}

/// One frame's effect on the counts: `loud` says whether its level is over
/// the threshold, `buffered` how many samples the utterance holds with it.
/// Gives the new counts and, when the utterance ends here, why.
pub fn vad_step(c: VadCounts, lim: &VadLimits, loud: bool, buffered: usize) -> (r: (VadCounts, Option<VadEnd>))
    requires
        c.speech_frames < usize::MAX,
        c.silence_frames < usize::MAX,
    ensures
        r == vad_step_spec(c, *lim, loud, buffered),
{
    if loud {
        let sf = c.speech_frames + 1;
        let speaking = c.is_speaking || sf >= lim.min_speech_frames;
        let n = VadCounts {
            speech_frames: sf,
            silence_frames: 0,
            is_speaking: speaking,
            past_soft_ceiling: c.past_soft_ceiling || sf >= lim.soft_max_frames,
        };
        let end = if speaking && buffered >= lim.hard_max_samples { Some(VadEnd::HardCeiling) } else { None };
        (n, end)
    } else if c.is_speaking {
        let qf = c.silence_frames + 1;
        let n = VadCounts { silence_frames: qf, ..c };
        let required = if c.past_soft_ceiling { lim.grace_silence_frames } else { lim.silence_frames };
        if qf >= required {
            (n, Some(if c.past_soft_ceiling { VadEnd::Grace } else { VadEnd::Silence }))
        } else {
            (n, if buffered >= lim.hard_max_samples { Some(VadEnd::HardCeiling) } else { None })
        }
    } else {
        let n = VadCounts { speech_frames: c.speech_frames.saturating_sub(1), ..c };
        (n, None)
    }
}

/// Speech starts only on a loud frame that brings the loud count up to the
/// minimum; once started it stays started until the utterance ends; and
/// before it starts, a quiet frame never ends an utterance.
pub proof fn law_speech_needs_enough_loud_frames(c: VadCounts, lim: VadLimits, loud: bool, buffered: usize)
    ensures
        !c.is_speaking && vad_step_spec(c, lim, loud, buffered).0.is_speaking ==> loud && c.speech_frames + 1
            >= lim.min_speech_frames,
        c.is_speaking ==> vad_step_spec(c, lim, loud, buffered).0.is_speaking,
        !c.is_speaking ==> vad_step_spec(c, lim, loud, buffered).1 is None || loud,
{
}

} // verus!
