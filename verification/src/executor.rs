//! The executor's rules: which steps a plan holds, what each step asks
//! for, how a plan run proceeds, and how results read.
use crate::safety::risk::{actions_view, field_or, opt_view, Plan, PlanAction, PlanActionView};
use crate::json::{as_str, field, get, json_of, json_text, parse_json, render_json, str_of, Json};
use crate::text::{chars_of, push_str, same, string_of, strings_view, trim, trim_vec};
use vstd::prelude::*;

verus! {

/// The steps a plan holds: a list's steps; an object's `actions`, or else
/// the object itself; nothing for anything else.
pub open spec fn plan_steps(p: Plan) -> Seq<PlanActionView> {
    match p {
        Plan::List(v) => actions_view(v@),
        Plan::Object { action, actions } => match actions {
            Some(v) => actions_view(v@),
            None => seq![action@],
        },
        Plan::Other => Seq::empty(),
    }
}

fn copy_opt(o: &Option<String>) -> (r: Option<String>)
    ensures
        opt_view(r) == opt_view(*o),
{
    match o {
        Some(s) => Some(string_of(&chars_of(s.as_str()))),
        None => None,
    }
}

fn copy_action(a: &PlanAction) -> (r: PlanAction)
    ensures
        r@ == a@,
{
    let mut args: Vec<String> = Vec::new();
    let mut i: usize = 0;
    while i < a.args.len()
        invariant
            i <= a.args.len(),
            strings_view(args@) == strings_view(a.args@).take(i as int),
        decreases a.args.len() - i,
    {
        let ghost before = args@;
        args.push(string_of(&chars_of(a.args[i].as_str())));
        assert(strings_view(args@) =~= strings_view(before).push(a.args@[i as int]@));
        assert(strings_view(a.args@).take(i + 1) =~= strings_view(a.args@).take(i as int).push(a.args@[i as int]@));
        i = i + 1;
    }
    assert(strings_view(a.args@).take(a.args.len() as int) =~= strings_view(a.args@));
    PlanAction {
        kind: copy_opt(&a.kind),
        target: copy_opt(&a.target),
        command: copy_opt(&a.command),
        op: copy_opt(&a.op),
        text: copy_opt(&a.text),
        title: copy_opt(&a.title),
        message: copy_opt(&a.message),
        description: copy_opt(&a.description),
        args,
    }
}

fn copy_actions(v: &Vec<PlanAction>) -> (r: Vec<PlanAction>)
    ensures
        actions_view(r@) == actions_view(v@),
{
    let mut r: Vec<PlanAction> = Vec::new();
    let mut i: usize = 0;
    while i < v.len()
        invariant
            i <= v.len(),
            actions_view(r@) == actions_view(v@).take(i as int),
        decreases v.len() - i,
    {
        let ghost before = r@;
        r.push(copy_action(&v[i]));
        assert(actions_view(r@) =~= actions_view(before).push(v@[i as int]@));
        assert(actions_view(v@).take(i + 1) =~= actions_view(v@).take(i as int).push(v@[i as int]@));
        i = i + 1;
    }
    assert(actions_view(v@).take(v.len() as int) =~= actions_view(v@));
    r
}

/// The steps of a plan, in order.
pub fn extract_actions(plan: &Plan) -> (r: Vec<PlanAction>)
    ensures
        actions_view(r@) == plan_steps(*plan),
{
    match plan {
        Plan::List(v) => copy_actions(v),
        Plan::Object { action, actions } => match actions {
            Some(v) => copy_actions(v),
            None => {
                let mut r: Vec<PlanAction> = Vec::new();
                r.push(copy_action(action));
                assert(actions_view(r@) =~= seq![action@]);
                r
            },
        },
        Plan::Other => {
            let r: Vec<PlanAction> = Vec::new();
            assert(actions_view(r@) =~= Seq::<PlanActionView>::empty());
            r
        },
    }
}

/// What a step asks for.
pub enum ActionRequest {
    Shell(String),
    App { target: String, args: Vec<String> },
    Notify { title: String, message: String },
    Say(String),
    /// Handed to the system-control subsystem.
    System(String),
}

pub enum RequestView {
    Shell(Seq<char>),
    App(Seq<char>, Seq<Seq<char>>),
    Notify(Seq<char>, Seq<char>),
    Say(Seq<char>),
    System(Seq<char>),
}

pub open spec fn request_view(r: ActionRequest) -> RequestView {
    match r {
        ActionRequest::Shell(c) => RequestView::Shell(c@),
        ActionRequest::App { target, args } => RequestView::App(target@, strings_view(args@)),
        ActionRequest::Notify { title, message } => RequestView::Notify(title@, message@),
        ActionRequest::Say(t) => RequestView::Say(t@),
        ActionRequest::System(op) => RequestView::System(op@),
    }
}

/// What a step asks for, or why it cannot run: a shell step needs its
/// command, an app step its target, a say step its text; a notification
/// defaults its title to "MAVIS" and its message to nothing; a system
/// step its operation to "unknown"; any other type is refused.
pub open spec fn request_spec(a: PlanActionView) -> Result<RequestView, Seq<char>> {
    let kind = field_or(a.kind, "unknown"@);
    if kind == "shell"@ {
        match a.command {
            Some(c) => Ok(RequestView::Shell(c)),
            None => Err("shell action missing 'command'"@),
        }
    } else if kind == "app"@ {
        match a.target {
            Some(t) => Ok(RequestView::App(t, a.args)),
            None => Err("app action missing 'target'"@),
        }
    } else if kind == "notify"@ {
        Ok(RequestView::Notify(field_or(a.title, "MAVIS"@), field_or(a.message, Seq::empty())))
    } else if kind == "say"@ {
        match a.text {
            Some(t) => Ok(RequestView::Say(t)),
            None => Err("say action missing 'text'"@),
        }
    } else if kind == "system"@ {
        Ok(RequestView::System(field_or(a.op, "unknown"@)))
    } else {
        Err("unknown action type: "@ + kind)
    }
}

fn lit(s: &str) -> (r: String)
    ensures
        r@ == s@,
{
    string_of(&chars_of(s))
}

/// Read what a step asks for.
pub fn action_request(a: &PlanAction) -> (r: Result<ActionRequest, String>)
    ensures
        match request_spec(a@) {
            Ok(v) => r matches Ok(x) && request_view(x) == v,
            Err(e) => r matches Err(m) && m@ == e,
        },
{
    let kind = crate::safety::risk::field_chars(&a.kind, "unknown");
    proof {
        reveal_strlit("");
    }
    if same(&kind, &chars_of("shell")) {
        return match &a.command {
            Some(c) => Ok(ActionRequest::Shell(lit(c.as_str()))),
            None => Err(lit("shell action missing 'command'")),
        };
    }
    if same(&kind, &chars_of("app")) {
        return match &a.target {
            Some(t) => {
                let mut args: Vec<String> = Vec::new();
                let mut i: usize = 0;
                while i < a.args.len()
                    invariant
                        i <= a.args.len(),
                        strings_view(args@) == strings_view(a.args@).take(i as int),
                    decreases a.args.len() - i,
                {
                    let ghost before = args@;
                    args.push(lit(a.args[i].as_str()));
                    assert(strings_view(args@) =~= strings_view(before).push(a.args@[i as int]@));
                    assert(strings_view(a.args@).take(i + 1) =~= strings_view(a.args@).take(i as int).push(
                        a.args@[i as int]@,
                    ));
                    i = i + 1;
                }
                assert(strings_view(a.args@).take(a.args.len() as int) =~= strings_view(a.args@));
                Ok(ActionRequest::App { target: lit(t.as_str()), args })
            },
            None => Err(lit("app action missing 'target'")),
        };
    }
    if same(&kind, &chars_of("notify")) {
        let title = string_of(&crate::safety::risk::field_chars(&a.title, "MAVIS"));
        let message = string_of(&crate::safety::risk::field_chars(&a.message, ""));
        assert(""@ =~= Seq::<char>::empty());
        return Ok(ActionRequest::Notify { title, message });
    }
    if same(&kind, &chars_of("say")) {
        return match &a.text {
            Some(t) => Ok(ActionRequest::Say(lit(t.as_str()))),
            None => Err(lit("say action missing 'text'")),
        };
    }
    if same(&kind, &chars_of("system")) {
        return Ok(ActionRequest::System(string_of(&crate::safety::risk::field_chars(&a.op, "unknown"))));
    }
    let mut m: Vec<char> = Vec::new();
    push_str(&mut m, "unknown action type: ");
    crate::text::push_chars(&mut m, &kind);
    Err(string_of(&m))
}

// ---------------------------------------------------------------------
// Running a plan
// ---------------------------------------------------------------------

/// A plan being run, step by step: the next step, and whether speech was
/// queued. The interface shows "working" from the start.
pub struct PlanRun {
    pub next: usize,
    pub total: usize,
    pub tts_queued: bool,
    pub stopped: bool,
}

/// After a step.
#[derive(Clone, Copy, Debug, PartialEq, Eq, Structural)]
pub enum StepOutcome {
    /// Go on with the next step.
    Continue,
    /// Every step ran; show idle, unless speech will do so when it ends.
    Finished { show_idle: bool },
    /// The step failed: show the error, stop speech, run nothing more.
    Failed,
}

impl PlanRun {
    /// Start a run of `total` steps. With none, the interface goes back to
    /// idle at once.
    pub fn start(total: usize) -> (r: PlanRun)
        ensures
            r.next == 0,
            r.total == total,
            !r.tts_queued,
            r.stopped == (total == 0),
    {
        PlanRun { next: 0, total, tts_queued: false, stopped: total == 0 }
    }

    /// The current step finished, successfully or not; `was_say` says
    /// whether it queued speech.
    pub fn step_done(&mut self, was_say: bool, success: bool) -> (r: StepOutcome)
        requires
            !old(self).stopped,
            old(self).next < old(self).total,
        ensures
            final(self).total == old(self).total,
            final(self).next == old(self).next + 1,
            final(self).tts_queued == (old(self).tts_queued || was_say),
            !success ==> r == StepOutcome::Failed && final(self).stopped,
            success && final(self).next < final(self).total ==> r == StepOutcome::Continue && !final(self).stopped,
            success && final(self).next == final(self).total ==> (r == (StepOutcome::Finished {
                show_idle: !final(self).tts_queued,
            })) && final(self).stopped,
    {
        self.next = self.next + 1;
        if was_say {
            self.tts_queued = true;
        }
        if !success {
            self.stopped = true;
            return StepOutcome::Failed;
        }
        if self.next < self.total {
            StepOutcome::Continue
        } else {
            self.stopped = true;
            StepOutcome::Finished { show_idle: !self.tts_queued }
        }
    }
}

// ---------------------------------------------------------------------
// Results
// ---------------------------------------------------------------------

/// What a shell command's run reads as: its trimmed output (with the
/// error stream after it, when there is one) on success; on failure its
/// exit code (or "signal") and trimmed error stream.
pub open spec fn shell_result_spec(stdout: Seq<char>, stderr: Seq<char>, success: bool, code: Option<i32>) -> Result<
    Seq<char>,
    Seq<char>,
> {
    if !success {
        Err(
            "exit "@ + match code {
                Some(c) => crate::text::signed_decimal(c as int),
                None => "signal"@,
            } + ": "@ + trim(stderr),
        )
    } else if stderr.len() == 0 {
        Ok(trim(stdout))
    } else {
        Ok(trim(trim(stdout) + "\n"@ + trim(stderr)))
    }
}

pub fn shell_result(stdout: &str, stderr: &str, success: bool, code: Option<i32>) -> (r: Result<String, String>)
    ensures
        match shell_result_spec(stdout@, stderr@, success, code) {
            Ok(o) => r matches Ok(s) && s@ == o,
            Err(e) => r matches Err(s) && s@ == e,
        },
{
    let err_chars = chars_of(stderr);
    if !success {
        let mut m: Vec<char> = Vec::new();
        push_str(&mut m, "exit ");
        match code {
            Some(c) => crate::text::push_signed_decimal(&mut m, c as i64),
            None => push_str(&mut m, "signal"),
        }
        push_str(&mut m, ": ");
        crate::text::push_chars(&mut m, &trim_vec(&err_chars));
        return Err(string_of(&m));
    }
    if err_chars.len() == 0 {
        return Ok(string_of(&trim_vec(&chars_of(stdout))));
    }
    let mut both: Vec<char> = trim_vec(&chars_of(stdout));
    push_str(&mut both, "\n");
    crate::text::push_chars(&mut both, &trim_vec(&err_chars));
    Ok(string_of(&trim_vec(&both)))
}

/// An app that would not start is opened with the desktop's handler
/// instead when it looks like a URL or a path.
pub open spec fn opens_with_handler(target: Seq<char>) -> bool {
    crate::text::has_sub(target, "://"@) || (target.len() > 0 && (target[0] == '/' || target[0] == '~'))
}

pub fn needs_handler(target: &str) -> (r: bool)
    ensures
        r == opens_with_handler(target@),
{
    let t = chars_of(target);
    crate::text::contains(&t, &chars_of("://")) || (t.len() > 0 && (t[0] == '/' || t[0] == '~'))
}

/// The players tried for a sound file, in order, each with its
/// arguments: PipeWire's and PulseAudio's take a device when one is set.
pub open spec fn audio_backends_spec(path: Seq<char>, device: Option<Seq<char>>) -> Seq<(Seq<char>, Seq<Seq<char>>)> {
    let with_device = match device {
        Some(d) => seq![path, "--device"@, d],
        None => seq![path],
    };
    seq![("pw-play"@, with_device), ("paplay"@, with_device), ("aplay"@, seq![path])]
}

pub fn audio_backends(path: &str, device: Option<&str>) -> (r: Vec<(String, Vec<String>)>)
    ensures
        r@.len() == 3,
        forall|i: int|
            0 <= i < 3 ==> (#[trigger] r@[i]).0@ == audio_backends_spec(path@, crate::planner::str_opt(device))[i].0
                && strings_view(r@[i].1@) == audio_backends_spec(path@, crate::planner::str_opt(device))[i].1,
{
    let mut out: Vec<(String, Vec<String>)> = Vec::new();
    let names = ["pw-play", "paplay"];
    let mut k: usize = 0;
    let ghost spec = audio_backends_spec(path@, crate::planner::str_opt(device));
    while k < 2
        invariant
            k <= 2,
            names@ == seq!["pw-play", "paplay"],
            spec == audio_backends_spec(path@, crate::planner::str_opt(device)),
            out@.len() == k,
            forall|i: int| 0 <= i < k ==> (#[trigger] out@[i]).0@ == spec[i].0 && strings_view(out@[i].1@) == spec[i].1,
        decreases 2 - k,
    {
        let mut args: Vec<String> = Vec::new();
        args.push(lit(path));
        match device {
            Some(d) => {
                args.push(lit("--device"));
                args.push(lit(d));
            },
            None => {},
        }
        proof {
            reveal_strlit("pw-play");
            reveal_strlit("paplay");
        }
        assert(strings_view(args@) =~= spec[k as int].1);
        out.push((lit(names[k]), args));
        k = k + 1;
    }
    let mut last: Vec<String> = Vec::new();
    last.push(lit(path));
    assert(strings_view(last@) =~= spec[2].1);
    out.push((lit("aplay"), last));
    out
}

// ---------------------------------------------------------------------
// Synthesised speech
// ---------------------------------------------------------------------

/// What the standard base64 engine decodes a text to; `None` when the text
/// is not valid padded standard base64.
pub uninterp spec fn base64_decoded(text: Seq<char>) -> Option<Seq<u8>>;

/// `base64::Engine::decode` with the standard engine. Claimed: on success
/// the bytes are `base64_decoded` of the text; on failure `base64_decoded`
/// is `None`. The failure's wording is the crate's.
#[verifier::external_body]
pub(crate) fn decode_base64(text: &str) -> (r: Result<Vec<u8>, String>)
    ensures
        match base64_decoded(text@) {
            Some(b) => r matches Ok(v) && v@ == b,
            None => r is Err,
        },
{
    base64::Engine::decode(&base64::engine::general_purpose::STANDARD, text).map_err(|e| e.to_string())
}

/// What the standard base64 engine encodes bytes to, padded.
pub uninterp spec fn base64_encoded(bytes: Seq<u8>) -> Seq<char>;

/// `base64::Engine::encode` with the standard engine. Claimed: the text is
/// `base64_encoded` of the bytes, and the same engine decodes it back to
/// them.
#[verifier::external_body]
pub(crate) fn encode_base64(bytes: &[u8]) -> (r: String)
    ensures
        r@ == base64_encoded(bytes@),
        base64_decoded(r@) == Some(bytes@),
{
    base64::Engine::encode(&base64::engine::general_purpose::STANDARD, bytes)
}

/// The audio in the worker's reply to a speech request: its error, when
/// it reports one (as JSON text), refuses; a reply without audio
/// refuses; otherwise the audio decoded from base64.
pub fn tts_audio(error: Option<&str>, audio: Option<&str>) -> (r: Result<Vec<u8>, String>)
    ensures
        error matches Some(e) ==> (r matches Err(m) && m@ == "worker TTS error: "@ + e@),
        error is None && audio is None ==> (r matches Err(m) && m@ == "worker TTS response missing audio field"@),
        error is None ==> (audio matches Some(a) ==> match base64_decoded(a@) {
            Some(b) => r matches Ok(v) && v@ == b,
            None => r matches Err(m) && crate::text::has_prefix(m@, "failed to decode TTS audio: "@),
        }),
{
    if let Some(e) = error {
        let mut m: Vec<char> = Vec::new();
        push_str(&mut m, "worker TTS error: ");
        push_str(&mut m, e);
        return Err(string_of(&m));
    }
    let a = match audio {
        Some(a) => a,
        None => return Err(lit("worker TTS response missing audio field")),
    };
    match decode_base64(a) {
        Ok(v) => Ok(v),
        Err(why) => {
            let mut m: Vec<char> = Vec::new();
            push_str(&mut m, "failed to decode TTS audio: ");
            let ghost pre = m@;
            push_str(&mut m, why.as_str());
            assert(m@.subrange(0, pre.len() as int) =~= pre);
            Err(string_of(&m))
        },
    }
}

/// What a reply's `payload.error` holds, when it has one.
pub open spec fn reply_error(v: Json) -> Option<Json> {
    match field(v, "payload"@) {
        Some(p) => field(p, "error"@),
        None => None,
    }
}

/// The string at a reply's `payload.result.<key>`, when there is one.
pub open spec fn reply_result_text(v: Json, key: Seq<char>) -> Option<Seq<char>> {
    match field(v, "payload"@) {
        Some(p) => match field(p, "result"@) {
            Some(res) => as_str(field(res, key)),
            None => None,
        },
        None => None,
    }
}

/// The audio in the worker's reply to a speech request. A reply that is
/// not JSON refuses, in `serde_json`'s words; otherwise as `tts_audio`
/// reads its error (as JSON text) and its `payload.result.audio`.
pub fn tts_reply(response: &str) -> (r: Result<Vec<u8>, String>)
    ensures
        json_of(response@) is None ==> r is Err,
        json_of(response@) matches Some(v) ==> (reply_error(v) matches Some(e) ==> (r matches Err(m) && m@
            == "worker TTS error: "@ + json_text(e))),
        json_of(response@) matches Some(v) ==> (reply_error(v) is None && reply_result_text(v, "audio"@) is None
            ==> (r matches Err(m) && m@ == "worker TTS response missing audio field"@)),
        json_of(response@) matches Some(v) ==> (reply_error(v) is None ==> (reply_result_text(v, "audio"@) matches Some(
            a,
        ) ==> match base64_decoded(a) {
            Some(b) => r matches Ok(bytes) && bytes@ == b,
            None => r matches Err(m) && crate::text::has_prefix(m@, "failed to decode TTS audio: "@),
        })),
{
    let parsed = parse_json(response);
    let v = match &parsed {
        Ok(v) => v,
        Err(e) => return Err(e.clone()),
    };
    let payload = get(v, "payload");
    let error: Option<String> = match payload {
        Some(p) => match get(p, "error") {
            Some(e) => Some(render_json(e)),
            None => None,
        },
        None => None,
    };
    let audio: Option<&str> = match payload {
        Some(p) => match get(p, "result") {
            Some(res) => str_of(get(res, "audio")),
            None => None,
        },
        None => None,
    };
    match &error {
        Some(e) => tts_audio(Some(e.as_str()), audio),
        None => tts_audio(None, audio),
    }
}

} // verus!
