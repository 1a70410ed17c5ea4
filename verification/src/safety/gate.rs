//! The permission gate: every plan passes here between the planner and the
//! executor. It scores the plan, writes the audit record, releases what is
//! safe, holds what needs a yes, and refuses what is never allowed.
//!
//! The permission gate is a state machine. The surrounding event loop hands it a plan
//! or an answer, performs the audit write and the publication it asks for,
//! and keeps nothing of its own.
use crate::safety::risk::{
    actions_view, assess_plan, assess_plan_spec, field_or, opt_view, steps_of, Plan, PlanAction, PlanActionView,
    Verdict, VerdictView,
};
use crate::text::{
    char_vecs_view, chars_of, collapse_whitespace, collapse_ws, contains, contains_word, ends_with,
    alphanumeric, has_char, has_prefix, has_sub, has_suffix, is_alphanumeric, lowercase, push_chars, push_str,
    same, sep_join, starts_with, string_of, to_lowercase, trim, trim_vec, word_list, words,
};
use crate::util::{truncate_bytes, utf8_prefix};
use vstd::prelude::*;

verus! {

// ---------------------------------------------------------------------
// Reading an answer
// ---------------------------------------------------------------------

/// Punctuation becomes a space, so "yes, administrator" reads as two words;
/// the apostrophe is kept.
pub open spec fn answer_char(c: char) -> char {
    if alphanumeric(c) || c == '\'' {
        c
    } else {
        ' '
    }
}

pub open spec fn answer_chars(said: Seq<char>) -> Seq<char> {
    said.map_values(|c: char| answer_char(c))
}

/// The answer as single-space-separated words.
pub open spec fn normalised_answer(said: Seq<char>) -> Seq<char> {
    collapse_ws(answer_chars(said))
}

pub open spec fn answer_words(said: Seq<char>) -> Seq<Seq<char>> {
    words(answer_chars(said))
}

/// Refusals. An entry with a space is looked for as a phrase, the others
/// as whole words. "don't" is listed as it reads with its apostrophe kept,
/// and as "don t" for an apostrophe that became a space.
pub open spec fn negations() -> Seq<Seq<char>> {
    seq!["no"@, "don't"@, "don t"@, "dont"@, "stop"@, "cancel"@, "never"@, "wait"@]
}

pub open spec fn affirmatives() -> Seq<Seq<char>> {
    seq![
        "yes"@,
        "yeah"@,
        "yep"@,
        "yup"@,
        "sure"@,
        "go ahead"@,
        "do it"@,
        "confirm"@,
        "confirmed"@,
        "affirmative"@,
        "please do"@,
        "ok"@,
        "okay"@,
    ]
}

pub open spec fn negation_hit(said: Seq<char>, n: Seq<char>) -> bool {
    if has_char(n, ' ') {
        has_sub(normalised_answer(said), n)
    } else {
        answer_words(said).contains(n)
    }
}

pub open spec fn negated(said: Seq<char>) -> bool {
    exists|k: int| 0 <= k < negations().len() && negation_hit(said, #[trigger] negations()[k])
}

/// `a` stands in `norm` as whole words: all of it, at its start, inside
/// it, or at its end.
pub open spec fn phrase_in(norm: Seq<char>, a: Seq<char>) -> bool {
    ||| norm == a
    ||| has_prefix(norm, a + " "@)
    ||| has_sub(norm, " "@ + a + " "@)
    ||| has_suffix(norm, " "@ + a)
}

/// A clear yes: no refusal anywhere, and an agreement phrase somewhere.
pub open spec fn affirmative(said: Seq<char>) -> bool {
    &&& !negated(said)
    &&& exists|k: int|
        0 <= k < affirmatives().len() && phrase_in(normalised_answer(said), #[trigger] affirmatives()[k])
}

fn negations_vec() -> (r: Vec<Vec<char>>)
    ensures
        char_vecs_view(r@) == negations(),
{
    let v = vec![
        chars_of("no"),
        chars_of("don't"),
        chars_of("don t"),
        chars_of("dont"),
        chars_of("stop"),
        chars_of("cancel"),
        chars_of("never"),
        chars_of("wait"),
    ];
    assert(char_vecs_view(v@) =~= negations());
    v
}

fn affirmatives_vec() -> (r: Vec<Vec<char>>)
    ensures
        char_vecs_view(r@) == affirmatives(),
{
    let v = vec![
        chars_of("yes"),
        chars_of("yeah"),
        chars_of("yep"),
        chars_of("yup"),
        chars_of("sure"),
        chars_of("go ahead"),
        chars_of("do it"),
        chars_of("confirm"),
        chars_of("confirmed"),
        chars_of("affirmative"),
        chars_of("please do"),
        chars_of("ok"),
        chars_of("okay"),
    ];
    assert(char_vecs_view(v@) =~= affirmatives());
    v
}

fn answer_chars_vec(said: &[char]) -> (r: Vec<char>)
    ensures
        r@ == answer_chars(said@),
{
    let mut r: Vec<char> = Vec::new();
    let mut i: usize = 0;
    while i < said.len()
        invariant
            i <= said.len(),
            r@ == answer_chars(said@.take(i as int)),
        decreases said.len() - i,
    {
        let c = said[i];
        if is_alphanumeric(c) || c == '\'' {
            r.push(c);
        } else {
            r.push(' ');
        }
        assert(answer_chars(said@.take(i + 1)) =~= answer_chars(said@.take(i as int)).push(
            answer_char(c),
        ));
        i = i + 1;
    }
    assert(said@.take(said.len() as int) =~= said@);
    r
}

fn has_space(n: &[char]) -> (r: bool)
    ensures
        r == has_char(n@, ' '),
{
    let mut i: usize = 0;
    while i < n.len()
        invariant
            i <= n.len(),
            forall|j: int| 0 <= j < i ==> n@[j] != ' ',
        decreases n.len() - i,
    {
        if n[i] == ' ' {
            return true;
        }
        i = i + 1;
    }
    false
}

fn phrase_in_exec(norm: &[char], a: &[char]) -> (r: bool)
    ensures
        r == phrase_in(norm@, a@),
{
    let mut tail: Vec<char> = Vec::new();
    push_chars(&mut tail, a);
    push_str(&mut tail, " ");
    let mut head: Vec<char> = Vec::new();
    push_str(&mut head, " ");
    push_chars(&mut head, a);
    let mut inner: Vec<char> = Vec::new();
    push_chars(&mut inner, &head);
    push_str(&mut inner, " ");
    proof {
        reveal_strlit(" ");
        assert(inner@ =~= " "@ + a@ + " "@);
    }
    same(norm, a) || starts_with(norm, &tail) || contains(norm, &inner) || ends_with(norm, &head)
}

/// Whether an utterance is a clear yes.
///
/// Strict on purpose: any refusal word wins over any agreement ("no, yes"
/// is a refusal), and hedges such as "maybe" are not consent.
pub fn is_affirmative(said: &str) -> (r: bool)
    ensures
        r == affirmative(said@),
{
    let cs = chars_of(said);
    let mapped = answer_chars_vec(&cs);
    let norm = collapse_whitespace(&mapped);
    let ws = word_list(&mapped);
    let negs = negations_vec();
    let ghost nv = negations();
    let mut k: usize = 0;
    while k < negs.len()
        invariant
            nv == char_vecs_view(negs@),
            nv == negations(),
            norm@ == normalised_answer(said@),
            char_vecs_view(ws@) == answer_words(said@),
            k <= negs.len(),
            forall|j: int| 0 <= j < k ==> !negation_hit(said@, #[trigger] nv[j]),
        decreases negs.len() - k,
    {
        assert(nv[k as int] == negs@[k as int]@);
        let hit = if has_space(&negs[k]) {
            contains(&norm, &negs[k])
        } else {
            contains_word(&ws, &negs[k])
        };
        if hit {
            return false;
        }
        k = k + 1;
    }
    let affs = affirmatives_vec();
    let ghost av = affirmatives();
    let mut k: usize = 0;
    while k < affs.len()
        invariant
            av == char_vecs_view(affs@),
            av == affirmatives(),
            norm@ == normalised_answer(said@),
            !negated(said@),
            k <= affs.len(),
            forall|j: int| 0 <= j < k ==> !phrase_in(norm@, #[trigger] av[j]),
        decreases affs.len() - k,
    {
        assert(av[k as int] == affs@[k as int]@);
        if phrase_in_exec(&norm, &affs[k]) {
            return true;
        }
        k = k + 1;
    }
    false
}

// ---------------------------------------------------------------------
// One line per plan, for the audit log
// ---------------------------------------------------------------------

/// What a step acts on: the first of its command, target, op and text.
pub open spec fn first_text(a: PlanActionView) -> Seq<char> {
    match a.command {
        Some(t) => t,
        None => match a.target {
            Some(t) => t,
            None => match a.op {
                Some(t) => t,
                None => match a.text {
                    Some(t) => t,
                    None => Seq::empty(),
                },
            },
        },
    }
}

/// `kind:what`, with `what` cut to at most 120 bytes on a character
/// boundary, and `?` for a step without a type.
pub open spec fn step_line(a: PlanActionView) -> Seq<char> {
    field_or(a.kind, "?"@) + ":"@ + utf8_prefix(first_text(a), 120)
}

pub open spec fn step_lines(p: Plan) -> Seq<Seq<char>> {
    steps_of(p).map_values(|a: PlanActionView| step_line(a))
}

/// The steps' lines joined with " | ".
pub open spec fn summary_spec(p: Plan) -> Seq<char> {
    sep_join(step_lines(p), " | "@)
}

/// The type the audit log files a plan under: its first step's type, or
/// "unknown".
pub open spec fn action_type_spec(p: Plan) -> Seq<char> {
    if steps_of(p).len() > 0 {
        field_or(steps_of(p)[0].kind, "unknown"@)
    } else {
        "unknown"@
    }
}

fn first_text_of(a: &PlanAction) -> (r: &str)
    ensures
        r@ == first_text(a@),
{
    proof {
        reveal_strlit("");
    }
    match &a.command {
        Some(t) => t.as_str(),
        None => match &a.target {
            Some(t) => t.as_str(),
            None => match &a.op {
                Some(t) => t.as_str(),
                None => match &a.text {
                    Some(t) => t.as_str(),
                    None => "",
                },
            },
        },
    }
}

fn step_line_of(a: &PlanAction) -> (r: Vec<char>)
    ensures
        r@ == step_line(a@),
{
    let mut r = crate::safety::risk::field_chars(&a.kind, "?");
    push_str(&mut r, ":");
    // Cut on a character boundary: the text may be speech in any script.
    let cut = truncate_bytes(first_text_of(a), 120);
    push_str(&mut r, cut);
    r
}

fn action_type_of(plan: &Plan) -> (r: String)
    ensures
        r@ == action_type_spec(*plan),
{
    match plan {
        Plan::List(v) => {
            if v.len() > 0 {
                assert(steps_of(*plan)[0] == v@[0]@);
                string_of(&crate::safety::risk::field_chars(&v[0].kind, "unknown"))
            } else {
                string_of(&chars_of("unknown"))
            }
        },
        Plan::Object { actions: Some(v), .. } => {
            if v.len() > 0 {
                assert(steps_of(*plan)[0] == v@[0]@);
                string_of(&crate::safety::risk::field_chars(&v[0].kind, "unknown"))
            } else {
                proof {
                    reveal_strlit("unknown");
                }
                string_of(&chars_of("unknown"))
            }
        },
        Plan::Object { action, .. } => string_of(&crate::safety::risk::field_chars(&action.kind, "unknown")),
        Plan::Other => {
            proof {
                reveal_strlit("unknown");
            }
            string_of(&chars_of("unknown"))
        },
    }
}

/// Each step's line, joined with " | ".
fn summarise_steps(v: &Vec<PlanAction>) -> (r: Vec<char>)
    ensures
        r@ == sep_join(actions_view(v@).map_values(|a: PlanActionView| step_line(a)), " | "@),
{
    let ghost lines = actions_view(v@).map_values(|a: PlanActionView| step_line(a));
    let mut out: Vec<char> = Vec::new();
    let mut k: usize = 0;
    while k < v.len()
        invariant
            lines == actions_view(v@).map_values(|a: PlanActionView| step_line(a)),
            lines.len() == v.len(),
            k <= v.len(),
            out@ == sep_join(lines.take(k as int), " | "@),
        decreases v.len() - k,
    {
        if k > 0 {
            push_str(&mut out, " | ");
        }
        let line = step_line_of(&v[k]);
        assert(lines[k as int] == step_line(v@[k as int]@));
        push_chars(&mut out, &line);
        assert(lines.take(k + 1).drop_last() =~= lines.take(k as int));
        if k == 0 {
            assert(out@ =~= sep_join(lines.take(1), " | "@));
        }
        k = k + 1;
    }
    assert(lines.take(v.len() as int) =~= lines);
    out
}

/// One-line description of a plan, for the audit log.
pub fn summarise(plan: &Plan) -> (r: String)
    ensures
        r@ == summary_spec(*plan),
{
    let ghost lines = step_lines(*plan);
    match plan {
        Plan::List(v) => string_of(&summarise_steps(v)),
        Plan::Object { actions: Some(v), .. } => string_of(&summarise_steps(v)),
        Plan::Object { action, .. } => {
            let line = step_line_of(action);
            assert(lines =~= seq![step_line(action@)]);
            string_of(&line)
        },
        Plan::Other => {
            let e = PlanAction::empty();
            let line = step_line_of(&e);
            assert(lines =~= seq![step_line(e@)]);
            string_of(&line)
        },
    }
}

// ---------------------------------------------------------------------
// The permission gate itself
// ---------------------------------------------------------------------

/// How long a held action stays answerable, in nanoseconds (20 s). A "yes"
/// much later probably answers a different question.
pub const CONFIRMATION_WINDOW_NS: u64 = 20_000_000_000;

/// One line of the append-only audit log.
pub struct AuditRecord {
    pub action_type: String,
    pub detail: String,
    pub risk_score: u8,
    pub outcome: String,
    pub reason: String,
}

pub struct AuditRecordView {
    pub action_type: Seq<char>,
    pub detail: Seq<char>,
    pub risk_score: u8,
    pub outcome: Seq<char>,
    pub reason: Seq<char>,
}

impl View for AuditRecord {
    type V = AuditRecordView;

    open spec fn view(&self) -> AuditRecordView {
        AuditRecordView {
            action_type: self.action_type@,
            detail: self.detail@,
            risk_score: self.risk_score,
            outcome: self.outcome@,
            reason: self.reason@,
        }
    }
}

pub open spec fn record_of(
    action_type: Seq<char>,
    detail: Seq<char>,
    risk_score: u8,
    outcome: Seq<char>,
    reason: Seq<char>,
) -> AuditRecordView {
    AuditRecordView { action_type, detail, risk_score, outcome, reason }
}

fn make_record(action_type: &str, detail: &str, risk_score: u8, outcome: &str, reason: &str) -> (r:
    AuditRecord)
    ensures
        r@ == record_of(action_type@, detail@, risk_score, outcome@, reason@),
{
    AuditRecord {
        action_type: string_of(&chars_of(action_type)),
        detail: string_of(&chars_of(detail)),
        risk_score,
        outcome: string_of(&chars_of(outcome)),
        reason: string_of(&chars_of(reason)),
    }
}

/// What the permission gate lets through to the executor: the reviewed plan itself,
/// or a line for the assistant to say.
pub enum Release<P> {
    Plan(P),
    Say(String),
}

pub enum ReleaseView<P> {
    Plan(P),
    Say(Seq<char>),
}

/// What the event loop is to do after one step of the permission gate: write the
/// audit record, then publish the release, each when present.
pub struct GateOutput<P> {
    pub record: Option<AuditRecord>,
    pub release: Option<Release<P>>,
}

pub struct GateOutputView<P> {
    pub record: Option<AuditRecordView>,
    pub release: Option<ReleaseView<P>>,
}

impl<P> View for GateOutput<P> {
    type V = GateOutputView<P>;

    open spec fn view(&self) -> GateOutputView<P> {
        GateOutputView {
            record: match self.record {
                Some(r) => Some(r@),
                None => None,
            },
            release: match self.release {
                Some(Release::Plan(p)) => Some(ReleaseView::Plan(p)),
                Some(Release::Say(t)) => Some(ReleaseView::Say(t@)),
                None => None,
            },
        }
    }
}

/// An action held back until the user says yes.
pub struct Pending<P> {
    pub plan: P,
    pub detail: String,
    pub score: u8,
    /// Scores of 8 and up need "administrator" said with the yes.
    pub requires_explicit: bool,
    /// When the question was asked, in nanoseconds on a monotonic clock.
    pub asked_at: u64,
}

pub struct PendingView<P> {
    pub plan: P,
    pub detail: Seq<char>,
    pub score: u8,
    pub requires_explicit: bool,
    pub asked_at: u64,
}

impl<P> View for Pending<P> {
    type V = PendingView<P>;

    open spec fn view(&self) -> PendingView<P> {
        PendingView {
            plan: self.plan,
            detail: self.detail@,
            score: self.score,
            requires_explicit: self.requires_explicit,
            asked_at: self.asked_at,
        }
    }
}

/// The permission gate. `P` is the plan as the executor will receive it;
/// the permission gate judges it by its `Plan` reading and passes it on untouched.
pub struct PermissionGate<P> {
    pending: Option<Pending<P>>,
}

impl<P> View for PermissionGate<P> {
    type V = Option<PendingView<P>>;

    closed spec fn view(&self) -> Option<PendingView<P>> {
        match self.pending {
            Some(p) => Some(p@),
            None => None,
        }
    }
}

pub open spec fn outcome_word(v: VerdictView) -> Seq<char> {
    match v {
        VerdictView::Allow => "allowed"@,
        VerdictView::Confirm => "held_for_confirmation"@,
        VerdictView::Deny(_) => "denied"@,
    }
}

/// The question asked before a held action.
pub open spec fn question(score: u8, reason: Seq<char>) -> Seq<char> {
    if score >= 8 {
        "That needs administrator permission \u{2014} "@ + reason
            + ". Say 'yes, administrator' to go ahead."@
    } else {
        "Shall I? "@ + reason + "."@
    }
}

pub open spec fn refusal() -> Seq<char> {
    "I won't do that. It's not reversible."@
}

pub open spec fn cancelled() -> Seq<char> {
    "Cancelled."@
}

/// Reviewing a plan: the record always, then the plan released (allowed),
/// held with a question (confirm), or refused aloud (deny).
pub open spec fn review_spec<P>(held: Option<PendingView<P>>, payload: P, plan: Plan, now: u64) -> (
    Option<PendingView<P>>,
    GateOutputView<P>,
) {
    let a = assess_plan_spec(plan);
    let rec = Some(
        record_of(action_type_spec(plan), summary_spec(plan), a.score, outcome_word(a.verdict), a.reason),
    );
    match a.verdict {
        VerdictView::Allow => (held, GateOutputView { record: rec, release: Some(ReleaseView::Plan(payload)) }),
        VerdictView::Confirm => (
            Some(
                PendingView {
                    plan: payload,
                    detail: summary_spec(plan),
                    score: a.score,
                    requires_explicit: a.score >= 8,
                    asked_at: now,
                },
            ),
            GateOutputView { record: rec, release: Some(ReleaseView::Say(question(a.score, a.reason))) },
        ),
        VerdictView::Deny(_) => (held, GateOutputView { record: rec, release: Some(ReleaseView::Say(refusal())) }),
    }
}

/// The answer as the permission gate hears it: lower-cased and trimmed.
pub open spec fn heard(said: Seq<char>) -> Seq<char> {
    trim(lowercase(said))
}

/// Whether an answer approves the held action.
pub open spec fn consents<P>(p: PendingView<P>, said: Seq<char>) -> bool {
    if p.requires_explicit {
        has_sub(heard(said), "administrator"@) && affirmative(heard(said))
    } else {
        affirmative(heard(said))
    }
}

pub open spec fn expired(asked_at: u64, now: u64) -> bool {
    now - asked_at > CONFIRMATION_WINDOW_NS
}

/// Answering a held action: nothing happens when nothing is held;
/// otherwise the hold ends, as expired, confirmed or declined.
pub open spec fn resolve_spec<P>(held: Option<PendingView<P>>, said: Seq<char>, now: u64) -> (
    Option<PendingView<P>>,
    GateOutputView<P>,
) {
    match held {
        None => (None, GateOutputView { record: None, release: None }),
        Some(p) => if expired(p.asked_at, now) {
            (
                None,
                GateOutputView {
                    record: Some(record_of("confirmation"@, p.detail, p.score, "expired"@, "no answer in time"@)),
                    release: None,
                },
            )
        } else if consents(p, said) {
            (
                None,
                GateOutputView {
                    record: Some(record_of("confirmation"@, p.detail, p.score, "confirmed"@, "user approved"@)),
                    release: Some(ReleaseView::Plan(p.plan)),
                },
            )
        } else {
            (
                None,
                GateOutputView {
                    record: Some(
                        record_of("confirmation"@, p.detail, p.score, "declined"@, "user did not confirm"@),
                    ),
                    release: Some(ReleaseView::Say(cancelled())),
                },
            )
        },
    }
}

fn say<P>(text: &str) -> (r: Option<Release<P>>)
    ensures
        r matches Some(Release::Say(t)) && t@ == text@,
{
    Some(Release::Say(string_of(&chars_of(text))))
}

impl<P> PermissionGate<P> {
    pub fn new() -> (g: Self)
        ensures
            g@ is None,
    {
        PermissionGate { pending: None }
    }

    /// Score a plan, record it, and release, hold or refuse it.
    pub fn review(&mut self, payload: P, plan: &Plan, now: u64) -> (out: GateOutput<P>)
        ensures
            (final(self)@, out@) == review_spec(old(self)@, payload, *plan, now),
    {
        let assessment = assess_plan(plan);
        let detail = summarise(plan);
        let action_type = action_type_of(plan);
        let outcome = match &assessment.verdict {
            Verdict::Allow => "allowed",
            Verdict::Confirm => "held_for_confirmation",
            Verdict::Deny(_) => "denied",
        };
        let record = Some(
            make_record(
                action_type.as_str(),
                detail.as_str(),
                assessment.score,
                outcome,
                assessment.reason.as_str(),
            ),
        );
        match assessment.verdict {
            Verdict::Allow => GateOutput { record, release: Some(Release::Plan(payload)) },
            Verdict::Confirm => {
                let requires_explicit = assessment.score >= 8;
                let mut q: Vec<char> = Vec::new();
                if requires_explicit {
                    push_str(&mut q, "That needs administrator permission \u{2014} ");
                    push_str(&mut q, assessment.reason.as_str());
                    push_str(&mut q, ". Say 'yes, administrator' to go ahead.");
                } else {
                    push_str(&mut q, "Shall I? ");
                    push_str(&mut q, assessment.reason.as_str());
                    push_str(&mut q, ".");
                }
                self.pending = Some(
                    Pending {
                        plan: payload,
                        detail,
                        score: assessment.score,
                        requires_explicit,
                        asked_at: now,
                    },
                );
                GateOutput { record, release: Some(Release::Say(string_of(&q))) }
            },
            Verdict::Deny(_) => GateOutput { record, release: say("I won't do that. It's not reversible.") },
        }
    }

    /// Take the user's next utterance as the answer to a held action.
    /// Anything but a clear yes in time cancels it.
    pub fn resolve_pending(&mut self, said: &str, now: u64) -> (out: GateOutput<P>)
        ensures
            (final(self)@, out@) == resolve_spec(old(self)@, said@, now),
    {
        let held = self.pending.take();
        let pending = match held {
            Some(p) => p,
            None => {
                return GateOutput { record: None, release: None };
            },
        };
        if now > pending.asked_at && now - pending.asked_at > CONFIRMATION_WINDOW_NS {
            let record = make_record(
                "confirmation",
                pending.detail.as_str(),
                pending.score,
                "expired",
                "no answer in time",
            );
            return GateOutput { record: Some(record), release: None };
        }
        let lowered = to_lowercase(said);
        let answer = string_of(&trim_vec(&chars_of(lowered.as_str())));
        let approved = if pending.requires_explicit {
            contains(&chars_of(answer.as_str()), &chars_of("administrator")) && is_affirmative(
                answer.as_str(),
            )
        } else {
            is_affirmative(answer.as_str())
        };
        if approved {
            let record = make_record(
                "confirmation",
                pending.detail.as_str(),
                pending.score,
                "confirmed",
                "user approved",
            );
            GateOutput { record: Some(record), release: Some(Release::Plan(pending.plan)) }
        } else {
            let record = make_record(
                "confirmation",
                pending.detail.as_str(),
                pending.score,
                "declined",
                "user did not confirm",
            );
            GateOutput { record: Some(record), release: say("Cancelled.") }
        }
    }
}

// ---------------------------------------------------------------------
// Laws
// ---------------------------------------------------------------------

/// A refusal word anywhere in an answer makes it no yes, whatever
/// agreement it also holds.
pub proof fn law_refusal_words_win(said: Seq<char>)
    requires
        negated(said),
    ensures
        !affirmative(said),
{
}

/// A refused plan is never released: the user is told no, and an action
/// already held stays as it was.
pub proof fn law_denied_plans_never_run<P>(held: Option<PendingView<P>>, payload: P, plan: Plan, now: u64)
    requires
        assess_plan_spec(plan).verdict is Deny,
    ensures
        review_spec(held, payload, plan, now).1.release == Some(ReleaseView::<P>::Say(refusal())),
        review_spec(held, payload, plan, now).0 == held,
{
}

/// On review, a plan goes straight through only when it is allowed; a plan
/// that needs confirmation is held, not run.
pub proof fn law_review_runs_only_allowed_plans<P>(
    held: Option<PendingView<P>>,
    payload: P,
    plan: Plan,
    now: u64,
)
    ensures
        (review_spec(held, payload, plan, now).1.release matches Some(ReleaseView::Plan(x)))
            <==> assess_plan_spec(plan).verdict is Allow,
        review_spec(held, payload, plan, now).1.release matches Some(ReleaseView::Plan(x)) ==> x == payload,
        assess_plan_spec(plan).verdict is Confirm ==> (review_spec(held, payload, plan, now).0
            matches Some(p) && p.plan == payload && p.asked_at == now),
{
}

/// A held action runs only on a clear yes within the window, with
/// "administrator" said for the riskiest actions; and whatever the answer,
/// the hold is over.
pub proof fn law_release_needs_consent<P>(held: Option<PendingView<P>>, said: Seq<char>, now: u64)
    ensures
        resolve_spec(held, said, now).1.release matches Some(ReleaseView::Plan(x)) ==> {
            &&& held matches Some(p)
            &&& x == p.plan
            &&& !expired(p.asked_at, now)
            &&& affirmative(heard(said))
            &&& p.requires_explicit ==> has_sub(heard(said), "administrator"@)
        },
        resolve_spec(held, said, now).0 is None,
{
}

/// A plan held for confirmation and then confirmed in time is released
/// exactly as it was reviewed.
pub proof fn law_confirmed_hold_releases_the_plan<P>(
    held: Option<PendingView<P>>,
    payload: P,
    plan: Plan,
    asked_at: u64,
    said: Seq<char>,
    now: u64,
)
    requires
        assess_plan_spec(plan).verdict is Confirm,
        !expired(asked_at, now),
        affirmative(heard(said)),
        assess_plan_spec(plan).score >= 8 ==> has_sub(heard(said), "administrator"@),
    ensures
        resolve_spec(review_spec(held, payload, plan, asked_at).0, said, now).1.release == Some(
            ReleaseView::Plan(payload),
        ),
{
}

/// Every review leaves one audit record, and so does every answer to a
/// held action.
pub proof fn law_every_decision_is_recorded<P>(
    held: Option<PendingView<P>>,
    payload: P,
    plan: Plan,
    said: Seq<char>,
    now: u64,
)
    ensures
        review_spec(held, payload, plan, now).1.record is Some,
        held is Some <==> resolve_spec(held, said, now).1.record is Some,
{
}

} // verus!
