//! Risk scoring for proposed actions, 0 to 10, by fixed rules: auditable,
//! deterministic, and not open to being talked around.
use crate::text::{
    all_ascii, any_in, ascii_to_lower, contains_any, char_vecs_view, chars_of, collapse_whitespace, collapse_ws, contains, find, find_spec,
    has_sub, lower_chars, lowercase, push_chars, push_str, string_of,
};
use vstd::prelude::*;

verus! {

// ---------------------------------------------------------------------
// The plans that reach the permission gate
// ---------------------------------------------------------------------

/// One step of a plan, holding the fields the rules read. Each field is
/// `Some` when the step carries it as a string.
#[derive(Clone, Debug, Default, PartialEq, Eq)]
pub struct PlanAction {
    /// The step's `type`: "say", "notify", "system", "app", "shell", ...
    pub kind: Option<String>,
    pub target: Option<String>,
    pub command: Option<String>,
    pub op: Option<String>,
    pub text: Option<String>,
    pub title: Option<String>,
    pub message: Option<String>,
    pub description: Option<String>,
    /// The string members of the step's `args`, in order.
    pub args: Vec<String>,
}

/// A plan as the planner or the model produced it: a list of steps, one
/// step object (which may wrap its steps in `actions`), or something that
/// is neither.
#[derive(Clone, Debug, PartialEq, Eq)]
pub enum Plan {
    List(Vec<PlanAction>),
    Object { action: PlanAction, actions: Option<Vec<PlanAction>> },
    Other,
}

/// The text of an optional string field, or `dflt` when it is absent.
pub open spec fn field_or(f: Option<Seq<char>>, dflt: Seq<char>) -> Seq<char> {
    match f {
        Some(s) => s,
        None => dflt,
    }
}

pub open spec fn opt_view(o: Option<String>) -> Option<Seq<char>> {
    match o {
        Some(s) => Some(s@),
        None => None,
    }
}

/// The fields of a step, as text.
pub struct PlanActionView {
    pub kind: Option<Seq<char>>,
    pub target: Option<Seq<char>>,
    pub command: Option<Seq<char>>,
    pub op: Option<Seq<char>>,
    pub text: Option<Seq<char>>,
    pub title: Option<Seq<char>>,
    pub message: Option<Seq<char>>,
    pub description: Option<Seq<char>>,
    pub args: Seq<Seq<char>>,
}

impl View for PlanAction {
    type V = PlanActionView;

    open spec fn view(&self) -> PlanActionView {
        PlanActionView {
            kind: opt_view(self.kind),
            target: opt_view(self.target),
            command: opt_view(self.command),
            op: opt_view(self.op),
            text: opt_view(self.text),
            title: opt_view(self.title),
            message: opt_view(self.message),
            description: opt_view(self.description),
            args: crate::text::strings_view(self.args@),
        }
    }
}

pub open spec fn actions_view(v: Seq<PlanAction>) -> Seq<PlanActionView> {
    v.map_values(|a: PlanAction| a@)
}

/// A step with no fields at all.
pub open spec fn bare_step() -> PlanActionView {
    PlanActionView {
        kind: None,
        target: None,
        command: None,
        op: None,
        text: None,
        title: None,
        message: None,
        description: None,
        args: Seq::empty(),
    }
}

pub fn field_chars(f: &Option<String>, dflt: &str) -> (r: Vec<char>)
    ensures
        r@ == field_or(opt_view(*f), dflt@),
{
    match f {
        Some(s) => chars_of(s.as_str()),
        None => chars_of(dflt),
    }
}

/// The steps a plan is judged by: a list's steps; an object's `actions`
/// when it has them, which are what the executor runs, else the object
/// itself; a step with no fields for anything else.
pub open spec fn steps_of(p: Plan) -> Seq<PlanActionView> {
    match p {
        Plan::List(v) => actions_view(v@),
        Plan::Object { action, actions } => match actions {
            Some(v) => actions_view(v@),
            None => seq![action@],
        },
        Plan::Other => seq![bare_step()],
    }
}

impl PlanAction {
    pub fn empty() -> (r: PlanAction)
        ensures
            r@ == bare_step(),
    {
        let r = PlanAction {
            kind: None,
            target: None,
            command: None,
            op: None,
            text: None,
            title: None,
            message: None,
            description: None,
            args: Vec::new(),
        };
        assert(crate::text::strings_view(r.args@) =~= Seq::<Seq<char>>::empty());
        r
    }
}

// ---------------------------------------------------------------------
// Verdicts
// ---------------------------------------------------------------------

#[derive(Clone, Debug, PartialEq, Eq)]
pub enum Verdict {
    /// Run without saying anything.
    Allow,
    /// Ask first, wait for a yes.
    Confirm,
    /// Refuse outright. Not overridable by confirmation.
    Deny(String),
}

#[derive(Clone, Debug, PartialEq, Eq)]
pub struct Assessment {
    pub score: u8,
    pub verdict: Verdict,
    pub reason: String,
}

pub enum VerdictView {
    Allow,
    Confirm,
    Deny(Seq<char>),
}

pub struct AssessmentView {
    pub score: u8,
    pub verdict: VerdictView,
    pub reason: Seq<char>,
}

impl View for Assessment {
    type V = AssessmentView;

    open spec fn view(&self) -> AssessmentView {
        AssessmentView {
            score: self.score,
            verdict: match self.verdict {
                Verdict::Allow => VerdictView::Allow,
                Verdict::Confirm => VerdictView::Confirm,
                Verdict::Deny(w) => VerdictView::Deny(w@),
            },
            reason: self.reason@,
        }
    }
}

pub open spec fn assessed(score: u8, verdict: VerdictView, reason: Seq<char>) -> AssessmentView {
    AssessmentView { score, verdict, reason }
}

fn make(score: u8, verdict: Verdict, reason: &str) -> (a: Assessment)
    ensures
        a.score == score,
        a.verdict == verdict,
        a.reason@ == reason@,
{
    Assessment { score, verdict, reason: string_of(&chars_of(reason)) }
}

// ---------------------------------------------------------------------
// Patterns
// ---------------------------------------------------------------------

/// Substrings that are never run, at any tier; whitespace is collapsed
/// before matching so spacing cannot evade them.
pub open spec fn deny_patterns() -> Seq<Seq<char>> {
    seq![
        "mkfs"@,
        "dd if=/dev/zero"@,
        "dd if=/dev/random"@,
        "> /dev/sd"@,
        "of=/dev/sd"@,
        "chmod -r 777 /"@,
        ":(){ :|:& };:"@,
        "shutdown"@,
        "reboot"@,
        "systemctl poweroff"@,
        "userdel"@,
        "visudo"@,
    ]
}

/// Deletions that name `/` itself.
pub open spec fn root_delete_prefixes() -> Seq<Seq<char>> {
    seq!["rm -rf /"@, "rm -fr /"@, "rm -r -f /"@, "rm -f -r /"@]
}

/// Commands that modify state and warrant confirmation.
pub open spec fn destructive_tokens() -> Seq<Seq<char>> {
    seq![
        "rm "@,
        "rmdir"@,
        "mv "@,
        "truncate"@,
        "shred"@,
        "kill "@,
        "pkill"@,
        "killall"@,
        "git reset --hard"@,
        "git clean"@,
        "git push --force"@,
        "drop table"@,
        "delete from"@,
    ]
}

pub open spec fn elevated_tokens() -> Seq<Seq<char>> {
    seq!["sudo "@, "doas "@, "pkexec "@, "su -"@]
}

pub open spec fn download_tokens() -> Seq<Seq<char>> {
    seq!["curl "@, "wget "@, "fetch "@]
}

pub open spec fn shell_pipes() -> Seq<Seq<char>> {
    seq!["| sh"@, "| bash"@, "| zsh"@, "|sh"@, "|bash"@, "|zsh"@]
}

/// Index of the first of `pats` that occurs in `s`, looking from `k` on.
pub open spec fn first_in(s: Seq<char>, pats: Seq<Seq<char>>, k: int) -> Option<int>
    decreases pats.len() - k,
{
    if k < 0 || k >= pats.len() {
        None
    } else if has_sub(s, pats[k]) {
        Some(k)
    } else {
        first_in(s, pats, k + 1)
    }
}

proof fn lemma_first_in(s: Seq<char>, pats: Seq<Seq<char>>, k: int)
    requires
        0 <= k,
    ensures
        match first_in(s, pats, k) {
            Some(j) => k <= j < pats.len() && has_sub(s, pats[j]),
            None => forall|j: int| k <= j < pats.len() ==> !has_sub(s, #[trigger] pats[j]),
        },
    decreases pats.len() - k,
{
    if k < pats.len() && !has_sub(s, pats[k]) {
        lemma_first_in(s, pats, k + 1);
    }
}

fn first_of(s: &[char], pats: &Vec<Vec<char>>) -> (r: Option<usize>)
    ensures
        opt_idx(r) == first_in(s@, char_vecs_view(pats@), 0),
{
    let ghost pv = char_vecs_view(pats@);
    let mut k: usize = 0;
    while k < pats.len()
        invariant
            pv == char_vecs_view(pats@),
            k <= pats.len(),
            first_in(s@, pv, 0) == first_in(s@, pv, k as int),
        decreases pats.len() - k,
    {
        assert(pv[k as int] == pats@[k as int]@);
        if contains(s, &pats[k]) {
            return Some(k);
        }
        k = k + 1;
    }
    None
}

pub open spec fn opt_idx(o: Option<usize>) -> Option<int> {
    match o {
        Some(i) => Some(i as int),
        None => None,
    }
}

fn any_of(s: &[char], pats: &Vec<Vec<char>>) -> (r: bool)
    ensures
        r == any_in(s@, char_vecs_view(pats@)),
{
    contains_any(s, pats)
}

fn deny_patterns_vec() -> (r: Vec<Vec<char>>)
    ensures
        char_vecs_view(r@) == deny_patterns(),
{
    let v = vec![
        chars_of("mkfs"),
        chars_of("dd if=/dev/zero"),
        chars_of("dd if=/dev/random"),
        chars_of("> /dev/sd"),
        chars_of("of=/dev/sd"),
        chars_of("chmod -r 777 /"),
        chars_of(":(){ :|:& };:"),
        chars_of("shutdown"),
        chars_of("reboot"),
        chars_of("systemctl poweroff"),
        chars_of("userdel"),
        chars_of("visudo"),
    ];
    assert(char_vecs_view(v@) =~= deny_patterns());
    v
}

fn root_delete_prefixes_vec() -> (r: Vec<Vec<char>>)
    ensures
        char_vecs_view(r@) == root_delete_prefixes(),
{
    let v = vec![
        chars_of("rm -rf /"),
        chars_of("rm -fr /"),
        chars_of("rm -r -f /"),
        chars_of("rm -f -r /"),
    ];
    assert(char_vecs_view(v@) =~= root_delete_prefixes());
    v
}

fn destructive_tokens_vec() -> (r: Vec<Vec<char>>)
    ensures
        char_vecs_view(r@) == destructive_tokens(),
{
    let v = vec![
        chars_of("rm "),
        chars_of("rmdir"),
        chars_of("mv "),
        chars_of("truncate"),
        chars_of("shred"),
        chars_of("kill "),
        chars_of("pkill"),
        chars_of("killall"),
        chars_of("git reset --hard"),
        chars_of("git clean"),
        chars_of("git push --force"),
        chars_of("drop table"),
        chars_of("delete from"),
    ];
    assert(char_vecs_view(v@) =~= destructive_tokens());
    v
}

fn elevated_tokens_vec() -> (r: Vec<Vec<char>>)
    ensures
        char_vecs_view(r@) == elevated_tokens(),
{
    let v = vec![chars_of("sudo "), chars_of("doas "), chars_of("pkexec "), chars_of("su -")];
    assert(char_vecs_view(v@) =~= elevated_tokens());
    v
}

fn download_tokens_vec() -> (r: Vec<Vec<char>>)
    ensures
        char_vecs_view(r@) == download_tokens(),
{
    let v = vec![chars_of("curl "), chars_of("wget "), chars_of("fetch ")];
    assert(char_vecs_view(v@) =~= download_tokens());
    v
}

fn shell_pipes_vec() -> (r: Vec<Vec<char>>)
    ensures
        char_vecs_view(r@) == shell_pipes(),
{
    let v = vec![
        chars_of("| sh"),
        chars_of("| bash"),
        chars_of("| zsh"),
        chars_of("|sh"),
        chars_of("|bash"),
        chars_of("|zsh"),
    ];
    assert(char_vecs_view(v@) =~= shell_pipes());
    v
}

/// Whether the text at `end` closes a root target: nothing follows, or a
/// space, or a shell separator.
pub open spec fn root_end(c: Seq<char>, end: int) -> bool {
    end == c.len() || (end < c.len() && (c[end] == ' ' || c[end] == ';' || c[end] == '&' || c[end] == '|'
        || c[end] == '*'))
}

/// Whether some occurrence of `p` in `c` deletes `/` itself: what follows
/// the slash is nothing, a space, or a shell separator.
pub open spec fn root_delete_by(c: Seq<char>, p: Seq<char>) -> bool {
    exists|i: int| crate::text::occurs_at(c, p, i) && #[trigger] root_end(c, i + p.len())
}

/// A recursive deletion rooted at `/`. `rm -rf /home/user/project`
/// contains "rm -rf /" but is an ordinary, confirmable removal.
pub open spec fn is_root_delete_spec(c: Seq<char>) -> bool {
    exists|k: int| 0 <= k < root_delete_prefixes().len() && root_delete_by(c, #[trigger] root_delete_prefixes()[k])
}

fn root_delete_at(c: &[char], p: &[char], i: usize) -> (r: bool)
    ensures
        r == (crate::text::occurs_at(c@, p@, i as int) && root_end(c@, i + p@.len())),
{
    if !crate::text::matches_at(c, p, i) {
        return false;
    }
    assert(i + p@.len() <= c@.len());
    assert(p@.len() == p.len() && c@.len() == c.len());
    let end = i + p.len();
    end == c.len() || c[end] == ' ' || c[end] == ';' || c[end] == '&' || c[end] == '|' || c[end] == '*'
}

fn root_delete_by_exec(c: &[char], p: &[char]) -> (r: bool)
    ensures
        r == root_delete_by(c@, p@),
{
    if p.len() > c.len() {
        assert forall|i: int| !(crate::text::occurs_at(c@, p@, i) && #[trigger] root_end(c@, i + p@.len())) by {}
        return false;
    }
    let last = c.len() - p.len();
    let mut i: usize = 0;
    while i < last
        invariant
            last == c.len() - p.len(),
            i <= last,
            forall|j: int| 0 <= j < i ==> !(crate::text::occurs_at(c@, p@, j) && #[trigger] root_end(c@, j + p@.len())),
        decreases last - i,
    {
        if root_delete_at(c, p, i) {
            return true;
        }
        i = i + 1;
    }
    if root_delete_at(c, p, last) {
        return true;
    }
    assert forall|j: int| !(crate::text::occurs_at(c@, p@, j) && #[trigger] root_end(c@, j + p@.len())) by {
        if j > last {
            assert(!crate::text::occurs_at(c@, p@, j));
        }
    }
    false
}

pub fn is_root_delete(collapsed: &[char]) -> (r: bool)
    ensures
        r == is_root_delete_spec(collapsed@),
{
    let pats = root_delete_prefixes_vec();
    let ghost pv = char_vecs_view(pats@);
    let mut k: usize = 0;
    while k < pats.len()
        invariant
            pv == char_vecs_view(pats@),
            pv == root_delete_prefixes(),
            k <= pats.len(),
            forall|j: int| 0 <= j < k ==> !root_delete_by(collapsed@, #[trigger] pv[j]),
        decreases pats.len() - k,
    {
        assert(pv[k as int] == pats@[k as int]@);
        if root_delete_by_exec(collapsed, &pats[k]) {
            return true;
        }
        k = k + 1;
    }
    false
}

/// Piping a download straight into a shell.
pub open spec fn is_pipe_to_shell_spec(c: Seq<char>) -> bool {
    any_in(c, download_tokens()) && any_in(c, shell_pipes())
}

pub fn is_pipe_to_shell(collapsed: &[char]) -> (r: bool)
    ensures
        r == is_pipe_to_shell_spec(collapsed@),
{
    any_of(collapsed, &download_tokens_vec()) && any_of(collapsed, &shell_pipes_vec())
}

// ---------------------------------------------------------------------
// Scoring
// ---------------------------------------------------------------------

/// A shell command's assessment, from its lower-cased, whitespace-collapsed
/// form `c`.
pub open spec fn shell_spec(c: Seq<char>) -> AssessmentView {
    match first_in(c, deny_patterns(), 0) {
        Some(k) => assessed(
            10,
            VerdictView::Deny("matches blocked pattern '"@ + deny_patterns()[k] + "'"@),
            "destructive or irreversible"@,
        ),
        None => if is_root_delete_spec(c) {
            assessed(
                10,
                VerdictView::Deny("recursive deletion rooted at /"@),
                "would destroy the filesystem"@,
            )
        } else if is_pipe_to_shell_spec(c) {
            assessed(
                10,
                VerdictView::Deny("pipes a download directly into a shell"@),
                "executes unreviewed remote code"@,
            )
        } else {
            let elevated = any_in(c, elevated_tokens());
            let destructive = any_in(c, destructive_tokens());
            if elevated && destructive {
                assessed(9, VerdictView::Confirm, "elevated and destructive"@)
            } else if elevated {
                assessed(8, VerdictView::Confirm, "requires elevated privileges"@)
            } else if destructive {
                assessed(6, VerdictView::Confirm, "modifies or deletes data"@)
            } else {
                assessed(4, VerdictView::Confirm, "runs a shell command"@)
            }
        },
    }
}

/// The form a command is matched in: lower-cased, whitespace collapsed.
pub open spec fn normal_command(command: Seq<char>) -> Seq<char> {
    collapse_ws(lowercase(command))
}

/// Score a shell command.
pub fn assess_shell(command: &str) -> (a: Assessment)
    ensures
        a@ == shell_spec(normal_command(command@)),
        all_ascii(command@) ==> a@ == shell_spec(
            collapse_ws(command@.map_values(|c: char| ascii_to_lower(c))),
        ),
{
    let lowered = lower_chars(&chars_of(command));
    let c = collapse_whitespace(&lowered);
    let deny = deny_patterns_vec();
    match first_of(&c, &deny) {
        Some(k) => {
            proof {
                lemma_first_in(c@, deny_patterns(), 0);
            }
            let mut w: Vec<char> = Vec::new();
            push_str(&mut w, "matches blocked pattern '");
            push_chars(&mut w, &deny[k]);
            push_str(&mut w, "'");
            return make(10, Verdict::Deny(string_of(&w)), "destructive or irreversible");
        },
        None => {},
    }
    if is_root_delete(&c) {
        return make(
            10,
            Verdict::Deny(string_of(&chars_of("recursive deletion rooted at /"))),
            "would destroy the filesystem",
        );
    }
    if is_pipe_to_shell(&c) {
        return make(
            10,
            Verdict::Deny(string_of(&chars_of("pipes a download directly into a shell"))),
            "executes unreviewed remote code",
        );
    }
    let elevated = any_of(&c, &elevated_tokens_vec());
    let destructive = any_of(&c, &destructive_tokens_vec());
    if elevated && destructive {
        make(9, Verdict::Confirm, "elevated and destructive")
    } else if elevated {
        make(8, Verdict::Confirm, "requires elevated privileges")
    } else if destructive {
        make(6, Verdict::Confirm, "modifies or deletes data")
    } else {
        make(4, Verdict::Confirm, "runs a shell command")
    }
}

/// A single step's assessment.
pub open spec fn assess_spec(a: PlanActionView) -> AssessmentView {
    let kind = field_or(a.kind, "unknown"@);
    if kind == "say"@ || kind == "notify"@ {
        assessed(0, VerdictView::Allow, "no side effects"@)
    } else if kind == "system"@ {
        assessed(1, VerdictView::Allow, "reversible system control"@)
    } else if kind == "app"@ {
        if any_in(field_or(a.target, Seq::empty()), elevated_tokens()) {
            assessed(9, VerdictView::Confirm, "launches with elevated privileges"@)
        } else {
            assessed(2, VerdictView::Allow, "launches an application"@)
        }
    } else if kind == "shell"@ {
        shell_spec(normal_command(field_or(a.command, Seq::empty())))
    } else {
        assessed(5, VerdictView::Confirm, "unrecognised action type '"@ + kind + "'"@)
    }
}

/// Score a single step of a plan.
pub fn assess(action: &PlanAction) -> (a: Assessment)
    ensures
        a@ == assess_spec(action@),
{
    let kind = field_chars(&action.kind, "unknown");
    if crate::text::same(&kind, &chars_of("say")) || crate::text::same(&kind, &chars_of("notify")) {
        return make(0, Verdict::Allow, "no side effects");
    }
    if crate::text::same(&kind, &chars_of("system")) {
        return make(1, Verdict::Allow, "reversible system control");
    }
    proof {
        reveal_strlit("");
        assert(""@ =~= Seq::<char>::empty());
    }
    if crate::text::same(&kind, &chars_of("app")) {
        let target = field_chars(&action.target, "");
        if any_of(&target, &elevated_tokens_vec()) {
            return make(9, Verdict::Confirm, "launches with elevated privileges");
        }
        return make(2, Verdict::Allow, "launches an application");
    }
    if crate::text::same(&kind, &chars_of("shell")) {
        let command = field_chars(&action.command, "");
        return assess_shell(string_of(&command).as_str());
    }
    let mut reason: Vec<char> = Vec::new();
    push_str(&mut reason, "unrecognised action type '");
    push_chars(&mut reason, &kind);
    push_str(&mut reason, "'");
    Assessment { score: 5, verdict: Verdict::Confirm, reason: string_of(&reason) }
}

/// The worst of the first `n` steps: the first step with the highest
/// score, or a score-0 "empty plan" allowance when no step scores above 0.
pub open spec fn worst_upto(steps: Seq<PlanActionView>, n: int) -> AssessmentView
    decreases n,
{
    if n <= 0 {
        assessed(0, VerdictView::Allow, "empty plan"@)
    } else {
        let prev = worst_upto(steps, n - 1);
        let a = assess_spec(steps[n - 1]);
        if a.score > prev.score {
            a
        } else {
            prev
        }
    }
}

pub open spec fn assess_plan_spec(p: Plan) -> AssessmentView {
    worst_upto(steps_of(p), steps_of(p).len() as int)
}

/// The strictest assessment among a list of steps: the first step with
/// the highest score, or "empty plan" at score 0.
fn assess_steps(steps: &Vec<PlanAction>) -> (a: Assessment)
    ensures
        a@ == worst_upto(actions_view(steps@), steps@.len() as int),
{
    let ghost sv = actions_view(steps@);
    let mut worst = make(0, Verdict::Allow, "empty plan");
    let mut i: usize = 0;
    while i < steps.len()
        invariant
            sv == actions_view(steps@),
            i <= steps.len(),
            worst@ == worst_upto(sv, i as int),
        decreases steps.len() - i,
    {
        let a = assess(&steps[i]);
        assert(sv[i as int] == steps@[i as int]@);
        if a.score > worst.score {
            worst = a;
        }
        i = i + 1;
    }
    worst
}

/// Assess a whole plan. The strictest verdict wins: one dangerous step
/// makes the whole plan dangerous.
pub fn assess_plan(plan: &Plan) -> (a: Assessment)
    ensures
        a@ == assess_plan_spec(*plan),
{
    match plan {
        Plan::List(steps) => assess_steps(steps),
        Plan::Object { actions: Some(v), .. } => assess_steps(v),
        Plan::Object { action, .. } => {
            let a = assess(action);
            assert(steps_of(*plan) =~= seq![action@]);
            assert(worst_upto(seq![action@], 0) == assessed(0, VerdictView::Allow, "empty plan"@));
            if a.score > 0 {
                a
            } else {
                make(0, Verdict::Allow, "empty plan")
            }
        },
        Plan::Other => {
            let e = PlanAction::empty();
            let a = assess(&e);
            assert(steps_of(*plan) =~= seq![e@]);
            assert(worst_upto(seq![e@], 0) == assessed(0, VerdictView::Allow, "empty plan"@));
            if a.score > 0 {
                a
            } else {
                make(0, Verdict::Allow, "empty plan")
            }
        },
    }
}


// ---------------------------------------------------------------------
// Laws
// ---------------------------------------------------------------------

/// Scores sit in bands: 0 to 2 run silently, 4 to 9 ask first, 10 is
/// refused.
pub open spec fn banded(a: AssessmentView) -> bool {
    &&& a.score <= 10
    &&& (a.verdict is Allow <==> a.score <= 2)
    &&& (a.verdict is Deny <==> a.score == 10)
    &&& (a.verdict is Confirm <==> 4 <= a.score <= 9)
}

/// Every step's assessment falls in its band.
pub proof fn law_scores_are_banded(a: PlanActionView)
    ensures
        banded(assess_spec(a)),
{
}

proof fn lemma_worst_upto(steps: Seq<PlanActionView>, n: int)
    requires
        0 <= n <= steps.len(),
    ensures
        forall|k: int| 0 <= k < n ==> assess_spec(#[trigger] steps[k]).score <= worst_upto(steps, n).score,
        worst_upto(steps, n) == assessed(0, VerdictView::Allow, "empty plan"@) || exists|k: int|
            0 <= k < n && worst_upto(steps, n) == assess_spec(#[trigger] steps[k]),
    decreases n,
{
    if n > 0 {
        lemma_worst_upto(steps, n - 1);
    }
}

proof fn lemma_worst_is_first_max(steps: Seq<PlanActionView>, n: int)
    requires
        0 <= n <= steps.len(),
    ensures
        worst_upto(steps, n).score == 0 ==> worst_upto(steps, n) == assessed(0, VerdictView::Allow, "empty plan"@),
        worst_upto(steps, n).score > 0 ==> exists|k: int|
            0 <= k < n && worst_upto(steps, n) == assess_spec(#[trigger] steps[k]) && forall|j: int|
                0 <= j < k ==> assess_spec(#[trigger] steps[j]).score < worst_upto(steps, n).score,
    decreases n,
{
    if n > 0 {
        lemma_worst_is_first_max(steps, n - 1);
        lemma_worst_upto(steps, n - 1);
        let prev = worst_upto(steps, n - 1);
        let a = assess_spec(steps[n - 1]);
        if a.score > prev.score {
            assert(forall|j: int| 0 <= j < n - 1 ==> assess_spec(#[trigger] steps[j]).score < a.score);
        }
    }
}

/// A plan scores the highest of its steps' scores, and takes the verdict
/// and reason of the first step that reaches it; a plan whose steps all
/// score 0, or that has none, is an "empty plan" allowance.
pub proof fn law_plan_takes_the_first_highest_step(p: Plan)
    ensures
        forall|k: int|
            0 <= k < steps_of(p).len() ==> assess_spec(#[trigger] steps_of(p)[k]).score
                <= assess_plan_spec(p).score,
        assess_plan_spec(p).score == 0 ==> assess_plan_spec(p) == assessed(0, VerdictView::Allow, "empty plan"@),
        assess_plan_spec(p).score > 0 ==> exists|k: int|
            0 <= k < steps_of(p).len() && assess_plan_spec(p) == assess_spec(#[trigger] steps_of(p)[k])
                && forall|j: int| 0 <= j < k ==> assess_spec(#[trigger] steps_of(p)[j]).score < assess_plan_spec(p).score,
{
    let st = steps_of(p);
    lemma_worst_upto(st, st.len() as int);
    lemma_worst_is_first_max(st, st.len() as int);
}

/// One dangerous step makes the whole plan dangerous: the plan scores at
/// least as high as each of its steps; it is refused when any step is
/// refused; and it runs silently only when every step would.
pub proof fn law_strictest_step_wins(p: Plan)
    ensures
        forall|k: int|
            0 <= k < steps_of(p).len() ==> assess_spec(#[trigger] steps_of(p)[k]).score
                <= assess_plan_spec(p).score,
        banded(assess_plan_spec(p)),
        (exists|k: int| 0 <= k < steps_of(p).len() && (#[trigger] assess_spec(steps_of(p)[k])).verdict is Deny)
            ==> assess_plan_spec(p).verdict is Deny,
        assess_plan_spec(p).verdict is Allow <==> forall|k: int|
            0 <= k < steps_of(p).len() ==> (#[trigger] assess_spec(steps_of(p)[k])).verdict is Allow,
{
    let st = steps_of(p);
    lemma_worst_upto(st, st.len() as int);
    assert forall|k: int| 0 <= k < st.len() implies banded(#[trigger] assess_spec(st[k])) by {
        law_scores_are_banded(st[k]);
    }
    if assess_plan_spec(p) != assessed(0, VerdictView::Allow, "empty plan"@) {
        let k = choose|k: int| 0 <= k < st.len() && assess_plan_spec(p) == assess_spec(#[trigger] st[k]);
        law_scores_are_banded(st[k]);
    }
}

} // verus!
