//! The context engine's rules: what each event does to working memory,
//! what is remembered and observed, and how a user's name is learned.
use crate::context::{BrowserTab, ContextSnapshot};
use crate::memory::entities::EntityKind;
use crate::memory::working::{is_plausible_name, plausible_name, pushed_ring, WorkingMemory};
use crate::models::EventType;
use crate::memory::episodic::{is_persisted, persisted_spec};
use crate::text::{
    alphabetic, alphanumeric, char_vecs_view, chars_of, is_alphabetic, is_alphanumeric, lower_chars,
    lowercase, push_chars, same, slice, string_of, trim_end, trim_end_vec, word_list, words,
};
use vstd::prelude::*;

verus! {

// ---------------------------------------------------------------------
// Learning the user's name
// ---------------------------------------------------------------------

pub open spec fn is_terminator(c: char) -> bool {
    c == '.' || c == '!' || c == '?'
}

/// Index of the first terminator in `s`, looking from `k` on.
pub open spec fn first_terminator(s: Seq<char>, k: int) -> Option<int>
    decreases s.len() - k,
{
    if k < 0 || k >= s.len() {
        None
    } else if is_terminator(s[k]) {
        Some(k)
    } else {
        first_terminator(s, k + 1)
    }
}

/// The text cut after each `.`, `!` or `?`, each piece keeping its
/// terminator (`str::split_inclusive`).
pub open spec fn sentences(s: Seq<char>) -> Seq<Seq<char>>
    decreases s.len(),
{
    if s.len() == 0 {
        Seq::empty()
    } else {
        match first_terminator(s, 0) {
            Some(i) => if 0 <= i < s.len() {
                seq![s.take(i + 1)] + sentences(s.skip(i + 1))
            } else {
                seq![s]
            },
            None => seq![s],
        }
    }
}

/// `s` without leading and trailing characters that `p` accepts
/// (`str::trim_matches`).
pub open spec fn trim_where(s: Seq<char>, p: spec_fn(char) -> bool) -> Seq<char> {
    trim_end_where(trim_start_where(s, p), p)
}

pub open spec fn trim_start_where(s: Seq<char>, p: spec_fn(char) -> bool) -> Seq<char>
    decreases s.len(),
{
    if s.len() > 0 && p(s[0]) {
        trim_start_where(s.drop_first(), p)
    } else {
        s
    }
}

pub open spec fn trim_end_where(s: Seq<char>, p: spec_fn(char) -> bool) -> Seq<char>
    decreases s.len(),
{
    if s.len() > 0 && p(s.last()) {
        trim_end_where(s.drop_last(), p)
    } else {
        s
    }
}

/// What surrounds a word and is not part of it.
pub open spec fn word_edge() -> spec_fn(char) -> bool {
    |c: char| !alphanumeric(c) && c != '\''
}

/// What surrounds a name and is not part of it.
pub open spec fn name_edge() -> spec_fn(char) -> bool {
    |c: char| !alphabetic(c) && c != '\'' && c != '-'
}

/// A word as compared: its edges trimmed, lower-cased.
pub open spec fn lowered_word(w: Seq<char>) -> Seq<char> {
    lowercase(trim_where(w, word_edge()))
}

/// What `char::is_uppercase` says of a character.
pub uninterp spec fn uppercase_char(c: char) -> bool;

/// What `char::to_uppercase` gives for a character.
pub uninterp spec fn upper(c: char) -> Seq<char>;

/// `char::is_uppercase`. On ASCII it accepts exactly the capital letters.
#[verifier::external_body]
fn is_uppercase(c: char) -> (r: bool)
    ensures
        r == uppercase_char(c),
        (c as u32) < 128 ==> (r <==> crate::text::is_ascii_upper(c)),
{
    c.is_uppercase()
}

/// `char::to_uppercase`, collected. An ASCII small letter becomes its
/// capital; any other ASCII character stays as it is.
#[verifier::external_body]
fn to_uppercase(c: char) -> (r: Vec<char>)
    ensures
        r@ == upper(c),
        (c as u32) < 128 ==> r@ == seq![if crate::text::is_ascii_lower(c) {
            ((c as u32) - 32) as char
        } else {
            c
        }],
{
    c.to_uppercase().collect()
}

/// Where an introduction at word `i` puts the name, and whether the name
/// must be capitalised: "my name is X", "call me X", "I'm called X".
pub open spec fn intro_at(lw: Seq<Seq<char>>, i: int) -> Option<(int, bool)> {
    if lw[i] == "my"@ && i + 1 < lw.len() && lw[i + 1] == "name"@ && i + 2 < lw.len() && lw[i + 2] == "is"@ {
        Some((i + 3, false))
    } else if lw[i] == "call"@ && i + 1 < lw.len() && lw[i + 1] == "me"@ {
        Some((i + 2, true))
    } else if lw[i] == "called"@ && i > 0 && (lw[i - 1] == "i'm"@ || lw[i - 1] == "am"@) {
        Some((i + 1, false))
    } else {
        None
    }
}

pub open spec fn clause_mark(c: char) -> bool {
    c == ',' || c == '.' || c == '!' || c == ';' || c == ':'
}

/// The name as stored: its first character upper-cased.
pub open spec fn capitalise(name: Seq<char>) -> Seq<char> {
    upper(name[0]) + name.skip(1)
}

/// The name introduced at word `i` of a sentence, if it is one: plausible,
/// ending its clause (last word, followed by punctuation, or by "and"),
/// and capitalised where "call me" needs it.
pub open spec fn name_at(ws: Seq<Seq<char>>, lw: Seq<Seq<char>>, i: int) -> Option<Seq<char>> {
    match intro_at(lw, i) {
        Some((next, needs_capital)) => if next < ws.len() {
            let raw = ws[next];
            let name = trim_where(raw, name_edge());
            let ends_clause = next + 1 == ws.len() || (raw.len() > 0 && clause_mark(raw.last())) || (next + 1
                < lw.len() && lw[next + 1] == "and"@);
            if plausible_name(name) && ends_clause && (!needs_capital || uppercase_char(name[0])) {
                Some(capitalise(name))
            } else {
                None
            }
        } else {
            None
        },
        None => None,
    }
}

/// The first name introduced in a sentence, from word `i` on.
pub open spec fn name_from(ws: Seq<Seq<char>>, lw: Seq<Seq<char>>, i: int) -> Option<Seq<char>>
    decreases ws.len() - i,
{
    if i < 0 || i >= ws.len() {
        None
    } else if name_at(ws, lw, i) is Some {
        name_at(ws, lw, i)
    } else {
        name_from(ws, lw, i + 1)
    }
}

/// The name a sentence introduces, unless it is a question.
pub open spec fn sentence_name(s: Seq<char>) -> Option<Seq<char>> {
    let t = trim_end(s);
    if t.len() > 0 && t.last() == '?' {
        None
    } else {
        let ws = words(s);
        name_from(ws, ws.map_values(|w: Seq<char>| lowered_word(w)), 0)
    }
}

/// The first name introduced by the sentences from the `k`-th on.
pub open spec fn name_in(ss: Seq<Seq<char>>, k: int) -> Option<Seq<char>>
    decreases ss.len() - k,
{
    if k < 0 || k >= ss.len() {
        None
    } else if sentence_name(ss[k]) is Some {
        sentence_name(ss[k])
    } else {
        name_in(ss, k + 1)
    }
}

/// The name the user gives, if the text unmistakably gives one.
pub open spec fn user_name_spec(text: Seq<char>) -> Option<Seq<char>> {
    name_in(sentences(text), 0)
}

proof fn lemma_first_terminator(s: Seq<char>, k: int)
    requires
        0 <= k,
    ensures
        first_terminator(s, k) matches Some(i) ==> k <= i < s.len() && is_terminator(s[i]),
        first_terminator(s, k) is None ==> forall|j: int| k <= j < s.len() ==> !is_terminator(#[trigger] s[j]),
    decreases s.len() - k,
{
    if k < s.len() && !is_terminator(s[k]) {
        lemma_first_terminator(s, k + 1);
    }
}

fn sentences_of(s: &[char]) -> (r: Vec<Vec<char>>)
    ensures
        char_vecs_view(r@) == sentences(s@),
{
    let mut out: Vec<Vec<char>> = Vec::new();
    let mut rest = slice(s, 0, s.len());
    assert(rest@ =~= s@);
    while rest.len() > 0
        invariant
            char_vecs_view(out@) + sentences(rest@) == sentences(s@),
        decreases rest@.len(),
    {
        let mut i: usize = 0;
        while i < rest.len() && !(rest[i] == '.' || rest[i] == '!' || rest[i] == '?')
            invariant
                i <= rest.len(),
                first_terminator(rest@, 0) == first_terminator(rest@, i as int),
            decreases rest.len() - i,
        {
            i = i + 1;
        }
        proof {
            lemma_first_terminator(rest@, 0);
        }
        let ghost before = char_vecs_view(out@);
        if i < rest.len() {
            let piece = slice(&rest, 0, i + 1);
            let tail = slice(&rest, i + 1, rest.len());
            assert(piece@ =~= rest@.take(i + 1));
            assert(tail@ =~= rest@.skip(i + 1));
            out.push(piece);
            assert(char_vecs_view(out@) =~= before.push(rest@.take(i + 1)));
            assert(sentences(rest@) =~= seq![rest@.take(i + 1)] + sentences(rest@.skip(i + 1)));
            assert(char_vecs_view(out@) + sentences(tail@) =~= before + sentences(rest@));
            rest = tail;
        } else {
            let piece = slice(&rest, 0, rest.len());
            assert(piece@ =~= rest@);
            out.push(piece);
            assert(char_vecs_view(out@) =~= before.push(rest@));
            assert(char_vecs_view(out@) + sentences(Seq::<char>::empty()) =~= before + sentences(rest@));
            rest = Vec::new();
            assert(rest@ =~= Seq::<char>::empty());
        }
    }
    assert(char_vecs_view(out@) + sentences(rest@) =~= char_vecs_view(out@));
    out
}

/// `w` with its edges trimmed: `which` 0 for a word's edges, 1 for a
/// name's.
fn trim_edges(w: &[char], which: u8) -> (r: Vec<char>)
    requires
        which < 2,
    ensures
        which == 0 ==> r@ == trim_where(w@, word_edge()),
        which == 1 ==> r@ == trim_where(w@, name_edge()),
{
    let ghost p = if which == 0 { word_edge() } else { name_edge() };
    let mut a: usize = 0;
    assert(w@.subrange(0, w.len() as int) =~= w@);
    while a < w.len() && edge(w[a], which)
        invariant
            which < 2,
            p == (if which == 0 { word_edge() } else { name_edge() }),
            a <= w.len(),
            trim_start_where(w@, p) == trim_start_where(w@.subrange(a as int, w.len() as int), p),
        decreases w.len() - a,
    {
        assert(w@.subrange(a as int, w.len() as int).drop_first() =~= w@.subrange(a + 1, w.len() as int));
        a = a + 1;
    }
    let mid = slice(w, a, w.len());
    let mut b: usize = mid.len();
    assert(mid@.subrange(0, mid.len() as int) =~= mid@);
    while b > 0 && edge(mid[b - 1], which)
        invariant
            which < 2,
            p == (if which == 0 { word_edge() } else { name_edge() }),
            b <= mid.len(),
            trim_end_where(mid@, p) == trim_end_where(mid@.subrange(0, b as int), p),
        decreases b,
    {
        assert(mid@.subrange(0, b as int).drop_last() =~= mid@.subrange(0, b - 1));
        b = b - 1;
    }
    slice(&mid, 0, b)
}

fn edge(c: char, which: u8) -> (r: bool)
    requires
        which < 2,
    ensures
        which == 0 ==> r == (word_edge())(c),
        which == 1 ==> r == (name_edge())(c),
{
    if which == 0 {
        !is_alphanumeric(c) && c != '\''
    } else {
        !is_alphabetic(c) && c != '\'' && c != '-'
    }
}

fn eq_str(w: &Vec<char>, lit: &str) -> (r: bool)
    ensures
        r == (w@ == lit@),
{
    same(w, &chars_of(lit))
}

/// The name introduced at word `i`, as `name_at` says.
fn name_at_exec(ws: &Vec<Vec<char>>, lw: &Vec<Vec<char>>, i: usize) -> (r: Option<Vec<char>>)
    requires
        ws@.len() == lw@.len(),
        i < ws@.len(),
    ensures
        match name_at(char_vecs_view(ws@), char_vecs_view(lw@), i as int) {
            Some(n) => r matches Some(v) && v@ == n,
            None => r is None,
        },
{
    let ghost wv = char_vecs_view(ws@);
    let ghost lv = char_vecs_view(lw@);
    assert(lv[i as int] == lw@[i as int]@);
    let n = lw.len();
    let (next, needs_capital) = if eq_str(&lw[i], "my") && i + 1 < n && eq_str(&lw[i + 1], "name") && i + 2 < n
        && eq_str(&lw[i + 2], "is") {
        assert(lv[i + 1] == lw@[i + 1]@ && lv[i + 2] == lw@[i + 2]@);
        (i + 3, false)
    } else if eq_str(&lw[i], "call") && i + 1 < n && eq_str(&lw[i + 1], "me") {
        assert(lv[i + 1] == lw@[i + 1]@);
        (i + 2, true)
    } else if eq_str(&lw[i], "called") && i > 0 && (eq_str(&lw[i - 1], "i'm") || eq_str(&lw[i - 1], "am")) {
        assert(lv[i - 1] == lw@[i - 1]@);
        (i + 1, false)
    } else {
        proof {
            if i + 1 < n {
                assert(lv[i + 1] == lw@[i + 1]@);
            }
            if i + 2 < n {
                assert(lv[i + 2] == lw@[i + 2]@);
            }
            if i > 0 {
                assert(lv[i - 1] == lw@[i - 1]@);
            }
        }
        return None;
    };
    assert(intro_at(lv, i as int) == Some((next as int, needs_capital)));
    if next >= ws.len() {
        return None;
    }
    let raw = &ws[next];
    assert(wv[next as int] == raw@);
    let name = trim_edges(raw, 1);
    let ends_clause = next + 1 == ws.len() || (raw.len() > 0 && {
        let c = raw[raw.len() - 1];
        c == ',' || c == '.' || c == '!' || c == ';' || c == ':'
    }) || (next + 1 < lw.len() && eq_str(&lw[next + 1], "and"));
    proof {
        if next + 1 < lw.len() {
            assert(lv[next + 1] == lw@[next + 1]@);
        }
    }
    let name_s = string_of(&name);
    if !is_plausible_name(name_s.as_str()) || !ends_clause {
        return None;
    }
    if needs_capital && !is_uppercase(name[0]) {
        return None;
    }
    let mut out = to_uppercase(name[0]);
    let tail = slice(&name, 1, name.len());
    assert(tail@ =~= name@.skip(1));
    push_chars(&mut out, &tail);
    Some(out)
}

/// Learn a name only when it is unmistakably being given: an explicit
/// introduction ("my name is X", "call me X", "I'm called X"), the name
/// ending its clause, outside a question, and for "call me" capitalised
/// as said. The name comes back with its first letter capitalised.
pub fn extract_user_name(text: &str) -> (r: Option<String>)
    ensures
        match user_name_spec(text@) {
            Some(n) => r matches Some(s) && s@ == n,
            None => r is None,
        },
{
    let ss = sentences_of(&chars_of(text));
    let ghost sv = char_vecs_view(ss@);
    let mut k: usize = 0;
    while k < ss.len()
        invariant
            sv == char_vecs_view(ss@),
            sv == sentences(text@),
            k <= ss.len(),
            name_in(sv, 0) == name_in(sv, k as int),
        decreases ss.len() - k,
    {
        let sentence = &ss[k];
        assert(sv[k as int] == sentence@);
        let tail = trim_end_vec(sentence);
        let question = tail.len() > 0 && tail[tail.len() - 1] == '?';
        if !question {
            let ws = word_list(sentence);
            let ghost wv = char_vecs_view(ws@);
            let mut lw: Vec<Vec<char>> = Vec::new();
            let mut j: usize = 0;
            while j < ws.len()
                invariant
                    wv == char_vecs_view(ws@),
                    j <= ws.len(),
                    char_vecs_view(lw@) == wv.take(j as int).map_values(|w: Seq<char>| lowered_word(w)),
                decreases ws.len() - j,
            {
                assert(wv[j as int] == ws@[j as int]@);
                let l = lower_chars(&trim_edges(&ws[j], 0));
                let ghost before = char_vecs_view(lw@);
                lw.push(l);
                assert(char_vecs_view(lw@) =~= before.push(lowered_word(wv[j as int])));
                assert(wv.take(j + 1).map_values(|w: Seq<char>| lowered_word(w)) =~= wv.take(j as int).map_values(
                    |w: Seq<char>| lowered_word(w),
                ).push(lowered_word(wv[j as int])));
                j = j + 1;
            }
            assert(wv.take(ws.len() as int) =~= wv);
            let ghost lv = char_vecs_view(lw@);
            assert(lv == wv.map_values(|w: Seq<char>| lowered_word(w)));
            let mut i: usize = 0;
            while i < ws.len()
                invariant
                    k < ss.len(),
                    sv == char_vecs_view(ss@),
                    sv == sentences(text@),
                    name_in(sv, 0) == name_in(sv, k as int),
                    wv == words(sv[k as int]),
                    !(trim_end(sv[k as int]).len() > 0 && trim_end(sv[k as int]).last() == '?'),
                    lv == wv.map_values(|w: Seq<char>| lowered_word(w)),
                    wv == char_vecs_view(ws@),
                    lv == char_vecs_view(lw@),
                    ws@.len() == lw@.len(),
                    i <= ws.len(),
                    name_from(wv, lv, 0) == name_from(wv, lv, i as int),
                decreases ws.len() - i,
            {
                match name_at_exec(&ws, &lw, i) {
                    Some(n) => {
                        assert(sentence_name(sv[k as int]) == Some(n@));
                        return Some(string_of(&n));
                    },
                    None => {},
                }
                i = i + 1;
            }
            assert(sentence_name(sv[k as int]) is None);
        }
        k = k + 1;
    }
    None
}

// ---------------------------------------------------------------------
// Events
// ---------------------------------------------------------------------

/// An event as the engine reads it: its kind and what its payload holds.
/// `J` is a plan as the planner produced it.
pub enum Incoming<J> {
    SystemWake,
    /// What the user said (the payload's `text`, else its `intent`, else
    /// "unknown").
    UserIntent { text: String },
    /// A worker's reply, with its `type` when it has one.
    WorkerResponse { response_type: Option<String> },
    /// A context snapshot; `None` when the payload was not one.
    ContextUpdate(Option<ContextSnapshot>),
    /// A plan, and the line it speaks when it has one.
    PlanReady { plan: Option<J>, spoken: Option<String> },
    PlanApproved,
    ActionComplete,
    UiStateChange { state: Option<String> },
    WorkerRequest,
    SystemAction,
    TtsInterrupt,
    /// A browser tab; `None` when the payload was not one.
    BrowserUpdate(Option<BrowserTab>),
    SystemChange,
}

pub open spec fn kind_of<J>(i: Incoming<J>) -> EventType {
    match i {
        Incoming::SystemWake => EventType::SystemWake,
        Incoming::UserIntent { .. } => EventType::UserIntent,
        Incoming::WorkerResponse { .. } => EventType::WorkerResponse,
        Incoming::ContextUpdate(_) => EventType::ContextUpdate,
        Incoming::PlanReady { .. } => EventType::PlanReady,
        Incoming::PlanApproved => EventType::PlanApproved,
        Incoming::ActionComplete => EventType::ActionComplete,
        Incoming::UiStateChange { .. } => EventType::UiStateChange,
        Incoming::WorkerRequest => EventType::WorkerRequest,
        Incoming::SystemAction => EventType::SystemAction,
        Incoming::TtsInterrupt => EventType::TtsInterrupt,
        Incoming::BrowserUpdate(_) => EventType::BrowserUpdate,
        Incoming::SystemChange => EventType::SystemChange,
    }
}

/// The events kept in working memory's ring: the conversation, not the
/// polling noise of context updates and interface states.
pub open spec fn conversational(t: EventType) -> bool {
    t == EventType::UserIntent || t == EventType::WorkerResponse || t == EventType::PlanReady
        || t == EventType::ActionComplete || t == EventType::SystemWake
}

/// What the event loop is to do after the engine has taken an event.
pub struct EngineStep {
    /// Write the event to episodic memory.
    pub persist_episode: bool,
    /// Offer `(role, text)` to the recall store.
    pub remember: Option<(String, String)>,
    /// Republish the worker reply's data as a context update.
    pub forward_context: bool,
    /// The context changed: log this summary of it.
    pub context_changed: Option<String>,
    /// Record these entities as seen.
    pub observe: Vec<(String, EntityKind)>,
    /// Record these pairs as seen together.
    pub link: Vec<((String, EntityKind), (String, EntityKind))>,
    /// Save working memory to disk.
    pub save: bool,
}

/// The context engine: working memory, and what it last logged, observed
/// and saved.
pub struct ContextEngine<E, J> {
    pub working: WorkingMemory<E, J>,
    pub last_entities: Option<(Option<String>, Option<String>, Option<String>)>,
    pub last_context_log: Option<String>,
    /// When working memory was last saved, in nanoseconds on a monotonic
    /// clock.
    pub last_save: u64,
}

/// Saves are at most once a second.
pub const SAVE_INTERVAL_NS: u64 = 1_000_000_000;

// ---------------------------------------------------------------------
// What a context update changes
// ---------------------------------------------------------------------

/// A one-line summary of the context, for the log: the app, the project,
/// and the clipboard's length (never its content).
pub open spec fn context_summary<E, J>(wm: WorkingMemory<E, J>) -> Seq<char> {
    "app="@ + (match wm.active_window {
        Some(w) => w.app_name@,
        None => "none"@,
    }) + ", project="@ + (match wm.project {
        Some(p) => p.name@,
        None => "none"@,
    }) + ", clipboard="@ + (match wm.last_clipboard {
        Some(c) => crate::text::decimal(c@.len()) + " chars"@,
        None => "empty"@,
    })
}

pub open spec fn punct_edge() -> spec_fn(char) -> bool {
    |c: char| crate::text::is_ascii_punct(c)
}

/// A word of a window title that names a file: it has a dot, no slash,
/// and more than three bytes.
pub open spec fn file_like(w: Seq<char>) -> bool {
    crate::text::has_char(w, '.') && !crate::text::has_char(w, '/') && crate::util::utf8_len(w) > 3
}

pub open spec fn first_file_like(ws: Seq<Seq<char>>, k: int) -> Option<Seq<char>>
    decreases ws.len() - k,
{
    if k < 0 || k >= ws.len() {
        None
    } else if file_like(ws[k]) {
        Some(ws[k])
    } else {
        first_file_like(ws, k + 1)
    }
}

/// The file a window title names, its punctuation trimmed.
pub open spec fn title_file(title: Seq<char>) -> Option<Seq<char>> {
    match first_file_like(words(title), 0) {
        Some(w) => Some(trim_where(w, punct_edge())),
        None => None,
    }
}

pub open spec fn opt_str(o: Option<String>) -> Option<Seq<char>> {
    match o {
        Some(s) => Some(s@),
        None => None,
    }
}

/// The app, project and file in play.
pub open spec fn in_play<E, J>(wm: WorkingMemory<E, J>) -> (Option<Seq<char>>, Option<Seq<char>>, Option<Seq<char>>) {
    (
        match wm.active_window {
            Some(w) => Some(w.app_name@),
            None => None,
        },
        match wm.project {
            Some(p) => Some(p.name@),
            None => None,
        },
        match wm.active_window {
            Some(w) => title_file(w.window_title@),
            None => None,
        },
    )
}

pub open spec fn sig_view(s: (Option<String>, Option<String>, Option<String>)) -> (
    Option<Seq<char>>,
    Option<Seq<char>>,
    Option<Seq<char>>,
) {
    (opt_str(s.0), opt_str(s.1), opt_str(s.2))
}

/// Each of the app, project and file that is present, as seen.
pub open spec fn observations(p: (Option<Seq<char>>, Option<Seq<char>>, Option<Seq<char>>)) -> Seq<
    (Seq<char>, EntityKind),
> {
    (match p.0 {
        Some(a) => seq![(a, EntityKind::App)],
        None => Seq::empty(),
    }) + (match p.1 {
        Some(x) => seq![(x, EntityKind::Project)],
        None => Seq::empty(),
    }) + (match p.2 {
        Some(f) => seq![(f, EntityKind::File)],
        None => Seq::empty(),
    })
}

/// The project with the app, and the project with the file, when both
/// ends are present.
pub open spec fn links(p: (Option<Seq<char>>, Option<Seq<char>>, Option<Seq<char>>)) -> Seq<
    ((Seq<char>, EntityKind), (Seq<char>, EntityKind)),
> {
    (match (p.1, p.0) {
        (Some(x), Some(a)) => seq![((x, EntityKind::Project), (a, EntityKind::App))],
        _ => Seq::empty(),
    }) + (match (p.1, p.2) {
        (Some(x), Some(f)) => seq![((x, EntityKind::Project), (f, EntityKind::File))],
        _ => Seq::empty(),
    })
}

fn has_char_exec(w: &[char], c: char) -> (r: bool)
    ensures
        r == crate::text::has_char(w@, c),
{
    let mut i: usize = 0;
    while i < w.len()
        invariant
            i <= w.len(),
            forall|j: int| 0 <= j < i ==> w@[j] != c,
        decreases w.len() - i,
    {
        if w[i] == c {
            return true;
        }
        i = i + 1;
    }
    false
}

fn trim_punct(w: &[char]) -> (r: Vec<char>)
    ensures
        r@ == trim_where(w@, punct_edge()),
{
    let mut a: usize = 0;
    assert(w@.subrange(0, w.len() as int) =~= w@);
    while a < w.len() && crate::text::ascii_punct(w[a])
        invariant
            a <= w.len(),
            trim_start_where(w@, punct_edge()) == trim_start_where(w@.subrange(a as int, w.len() as int), punct_edge()),
        decreases w.len() - a,
    {
        assert(w@.subrange(a as int, w.len() as int).drop_first() =~= w@.subrange(a + 1, w.len() as int));
        a = a + 1;
    }
    let mid = slice(w, a, w.len());
    let mut b: usize = mid.len();
    assert(mid@.subrange(0, mid.len() as int) =~= mid@);
    while b > 0 && crate::text::ascii_punct(mid[b - 1])
        invariant
            b <= mid.len(),
            trim_end_where(mid@, punct_edge()) == trim_end_where(mid@.subrange(0, b as int), punct_edge()),
        decreases b,
    {
        assert(mid@.subrange(0, b as int).drop_last() =~= mid@.subrange(0, b - 1));
        b = b - 1;
    }
    slice(&mid, 0, b)
}

/// The file a window title names, if any.
pub fn file_in_title(title: &str) -> (r: Option<String>)
    ensures
        opt_str(r) == title_file(title@),
{
    let ws = word_list(&chars_of(title));
    let ghost wv = char_vecs_view(ws@);
    let mut k: usize = 0;
    while k < ws.len()
        invariant
            wv == char_vecs_view(ws@),
            wv == words(title@),
            k <= ws.len(),
            first_file_like(wv, 0) == first_file_like(wv, k as int),
        decreases ws.len() - k,
    {
        let w = &ws[k];
        assert(wv[k as int] == w@);
        let bytes = string_of(w).as_str().as_bytes().len();
        if has_char_exec(w, '.') && !has_char_exec(w, '/') && bytes > 3 {
            return Some(string_of(&trim_punct(w)));
        }
        k = k + 1;
    }
    None
}

fn clone_opt(o: &Option<String>) -> (r: Option<String>)
    ensures
        opt_str(r) == opt_str(*o),
{
    match o {
        Some(s) => Some(string_of(&chars_of(s.as_str()))),
        None => None,
    }
}

fn opt_eq(a: &Option<String>, b: &Option<String>) -> (r: bool)
    ensures
        r == (opt_str(*a) == opt_str(*b)),
{
    match (a, b) {
        (Some(x), Some(y)) => same(&chars_of(x.as_str()), &chars_of(y.as_str())),
        (None, None) => true,
        _ => false,
    }
}

fn copy_str(s: &String) -> (r: String)
    ensures
        r@ == s@,
{
    string_of(&chars_of(s.as_str()))
}

// ---------------------------------------------------------------------
// Taking an event
// ---------------------------------------------------------------------

pub open spec fn obs_view(v: Seq<(String, EntityKind)>) -> Seq<(Seq<char>, EntityKind)> {
    v.map_values(|o: (String, EntityKind)| (o.0@, o.1))
}

pub open spec fn links_view(v: Seq<((String, EntityKind), (String, EntityKind))>) -> Seq<
    ((Seq<char>, EntityKind), (Seq<char>, EntityKind)),
> {
    v.map_values(|l: ((String, EntityKind), (String, EntityKind))| ((l.0.0@, l.0.1), (l.1.0@, l.1.1)))
}

/// Working memory's context fields after a snapshot: each replaced by the
/// snapshot's, the capture time recorded.
pub open spec fn snapshot_applied<E, J>(old: WorkingMemory<E, J>, new: WorkingMemory<E, J>, snap: ContextSnapshot) -> bool {
    &&& new.active_window == snap.active_window
    &&& new.open_windows == snap.open_windows
    &&& new.active_workspace == snap.active_workspace
    &&& new.project == snap.project
    &&& new.next_event == snap.next_event
    &&& new.last_clipboard == snap.clipboard_text
    &&& new.context_timestamp == Some(snap.captured_at)
    &&& new.current_intent == old.current_intent
    &&& new.active_plan == old.active_plan
    &&& new.ui_state == old.ui_state
    &&& new.user_name == old.user_name
    &&& new.user_name_verified == old.user_name_verified
    &&& new.browser_tab == old.browser_tab
}

/// The name rule on a user's utterance: a newly given, plausible name is
/// stored and marked as learned by these rules; anything else leaves the
/// name as it was.
pub open spec fn name_learned<E, J>(old: WorkingMemory<E, J>, new: WorkingMemory<E, J>, text: Seq<char>) -> bool {
    match user_name_spec(text) {
        Some(n) => if opt_str(old.user_name) != Some(n) && plausible_name(n) {
            new.user_name matches Some(x) && x@ == n && new.user_name_verified
        } else {
            new.user_name == old.user_name && new.user_name_verified == old.user_name_verified
        },
        None => new.user_name == old.user_name && new.user_name_verified == old.user_name_verified,
    }
}

/// Every context field but those listed as changing stays.
pub open spec fn same_context<E, J>(old: WorkingMemory<E, J>, new: WorkingMemory<E, J>) -> bool {
    &&& new.active_window == old.active_window
    &&& new.open_windows == old.open_windows
    &&& new.active_workspace == old.active_workspace
    &&& new.project == old.project
    &&& new.next_event == old.next_event
    &&& new.last_clipboard == old.last_clipboard
    &&& new.context_timestamp == old.context_timestamp
    &&& new.browser_tab == old.browser_tab
}

/// What an event does to working memory, beyond the ring.
pub open spec fn memory_effect<E, J>(old: WorkingMemory<E, J>, new: WorkingMemory<E, J>, incoming: Incoming<J>) -> bool {
    match incoming {
        Incoming::UserIntent { text } => {
            &&& new.current_intent == Some(text)
            &&& name_learned(old, new, text@)
            &&& same_context(old, new)
            &&& new.active_plan == old.active_plan
            &&& new.ui_state == old.ui_state
        },
        Incoming::ContextUpdate(Some(snap)) => snapshot_applied(old, new, snap),
        Incoming::PlanReady { plan: Some(p), .. } => {
            &&& new.active_plan == Some(p)
            &&& new.current_intent == old.current_intent
            &&& new.user_name == old.user_name
            &&& new.user_name_verified == old.user_name_verified
            &&& same_context(old, new)
            &&& new.ui_state == old.ui_state
        },
        Incoming::ActionComplete => {
            &&& new.active_plan is None
            &&& new.current_intent is None
            &&& new.user_name == old.user_name
            &&& new.user_name_verified == old.user_name_verified
            &&& same_context(old, new)
            &&& new.ui_state == old.ui_state
        },
        Incoming::UiStateChange { state: Some(s) } => {
            &&& new.ui_state == Some(s)
            &&& new.current_intent == old.current_intent
            &&& new.active_plan == old.active_plan
            &&& new.user_name == old.user_name
            &&& new.user_name_verified == old.user_name_verified
            &&& same_context(old, new)
        },
        Incoming::BrowserUpdate(Some(tab)) => {
            &&& new.browser_tab == Some(tab)
            &&& new.active_window == old.active_window
            &&& new.open_windows == old.open_windows
            &&& new.active_workspace == old.active_workspace
            &&& new.project == old.project
            &&& new.next_event == old.next_event
            &&& new.last_clipboard == old.last_clipboard
            &&& new.context_timestamp == old.context_timestamp
            &&& new.current_intent == old.current_intent
            &&& new.active_plan == old.active_plan
            &&& new.ui_state == old.ui_state
            &&& new.user_name == old.user_name
            &&& new.user_name_verified == old.user_name_verified
        },
        _ => {
            &&& new.current_intent == old.current_intent
            &&& new.active_plan == old.active_plan
            &&& new.ui_state == old.ui_state
            &&& new.user_name == old.user_name
            &&& new.user_name_verified == old.user_name_verified
            &&& same_context(old, new)
        },
    }
}

/// What is offered to the recall store: the user's words, or the line a
/// plan speaks.
pub open spec fn remembered<J>(incoming: Incoming<J>) -> Option<(Seq<char>, Seq<char>)> {
    match incoming {
        Incoming::UserIntent { text } => Some(("user"@, text@)),
        Incoming::PlanReady { plan: Some(_), spoken: Some(t) } => Some(("mavis"@, t@)),
        _ => None,
    }
}

/// What a context update reports and records: the summary when it
/// changed, and the entities in play when their combination changed.
pub open spec fn context_effect<E, J>(old: ContextEngine<E, J>, new: ContextEngine<E, J>, incoming: Incoming<J>, step: EngineStep) -> bool {
    if incoming matches Incoming::ContextUpdate(Some(_)) {
        let summary = context_summary(new.working);
        let p = in_play(new.working);
        &&& if opt_str(old.last_context_log) != Some(summary) {
            &&& step.context_changed matches Some(s) && s@ == summary
            &&& opt_str(new.last_context_log) == Some(summary)
        } else {
            &&& step.context_changed is None
            &&& new.last_context_log == old.last_context_log
        }
        &&& if old.last_entities matches Some(sig) && sig_view(sig) == p {
            &&& step.observe@.len() == 0
            &&& step.link@.len() == 0
            &&& new.last_entities == old.last_entities
        } else {
            &&& new.last_entities matches Some(sig) && sig_view(sig) == p
            &&& obs_view(step.observe@) == observations(p)
            &&& links_view(step.link@) == links(p)
        }
    } else {
        &&& step.context_changed is None
        &&& step.observe@.len() == 0
        &&& step.link@.len() == 0
        &&& new.last_context_log == old.last_context_log
        &&& new.last_entities == old.last_entities
    }
}

pub open spec fn save_due(last_save: u64, now: u64) -> bool {
    now - last_save > SAVE_INTERVAL_NS
}

impl<E, J> ContextEngine<E, J> {
    /// A fresh engine at monotonic time `now`; the first save is due
    /// straight away.
    pub fn new(working: WorkingMemory<E, J>, now: u64) -> (e: Self)
        ensures
            e.working == working,
            e.last_entities is None,
            e.last_context_log is None,
            e.last_save == (if now >= 10_000_000_000 { now - 10_000_000_000 } else { 0 }),
    {
        let last_save = if now >= 10_000_000_000 {
            now - 10_000_000_000
        } else {
            0
        };
        ContextEngine { working, last_entities: None, last_context_log: None, last_save }
    }
}

fn context_summary_of<E, J>(wm: &WorkingMemory<E, J>) -> (r: String)
    ensures
        r@ == context_summary(*wm),
{
    let mut c: Vec<char> = Vec::new();
    crate::text::push_str(&mut c, "app=");
    match &wm.active_window {
        Some(w) => crate::text::push_str(&mut c, w.app_name.as_str()),
        None => crate::text::push_str(&mut c, "none"),
    }
    crate::text::push_str(&mut c, ", project=");
    match &wm.project {
        Some(p) => crate::text::push_str(&mut c, p.name.as_str()),
        None => crate::text::push_str(&mut c, "none"),
    }
    crate::text::push_str(&mut c, ", clipboard=");
    match &wm.last_clipboard {
        Some(t) => {
            let n = chars_of(t.as_str()).len();
            crate::text::push_decimal(&mut c, n as u64);
            crate::text::push_str(&mut c, " chars");
        },
        None => crate::text::push_str(&mut c, "empty"),
    }
    string_of(&c)
}

fn in_play_of<E, J>(wm: &WorkingMemory<E, J>) -> (r: (Option<String>, Option<String>, Option<String>))
    ensures
        sig_view(r) == in_play(*wm),
{
    let app = match &wm.active_window {
        Some(w) => Some(copy_str(&w.app_name)),
        None => None,
    };
    let project = match &wm.project {
        Some(p) => Some(copy_str(&p.name)),
        None => None,
    };
    let file = match &wm.active_window {
        Some(w) => file_in_title(w.window_title.as_str()),
        None => None,
    };
    (app, project, file)
}

fn observations_of(p: &(Option<String>, Option<String>, Option<String>)) -> (r: (
    Vec<(String, EntityKind)>,
    Vec<((String, EntityKind), (String, EntityKind))>,
))
    ensures
        obs_view(r.0@) == observations(sig_view(*p)),
        links_view(r.1@) == links(sig_view(*p)),
{
    let mut obs: Vec<(String, EntityKind)> = Vec::new();
    match &p.0 {
        Some(a) => obs.push((copy_str(a), EntityKind::App)),
        None => {},
    }
    let ghost o1 = obs_view(obs@);
    match &p.1 {
        Some(x) => obs.push((copy_str(x), EntityKind::Project)),
        None => {},
    }
    let ghost o2 = obs_view(obs@);
    match &p.2 {
        Some(f) => obs.push((copy_str(f), EntityKind::File)),
        None => {},
    }
    assert(obs_view(obs@) =~= observations(sig_view(*p)));
    let mut ls: Vec<((String, EntityKind), (String, EntityKind))> = Vec::new();
    match (&p.1, &p.0) {
        (Some(x), Some(a)) => ls.push(((copy_str(x), EntityKind::Project), (copy_str(a), EntityKind::App))),
        _ => {},
    }
    match (&p.1, &p.2) {
        (Some(x), Some(f)) => ls.push(((copy_str(x), EntityKind::Project), (copy_str(f), EntityKind::File))),
        _ => {},
    }
    assert(links_view(ls@) =~= links(sig_view(*p)));
    (obs, ls)
}

fn sig_eq(a: &(Option<String>, Option<String>, Option<String>), b: &(Option<String>, Option<String>, Option<String>)) -> (r: bool)
    ensures
        r == (sig_view(*a) == sig_view(*b)),
{
    opt_eq(&a.0, &b.0) && opt_eq(&a.1, &b.1) && opt_eq(&a.2, &b.2)
}

fn learn_name<E, J>(wm: &mut WorkingMemory<E, J>, text: &str)
    ensures
        name_learned(*old(wm), *final(wm), text@),
        final(wm).events == old(wm).events,
        final(wm).current_intent == old(wm).current_intent,
        final(wm).active_plan == old(wm).active_plan,
        final(wm).ui_state == old(wm).ui_state,
        same_context(*old(wm), *final(wm)),
{
    let name = extract_user_name(text);
    match name {
        Some(n) => {
            let differs = match &wm.user_name {
                Some(cur) => !same(&chars_of(cur.as_str()), &chars_of(n.as_str())),
                None => true,
            };
            if differs && is_plausible_name(n.as_str()) {
                wm.user_name = Some(n);
                wm.user_name_verified = true;
            }
        },
        None => {},
    }
}

impl<E, J> ContextEngine<E, J> {
    /// After a context update: log the summary if it changed, and record
    /// the entities in play if their combination changed.
    fn note_context(&mut self) -> (r: (Option<String>, Vec<(String, EntityKind)>, Vec<((String, EntityKind), (String, EntityKind))>))
        ensures
            final(self).working == old(self).working,
            final(self).last_save == old(self).last_save,
            ({
                let summary = context_summary(old(self).working);
                if opt_str(old(self).last_context_log) != Some(summary) {
                    &&& r.0 matches Some(s) && s@ == summary
                    &&& opt_str(final(self).last_context_log) == Some(summary)
                } else {
                    &&& r.0 is None
                    &&& final(self).last_context_log == old(self).last_context_log
                }
            }),
            ({
                let p = in_play(old(self).working);
                if old(self).last_entities matches Some(sig) && sig_view(sig) == p {
                    &&& r.1@.len() == 0
                    &&& r.2@.len() == 0
                    &&& final(self).last_entities == old(self).last_entities
                } else {
                    &&& final(self).last_entities matches Some(sig) && sig_view(sig) == p
                    &&& obs_view(r.1@) == observations(p)
                    &&& links_view(r.2@) == links(p)
                }
            }),
    {
        let summary = context_summary_of(&self.working);
        let changed = match &self.last_context_log {
            Some(l) => !same(&chars_of(l.as_str()), &chars_of(summary.as_str())),
            None => true,
        };
        let logged = if changed {
            self.last_context_log = Some(copy_str(&summary));
            Some(summary)
        } else {
            None
        };
        let now_in_play = in_play_of(&self.working);
        let unchanged = match &self.last_entities {
            Some(sig) => sig_eq(sig, &now_in_play),
            None => false,
        };
        if unchanged {
            return (logged, Vec::new(), Vec::new());
        }
        let (obs, ls) = observations_of(&now_in_play);
        self.last_entities = Some(now_in_play);
        (logged, obs, ls)
    }

    /// Take one event: update working memory, and say what else to do.
    /// `event` is the event itself, kept in the ring when conversational;
    /// `incoming` is what its payload holds; `now` is the monotonic time
    /// in nanoseconds.
    pub fn process_event(&mut self, event: E, incoming: Incoming<J>, now: u64) -> (step: EngineStep)
        ensures
            old(self).working.wf() ==> final(self).working.wf(),
            final(self).working.events@ == (if conversational(kind_of(incoming)) {
                pushed_ring(old(self).working.events@, event)
            } else {
                old(self).working.events@
            }),
            memory_effect(old(self).working, final(self).working, incoming),
            step.persist_episode == persisted_spec(kind_of(incoming)),
            match remembered(incoming) {
                Some((role, text)) => step.remember matches Some((r, t)) && r@ == role && t@ == text,
                None => step.remember is None,
            },
            step.forward_context == (incoming matches Incoming::WorkerResponse { response_type } && opt_str(
                response_type,
            ) == Some("context"@)),
            context_effect(*old(self), *final(self), incoming, step),
            step.save == save_due(old(self).last_save, now),
            final(self).last_save == (if save_due(old(self).last_save, now) {
                now
            } else {
                old(self).last_save
            }),
    {
        let kind = match &incoming {
            Incoming::SystemWake => EventType::SystemWake,
            Incoming::UserIntent { .. } => EventType::UserIntent,
            Incoming::WorkerResponse { .. } => EventType::WorkerResponse,
            Incoming::ContextUpdate(_) => EventType::ContextUpdate,
            Incoming::PlanReady { .. } => EventType::PlanReady,
            Incoming::PlanApproved => EventType::PlanApproved,
            Incoming::ActionComplete => EventType::ActionComplete,
            Incoming::UiStateChange { .. } => EventType::UiStateChange,
            Incoming::WorkerRequest => EventType::WorkerRequest,
            Incoming::SystemAction => EventType::SystemAction,
            Incoming::TtsInterrupt => EventType::TtsInterrupt,
            Incoming::BrowserUpdate(_) => EventType::BrowserUpdate,
            Incoming::SystemChange => EventType::SystemChange,
        };
        let persist_episode = is_persisted(kind);
        let conv = matches!(
            kind,
            EventType::UserIntent | EventType::WorkerResponse | EventType::PlanReady | EventType::ActionComplete
                | EventType::SystemWake
        );
        if conv {
            self.working.push_event(event);
        }
        let ghost ring = self.working.events;
        let mut remember: Option<(String, String)> = None;
        let mut forward_context = false;
        let mut context_changed: Option<String> = None;
        let mut observe: Vec<(String, EntityKind)> = Vec::new();
        let mut link: Vec<((String, EntityKind), (String, EntityKind))> = Vec::new();
        match incoming {
            Incoming::UserIntent { text } => {
                learn_name(&mut self.working, text.as_str());
                remember = Some((string_of(&chars_of("user")), copy_str(&text)));
                self.working.current_intent = Some(text);
            },
            Incoming::WorkerResponse { response_type } => {
                forward_context = match &response_type {
                    Some(t) => same(&chars_of(t.as_str()), &chars_of("context")),
                    None => false,
                };
            },
            Incoming::ContextUpdate(Some(snap)) => {
                self.working.active_window = snap.active_window;
                self.working.open_windows = snap.open_windows;
                self.working.active_workspace = snap.active_workspace;
                self.working.project = snap.project;
                self.working.next_event = snap.next_event;
                self.working.last_clipboard = snap.clipboard_text;
                self.working.context_timestamp = Some(snap.captured_at);
                let (logged, obs, ls) = self.note_context();
                context_changed = logged;
                observe = obs;
                link = ls;
            },
            Incoming::PlanReady { plan: Some(p), spoken } => {
                self.working.active_plan = Some(p);
                match spoken {
                    Some(t) => {
                        remember = Some((string_of(&chars_of("mavis")), t));
                    },
                    None => {},
                }
            },
            Incoming::ActionComplete => {
                self.working.active_plan = None;
                self.working.current_intent = None;
            },
            Incoming::UiStateChange { state: Some(st) } => {
                self.working.ui_state = Some(st);
            },
            Incoming::BrowserUpdate(Some(tab)) => {
                self.working.browser_tab = Some(tab);
            },
            _ => {},
        }
        let save = now > self.last_save && now - self.last_save > SAVE_INTERVAL_NS;
        if save {
            self.last_save = now;
        }
        EngineStep { persist_episode, remember, forward_context, context_changed, observe, link, save }
    }
}

// ---------------------------------------------------------------------
// Laws
// ---------------------------------------------------------------------

/// After a context update the engine holds the combination of app,
/// project and file in play, so an update that leaves it the same records
/// nothing new: idle seconds are not counted as work.
pub proof fn law_unchanged_context_is_not_recounted<E, J>(
    old: ContextEngine<E, J>,
    mid: ContextEngine<E, J>,
    first: Incoming<J>,
    step1: EngineStep,
    new: ContextEngine<E, J>,
    second: Incoming<J>,
    step2: EngineStep,
)
    requires
        first matches Incoming::ContextUpdate(Some(_)),
        context_effect(old, mid, first, step1),
        second matches Incoming::ContextUpdate(Some(_)),
        context_effect(mid, new, second, step2),
        in_play(new.working) == in_play(mid.working),
    ensures
        step2.observe@.len() == 0,
        step2.link@.len() == 0,
{
}

/// Only the conversation enters working memory's ring: context polls,
/// interface states and the rest leave it as it was.
pub proof fn law_polling_does_not_evict_the_conversation<J>(incoming: Incoming<J>)
    ensures
        !conversational(kind_of(incoming)) ==> (incoming is ContextUpdate || incoming is UiStateChange
            || incoming is PlanApproved || incoming is WorkerRequest || incoming is SystemAction
            || incoming is TtsInterrupt || incoming is BrowserUpdate || incoming is SystemChange),
        incoming is ContextUpdate ==> !conversational(kind_of(incoming)),
        incoming is UiStateChange ==> !conversational(kind_of(incoming)),
{
}

/// A name is stored only when it is plausible, and then it is marked as
/// learned by these rules.
pub proof fn law_stored_names_are_plausible<E, J>(old: WorkingMemory<E, J>, new: WorkingMemory<E, J>, text: Seq<char>)
    requires
        name_learned(old, new, text),
        opt_str(new.user_name) != opt_str(old.user_name),
    ensures
        new.user_name matches Some(n) && plausible_name(n@),
        new.user_name_verified,
{
}

} // verus!
