//! The context that goes to the language model with each request: who the
//! user is, what was recalled, the time, the desktop (each source only when
//! the user turned it on), and the recent conversation.
use crate::context::{BrowserTab, CalendarEvent, ProjectInfo, WindowInfo};
use crate::memory::long_term::DailySummary;
use crate::memory::recall::Memory;
use crate::memory::working::WorkingMemory;
use crate::models::EventType;
use crate::planner::window::{describe_active_window, describe_window_spec};
use crate::text::{
    char_vecs_view, chars_of, decimal, lex_lt, push_chars, push_decimal, push_signed_decimal, push_str,
    sep_join, signed_decimal, slice, sorted_set, sorted_unique, string_of, strictly_sorted,
};
use vstd::prelude::*;

verus! {

/// One piece of context: where it came from, and what it says.
pub struct ContextItem {
    pub source: String,
    pub content: String,
}

pub open spec fn items_view(v: Seq<ContextItem>) -> Seq<(Seq<char>, Seq<char>)> {
    v.map_values(|i: ContextItem| (i.source@, i.content@))
}

fn make_item(source: &str, content: &[char]) -> (r: ContextItem)
    ensures
        r.source@ == source@,
        r.content@ == content@,
{
    ContextItem { source: string_of(&chars_of(source)), content: string_of(content) }
}

fn push_item(items: &mut Vec<ContextItem>, source: &str, content: &[char])
    ensures
        items_view(final(items)@) == items_view(old(items)@).push((source@, content@)),
{
    let ghost before = items_view(items@);
    items.push(make_item(source, content));
    assert(items_view(items@) =~= before.push((source@, content@)));
}

/// Which context sources the user has turned on; each is off unless
/// opted into.
pub struct ContextSources {
    pub active_window: bool,
    pub calendar: bool,
    pub clipboard: bool,
    pub browser: bool,
}

/// Whether an opt-in setting's value turns it on: exactly "1" or "true".
pub fn opted_in(value: Option<&str>) -> (r: bool)
    ensures
        r == (value matches Some(v) && (v@ == "1"@ || v@ == "true"@)),
{
    match value {
        Some(v) => {
            let c = crate::text::chars_of(v);
            crate::text::same(&c, &crate::text::chars_of("1")) || crate::text::same(&c, &crate::text::chars_of("true"))
        },
        None => false,
    }
}

/// What memory gave back for the current utterance.
pub enum Recollection {
    /// The utterance named a period: that period's daily summaries and
    /// what was recorded in it, each `None` when the lookup failed.
    Replay { label: String, summaries: Option<Vec<DailySummary>>, memories: Option<Vec<Memory>> },
    /// Otherwise, memories matching the utterance, and when there were
    /// none, daily summaries matching it (`None` when not looked up or
    /// failed).
    Recall { memories: Option<Vec<Memory>>, summaries: Option<Vec<DailySummary>> },
}

/// A recent conversational event: its kind, and the text it carries (the
/// user's words, the model's reply, or the plan's spoken line).
pub struct Exchange {
    pub event_type: EventType,
    pub text: String,
}

// ---------------------------------------------------------------------
// The pieces
// ---------------------------------------------------------------------

pub open spec fn profile_items(user_name: Option<String>, intent: Option<String>) -> Seq<(Seq<char>, Seq<char>)> {
    (match user_name {
        Some(n) => seq![("user_profile"@, "The user's name is "@ + n@ + "."@)],
        None => Seq::empty(),
    }) + (match intent {
        Some(i) => seq![("current_intent"@, i@)],
        None => Seq::empty(),
    })
}

pub open spec fn summary_line(s: DailySummary) -> (Seq<char>, Seq<char>) {
    ("daily_summary"@, "On "@ + s.date@ + ": "@ + s.summary@)
}

pub open spec fn summary_items(o: Option<Vec<DailySummary>>) -> Seq<(Seq<char>, Seq<char>)> {
    match o {
        Some(v) => v@.map_values(|s: DailySummary| summary_line(s)),
        None => Seq::empty(),
    }
}

pub open spec fn replay_line(m: Memory) -> Seq<char> {
    m.role@ + ": "@ + m.text@
}

pub open spec fn recalled_line(m: Memory) -> (Seq<char>, Seq<char>) {
    ("recalled"@, "Earlier, "@ + m.role@ + " said: "@ + m.text@)
}

/// What memory contributes: for a period, its summaries and then either a
/// replay of it or a note that nothing was recorded; otherwise the
/// matching memories, or failing those the matching summaries.
pub open spec fn recollection_items(r: Recollection) -> Seq<(Seq<char>, Seq<char>)> {
    match r {
        Recollection::Replay { label, summaries, memories } => summary_items(summaries) + match memories {
            Some(v) => if v@.len() > 0 {
                seq![
                    ("replay"@, "What happened "@ + label@ + ": "@ + sep_join(
                        v@.map_values(|m: Memory| replay_line(m)),
                        " | "@,
                    )),
                ]
            } else {
                seq![("replay"@, "Nothing was recorded "@ + label@ + "."@)]
            },
            None => Seq::empty(),
        },
        Recollection::Recall { memories, summaries } => match memories {
            Some(v) => if v@.len() > 0 {
                v@.map_values(|m: Memory| recalled_line(m))
            } else {
                summary_items(summaries)
            },
            None => Seq::empty(),
        },
    }
}

fn push_summaries(items: &mut Vec<ContextItem>, o: &Option<Vec<DailySummary>>)
    ensures
        items_view(final(items)@) == items_view(old(items)@) + summary_items(*o),
{
    match o {
        Some(v) => {
            let ghost start = items_view(items@);
            let mut k: usize = 0;
            while k < v.len()
                invariant
                    k <= v.len(),
                    items_view(items@) == start + v@.take(k as int).map_values(|s: DailySummary| summary_line(s)),
                decreases v.len() - k,
            {
                let mut c: Vec<char> = Vec::new();
                push_str(&mut c, "On ");
                push_str(&mut c, v[k].date.as_str());
                push_str(&mut c, ": ");
                push_str(&mut c, v[k].summary.as_str());
                push_item(items, "daily_summary", &c);
                assert(v@.take(k + 1).map_values(|s: DailySummary| summary_line(s)) =~= v@.take(k as int).map_values(
                    |s: DailySummary| summary_line(s),
                ).push(summary_line(v@[k as int])));
                k = k + 1;
            }
            assert(v@.take(v.len() as int) =~= v@);
        },
        None => {
            assert(items_view(items@) + summary_items(*o) =~= items_view(items@));
        },
    }
}

fn push_recollection(items: &mut Vec<ContextItem>, r: &Recollection)
    ensures
        items_view(final(items)@) == items_view(old(items)@) + recollection_items(*r),
{
    let ghost start = items_view(items@);
    match r {
        Recollection::Replay { label, summaries, memories } => {
            push_summaries(items, summaries);
            match memories {
                Some(v) => {
                    if v.len() > 0 {
                        let ghost lines = v@.map_values(|m: Memory| replay_line(m));
                        let mut c: Vec<char> = Vec::new();
                        push_str(&mut c, "What happened ");
                        push_str(&mut c, label.as_str());
                        push_str(&mut c, ": ");
                        let ghost head = c@;
                        let mut k: usize = 0;
                        while k < v.len()
                            invariant
                                k <= v.len(),
                                lines == v@.map_values(|m: Memory| replay_line(m)),
                                c@ == head + sep_join(lines.take(k as int), " | "@),
                            decreases v.len() - k,
                        {
                            if k > 0 {
                                push_str(&mut c, " | ");
                            }
                            push_str(&mut c, v[k].role.as_str());
                            push_str(&mut c, ": ");
                            push_str(&mut c, v[k].text.as_str());
                            assert(lines.take(k + 1).drop_last() =~= lines.take(k as int));
                            assert(lines[k as int] == replay_line(v@[k as int]));
                            if k == 0 {
                                assert(sep_join(lines.take(1), " | "@) == lines[0]);
                            }
                            assert(c@ =~= head + sep_join(lines.take(k + 1), " | "@));
                            k = k + 1;
                        }
                        assert(lines.take(v.len() as int) =~= lines);
                        push_item(items, "replay", &c);
                    } else {
                        let mut c: Vec<char> = Vec::new();
                        push_str(&mut c, "Nothing was recorded ");
                        push_str(&mut c, label.as_str());
                        push_str(&mut c, ".");
                        push_item(items, "replay", &c);
                    }
                },
                None => {},
            }
            assert(items_view(items@) =~= start + recollection_items(*r));
        },
        Recollection::Recall { memories, summaries } => {
            match memories {
                Some(v) => {
                    if v.len() > 0 {
                        let mut k: usize = 0;
                        while k < v.len()
                            invariant
                                k <= v.len(),
                                items_view(items@) == start + v@.take(k as int).map_values(|m: Memory| recalled_line(m)),
                            decreases v.len() - k,
                        {
                            let mut c: Vec<char> = Vec::new();
                            push_str(&mut c, "Earlier, ");
                            push_str(&mut c, v[k].role.as_str());
                            push_str(&mut c, " said: ");
                            push_str(&mut c, v[k].text.as_str());
                            push_item(items, "recalled", &c);
                            assert(v@.take(k + 1).map_values(|m: Memory| recalled_line(m)) =~= v@.take(k as int).map_values(
                                |m: Memory| recalled_line(m),
                            ).push(recalled_line(v@[k as int])));
                            k = k + 1;
                        }
                        assert(v@.take(v.len() as int) =~= v@);
                    } else {
                        push_summaries(items, summaries);
                    }
                },
                None => {},
            }
            assert(items_view(items@) =~= start + recollection_items(*r));
        },
    }
}

// ---------------------------------------------------------------------
// The desktop
// ---------------------------------------------------------------------

/// A window worth listing: named, not "unknown", not the focused one.
pub open spec fn listed(w: WindowInfo) -> bool {
    w.app_name@.len() > 0 && w.app_name@ != "unknown"@ && !w.is_focused
}

/// Listed windows on the current workspace, by app name.
pub open spec fn here_names(ws: Seq<WindowInfo>, current: Option<u64>) -> Seq<Seq<char>> {
    ws.filter(|w: WindowInfo| listed(w) && w.workspace_id == current).map_values(|w: WindowInfo| w.app_name@)
}

pub open spec fn elsewhere_name(w: WindowInfo) -> Seq<char> {
    match w.workspace_id {
        Some(id) => w.app_name@ + " (workspace "@ + decimal(id as nat) + ")"@,
        None => w.app_name@,
    }
}

/// Listed windows elsewhere, with their workspace when known.
pub open spec fn elsewhere_names(ws: Seq<WindowInfo>, current: Option<u64>) -> Seq<Seq<char>> {
    ws.filter(|w: WindowInfo| listed(w) && w.workspace_id != current).map_values(|w: WindowInfo| elsewhere_name(w))
}

/// The sentences about the other open windows, given the tidied lists.
pub open spec fn window_parts(current: Option<u64>, here: Seq<Seq<char>>, elsewhere: Seq<Seq<char>>) -> Seq<Seq<char>> {
    (match current {
        Some(ws) => seq!["The user is on workspace "@ + decimal(ws as nat) + "."@],
        None => Seq::empty(),
    }) + (if here.len() > 0 {
        seq!["Also open on this workspace: "@ + sep_join(here, ", "@) + "."@]
    } else {
        Seq::empty()
    }) + (if elsewhere.len() > 0 {
        seq!["Open elsewhere: "@ + sep_join(elsewhere, ", "@) + "."@]
    } else {
        Seq::empty()
    })
}

pub open spec fn open_windows_items(current: Option<u64>, here: Seq<Seq<char>>, elsewhere: Seq<Seq<char>>) -> Seq<
    (Seq<char>, Seq<char>),
> {
    let parts = window_parts(current, here, elsewhere);
    if parts.len() > 0 {
        seq![("open_windows"@, sep_join(parts, " "@))]
    } else {
        Seq::empty()
    }
}

pub open spec fn project_line(p: ProjectInfo) -> Seq<char> {
    match p.git_branch {
        Some(b) => "The user is working in the "@ + p.name@ + " project (git branch "@ + b@ + ") at "@
            + p.path@ + "."@,
        None => "The user is working in the "@ + p.name@ + " project at "@ + p.path@ + "."@,
    }
}

pub open spec fn calendar_line(e: CalendarEvent) -> Seq<char> {
    if e.all_day {
        "The user's next calendar event is \""@ + e.summary@ + "\" (all day)."@
    } else if e.minutes_until < 60 {
        "The user's next calendar event is \""@ + e.summary@ + "\", in "@ + signed_decimal(
            e.minutes_until as int,
        ) + " minutes."@
    } else {
        "The user's next calendar event is \""@ + e.summary@ + "\", in about "@ + decimal(
            (e.minutes_until / 60) as nat,
        ) + " hours."@
    }
}

/// The first 200 characters.
pub open spec fn clip(s: Seq<char>) -> Seq<char> {
    if s.len() > 200 {
        s.take(200)
    } else {
        s
    }
}

pub open spec fn clipboard_line(c: Seq<char>) -> Seq<char> {
    "The user's clipboard currently contains: \""@ + clip(c) + "\""@
}

pub open spec fn browser_line(t: BrowserTab) -> Seq<char> {
    "The user is browsing "@ + t.domain@ + " \u{2014} \""@ + t.title@ + "\"."@
}

fn push_decimal_u64(v: &mut Vec<char>, n: u64)
    ensures
        final(v)@ == old(v)@ + decimal(n as nat),
{
    push_decimal(v, n);
}

fn window_sentence_parts(current: Option<u64>, here: &Vec<Vec<char>>, elsewhere: &Vec<Vec<char>>) -> (r: Vec<Vec<char>>)
    ensures
        char_vecs_view(r@) == window_parts(current, char_vecs_view(here@), char_vecs_view(elsewhere@)),
{
    let mut parts: Vec<Vec<char>> = Vec::new();
    let ghost hv = char_vecs_view(here@);
    let ghost ev = char_vecs_view(elsewhere@);
    match current {
        Some(ws) => {
            let mut c: Vec<char> = Vec::new();
            push_str(&mut c, "The user is on workspace ");
            push_decimal_u64(&mut c, ws);
            push_str(&mut c, ".");
            parts.push(c);
        },
        None => {},
    }
    let ghost p1 = char_vecs_view(parts@);
    assert(p1 =~= (match current {
        Some(ws) => seq!["The user is on workspace "@ + decimal(ws as nat) + "."@],
        None => Seq::<Seq<char>>::empty(),
    }));
    if here.len() > 0 {
        let mut c: Vec<char> = Vec::new();
        push_str(&mut c, "Also open on this workspace: ");
        let j = join_with(here, ", ");
        push_chars(&mut c, &j);
        push_str(&mut c, ".");
        parts.push(c);
    }
    let ghost p2 = char_vecs_view(parts@);
    assert(p2 =~= p1 + (if hv.len() > 0 {
        seq!["Also open on this workspace: "@ + sep_join(hv, ", "@) + "."@]
    } else {
        Seq::<Seq<char>>::empty()
    }));
    if elsewhere.len() > 0 {
        let mut c: Vec<char> = Vec::new();
        push_str(&mut c, "Open elsewhere: ");
        let j = join_with(elsewhere, ", ");
        push_chars(&mut c, &j);
        push_str(&mut c, ".");
        parts.push(c);
    }
    assert(char_vecs_view(parts@) =~= p2 + (if ev.len() > 0 {
        seq!["Open elsewhere: "@ + sep_join(ev, ", "@) + "."@]
    } else {
        Seq::<Seq<char>>::empty()
    }));
    parts
}

/// `items` joined with `sep`.
fn join_with(items: &Vec<Vec<char>>, sep: &str) -> (r: Vec<char>)
    ensures
        r@ == sep_join(char_vecs_view(items@), sep@),
{
    let ghost iv = char_vecs_view(items@);
    let mut out: Vec<char> = Vec::new();
    let mut k: usize = 0;
    while k < items.len()
        invariant
            iv == char_vecs_view(items@),
            k <= items.len(),
            out@ == sep_join(iv.take(k as int), sep@),
        decreases items.len() - k,
    {
        if k > 0 {
            push_str(&mut out, sep);
        }
        push_chars(&mut out, &items[k]);
        assert(iv[k as int] == items@[k as int]@);
        assert(iv.take(k + 1).drop_last() =~= iv.take(k as int));
        if k == 0 {
            assert(out@ =~= sep_join(iv.take(1), sep@));
        }
        k = k + 1;
    }
    assert(iv.take(items.len() as int) =~= iv);
    out
}

/// Split the open windows into those on the current workspace and those
/// elsewhere, each as a sorted list of distinct names.
fn window_lists(ws: &Vec<WindowInfo>, current: Option<u64>) -> (r: (Vec<Vec<char>>, Vec<Vec<char>>))
    ensures
        char_vecs_view(r.0@) == sorted_set(here_names(ws@, current)),
        char_vecs_view(r.1@) == sorted_set(elsewhere_names(ws@, current)),
{
    let ghost here_pred = |w: WindowInfo| listed(w) && w.workspace_id == current;
    let ghost else_pred = |w: WindowInfo| listed(w) && w.workspace_id != current;
    let mut here: Vec<Vec<char>> = Vec::new();
    let mut elsewhere: Vec<Vec<char>> = Vec::new();
    let mut k: usize = 0;
    while k < ws.len()
        invariant
            k <= ws.len(),
            here_pred == (|w: WindowInfo| listed(w) && w.workspace_id == current),
            else_pred == (|w: WindowInfo| listed(w) && w.workspace_id != current),
            char_vecs_view(here@) == ws@.take(k as int).filter(here_pred).map_values(|w: WindowInfo| w.app_name@),
            char_vecs_view(elsewhere@) == ws@.take(k as int).filter(else_pred).map_values(
                |w: WindowInfo| elsewhere_name(w),
            ),
        decreases ws.len() - k,
    {
        let w = &ws[k];
        proof {
            reveal(Seq::filter);
            assert(ws@.take(k + 1).drop_last() =~= ws@.take(k as int));
            assert(ws@.take(k + 1).last() == ws@[k as int]);
        }
        let name = chars_of(w.app_name.as_str());
        let skip = name.len() == 0 || crate::text::same(&name, &chars_of("unknown")) || w.is_focused;
        let ghost h0 = here@;
        let ghost e0 = elsewhere@;
        if !skip {
            if w.workspace_id == current {
                here.push(name);
                assert(char_vecs_view(here@) =~= char_vecs_view(h0).push(w.app_name@));
            } else {
                let mut n = name;
                match w.workspace_id {
                    Some(id) => {
                        push_str(&mut n, " (workspace ");
                        push_decimal_u64(&mut n, id);
                        push_str(&mut n, ")");
                    },
                    None => {},
                }
                elsewhere.push(n);
                assert(char_vecs_view(elsewhere@) =~= char_vecs_view(e0).push(elsewhere_name(*w)));
            }
        }
        assert(ws@.take(k + 1).filter(here_pred).map_values(|w: WindowInfo| w.app_name@) =~= (if here_pred(*w) {
            ws@.take(k as int).filter(here_pred).map_values(|w: WindowInfo| w.app_name@).push(w.app_name@)
        } else {
            ws@.take(k as int).filter(here_pred).map_values(|w: WindowInfo| w.app_name@)
        }));
        assert(ws@.take(k + 1).filter(else_pred).map_values(|w: WindowInfo| elsewhere_name(w)) =~= (if else_pred(*w) {
            ws@.take(k as int).filter(else_pred).map_values(|w: WindowInfo| elsewhere_name(w)).push(elsewhere_name(*w))
        } else {
            ws@.take(k as int).filter(else_pred).map_values(|w: WindowInfo| elsewhere_name(w))
        }));
        k = k + 1;
    }
    assert(ws@.take(ws.len() as int) =~= ws@);
    (sorted_unique(&here), sorted_unique(&elsewhere))
}

// ---------------------------------------------------------------------
// The conversation so far
// ---------------------------------------------------------------------

pub open spec fn exchange_source(t: EventType) -> Option<Seq<char>> {
    match t {
        EventType::UserIntent => Some("user"@),
        EventType::WorkerResponse => Some("mavis"@),
        EventType::PlanReady => Some("plan"@),
        _ => None,
    }
}

/// The recent exchanges that carry text, each under who said it.
pub open spec fn conversation_items(ex: Seq<Exchange>) -> Seq<(Seq<char>, Seq<char>)>
    decreases ex.len(),
{
    if ex.len() == 0 {
        Seq::empty()
    } else {
        let e = ex.last();
        conversation_items(ex.drop_last()) + match exchange_source(e.event_type) {
            Some(src) => if e.text@.len() > 0 {
                seq![(src, e.text@)]
            } else {
                Seq::empty()
            },
            None => Seq::empty(),
        }
    }
}

fn exchange_source_of(t: EventType) -> (r: Option<&'static str>)
    ensures
        match exchange_source(t) {
            Some(s) => r matches Some(x) && x@ == s,
            None => r is None,
        },
{
    match t {
        EventType::UserIntent => Some("user"),
        EventType::WorkerResponse => Some("mavis"),
        EventType::PlanReady => Some("plan"),
        _ => None,
    }
}

fn push_conversation(items: &mut Vec<ContextItem>, recent: &Vec<Exchange>)
    ensures
        items_view(final(items)@) == items_view(old(items)@) + conversation_items(recent@),
{
    let ghost start = items_view(items@);
    let mut k: usize = 0;
    while k < recent.len()
        invariant
            k <= recent.len(),
            items_view(items@) == start + conversation_items(recent@.take(k as int)),
        decreases recent.len() - k,
    {
        let e = &recent[k];
        assert(recent@.take(k + 1).drop_last() =~= recent@.take(k as int));
        assert(recent@.take(k + 1).last() == recent@[k as int]);
        match exchange_source_of(e.event_type) {
            Some(src) => {
                let text = chars_of(e.text.as_str());
                if text.len() > 0 {
                    push_item(items, src, &text);
                }
            },
            None => {},
        }
        assert(items_view(items@) =~= start + conversation_items(recent@.take(k + 1)));
        k = k + 1;
    }
    assert(recent@.take(recent.len() as int) =~= recent@);
}

// ---------------------------------------------------------------------
// Putting it together
// ---------------------------------------------------------------------

/// The desktop items, when the window source is on.
pub open spec fn desktop_items<E, J>(wm: WorkingMemory<E, J>) -> Seq<(Seq<char>, Seq<char>)> {
    (match wm.active_window {
        Some(w) => seq![("active_window"@, describe_window_spec(w.app_name@, w.window_title@))],
        None => Seq::empty(),
    }) + (if wm.open_windows@.len() > 0 {
        open_windows_items(
            wm.active_workspace,
            sorted_set(here_names(wm.open_windows@, wm.active_workspace)),
            sorted_set(elsewhere_names(wm.open_windows@, wm.active_workspace)),
        )
    } else {
        Seq::empty()
    }) + (match wm.project {
        Some(p) => seq![("project"@, project_line(p))],
        None => Seq::empty(),
    })
}

pub open spec fn desktop_section<E, J>(wm: WorkingMemory<E, J>, on: bool) -> Seq<(Seq<char>, Seq<char>)> {
    if on {
        desktop_items(wm)
    } else {
        Seq::empty()
    }
}

pub open spec fn calendar_section<E, J>(wm: WorkingMemory<E, J>, on: bool) -> Seq<(Seq<char>, Seq<char>)> {
    if on {
        match wm.next_event {
            Some(e) => seq![("calendar"@, calendar_line(e))],
            None => Seq::empty(),
        }
    } else {
        Seq::empty()
    }
}

pub open spec fn clipboard_section<E, J>(wm: WorkingMemory<E, J>, on: bool) -> Seq<(Seq<char>, Seq<char>)> {
    if on {
        match wm.last_clipboard {
            Some(c) => if c@.len() > 0 {
                seq![("clipboard"@, clipboard_line(c@))]
            } else {
                Seq::empty()
            },
            None => Seq::empty(),
        }
    } else {
        Seq::empty()
    }
}

pub open spec fn browser_section<E, J>(wm: WorkingMemory<E, J>, on: bool) -> Seq<(Seq<char>, Seq<char>)> {
    if on {
        match wm.browser_tab {
            Some(t) => seq![("browser"@, browser_line(t))],
            None => Seq::empty(),
        }
    } else {
        Seq::empty()
    }
}

/// Everything that goes to the model with a request, in order: the
/// user's name and current intent; what memory recalled; the date and
/// time; the window, other windows and project, the next calendar event,
/// the clipboard and the browser tab, each only when its source is on;
/// then the recent conversation.
pub open spec fn working_memory_spec<E, J>(
    wm: WorkingMemory<E, J>,
    recollection: Recollection,
    datetime: Seq<char>,
    sources: ContextSources,
    recent: Seq<Exchange>,
) -> Seq<(Seq<char>, Seq<char>)> {
    profile_items(wm.user_name, wm.current_intent) + recollection_items(recollection) + seq![
        ("datetime"@, "The current date and time is "@ + datetime + "."@),
    ] + desktop_section(wm, sources.active_window) + calendar_section(wm, sources.calendar)
        + clipboard_section(wm, sources.clipboard) + browser_section(wm, sources.browser)
        + conversation_items(recent)
}

fn push_desktop<E, J>(items: &mut Vec<ContextItem>, wm: &WorkingMemory<E, J>)
    ensures
        items_view(final(items)@) == items_view(old(items)@) + desktop_items(*wm),
{
    let ghost start = items_view(items@);
    match &wm.active_window {
        Some(w) => {
            let d = describe_active_window(w);
            push_item(items, "active_window", &chars_of(d.as_str()));
        },
        None => {},
    }
    let ghost s1 = items_view(items@);
    if wm.open_windows.len() > 0 {
        let (here, elsewhere) = window_lists(&wm.open_windows, wm.active_workspace);
        let parts = window_sentence_parts(wm.active_workspace, &here, &elsewhere);
        if parts.len() > 0 {
            let joined = join_with(&parts, " ");
            push_item(items, "open_windows", &joined);
        }
    }
    let ghost s2 = items_view(items@);
    match &wm.project {
        Some(p) => {
            let mut c: Vec<char> = Vec::new();
            push_str(&mut c, "The user is working in the ");
            push_str(&mut c, p.name.as_str());
            match &p.git_branch {
                Some(b) => {
                    push_str(&mut c, " project (git branch ");
                    push_str(&mut c, b.as_str());
                    push_str(&mut c, ") at ");
                },
                None => {
                    push_str(&mut c, " project at ");
                },
            }
            push_str(&mut c, p.path.as_str());
            push_str(&mut c, ".");
            push_item(items, "project", &c);
        },
        None => {},
    }
    assert(items_view(items@) =~= start + desktop_items(*wm));
}

fn push_calendar(items: &mut Vec<ContextItem>, e: &CalendarEvent)
    ensures
        items_view(final(items)@) == items_view(old(items)@).push(("calendar"@, calendar_line(*e))),
{
    let mut c: Vec<char> = Vec::new();
    push_str(&mut c, "The user's next calendar event is \"");
    push_str(&mut c, e.summary.as_str());
    if e.all_day {
        push_str(&mut c, "\" (all day).");
    } else if e.minutes_until < 60 {
        push_str(&mut c, "\", in ");
        push_signed_decimal(&mut c, e.minutes_until);
        push_str(&mut c, " minutes.");
    } else {
        push_str(&mut c, "\", in about ");
        push_decimal(&mut c, (e.minutes_until / 60) as u64);
        push_str(&mut c, " hours.");
    }
    push_item(items, "calendar", &c);
}

fn push_sections<E, J>(items: &mut Vec<ContextItem>, wm: &WorkingMemory<E, J>, sources: &ContextSources)
    ensures
        items_view(final(items)@) == items_view(old(items)@) + calendar_section(*wm, sources.calendar)
            + clipboard_section(*wm, sources.clipboard) + browser_section(*wm, sources.browser),
{
    let ghost s0 = items_view(items@);
    if sources.calendar {
        match &wm.next_event {
            Some(e) => push_calendar(items, e),
            None => {},
        }
    }
    assert(items_view(items@) =~= s0 + calendar_section(*wm, sources.calendar));
    let ghost s1 = items_view(items@);
    if sources.clipboard {
        match &wm.last_clipboard {
            Some(c) => {
                let cs = chars_of(c.as_str());
                if cs.len() > 0 {
                    let n = if cs.len() > 200 {
                        200
                    } else {
                        cs.len()
                    };
                    let cut = slice(&cs, 0, n);
                    let mut t: Vec<char> = Vec::new();
                    push_str(&mut t, "The user's clipboard currently contains: \"");
                    push_chars(&mut t, &cut);
                    push_str(&mut t, "\"");
                    assert(cut@ =~= clip(c@));
                    push_item(items, "clipboard", &t);
                }
            },
            None => {},
        }
    }
    assert(items_view(items@) =~= s1 + clipboard_section(*wm, sources.clipboard));
    let ghost s2 = items_view(items@);
    if sources.browser {
        match &wm.browser_tab {
            Some(t) => {
                let mut b: Vec<char> = Vec::new();
                push_str(&mut b, "The user is browsing ");
                push_str(&mut b, t.domain.as_str());
                push_str(&mut b, " \u{2014} \"");
                push_str(&mut b, t.title.as_str());
                push_str(&mut b, "\".");
                push_item(items, "browser", &b);
            },
            None => {},
        }
    }
    assert(items_view(items@) =~= s2 + browser_section(*wm, sources.browser));
}

/// Build the context for a request to the model. `recollection` is what
/// memory gave back for `wm`'s current utterance, `datetime` the current
/// local date and time as it is to be read out, and `recent` the last
/// conversational events.
pub fn build_working_memory<E, J>(
    wm: &WorkingMemory<E, J>,
    recollection: &Recollection,
    datetime: &str,
    sources: &ContextSources,
    recent: &Vec<Exchange>,
) -> (r: Vec<ContextItem>)
    ensures
        items_view(r@) == working_memory_spec(*wm, *recollection, datetime@, *sources, recent@),
{
    let mut items: Vec<ContextItem> = Vec::new();
    match &wm.user_name {
        Some(n) => {
            let mut c: Vec<char> = Vec::new();
            push_str(&mut c, "The user's name is ");
            push_str(&mut c, n.as_str());
            push_str(&mut c, ".");
            push_item(&mut items, "user_profile", &c);
        },
        None => {},
    }
    match &wm.current_intent {
        Some(i) => {
            push_item(&mut items, "current_intent", &chars_of(i.as_str()));
        },
        None => {},
    }
    assert(items_view(items@) =~= profile_items(wm.user_name, wm.current_intent));
    push_recollection(&mut items, recollection);
    let mut dt: Vec<char> = Vec::new();
    push_str(&mut dt, "The current date and time is ");
    push_str(&mut dt, datetime);
    push_str(&mut dt, ".");
    push_item(&mut items, "datetime", &dt);
    let ghost s3 = items_view(items@);
    if sources.active_window {
        push_desktop(&mut items, wm);
    }
    assert(items_view(items@) =~= s3 + desktop_section(*wm, sources.active_window));
    push_sections(&mut items, wm, sources);
    push_conversation(&mut items, recent);
    assert(items_view(items@) =~= working_memory_spec(*wm, *recollection, datetime@, *sources, recent@));
    items
}

} // verus!
