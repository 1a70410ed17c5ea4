//! Working memory: the transient context of the current session.
use crate::context::{BrowserTab, CalendarEvent, ProjectInfo, WindowInfo};
use crate::text::{alphabetic, is_alphabetic};
use crate::util::utf8_len;
use std::collections::VecDeque;
use vstd::prelude::*;

verus! {

/// How many conversational events the ring keeps.
pub const MAX_EVENTS: usize = 50;

/// A name is one word of letters (apostrophes and hyphens allowed, as in
/// O'Neil or Anne-Marie), starting with a letter, under 30 bytes.
pub open spec fn plausible_name(name: Seq<char>) -> bool {
    &&& name.len() > 0
    &&& utf8_len(name) < 30
    &&& alphabetic(name[0])
    &&& forall|i: int| 0 <= i < name.len() ==> alphabetic(#[trigger] name[i]) || name[i] == '\'' || name[i] == '-'
}

/// Whether a word could be a name. What makes it one is how it was said,
/// not whether it is missing from a list of words that are not names.
pub fn is_plausible_name(name: &str) -> (r: bool)
    ensures
        r == plausible_name(name@),
{
    let bytes = name.as_bytes().len();
    let cs = crate::text::chars_of(name);
    if cs.len() == 0 || bytes >= 30 {
        return false;
    }
    if !is_alphabetic(cs[0]) {
        return false;
    }
    let mut i: usize = 0;
    while i < cs.len()
        invariant
            cs@ == name@,
            i <= cs.len(),
            forall|j: int| 0 <= j < i ==> alphabetic(#[trigger] cs@[j]) || cs@[j] == '\'' || cs@[j] == '-',
        decreases cs.len() - i,
    {
        let c = cs[i];
        if !(is_alphabetic(c) || c == '\'' || c == '-') {
            return false;
        }
        i = i + 1;
    }
    true
}

/// Working memory. `E` is an event as the bus carries it, `J` a plan as
/// the planner produced it; neither is looked into here.
pub struct WorkingMemory<E, J> {
    /// The most recent conversational events, oldest first.
    pub events: VecDeque<E>,
    pub current_intent: Option<String>,
    pub active_plan: Option<J>,
    pub ui_state: Option<String>,
    pub active_window: Option<WindowInfo>,
    pub open_windows: Vec<WindowInfo>,
    pub active_workspace: Option<u64>,
    pub project: Option<ProjectInfo>,
    pub next_event: Option<CalendarEvent>,
    pub last_clipboard: Option<String>,
    pub context_timestamp: Option<u64>,
    pub user_name: Option<String>,
    /// Set when the name was learned by the current rules; a restored name
    /// without it is not trusted.
    pub user_name_verified: bool,
    pub browser_tab: Option<BrowserTab>,
}

/// The last `n` of `s`, or all of it when it is shorter.
pub open spec fn last_n<A>(s: Seq<A>, n: int) -> Seq<A> {
    if s.len() <= n {
        s
    } else {
        s.skip(s.len() - n)
    }
}

/// The ring after one event is pushed: the event goes at the back, and the
/// oldest one leaves when the ring then holds more than `MAX_EVENTS`.
pub open spec fn pushed_ring<A>(s: Seq<A>, e: A) -> Seq<A> {
    if s.len() + 1 > MAX_EVENTS {
        s.push(e).drop_first()
    } else {
        s.push(e)
    }
}

/// Everything but the ring is the same.
pub open spec fn same_but_events<E, J>(a: WorkingMemory<E, J>, b: WorkingMemory<E, J>) -> bool {
    &&& a.current_intent == b.current_intent
    &&& a.active_plan == b.active_plan
    &&& a.ui_state == b.ui_state
    &&& a.active_window == b.active_window
    &&& a.open_windows == b.open_windows
    &&& a.active_workspace == b.active_workspace
    &&& a.project == b.project
    &&& a.next_event == b.next_event
    &&& a.last_clipboard == b.last_clipboard
    &&& a.context_timestamp == b.context_timestamp
    &&& a.user_name == b.user_name
    &&& a.user_name_verified == b.user_name_verified
    &&& a.browser_tab == b.browser_tab
}

impl<E, J> WorkingMemory<E, J> {
    /// The ring holds at most `MAX_EVENTS` events.
    pub open spec fn wf(&self) -> bool {
        self.events@.len() <= MAX_EVENTS
    }

    pub fn new() -> (wm: Self)
        ensures
            wm.wf(),
            wm.events@.len() == 0,
            wm.current_intent is None,
            wm.active_plan is None,
            wm.ui_state is None,
            wm.active_window is None,
            wm.open_windows@.len() == 0,
            wm.active_workspace is None,
            wm.project is None,
            wm.next_event is None,
            wm.last_clipboard is None,
            wm.context_timestamp is None,
            wm.user_name is None,
            !wm.user_name_verified,
            wm.browser_tab is None,
    {
        WorkingMemory {
            events: VecDeque::new(),
            current_intent: None,
            active_plan: None,
            ui_state: None,
            active_window: None,
            open_windows: Vec::new(),
            active_workspace: None,
            project: None,
            next_event: None,
            last_clipboard: None,
            context_timestamp: None,
            user_name: None,
            user_name_verified: false,
            browser_tab: None,
        }
    }

    /// Add an event, dropping the oldest once the ring is full.
    /// A ring that already holds more (one restored from elsewhere) loses
    /// only its oldest event, as the ring of a full memory does.
    pub fn push_event(&mut self, event: E)
        ensures
            final(self).events@ == pushed_ring(old(self).events@, event),
            old(self).wf() ==> final(self).wf(),
            old(self).wf() ==> final(self).events@ == last_n(
                old(self).events@.push(event),
                MAX_EVENTS as int,
            ),
            same_but_events(*old(self), *final(self)),
    {
        self.events.push_back(event);
        if self.events.len() > MAX_EVENTS {
            let _ = self.events.pop_front();
            assert(self.events@ =~= old(self).events@.push(event).drop_first());
        }
        assert(old(self).wf() ==> self.events@ =~= last_n(
            old(self).events@.push(event),
            MAX_EVENTS as int,
        ));
    }

    pub fn set_intent(&mut self, intent: String)
        ensures
            final(self).current_intent == Some(intent),
            final(self).events == old(self).events,
            final(self).user_name == old(self).user_name,
    {
        self.current_intent = Some(intent);
    }

    pub fn clear_intent(&mut self)
        ensures
            final(self).current_intent is None,
            final(self).events == old(self).events,
    {
        self.current_intent = None;
    }

    /// Store the name only if it could plausibly be one; says whether it
    /// was stored.
    pub fn set_user_name(&mut self, name: String) -> (stored: bool)
        ensures
            stored == plausible_name(name@),
            stored ==> final(self).user_name == Some(name) && final(self).user_name_verified,
            stored ==> *final(self) == (WorkingMemory::<E, J> {
                user_name: Some(name),
                user_name_verified: true,
                ..*old(self)
            }),
            !stored ==> *final(self) == *old(self),
            final(self).events == old(self).events,
    {
        if !is_plausible_name(name.as_str()) {
            return false;
        }
        self.user_name = Some(name);
        self.user_name_verified = true;
        true
    }

    /// Drop a restored name that was not learned by the current rules, and
    /// hand it back.
    pub fn sanitize(&mut self) -> (dropped: Option<String>)
        ensures
            old(self).user_name is Some && !old(self).user_name_verified ==> dropped == old(self).user_name
                && final(self).user_name is None,
            !(old(self).user_name is Some && !old(self).user_name_verified) ==> dropped is None
                && final(self).user_name == old(self).user_name,
            final(self).user_name_verified == old(self).user_name_verified,
            final(self).events == old(self).events,
            *final(self) == (WorkingMemory::<E, J> { user_name: final(self).user_name, ..*old(self) }),
    {
        if self.user_name.is_some() && !self.user_name_verified {
            return self.user_name.take();
        }
        None
    }

    pub fn set_active_plan(&mut self, plan: J)
        ensures
            final(self).active_plan == Some(plan),
            final(self).events == old(self).events,
    {
        self.active_plan = Some(plan);
    }

    pub fn clear_active_plan(&mut self)
        ensures
            final(self).active_plan is None,
            final(self).events == old(self).events,
    {
        self.active_plan = None;
    }

    /// The last `n` events, oldest first.
    pub fn recent_events(&self, n: usize) -> (r: Vec<&E>)
        ensures
            r@.len() == last_n(self.events@, n as int).len(),
            forall|i: int| 0 <= i < r@.len() ==> *#[trigger] r@[i] == last_n(self.events@, n as int)[i],
    {
        let skip = if self.events.len() > n {
            self.events.len() - n
        } else {
            0
        };
        let mut r: Vec<&E> = Vec::new();
        let mut i = skip;
        while i < self.events.len()
            invariant
                skip <= i <= self.events.len(),
                skip == (if self.events.len() > n { self.events.len() - n } else { 0 }),
                r@.len() == i - skip,
                forall|j: int| 0 <= j < r@.len() ==> *#[trigger] r@[j] == self.events@[skip + j],
            decreases self.events.len() - i,
        {
            r.push(&self.events[i]);
            i = i + 1;
        }
        r
    }

    /// Owned copies of the last `n` events, oldest first.
    pub fn recent_context(&self, n: usize) -> (r: Vec<E>)
        where
            E: Clone,
        ensures
            r@.len() == last_n(self.events@, n as int).len(),
            forall|i: int|
                0 <= i < r@.len() ==> cloned::<E>(last_n(self.events@, n as int)[i], #[trigger] r@[i]),
    {
        let skip = if self.events.len() > n {
            self.events.len() - n
        } else {
            0
        };
        let mut r: Vec<E> = Vec::new();
        let mut i = skip;
        while i < self.events.len()
            invariant
                skip <= i <= self.events.len(),
                skip == (if self.events.len() > n { self.events.len() - n } else { 0 }),
                r@.len() == i - skip,
                forall|j: int| 0 <= j < r@.len() ==> cloned::<E>(self.events@[skip + j], #[trigger] r@[j]),
            decreases self.events.len() - i,
        {
            r.push(self.events[i].clone());
            i = i + 1;
        }
        r
    }

    /// An action is under way.
    pub fn is_busy(&self) -> (r: bool)
        ensures
            r == self.active_plan is Some,
    {
        self.active_plan.is_some()
    }
}

} // verus!
