//! What the assistant knows of the desktop at a moment: the focused window,
//! the others, the project, the next calendar event, the clipboard, the
//! browser tab.
use vstd::prelude::*;

verus! {

#[derive(Clone, Debug, PartialEq, Eq)]
pub struct WindowInfo {
    pub app_name: String,
    pub window_title: String,
    pub pid: Option<u32>,
    /// Compositor workspace the window sits on.
    pub workspace_id: Option<u64>,
    pub is_focused: bool,
}

/// The project the user appears to be working in.
#[derive(Clone, Debug, PartialEq, Eq)]
pub struct ProjectInfo {
    pub name: String,
    pub path: String,
    pub git_branch: Option<String>,
}

/// The next upcoming calendar event.
#[derive(Clone, Debug, PartialEq, Eq)]
pub struct CalendarEvent {
    pub summary: String,
    pub start: String,
    pub minutes_until: i64,
    pub all_day: bool,
}

#[derive(Clone, Debug, PartialEq, Eq)]
pub struct BrowserTab {
    pub url: String,
    pub title: String,
    pub domain: String,
}

#[derive(Clone, Debug, PartialEq, Eq)]
pub struct ContextSnapshot {
    pub active_window: Option<WindowInfo>,
    pub open_windows: Vec<WindowInfo>,
    pub active_workspace: Option<u64>,
    pub project: Option<ProjectInfo>,
    pub next_event: Option<CalendarEvent>,
    pub clipboard_text: Option<String>,
    pub captured_at: u64,
}

impl ContextSnapshot {
    /// Nothing was captured: no focused window, no windows, no clipboard.
    pub fn is_empty(&self) -> (r: bool)
        ensures
            r == (self.active_window is None && self.open_windows@.len() == 0
                && self.clipboard_text is None),
    {
        self.active_window.is_none() && self.open_windows.len() == 0 && self.clipboard_text.is_none()
    }
}

/// Clipboard text worth carrying in a snapshot: trimmed, not empty, and
/// under 4096 bytes.
pub open spec fn clipboard_spec(text: Seq<char>) -> Option<Seq<char>> {
    let t = crate::text::trim(text);
    if t.len() > 0 && crate::util::utf8_len(t) < 4096 {
        Some(t)
    } else {
        None
    }
}

pub fn clipboard_for_snapshot(text: &str) -> (r: Option<String>)
    ensures
        match clipboard_spec(text@) {
            Some(t) => r matches Some(s) && s@ == t,
            None => r is None,
        },
{
    let tv = crate::text::trim_vec(&crate::text::chars_of(text));
    let t = crate::text::string_of(&tv);
    let n = t.as_str().as_bytes().len();
    if tv.len() == 0 || n >= 4096 {
        return None;
    }
    Some(t)
}

} // verus!
