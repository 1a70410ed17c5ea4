//! Which window system is running, and what its tools say about windows:
//! the focused window and the list of windows, read from the JSON that
//! niri, Hyprland and Sway print.
use crate::context::WindowInfo;
use crate::json::{
    as_bool, as_str, as_u64, bool_of, field, get, json_of, member_from, member_index, parse_json, str_of, str_or,
    u64_of, Json,
};
use crate::text::{chars_of, string_of};
use vstd::prelude::*;

verus! {

#[derive(Clone, Copy, Debug, PartialEq, Eq, Structural)]
pub enum Compositor {
    Niri,
    Hyprland,
    Sway,
    X11,
    Undetected,
}

/// The Wayland compositors to try, in order: those the environment hints
/// at (niri, Hyprland, Sway, each by its socket variable), then the others.
pub open spec fn candidates_spec(niri: bool, hyprland: bool, sway: bool) -> Seq<Compositor> {
    (if niri { seq![Compositor::Niri] } else { Seq::empty() })
        + (if hyprland { seq![Compositor::Hyprland] } else { Seq::empty() })
        + (if sway { seq![Compositor::Sway] } else { Seq::empty() })
        + (if !niri { seq![Compositor::Niri] } else { Seq::empty() })
        + (if !hyprland { seq![Compositor::Hyprland] } else { Seq::empty() })
        + (if !sway { seq![Compositor::Sway] } else { Seq::empty() })
}

pub fn wayland_candidates(niri: bool, hyprland: bool, sway: bool) -> (r: Vec<Compositor>)
    ensures
        r@ == candidates_spec(niri, hyprland, sway),
{
    let mut r: Vec<Compositor> = Vec::new();
    if niri {
        r.push(Compositor::Niri);
    }
    if hyprland {
        r.push(Compositor::Hyprland);
    }
    if sway {
        r.push(Compositor::Sway);
    }
    if !niri {
        r.push(Compositor::Niri);
    }
    if !hyprland {
        r.push(Compositor::Hyprland);
    }
    if !sway {
        r.push(Compositor::Sway);
    }
    assert(r@ =~= candidates_spec(niri, hyprland, sway));
    r
}

/// Whether a compositor's probe answered as that compositor does: niri
/// prints a JSON list or object, Hyprland and Sway an object. The probe's
/// output is absent when the command failed or printed nothing.
pub open spec fn probe_ok_spec(c: Compositor, output: Option<Seq<char>>) -> bool {
    match output {
        Some(o) => o.len() > 0 && match c {
            Compositor::Niri => o[0] == '[' || o[0] == '{',
            Compositor::Hyprland | Compositor::Sway => o[0] == '{',
            _ => false,
        },
        None => false,
    }
}

pub open spec fn opt_text(o: Option<&str>) -> Option<Seq<char>> {
    match o {
        Some(s) => Some(s@),
        None => None,
    }
}

pub fn probe_ok(c: Compositor, output: Option<&str>) -> (r: bool)
    ensures
        r == probe_ok_spec(c, opt_text(output)),
{
    match output {
        Some(o) => {
            let v = chars_of(o);
            if v.len() == 0 {
                return false;
            }
            match c {
                Compositor::Niri => v[0] == '[' || v[0] == '{',
                Compositor::Hyprland => v[0] == '{',
                Compositor::Sway => v[0] == '{',
                _ => false,
            }
        },
        None => false,
    }
}

/// X11 is used when `DISPLAY` is set and `xdotool` names an active window.
pub fn x11_ok(display: bool, active_window_id: Option<&str>) -> (r: bool)
    ensures
        r == (display && (active_window_id matches Some(id) && id@.len() > 0)),
{
    match active_window_id {
        Some(id) => display && chars_of(id).len() > 0,
        None => false,
    }
}

// ---------------------------------------------------------------------
// niri
// ---------------------------------------------------------------------

/// A focused window: application, title and process id.
pub open spec fn focused_triple(w: Json) -> Option<(Seq<char>, Seq<char>, u32)> {
    match (as_str(field(w, "title"@)), field(w, "app_id"@), as_u64(field(w, "pid"@))) {
        (Some(t), Some(a), Some(p)) => Some((str_or(Some(a), "unknown"@), t, p as u32)),
        _ => None,
    }
}

/// niri's window list, from `k` on: the first focused window, read in
/// full; a window without a readable focus flag, or a focused one missing
/// its title, application or process id, ends the search empty.
pub open spec fn niri_focused_from(ws: Seq<Json>, k: int) -> Option<(Seq<char>, Seq<char>, u32)>
    decreases ws.len() - k,
{
    if k < 0 || k >= ws.len() {
        None
    } else {
        match as_bool(field(ws[k], "is_focused"@)) {
            None => None,
            Some(true) => focused_triple(ws[k]),
            Some(false) => niri_focused_from(ws, k + 1),
        }
    }
}

pub open spec fn triple_view(o: Option<(String, String, u32)>) -> Option<(Seq<char>, Seq<char>, u32)> {
    match o {
        Some((a, t, p)) => Some((a@, t@, p)),
        None => None,
    }
}

/// The focused window in niri's window list, read as JSON.
pub open spec fn niri_focused_json(v: Json) -> Option<(Seq<char>, Seq<char>, u32)> {
    match v {
        Json::Array(ws) => niri_focused_from(ws@, 0),
        _ => None,
    }
}

pub open spec fn niri_focused_spec(text: Seq<char>) -> Option<(Seq<char>, Seq<char>, u32)> {
    match json_of(text) {
        Some(v) => niri_focused_json(v),
        None => None,
    }
}

fn owned(s: &str) -> (r: String)
    ensures
        r@ == s@,
{
    string_of(&chars_of(s))
}

fn read_focused(w: &Json) -> (r: Option<(String, String, u32)>)
    ensures
        triple_view(r) == focused_triple(*w),
{
    let title = str_of(get(w, "title"));
    let app = get(w, "app_id");
    let pid = u64_of(get(w, "pid"));
    match (title, app, pid) {
        (Some(t), Some(a), Some(p)) => {
            let name = match str_of(Some(a)) {
                Some(s) => owned(s),
                None => owned("unknown"),
            };
            Some((name, owned(t), p as u32))
        },
        _ => None,
    }
}

/// The focused window in niri's window list, given the list as JSON.
pub fn niri_focused_of(v: &Json) -> (r: Option<(String, String, u32)>)
    ensures
        triple_view(r) == niri_focused_json(*v),
{
    match v {
        Json::Array(ws) => {
            let mut k: usize = 0;
            while k < ws.len()
                invariant
                    *v == Json::Array(*ws),
                    k <= ws.len(),
                    niri_focused_from(ws@, 0) == niri_focused_from(ws@, k as int),
                decreases ws.len() - k,
            {
                match bool_of(get(&ws[k], "is_focused")) {
                    None => return None,
                    Some(true) => return read_focused(&ws[k]),
                    Some(false) => {},
                }
                k = k + 1;
            }
            None
        },
        _ => None,
    }
}

/// The focused window in `niri msg --json windows`.
pub fn niri_focused(text: &str) -> (r: Option<(String, String, u32)>)
    ensures
        triple_view(r) == niri_focused_spec(text@),
{
    let parsed = parse_json(text);
    match &parsed {
        Ok(v) => niri_focused_of(v),
        Err(_) => None,
    }
}

/// One entry of niri's list as a window: application "unknown" and title
/// empty when absent; focus false unless said.
pub open spec fn niri_entry(w: Json) -> (Seq<char>, Seq<char>, Option<u32>, Option<u64>, bool) {
    (
        str_or(field(w, "app_id"@), "unknown"@),
        str_or(field(w, "title"@), Seq::empty()),
        match as_u64(field(w, "pid"@)) {
            Some(p) => Some(p as u32),
            None => None,
        },
        as_u64(field(w, "workspace_id"@)),
        match as_bool(field(w, "is_focused"@)) {
            Some(b) => b,
            None => false,
        },
    )
}

pub open spec fn window_view(w: WindowInfo) -> (Seq<char>, Seq<char>, Option<u32>, Option<u64>, bool) {
    (w.app_name@, w.window_title@, w.pid, w.workspace_id, w.is_focused)
}

pub open spec fn windows_view(v: Seq<WindowInfo>) -> Seq<(Seq<char>, Seq<char>, Option<u32>, Option<u64>, bool)> {
    v.map_values(|w: WindowInfo| window_view(w))
}

/// Every window of niri's window list, read as JSON.
pub open spec fn niri_windows_json(v: Json) -> Option<Seq<(Seq<char>, Seq<char>, Option<u32>, Option<u64>, bool)>> {
    match v {
        Json::Array(ws) => Some(ws@.map_values(|w: Json| niri_entry(w))),
        _ => None,
    }
}

pub open spec fn niri_windows_spec(text: Seq<char>) -> Option<Seq<(Seq<char>, Seq<char>, Option<u32>, Option<u64>, bool)>> {
    match json_of(text) {
        Some(v) => niri_windows_json(v),
        None => None,
    }
}

fn read_entry(w: &Json) -> (r: WindowInfo)
    ensures
        window_view(r) == niri_entry(*w),
{
    let app_name = match str_of(get(w, "app_id")) {
        Some(s) => owned(s),
        None => owned("unknown"),
    };
    let window_title = match str_of(get(w, "title")) {
        Some(s) => owned(s),
        None => owned(""),
    };
    let pid = match u64_of(get(w, "pid")) {
        Some(p) => Some(p as u32),
        None => None,
    };
    let workspace_id = u64_of(get(w, "workspace_id"));
    let is_focused = match bool_of(get(w, "is_focused")) {
        Some(b) => b,
        None => false,
    };
    proof {
        reveal_strlit("");
    }
    WindowInfo { app_name, window_title, pid, workspace_id, is_focused }
}

/// Every window of niri's window list, in niri's order, given the list as
/// JSON.
pub fn niri_windows_of(v: &Json) -> (r: Option<Vec<WindowInfo>>)
    ensures
        match niri_windows_json(*v) {
            Some(w) => r matches Some(ws) && windows_view(ws@) == w,
            None => r is None,
        },
{
    match v {
        Json::Array(ws) => {
            let mut out: Vec<WindowInfo> = Vec::new();
            let mut k: usize = 0;
            while k < ws.len()
                invariant
                    k <= ws.len(),
                    windows_view(out@) == ws@.take(k as int).map_values(|w: Json| niri_entry(w)),
                decreases ws.len() - k,
            {
                let ghost before = out@;
                out.push(read_entry(&ws[k]));
                assert(windows_view(out@) =~= windows_view(before).push(niri_entry(ws@[k as int])));
                assert(ws@.take(k + 1).map_values(|w: Json| niri_entry(w)) =~= ws@.take(k as int).map_values(
                    |w: Json| niri_entry(w),
                ).push(niri_entry(ws@[k as int])));
                k = k + 1;
            }
            assert(ws@.take(ws.len() as int) =~= ws@);
            Some(out)
        },
        _ => None,
    }
}

/// Every window in `niri msg --json windows`, in niri's order.
pub fn niri_windows(text: &str) -> (r: Option<Vec<WindowInfo>>)
    ensures
        match niri_windows_spec(text@) {
            Some(v) => r matches Some(ws) && windows_view(ws@) == v,
            None => r is None,
        },
{
    let parsed = parse_json(text);
    match &parsed {
        Ok(v) => niri_windows_of(v),
        Err(_) => None,
    }
}

// ---------------------------------------------------------------------
// Hyprland
// ---------------------------------------------------------------------

/// Hyprland's active window: class, title and process id, all required.
pub open spec fn hypr_active_json(v: Json) -> Option<(Seq<char>, Seq<char>, u32)> {
    match (as_str(field(v, "class"@)), as_str(field(v, "title"@)), as_u64(field(v, "pid"@))) {
        (Some(a), Some(t), Some(p)) => Some((a, t, p as u32)),
        _ => None,
    }
}

/// `hyprctl activewindow -j`, read as JSON.
pub open spec fn hypr_active_spec(text: Seq<char>) -> Option<(Seq<char>, Seq<char>, u32)> {
    match json_of(text) {
        Some(v) => hypr_active_json(v),
        None => None,
    }
}

/// Hyprland's active window, given `hyprctl activewindow -j` as JSON.
pub fn hypr_active_of(v: &Json) -> (r: Option<(String, String, u32)>)
    ensures
        triple_view(r) == hypr_active_json(*v),
{
    match (str_of(get(v, "class")), str_of(get(v, "title")), u64_of(get(v, "pid"))) {
        (Some(a), Some(t), Some(p)) => Some((owned(a), owned(t), p as u32)),
        _ => None,
    }
}

pub fn hypr_active(text: &str) -> (r: Option<(String, String, u32)>)
    ensures
        triple_view(r) == hypr_active_spec(text@),
{
    let parsed = parse_json(text);
    match &parsed {
        Ok(v) => hypr_active_of(v),
        Err(_) => None,
    }
}

// ---------------------------------------------------------------------
// Sway
// ---------------------------------------------------------------------

/// The first focused node of Sway's layout tree, depth first: a node whose
/// focus flag is missing ends its branch; a focused node gives its
/// application, name and process id (all required); an unfocused one is
/// searched through `nodes`, then `floating_nodes`, a missing list ending
/// the search of that node.
pub open spec fn sway_node(v: Json) -> Option<(Seq<char>, Seq<char>, u32)>
    decreases v, 0int,
{
    match as_bool(field(v, "focused"@)) {
        None => None,
        Some(true) => match (as_str(field(v, "app_id"@)), as_str(field(v, "name"@)), as_u64(field(v, "pid"@))) {
            (Some(a), Some(n), Some(p)) => Some((a, n, p as u32)),
            _ => None,
        },
        Some(false) => match v {
            Json::Object(m) => match member_from(m@, "nodes"@, 0) {
                Some(i) => if 0 <= i < m@.len() {
                    match m@[i].1 {
                        Json::Array(ns) => match sway_among(ns@, 0) {
                            Some(r) => Some(r),
                            None => match member_from(m@, "floating_nodes"@, 0) {
                                Some(f) => if 0 <= f < m@.len() {
                                    match m@[f].1 {
                                        Json::Array(fs) => sway_among(fs@, 0),
                                        _ => None,
                                    }
                                } else {
                                    None
                                },
                                None => None,
                            },
                        },
                        _ => None,
                    }
                } else {
                    None
                },
                None => None,
            },
            _ => None,
        },
    }
}

/// The first of `ns`, from `k` on, whose subtree holds the focused node.
pub open spec fn sway_among(ns: Seq<Json>, k: int) -> Option<(Seq<char>, Seq<char>, u32)>
    decreases ns, ns.len() - k,
{
    if k < 0 || k >= ns.len() {
        None
    } else {
        match sway_node(ns[k]) {
            Some(r) => Some(r),
            None => sway_among(ns, k + 1),
        }
    }
}

/// The focused window in Sway's layout tree, given the tree as JSON.
pub fn sway_focused_of(v: &Json) -> (r: Option<(String, String, u32)>)
    ensures
        triple_view(r) == sway_node(*v),
    decreases *v, 0int,
{
    match bool_of(get(v, "focused")) {
        None => None,
        Some(true) => match (str_of(get(v, "app_id")), str_of(get(v, "name")), u64_of(get(v, "pid"))) {
            (Some(a), Some(n), Some(p)) => Some((owned(a), owned(n), p as u32)),
            _ => None,
        },
        Some(false) => match v {
            Json::Object(m) => match member_index(m, "nodes") {
                Some(i) => match &m[i].1 {
                    Json::Array(ns) => match sway_find_among(ns) {
                        Some(r) => Some(r),
                        None => match member_index(m, "floating_nodes") {
                            Some(f) => match &m[f].1 {
                                Json::Array(fs) => sway_find_among(fs),
                                _ => None,
                            },
                            None => None,
                        },
                    },
                    _ => None,
                },
                None => None,
            },
            _ => None,
        },
    }
}

fn sway_find_among(ns: &Vec<Json>) -> (r: Option<(String, String, u32)>)
    ensures
        triple_view(r) == sway_among(ns@, 0),
    decreases ns@, 1int,
{
    let mut k: usize = 0;
    while k < ns.len()
        invariant
            k <= ns.len(),
            sway_among(ns@, 0) == sway_among(ns@, k as int),
        decreases ns.len() - k,
    {
        let found = sway_focused_of(&ns[k]);
        if found.is_some() {
            return found;
        }
        k = k + 1;
    }
    None
}

/// The focused window in `swaymsg -t get_tree`.
pub fn sway_focused(text: &str) -> (r: Option<(String, String, u32)>)
    ensures
        triple_view(r) == match json_of(text@) {
            Some(v) => sway_node(v),
            None => None,
        },
{
    let parsed = parse_json(text);
    match &parsed {
        Ok(v) => sway_focused_of(v),
        Err(_) => None,
    }
}

// ---------------------------------------------------------------------
// Polling for changes
// ---------------------------------------------------------------------

/// Remembers the last value reported, so a poll reports only changes.
pub struct ChangeFilter {
    pub last: String,
}

impl ChangeFilter {
    pub fn new() -> (f: ChangeFilter)
        ensures
            f.last@ == Seq::<char>::empty(),
    {
        proof {
            reveal_strlit("");
        }
        ChangeFilter { last: owned("") }
    }

    /// Whether `value` differs from the last one reported; when it does, it
    /// becomes the last one.
    pub fn offer(&mut self, value: &str) -> (changed: bool)
        ensures
            changed == (value@ != old(self).last@),
            final(self).last@ == (if changed { value@ } else { old(self).last@ }),
    {
        let v = chars_of(value);
        if crate::text::same(&v, &chars_of(self.last.as_str())) {
            false
        } else {
            self.last = string_of(&v);
            true
        }
    }
}

/// The key a focused window is told apart by: `app:title:pid`.
pub fn window_key(app: &str, title: &str, pid: u32) -> (r: String)
    ensures
        r@ == app@ + ":"@ + title@ + ":"@ + crate::text::decimal(pid as nat),
{
    let mut v: Vec<char> = Vec::new();
    crate::text::push_str(&mut v, app);
    crate::text::push_str(&mut v, ":");
    crate::text::push_str(&mut v, title);
    crate::text::push_str(&mut v, ":");
    crate::text::push_decimal(&mut v, pid as u64);
    string_of(&v)
}

// ---------------------------------------------------------------------
// The project behind a window
// ---------------------------------------------------------------------

/// A process's working directory says nothing about a project when it is
/// under `/proc/` (browser helpers), the home directory, or the root.
pub open spec fn telling_cwd_spec(cwd: Seq<char>, home: Seq<char>) -> bool {
    !crate::text::has_prefix(cwd, "/proc/"@) && cwd != home && cwd != "/"@
}

pub fn telling_cwd(cwd: &str, home: &str) -> (r: bool)
    ensures
        r == telling_cwd_spec(cwd@, home@),
{
    let c = chars_of(cwd);
    !crate::text::starts_with(&c, &chars_of("/proc/")) && !crate::text::same(&c, &chars_of(home))
        && !crate::text::same(&c, &chars_of("/"))
}

/// How long a window's project answer is reused, in nanoseconds (30 s).
pub const PROJECT_CACHE_NS: u64 = 30_000_000_000;

/// Whether the remembered answer for `cached_pid`, `age_ns` old, answers
/// for `pid`.
pub fn project_cache_fresh(cached_pid: u32, age_ns: u64, pid: u32) -> (r: bool)
    ensures
        r == (cached_pid == pid && age_ns < PROJECT_CACHE_NS),
{
    cached_pid == pid && age_ns < PROJECT_CACHE_NS
}

} // verus!
