//! What the platform layer hands the rest of the assistant: installed
//! applications, window and capture data, and which system it runs on.
use crate::text::{
    char_vecs_view, chars_of, has_prefix, lines, matches_at, occurs_at, parse_u32, same, sep_join,
    slice, string_of, strip_prefix, strip_prefix_spec, trim, trim_vec, u32_text, word_list, words,
};
use std::collections::HashMap;
use vstd::prelude::*;

verus! {

/// An installed application: the name users say, and the command line
/// that launches it (a `.desktop` file's `Exec` key).
#[derive(Clone, Debug, PartialEq, Eq)]
pub struct AppEntry {
    pub name: String,
    pub command: String,
}

pub struct AppEntryView {
    pub name: Seq<char>,
    pub command: Seq<char>,
}

impl View for AppEntry {
    type V = AppEntryView;

    open spec fn view(&self) -> AppEntryView {
        AppEntryView { name: self.name@, command: self.command@ }
    }
}

pub open spec fn apps_view(v: Seq<AppEntry>) -> Seq<AppEntryView> {
    v.map_values(|a: AppEntry| a@)
}

/// Microphone capture on one platform.
pub trait AudioCapture {
    /// Start capture; the stream it hands back starts and stops it.
    fn start_input(&self, config: AudioConfig) -> Result<Box<dyn AudioStream>, PlatformError>;
}

/// A running capture stream.
pub trait AudioStream: Send {
    fn play(&self) -> Result<(), PlatformError>;

    fn pause(&self) -> Result<(), PlatformError>;
}

/// Taking a picture of what the user is looking at.
pub trait ScreenGrabber {
    /// The focused monitor or window: its size and its bytes.
    fn capture_focused(&self) -> Result<Screenshot, PlatformError>;
}

pub struct AudioConfig {
    pub sample_rate: u32,
    pub channels: u16,
    pub sample_format: SampleFormat,
}

#[derive(Clone, Copy, Debug, PartialEq, Eq, Structural)]
pub enum SampleFormat {
    F32,
    I16,
}

pub struct Screenshot {
    pub width: u32,
    pub height: u32,
    /// PNG bytes on Linux, RGBA elsewhere.
    pub data: Vec<u8>,
}

pub struct WindowEvent {
    pub app_name: String,
    pub window_title: String,
    pub pid: u32,
}

/// Something the platform could not do, with the reason.
#[derive(Debug)]
pub struct PlatformError(pub String);

#[derive(Clone, Copy, Debug, PartialEq, Eq, Structural)]
pub enum Platform {
    Linux,
    Windows,
    MacOs,
}

impl Platform {
    /// The platform for an operating system name as Rust spells it
    /// (`std::env::consts::OS`); `None` for one MAVIS does not run on.
    pub fn detect(os: &str) -> (r: Option<Platform>)
        ensures
            os@ == "linux"@ <==> r == Some(Platform::Linux),
            os@ == "windows"@ <==> r == Some(Platform::Windows),
            os@ == "macos"@ <==> r == Some(Platform::MacOs),
    {
        let cs = crate::text::chars_of(os);
        proof {
            reveal_strlit("linux");
            reveal_strlit("windows");
            reveal_strlit("macos");
            assert("linux"@.len() != "windows"@.len());
            assert("macos"@.len() != "windows"@.len());
            assert("linux"@[0] != "macos"@[0]);
        }
        if crate::text::same(&cs, &crate::text::chars_of("linux")) {
            Some(Platform::Linux)
        } else if crate::text::same(&cs, &crate::text::chars_of("windows")) {
            Some(Platform::Windows)
        } else if crate::text::same(&cs, &crate::text::chars_of("macos")) {
            Some(Platform::MacOs)
        } else {
            None
        }
    }
}

/// The Linux provider's capabilities: window tracking, clipboard and
/// screen capture need a display server, Wayland or X11.
pub struct LinuxProvider {
    pub wayland: bool,
    pub windows: bool,
    pub clipboard: bool,
    pub screen: bool,
}

impl LinuxProvider {
    /// `wayland` and `x11` say whether `WAYLAND_DISPLAY` and `DISPLAY` are
    /// set.
    pub fn new(wayland: bool, x11: bool) -> (p: LinuxProvider)
        ensures
            p.wayland == wayland,
            p.windows == (wayland || x11),
            p.clipboard == (wayland || x11),
            p.screen == (wayland || x11),
    {
        let display = wayland || x11;
        LinuxProvider { wayland, windows: display, clipboard: display, screen: display }
    }
}

/// The macOS provider: no capability is implemented there yet.
pub struct MacOsProvider;

impl MacOsProvider {
    pub fn new() -> (p: MacOsProvider) {
        MacOsProvider
    }
}

/// The Windows provider: no capability is implemented there yet.
pub struct WindowsProvider;

impl WindowsProvider {
    pub fn new() -> (p: WindowsProvider) {
        WindowsProvider
    }
}

// ---------------------------------------------------------------------
// Screenshots
// ---------------------------------------------------------------------

pub open spec fn png_signature() -> Seq<u8> {
    seq![0x89u8, 0x50, 0x4E, 0x47, 0x0D, 0x0A, 0x1A, 0x0A]
}

pub open spec fn be_u32(b: Seq<u8>, at: int) -> int {
    b[at] * 16777216 + b[at + 1] * 65536 + b[at + 2] * 256 + b[at + 3]
}

/// A PNG's width and height, from its header; nothing for data that is
/// not a PNG or is too short.
pub open spec fn png_dimensions_spec(data: Seq<u8>) -> Option<(int, int)> {
    if data.len() < 24 || data.take(8) != png_signature() {
        None
    } else {
        Some((be_u32(data, 16), be_u32(data, 20)))
    }
}

pub fn parse_png_dimensions(data: &[u8]) -> (r: Option<(u32, u32)>)
    ensures
        match png_dimensions_spec(data@) {
            Some((w, h)) => r matches Some((a, b)) && a as int == w && b as int == h,
            None => r is None,
        },
{
    if data.len() < 24 {
        return None;
    }
    let sig: [u8; 8] = [0x89, 0x50, 0x4E, 0x47, 0x0D, 0x0A, 0x1A, 0x0A];
    let mut i: usize = 0;
    while i < 8
        invariant
            data@.len() >= 24,
            sig@ == png_signature(),
            i <= 8,
            forall|j: int| 0 <= j < i ==> data@[j] == sig@[j],
        decreases 8 - i,
    {
        if data[i] != sig[i] {
            assert(data@.take(8)[i as int] != png_signature()[i as int]);
            return None;
        }
        i = i + 1;
    }
    assert(data@.take(8) =~= png_signature());
    let w = (data[16] as u32) * 16777216 + (data[17] as u32) * 65536 + (data[18] as u32) * 256 + (data[19] as u32);
    let h = (data[20] as u32) * 16777216 + (data[21] as u32) * 65536 + (data[22] as u32) * 256 + (data[23] as u32);
    Some((w, h))
}

// ---------------------------------------------------------------------
// Process trees
// ---------------------------------------------------------------------

broadcast use vstd::std_specs::hash::group_hash_axioms;

/// The last place at or before `k` where `p` occurs in `s`.
pub open spec fn last_occurrence(s: Seq<char>, p: Seq<char>, k: int) -> Option<int>
    decreases k + 1,
{
    if k < 0 {
        None
    } else if occurs_at(s, p, k) {
        Some(k)
    } else {
        last_occurrence(s, p, k - 1)
    }
}

/// The parent process id in a `/proc/<pid>/stat` line: the second field
/// after the last `") "` (the command name may itself hold spaces and
/// parentheses), read as a number.
pub open spec fn ppid_spec(stat: Seq<char>) -> Option<u32> {
    match last_occurrence(stat, ") "@, stat.len() - 2) {
        Some(i) => {
            let ws = words(stat.skip(i + 2));
            if ws.len() >= 2 {
                u32_text(ws[1])
            } else {
                None
            }
        },
        None => None,
    }
}

proof fn lemma_last_occurrence(s: Seq<char>, p: Seq<char>, k: int)
    ensures
        last_occurrence(s, p, k) matches Some(i) ==> 0 <= i <= k,
    decreases k + 1,
{
    if k >= 0 && !occurs_at(s, p, k) {
        lemma_last_occurrence(s, p, k - 1);
    }
}

pub fn ppid_from_stat(stat: &str) -> (r: Option<u32>)
    ensures
        r == ppid_spec(stat@),
{
    let s = chars_of(stat);
    let p = chars_of(") ");
    if s.len() < 2 {
        assert(last_occurrence(s@, ") "@, s@.len() - 2) is None);
        return None;
    }
    let mut j: usize = s.len() - 1;
    let mut found: Option<usize> = None;
    while j > 0 && found.is_none()
        invariant
            s@ == stat@,
            p@ == ") "@,
            s@.len() >= 2,
            j <= s.len() - 1,
            found is None ==> last_occurrence(s@, ") "@, s@.len() - 2) == last_occurrence(s@, ") "@, j - 1),
            found matches Some(i) ==> last_occurrence(s@, ") "@, s@.len() - 2) == Some(i as int),
        decreases j,
    {
        if matches_at(&s, &p, j - 1) {
            found = Some(j - 1);
        }
        j = j - 1;
    }
    match found {
        None => None,
        Some(i) => {
            proof {
                lemma_last_occurrence(s@, ") "@, s@.len() - 2);
            }
            let after = slice(&s, i + 2, s.len());
            assert(after@ =~= s@.skip(i + 2));
            let ws = word_list(&after);
            if ws.len() >= 2 {
                assert(ws@[1]@ == words(after@)[1]);
                parse_u32(string_of(&ws[1]).as_str())
            } else {
                None
            }
        },
    }
}

/// Record `pid` as a child of `ppid`, after the children already known.
pub fn add_child(tree: &mut HashMap<u32, Vec<u32>>, ppid: u32, pid: u32)
    ensures
        final(tree)@.dom() == old(tree)@.dom().insert(ppid),
        forall|q: u32| q != ppid && old(tree)@.contains_key(q) ==> #[trigger] final(tree)@[q] == old(tree)@[q],
        children(final(tree)@, ppid) == children(old(tree)@, ppid).push(pid),
{
    let mut kids = match tree.remove(&ppid) {
        Some(v) => v,
        None => Vec::new(),
    };
    kids.push(pid);
    tree.insert(ppid, kids);
    assert(final(tree)@.dom() =~= old(tree)@.dom().insert(ppid));
}

/// The children of `p` in a parent-to-children map.
pub open spec fn children(tree: Map<u32, Vec<u32>>, p: u32) -> Seq<u32> {
    if tree.contains_key(p) {
        tree[p]@
    } else {
        Seq::empty()
    }
}

/// The processes `d` generations below `pid`, breadth first.
pub open spec fn generation(tree: Map<u32, Vec<u32>>, pid: u32, d: nat) -> Seq<u32>
    decreases d,
{
    if d == 0 {
        seq![pid]
    } else {
        generation(tree, pid, (d - 1) as nat).map_values(|p: u32| children(tree, p)).flatten()
    }
}

/// Descendants of `pid`, breadth first, at most three generations deep
/// and at most 64 of them.
pub open spec fn descendants_spec(tree: Map<u32, Vec<u32>>, pid: u32) -> Seq<u32> {
    let all = generation(tree, pid, 1) + generation(tree, pid, 2) + generation(tree, pid, 3);
    if all.len() > 64 {
        all.take(64)
    } else {
        all
    }
}

proof fn lemma_flatten_push(s: Seq<Seq<u32>>, x: Seq<u32>)
    ensures
        s.push(x).flatten() == s.flatten() + x,
{
    s.lemma_flatten_push(x);
}

/// Descendants of `pid` from a prebuilt process tree, bounded in depth
/// and count so a pathological tree cannot stall the poll.
pub fn descendants_from_tree(tree: &HashMap<u32, Vec<u32>>, pid: u32) -> (r: Vec<u32>)
    ensures
        r@ == descendants_spec(tree@, pid),
{
    let ghost m = tree@;
    let ghost all = generation(m, pid, 1) + generation(m, pid, 2) + generation(m, pid, 3);
    let mut out: Vec<u32> = Vec::new();
    let mut frontier: Vec<u32> = Vec::new();
    frontier.push(pid);
    assert(frontier@ =~= generation(m, pid, 0));
    let mut depth: usize = 0;
    while depth < 3
        invariant
            m == tree@,
            all == generation(m, pid, 1) + generation(m, pid, 2) + generation(m, pid, 3),
            depth <= 3,
            frontier@ == generation(m, pid, depth as nat),
            out@.len() <= 64,
            depth == 0 ==> out@ == Seq::<u32>::empty(),
            depth == 1 ==> out@ == generation(m, pid, 1),
            depth == 2 ==> out@ == generation(m, pid, 1) + generation(m, pid, 2),
            depth == 3 ==> out@ == all,
        decreases 3 - depth,
    {
        let ghost start = out@;
        let ghost kids = frontier@.map_values(|p: u32| children(m, p));
        let mut next: Vec<u32> = Vec::new();
        let mut i: usize = 0;
        while i < frontier.len()
            invariant
                m == tree@,
                all == generation(m, pid, 1) + generation(m, pid, 2) + generation(m, pid, 3),
                depth < 3,
                kids == frontier@.map_values(|p: u32| children(m, p)),
                i <= frontier.len(),
                next@ == kids.take(i as int).flatten(),
                out@ == start + next@,
                out@.len() <= 64,
                depth == 0 ==> start == Seq::<u32>::empty(),
                depth == 1 ==> start == generation(m, pid, 1),
                depth == 2 ==> start == generation(m, pid, 1) + generation(m, pid, 2),
                frontier@ == generation(m, pid, depth as nat),
            decreases frontier.len() - i,
        {
            let p = frontier[i];
            let ghost cs = children(m, p);
            assert(kids[i as int] == cs);
            match tree.get(&p) {
                Some(ch) => {
                    assert(ch@ == cs);
                    let mut j: usize = 0;
                    while j < ch.len()
                        invariant
                            ch@ == cs,
                            m == tree@,
                            all == generation(m, pid, 1) + generation(m, pid, 2) + generation(m, pid, 3),
                            depth < 3,
                            depth == 0 ==> start == Seq::<u32>::empty(),
                            depth == 1 ==> start == generation(m, pid, 1),
                            depth == 2 ==> start == generation(m, pid, 1) + generation(m, pid, 2),
                            frontier@ == generation(m, pid, depth as nat),
                            kids == frontier@.map_values(|p: u32| children(m, p)),
                            i < frontier.len(),
                            kids[i as int] == cs,
                            j <= ch.len(),
                            next@ == kids.take(i as int).flatten() + cs.take(j as int),
                            out@ == start + next@,
                            out@.len() <= 64,
                        decreases ch.len() - j,
                    {
                        if out.len() >= 64 {
                            assert(out@ == start + kids.take(i as int).flatten() + cs.take(j as int));
                            proof {
                                lemma_prefix_of_all(m, pid, depth as nat, start, kids, i as int, cs, j as int, all, out@);
                            }
                            return out;
                        }
                        out.push(ch[j]);
                        next.push(ch[j]);
                        assert(cs.take(j + 1) =~= cs.take(j as int).push(cs[j as int]));
                        j = j + 1;
                    }
                    assert(cs.take(ch.len() as int) =~= cs);
                },
                None => {
                    assert(cs =~= Seq::<u32>::empty());
                },
            }
            proof {
                assert(kids.take(i + 1) =~= kids.take(i as int).push(cs));
                lemma_flatten_push(kids.take(i as int), cs);
            }
            i = i + 1;
        }
        assert(kids.take(frontier.len() as int) =~= kids);
        assert(next@ == generation(m, pid, (depth + 1) as nat));
        if next.len() == 0 {
            proof {
                lemma_rest_empty(m, pid, (depth + 1) as nat);
            }
            assert(out@ =~= all);
            assert(all.len() <= 64);
            return out;
        }
        frontier = next;
        depth = depth + 1;
    }
    assert(all.len() <= 64);
    out
}

/// An empty generation has no generation below it.
proof fn lemma_rest_empty(m: Map<u32, Vec<u32>>, pid: u32, d: nat)
    requires
        generation(m, pid, d).len() == 0,
    ensures
        forall|e: nat| e >= d ==> #[trigger] generation(m, pid, e).len() == 0,
{
    assert forall|e: nat| e >= d implies #[trigger] generation(m, pid, e).len() == 0 by {
        lemma_rest_empty_at(m, pid, d, e);
    }
}

proof fn lemma_rest_empty_at(m: Map<u32, Vec<u32>>, pid: u32, d: nat, e: nat)
    requires
        generation(m, pid, d).len() == 0,
        e >= d,
    ensures
        generation(m, pid, e).len() == 0,
    decreases e - d,
{
    if e > d {
        lemma_rest_empty_at(m, pid, d, (e - 1) as nat);
        let g = generation(m, pid, (e - 1) as nat);
        assert(g =~= Seq::<u32>::empty());
        assert(g.map_values(|p: u32| children(m, p)) =~= Seq::<Seq<u32>>::empty());
    }
}

proof fn lemma_flatten_append(a: Seq<Seq<u32>>, b: Seq<Seq<u32>>)
    ensures
        (a + b).flatten() == a.flatten() + b.flatten(),
    decreases b.len(),
{
    if b.len() == 0 {
        assert(a + b =~= a);
        assert(b.flatten() =~= Seq::<u32>::empty());
        assert(a.flatten() + b.flatten() =~= a.flatten());
    } else {
        let bl = b.drop_last();
        let x = b.last();
        lemma_flatten_append(a, bl);
        assert(a + b =~= (a + bl).push(x));
        assert(b =~= bl.push(x));
        lemma_flatten_push(a + bl, x);
        lemma_flatten_push(bl, x);
        assert((a + b).flatten() =~= a.flatten() + b.flatten());
    }
}

/// What has been collected when the count reaches its bound is the start
/// of the whole breadth-first list.
proof fn lemma_prefix_of_all(
    m: Map<u32, Vec<u32>>,
    pid: u32,
    depth: nat,
    start: Seq<u32>,
    kids: Seq<Seq<u32>>,
    i: int,
    cs: Seq<u32>,
    j: int,
    all: Seq<u32>,
    out: Seq<u32>,
)
    requires
        depth < 3,
        all == generation(m, pid, 1) + generation(m, pid, 2) + generation(m, pid, 3),
        depth == 0 ==> start == Seq::<u32>::empty(),
        depth == 1 ==> start == generation(m, pid, 1),
        depth == 2 ==> start == generation(m, pid, 1) + generation(m, pid, 2),
        kids == generation(m, pid, depth).map_values(|p: u32| children(m, p)),
        0 <= i < kids.len(),
        kids[i] == cs,
        0 <= j < cs.len(),
        out == start + kids.take(i).flatten() + cs.take(j),
        out.len() == 64,
    ensures
        out == (if all.len() > 64 { all.take(64) } else { all }),
{
    let g = generation(m, pid, depth + 1);
    assert(g == kids.flatten());
    let t = kids.take(i).flatten();
    let rest = kids.skip(i + 1).flatten();
    assert(kids =~= kids.take(i) + kids.skip(i));
    lemma_flatten_append(kids.take(i), kids.skip(i));
    assert(kids.skip(i).first() == cs);
    assert(kids.skip(i).drop_first() =~= kids.skip(i + 1));
    assert(kids.skip(i).flatten() == cs + rest);
    assert(g == t + (cs + rest));
    // `all` begins with `start + g`.
    let more = if depth == 0 {
        generation(m, pid, 2) + generation(m, pid, 3)
    } else if depth == 1 {
        generation(m, pid, 3)
    } else {
        Seq::<u32>::empty()
    };
    assert(all =~= start + g + more);
    let whole = start + t + cs + rest + more;
    assert(all =~= whole);
    assert(whole.take(out.len() as int) =~= out);
    assert(all.len() >= 64);
    assert(all.take(64) =~= out);
}

// ---------------------------------------------------------------------
// Installed applications
// ---------------------------------------------------------------------

/// A freedesktop field code such as `%U` or `%f`: two bytes, the first a
/// percent sign.
pub open spec fn field_code(t: Seq<char>) -> bool {
    crate::util::utf8_len(t) == 2 && t.len() > 0 && t[0] == '%'
}

/// A launch command without its field codes, its words joined by single
/// spaces.
pub open spec fn strip_field_codes_spec(command: Seq<char>) -> Seq<char> {
    sep_join(words(command).filter(|t: Seq<char>| !field_code(t)), " "@)
}

pub fn strip_field_codes(command: &str) -> (r: String)
    ensures
        r@ == strip_field_codes_spec(command@),
{
    let ws = word_list(&chars_of(command));
    let ghost wv = char_vecs_view(ws@);
    let ghost pred = |t: Seq<char>| !field_code(t);
    let mut out: Vec<char> = Vec::new();
    let mut kept: usize = 0;
    let mut k: usize = 0;
    while k < ws.len()
        invariant
            wv == char_vecs_view(ws@),
            wv == words(command@),
            pred == (|t: Seq<char>| !field_code(t)),
            k <= ws.len(),
            kept == wv.take(k as int).filter(pred).len(),
            out@ == sep_join(wv.take(k as int).filter(pred), " "@),
        decreases ws.len() - k,
    {
        let w = &ws[k];
        assert(wv[k as int] == w@);
        proof {
            reveal(Seq::filter);
            assert(wv.take(k + 1).drop_last() =~= wv.take(k as int));
            assert(wv.take(k + 1).last() == w@);
        }
        let code = string_of(w).as_str().as_bytes().len() == 2 && w.len() > 0 && w[0] == '%';
        if !code {
            let ghost prev = wv.take(k as int).filter(pred);
            if kept > 0 {
                crate::text::push_str(&mut out, " ");
            }
            crate::text::push_chars(&mut out, w);
            assert(prev.push(w@).drop_last() =~= prev);
            if kept == 0 {
                assert(prev =~= Seq::<Seq<char>>::empty());
                assert(out@ =~= sep_join(prev.push(w@), " "@));
            }
            kept = kept + 1;
        }
        k = k + 1;
    }
    assert(wv.take(ws.len() as int) =~= wv);
    string_of(&out)
}

/// `v` equals `lit` ignoring ASCII case (`str::eq_ignore_ascii_case`).
pub open spec fn eq_ignore_case(v: Seq<char>, lit: Seq<char>) -> bool {
    v.len() == lit.len() && forall|i: int| 0 <= i < v.len() ==> crate::text::ascii_to_lower(#[trigger] v[i]) == lit[i]
}

fn eq_ignore_case_exec(v: &[char], lit: &str) -> (r: bool)
    ensures
        r == eq_ignore_case(v@, lit@),
{
    let l = chars_of(lit);
    if v.len() != l.len() {
        return false;
    }
    let mut i: usize = 0;
    while i < v.len()
        invariant
            v.len() == l.len(),
            l@ == lit@,
            i <= v.len(),
            forall|j: int| 0 <= j < i ==> crate::text::ascii_to_lower(#[trigger] v@[j]) == l@[j],
        decreases v.len() - i,
    {
        if crate::text::to_ascii_lower(v[i]) != l[i] {
            return false;
        }
        i = i + 1;
    }
    true
}

/// What a `.desktop` file's lines say, read from the `k`-th on within
/// the `[Desktop Entry]` section: the first name and the first command,
/// or nothing when the entry is hidden, not for display, or not an
/// application.
pub open spec fn desktop_scan(ls: Seq<Seq<char>>, k: int, in_entry: bool, name: Option<Seq<char>>, command: Option<
    Seq<char>,
>) -> Option<(Option<Seq<char>>, Option<Seq<char>>)>
    decreases ls.len() - k,
{
    if k < 0 || k >= ls.len() {
        Some((name, command))
    } else {
        let line = trim(ls[k]);
        if line.len() > 0 && line[0] == '[' {
            desktop_scan(ls, k + 1, line == "[Desktop Entry]"@, name, command)
        } else if !in_entry {
            desktop_scan(ls, k + 1, in_entry, name, command)
        } else if strip_prefix_spec(line, "Name="@) is Some {
            let v = strip_prefix_spec(line, "Name="@)->0;
            desktop_scan(ls, k + 1, in_entry, if name is None { Some(v) } else { name }, command)
        } else if strip_prefix_spec(line, "Exec="@) is Some {
            let v = strip_prefix_spec(line, "Exec="@)->0;
            desktop_scan(ls, k + 1, in_entry, name, if command is None { Some(v) } else { command })
        } else if strip_prefix_spec(line, "NoDisplay="@) is Some {
            if eq_ignore_case(strip_prefix_spec(line, "NoDisplay="@)->0, "true"@) {
                None
            } else {
                desktop_scan(ls, k + 1, in_entry, name, command)
            }
        } else if strip_prefix_spec(line, "Hidden="@) is Some {
            if eq_ignore_case(strip_prefix_spec(line, "Hidden="@)->0, "true"@) {
                None
            } else {
                desktop_scan(ls, k + 1, in_entry, name, command)
            }
        } else if strip_prefix_spec(line, "Type="@) is Some {
            if strip_prefix_spec(line, "Type="@)->0 != "Application"@ {
                None
            } else {
                desktop_scan(ls, k + 1, in_entry, name, command)
            }
        } else {
            desktop_scan(ls, k + 1, in_entry, name, command)
        }
    }
}

/// The application a `.desktop` file launches: its name and its command
/// without field codes; nothing for anything that is not a launchable
/// application, or lacks either.
pub open spec fn desktop_entry_spec(content: Seq<char>) -> Option<(Seq<char>, Seq<char>)> {
    match desktop_scan(lines(content), 0, false, None, None) {
        Some((Some(n), Some(c))) => if n.len() > 0 && c.len() > 0 {
            Some((n, strip_field_codes_spec(c)))
        } else {
            None
        },
        _ => None,
    }
}

fn copy_chars(v: &Vec<char>) -> (r: Vec<char>)
    ensures
        r@ == v@,
{
    let r = slice(v, 0, v.len());
    assert(r@ =~= v@);
    r
}

/// Parse one `.desktop` file.
pub fn parse_desktop_file(content: &str) -> (r: Option<AppEntry>)
    ensures
        match desktop_entry_spec(content@) {
            Some((n, c)) => r matches Some(a) && a.name@ == n && a.command@ == c,
            None => r is None,
        },
{
    let ls = crate::text::line_list(&chars_of(content));
    let ghost lv = char_vecs_view(ls@);
    let mut in_entry = false;
    let mut name: Option<Vec<char>> = None;
    let mut command: Option<Vec<char>> = None;
    let mut k: usize = 0;
    while k < ls.len()
        invariant
            lv == char_vecs_view(ls@),
            lv == lines(content@),
            k <= ls.len(),
            desktop_scan(lv, 0, false, None, None) == desktop_scan(
                lv,
                k as int,
                in_entry,
                match name {
                    Some(v) => Some(v@),
                    None => None,
                },
                match command {
                    Some(v) => Some(v@),
                    None => None,
                },
            ),
        decreases ls.len() - k,
    {
        assert(lv[k as int] == ls@[k as int]@);
        let line = trim_vec(&ls[k]);
        if line.len() > 0 && line[0] == '[' {
            in_entry = same(&line, &chars_of("[Desktop Entry]"));
        } else if in_entry {
            let name_v = strip_prefix(&line, &chars_of("Name="));
            let exec_v = strip_prefix(&line, &chars_of("Exec="));
            let nodisp = strip_prefix(&line, &chars_of("NoDisplay="));
            let hidden = strip_prefix(&line, &chars_of("Hidden="));
            let typ = strip_prefix(&line, &chars_of("Type="));
            match name_v {
                Some(v) => {
                    if name.is_none() {
                        name = Some(v);
                    }
                },
                None => match exec_v {
                    Some(v) => {
                        if command.is_none() {
                            command = Some(v);
                        }
                    },
                    None => match nodisp {
                        Some(v) => {
                            if eq_ignore_case_exec(&v, "true") {
                                return None;
                            }
                        },
                        None => match hidden {
                            Some(v) => {
                                if eq_ignore_case_exec(&v, "true") {
                                    return None;
                                }
                            },
                            None => match typ {
                                Some(v) => {
                                    if !same(&v, &chars_of("Application")) {
                                        return None;
                                    }
                                },
                                None => {},
                            },
                        },
                    },
                },
            }
        }
        k = k + 1;
    }
    match (name, command) {
        (Some(n), Some(c)) => {
            if n.len() > 0 && c.len() > 0 {
                let stripped = strip_field_codes(string_of(&c).as_str());
                Some(AppEntry { name: string_of(&n), command: stripped })
            } else {
                None
            }
        },
        _ => None,
    }
}

/// The applications found so far while scanning `.desktop` directories,
/// and the file stems already seen: the same application often appears in
/// several directories, and the first directory scanned wins.
pub struct AppCatalog {
    pub seen: Vec<String>,
    pub apps: Vec<AppEntry>,
}

impl AppCatalog {
    pub fn new() -> (c: AppCatalog)
        ensures
            c.seen@.len() == 0,
            c.apps@.len() == 0,
    {
        AppCatalog { seen: Vec::new(), apps: Vec::new() }
    }

    /// Whether a file with this stem is still to be read; it is marked
    /// seen either way.
    pub fn first_sighting(&mut self, stem: &str) -> (fresh: bool)
        ensures
            fresh == !(exists|i: int| 0 <= i < old(self).seen@.len() && #[trigger] old(self).seen@[i]@ == stem@),
            fresh ==> crate::text::strings_view(final(self).seen@) == crate::text::strings_view(old(self).seen@).push(stem@),
            !fresh ==> final(self).seen@ == old(self).seen@,
            final(self).apps@ == old(self).apps@,
    {
        let want = chars_of(stem);
        let mut i: usize = 0;
        while i < self.seen.len()
            invariant
                want@ == stem@,
                i <= self.seen.len(),
                forall|j: int| 0 <= j < i ==> #[trigger] self.seen@[j]@ != stem@,
            decreases self.seen.len() - i,
        {
            if same(&chars_of(self.seen[i].as_str()), &want) {
                assert(self.seen@[i as int]@ == stem@);
                return false;
            }
            i = i + 1;
        }
        let ghost before = self.seen@;
        self.seen.push(string_of(&want));
        assert(crate::text::strings_view(self.seen@) =~= crate::text::strings_view(before).push(stem@));
        true
    }

    /// Add the application a `.desktop` file describes, if it is one.
    pub fn add_desktop_file(&mut self, content: &str)
        ensures
            final(self).seen@ == old(self).seen@,
            match desktop_entry_spec(content@) {
                Some((n, c)) => final(self).apps@.len() == old(self).apps@.len() + 1
                    && final(self).apps@.take(old(self).apps@.len() as int) == old(self).apps@
                    && final(self).apps@.last().name@ == n && final(self).apps@.last().command@ == c,
                None => final(self).apps@ == old(self).apps@,
            },
    {
        match parse_desktop_file(content) {
            Some(a) => {
                self.apps.push(a);
                assert(self.apps@.take(old(self).apps@.len() as int) =~= old(self).apps@);
            },
            None => {},
        }
    }
}

/// A Start Menu shortcut as an application: uninstallers, read-me and help
/// links are not what a user means by "open X".
pub open spec fn shortcut_spec(name: Seq<char>, path: Seq<char>) -> Option<(Seq<char>, Seq<char>)> {
    let lower = crate::text::lowercase(name);
    if crate::text::has_sub(lower, "uninstall"@) || crate::text::has_sub(lower, "readme"@)
        || crate::text::has_sub(lower, "help"@) {
        None
    } else {
        Some((name, "cmd /c start \"\" \""@ + path + "\""@))
    }
}

/// The application a Start Menu shortcut (`.lnk`) with this file stem and
/// path launches.
pub fn shortcut_entry(name: &str, path: &str) -> (r: Option<AppEntry>)
    ensures
        match shortcut_spec(name@, path@) {
            Some((n, c)) => r matches Some(a) && a.name@ == n && a.command@ == c,
            None => r is None,
        },
{
    let lower = chars_of(crate::text::to_lowercase(name).as_str());
    if crate::text::contains(&lower, &chars_of("uninstall")) || crate::text::contains(&lower, &chars_of("readme"))
        || crate::text::contains(&lower, &chars_of("help")) {
        return None;
    }
    let mut c: Vec<char> = Vec::new();
    crate::text::push_str(&mut c, "cmd /c start \"\" \"");
    crate::text::push_str(&mut c, path);
    crate::text::push_str(&mut c, "\"");
    Some(AppEntry { name: string_of(&chars_of(name)), command: string_of(&c) })
}

/// The application a macOS bundle (`.app`) with this name launches.
pub fn mac_app_entry(name: &str) -> (r: AppEntry)
    ensures
        r.name@ == name@,
        r.command@ == "open -a \""@ + name@ + "\""@,
{
    let mut c: Vec<char> = Vec::new();
    crate::text::push_str(&mut c, "open -a \"");
    crate::text::push_str(&mut c, name);
    crate::text::push_str(&mut c, "\"");
    AppEntry { name: string_of(&chars_of(name)), command: string_of(&c) }
}

/// The branch a repository's `HEAD` names, or the first eight characters
/// of the commit it holds when detached.
pub open spec fn branch_spec(head: Seq<char>) -> Seq<char> {
    let h = trim(head);
    match strip_prefix_spec(h, "ref: refs/heads/"@) {
        Some(b) => b,
        None => if h.len() > 8 {
            h.take(8)
        } else {
            h
        },
    }
}

pub fn branch_from_head(head: &str) -> (r: String)
    ensures
        r@ == branch_spec(head@),
{
    let h = trim_vec(&chars_of(head));
    match strip_prefix(&h, &chars_of("ref: refs/heads/")) {
        Some(b) => string_of(&b),
        None => {
            let n = if h.len() > 8 {
                8
            } else {
                h.len()
            };
            let r = slice(&h, 0, n);
            assert(h@.len() <= 8 ==> r@ =~= h@);
            string_of(&r)
        },
    }
}

} // verus!
