//! Reading what the package manager actually did, from its own
//! transaction log. Parsing is text in, entries out.
use crate::clock::{
    local_earliest, naive_datetime_secs, offset_datetime_secs, parse_naive_datetime,
    parse_offset_datetime, parse_rfc3339, rfc3339_secs,
};
use crate::sentinel::change::{Change, ChangeKind, Severity, classify_spec, describe_spec};
use crate::sentinel::version::{downgrade_spec, is_probable_downgrade};
use crate::text::{
    chars_of, find_char, has_char, keep_some, lemma_line_spans, line_spans, line_spans_of, lines,
    pieces, push_chars, rfind_char, same, slice, spans_view, split_once, split_once_spec,
    strip_prefix, strip_prefix_spec, string_of, trim, trim_end_char, trim_end_char_vec,
    trim_start, trim_start_char, trim_start_char_vec, trim_start_seq, trim_start_seq_vec,
    trim_start_vec, trim_vec, word_spans, word_spans_of, words, lemma_word_spans,
};
use vstd::prelude::*;

verus! {

/// What a log line says happened.
#[derive(Clone, Copy, Debug, PartialEq, Eq, Structural)]
pub enum Action {
    Installed,
    Removed,
    Upgraded,
    Downgraded,
}

/// When a line says it happened: an instant, or a wall-clock reading in
/// the machine's zone (seconds counted as if it were UTC) still to be
/// placed.
#[derive(Clone, Copy, Debug, PartialEq, Eq, Structural)]
pub enum Stamp {
    Utc(i64),
    Local(i64),
}

/// One parsed transaction-log line, before MAVIS knows whether the user
/// asked for the package.
#[derive(Clone, Debug, PartialEq, Eq)]
pub struct LogEntry {
    pub action: Action,
    pub name: String,
    /// Empty for installs.
    pub old_version: String,
    /// Empty for removals.
    pub new_version: String,
    /// Seconds since the Unix epoch.
    pub occurred_at: i64,
}

pub struct EntryView {
    pub action: Action,
    pub name: Seq<char>,
    pub old_version: Seq<char>,
    pub new_version: Seq<char>,
    pub occurred_at: i64,
}

impl View for LogEntry {
    type V = EntryView;

    open spec fn view(&self) -> EntryView {
        EntryView {
            action: self.action,
            name: self.name@,
            old_version: self.old_version@,
            new_version: self.new_version@,
            occurred_at: self.occurred_at,
        }
    }
}

/// A log line as read, its time not yet placed on the clock.
#[derive(Clone, Debug, PartialEq, Eq)]
pub struct LogLine {
    pub action: Action,
    pub name: String,
    pub old_version: String,
    pub new_version: String,
    pub stamp: Stamp,
}

pub struct LineView {
    pub action: Action,
    pub name: Seq<char>,
    pub old_version: Seq<char>,
    pub new_version: Seq<char>,
    pub stamp: Stamp,
}

impl View for LogLine {
    type V = LineView;

    open spec fn view(&self) -> LineView {
        LineView {
            action: self.action,
            name: self.name@,
            old_version: self.old_version@,
            new_version: self.new_version@,
            stamp: self.stamp,
        }
    }
}

pub open spec fn entries_view(v: Seq<LogEntry>) -> Seq<EntryView> {
    v.map_values(|e: LogEntry| e@)
}

pub open spec fn log_lines_view(v: Seq<LogLine>) -> Seq<LineView> {
    v.map_values(|e: LogLine| e@)
}

pub open spec fn opt_line_view(o: Option<LogLine>) -> Option<LineView> {
    match o {
        Some(l) => Some(l@),
        None => None,
    }
}

pub open spec fn line_view(action: Action, name: Seq<char>, old: Seq<char>, new: Seq<char>, stamp: Stamp) -> LineView {
    LineView { action, name, old_version: old, new_version: new, stamp }
}

fn make_line(action: Action, name: &[char], old: &[char], new: &[char], stamp: Stamp) -> (l: LogLine)
    ensures
        l@ == line_view(action, name@, old@, new@, stamp),
{
    LogLine {
        action,
        name: string_of(name),
        old_version: string_of(old),
        new_version: string_of(new),
        stamp,
    }
}

// ---------------------------------------------------------------------
// Placing times
// ---------------------------------------------------------------------

/// Entries for the lines whose time could be placed: an instant stands as
/// it is, a wall-clock reading takes the matching answer from `placed`,
/// and a reading that names no instant drops its line.
pub open spec fn settle_upto(ls: Seq<LineView>, placed: Seq<Option<i64>>, n: int) -> Seq<EntryView>
    decreases n,
{
    if n <= 0 {
        Seq::empty()
    } else {
        let prev = settle_upto(ls, placed, n - 1);
        let l = ls[n - 1];
        let at = match l.stamp {
            Stamp::Utc(t) => Some(t),
            Stamp::Local(_) => placed[n - 1],
        };
        match at {
            Some(t) => prev.push(
                EntryView {
                    action: l.action,
                    name: l.name,
                    old_version: l.old_version,
                    new_version: l.new_version,
                    occurred_at: t,
                },
            ),
            None => prev,
        }
    }
}

pub open spec fn settled(ls: Seq<LineView>, placed: Seq<Option<i64>>) -> Seq<EntryView> {
    settle_upto(ls, placed, ls.len() as int)
}

/// Entries for the lines, given where each wall-clock reading falls:
/// `placed[i]` is the instant for line `i` when its stamp is a reading
/// (`None` drops the line), and is not looked at when it is an instant.
pub fn settle_with(ls: &[LogLine], placed: &[Option<i64>]) -> (r: Vec<LogEntry>)
    requires
        placed@.len() == ls@.len(),
    ensures
        entries_view(r@) == settled(log_lines_view(ls@), placed@),
{
    let ghost lv = log_lines_view(ls@);
    let mut out: Vec<LogEntry> = Vec::new();
    let mut i: usize = 0;
    while i < ls.len()
        invariant
            i <= ls.len(),
            placed@.len() == ls@.len(),
            lv == log_lines_view(ls@),
            entries_view(out@) == settle_upto(lv, placed@, i as int),
        decreases ls.len() - i,
    {
        let l = &ls[i];
        let at = match l.stamp {
            Stamp::Utc(t) => Some(t),
            Stamp::Local(_) => placed[i],
        };
        let ghost prev = entries_view(out@);
        match at {
            Some(t) => {
                out.push(
                    LogEntry {
                        action: l.action,
                        name: l.name.clone(),
                        old_version: l.old_version.clone(),
                        new_version: l.new_version.clone(),
                        occurred_at: t,
                    },
                );
                assert(entries_view(out@) =~= prev.push(
                    EntryView {
                        action: lv[i as int].action,
                        name: lv[i as int].name,
                        old_version: lv[i as int].old_version,
                        new_version: lv[i as int].new_version,
                        occurred_at: t,
                    },
                ));
            },
            None => {},
        }
        i = i + 1;
    }
    out
}

/// Place each line's time on the clock. Wall-clock readings are placed in
/// this machine's zone, taking the earlier instant when a reading repeats.
pub fn settle(ls: Vec<LogLine>) -> (r: Vec<LogEntry>)
    ensures
        exists|placed: Seq<Option<i64>>|
            placed.len() == ls@.len() && entries_view(r@) == #[trigger] settled(
                log_lines_view(ls@),
                placed,
            ),
{
    let mut placed: Vec<Option<i64>> = Vec::new();
    let mut i: usize = 0;
    while i < ls.len()
        invariant
            i <= ls.len(),
            placed@.len() == i,
        decreases ls.len() - i,
    {
        let at = match ls[i].stamp {
            Stamp::Utc(t) => Some(t),
            Stamp::Local(w) => local_earliest(w),
        };
        placed.push(at);
        i = i + 1;
    }
    let r = settle_with(ls.as_slice(), placed.as_slice());
    assert(settled(log_lines_view(ls@), placed@) == entries_view(r@));
    r
}

// ---------------------------------------------------------------------
// Arch: /var/log/pacman.log
// ---------------------------------------------------------------------
//
//   [2026-09-18T14:32:01+0545] [ALPM] installed hyprland (0.41.2-1)
//   [2026-09-18T14:32:01+0545] [ALPM] upgraded firefox (140.0-1 -> 141.0-1)
//
// Both the ISO form and the pre-2019 `[2019-01-01 12:00]` form (local time,
// no offset) are accepted.

/// A pacman timestamp: ISO-8601 with an offset (with or without a colon in
/// it), or the old local-time form.
pub open spec fn pacman_stamp(raw: Seq<char>) -> Option<Stamp> {
    let r = trim(raw);
    match offset_datetime_secs(r, "%Y-%m-%dT%H:%M:%S%z"@) {
        Some(t) => Some(Stamp::Utc(t)),
        None => match rfc3339_secs(r) {
            Some(t) => Some(Stamp::Utc(t)),
            None => match naive_datetime_secs(r, "%Y-%m-%d %H:%M"@) {
                Some(w) => Some(Stamp::Local(w)),
                None => None,
            },
        },
    }
}

fn pacman_stamp_of(raw: &[char]) -> (r: Option<Stamp>)
    ensures
        r == pacman_stamp(raw@),
{
    let t = string_of(&trim_vec(raw));
    match parse_offset_datetime(t.as_str(), "%Y-%m-%dT%H:%M:%S%z") {
        Some(x) => Some(Stamp::Utc(x)),
        None => match parse_rfc3339(t.as_str()) {
            Some(x) => Some(Stamp::Utc(x)),
            None => match parse_naive_datetime(t.as_str(), "%Y-%m-%d %H:%M") {
                Some(w) => Some(Stamp::Local(w)),
                None => None,
            },
        },
    }
}

/// The verb that opens an `[ALPM]` transaction line, and what follows it.
pub open spec fn pacman_verb(r: Seq<char>) -> Option<(Action, Seq<char>)> {
    match strip_prefix_spec(r, "installed "@) {
        Some(x) => Some((Action::Installed, x)),
        None => match strip_prefix_spec(r, "upgraded "@) {
            Some(x) => Some((Action::Upgraded, x)),
            None => match strip_prefix_spec(r, "downgraded "@) {
                Some(x) => Some((Action::Downgraded, x)),
                None => match strip_prefix_spec(r, "removed "@) {
                    Some(x) => Some((Action::Removed, x)),
                    None => None,
                },
            },
        },
    }
}

fn pacman_verb_of(r: &[char]) -> (o: Option<(Action, Vec<char>)>)
    ensures
        match pacman_verb(r@) {
            Some((a, x)) => o matches Some((b, y)) && a == b && y@ == x,
            None => o is None,
        },
{
    match strip_prefix(r, &chars_of("installed ")) {
        Some(x) => Some((Action::Installed, x)),
        None => match strip_prefix(r, &chars_of("upgraded ")) {
            Some(x) => Some((Action::Upgraded, x)),
            None => match strip_prefix(r, &chars_of("downgraded ")) {
                Some(x) => Some((Action::Downgraded, x)),
                None => match strip_prefix(r, &chars_of("removed ")) {
                    Some(x) => Some((Action::Removed, x)),
                    None => None,
                },
            },
        },
    }
}

/// Versions from "name (version)" or "name (old -> new)": a lone version
/// is the old one for a removal and the new one otherwise.
pub open spec fn pacman_versions(action: Action, versions: Seq<char>) -> (Seq<char>, Seq<char>) {
    match split_once_spec(versions, " -> "@) {
        Some((o, n)) => (trim(o), trim(n)),
        None => if action == Action::Removed {
            (trim(versions), Seq::empty())
        } else {
            (Seq::empty(), trim(versions))
        },
    }
}

/// One pacman log line: `[timestamp] [ALPM] verb name (versions)`.
pub open spec fn pacman_line(l: Seq<char>) -> Option<LineView> {
    let t = trim(l);
    if !(t.len() > 0 && t[0] == '[') {
        None
    } else {
        match split_once_spec(t.drop_first(), "]"@) {
            None => None,
            Some((ts, rest)) => match pacman_stamp(ts) {
                None => None,
                Some(stamp) => match strip_prefix_spec(trim_start(rest), "[ALPM]"@) {
                    None => None,
                    Some(r) => match pacman_verb(trim(r)) {
                        None => None,
                        Some((action, r2)) => match split_once_spec(r2, " ("@) {
                            None => None,
                            Some((name, vs)) => {
                                let (old, new) = pacman_versions(
                                    action,
                                    trim_end_char(vs, ')'),
                                );
                                Some(line_view(action, trim(name), old, new, stamp))
                            },
                        },
                    },
                },
            },
        }
    }
}

fn pacman_line_of(l: &[char]) -> (r: Option<LogLine>)
    ensures
        opt_line_view(r) == pacman_line(l@),
{
    let t = trim_vec(l);
    if !(t.len() > 0 && t[0] == '[') {
        return None;
    }
    let inner = slice(&t, 1, t.len());
    assert(inner@ =~= t@.drop_first());
    let (ts, rest) = match split_once(&inner, &chars_of("]")) {
        Some(p) => p,
        None => return None,
    };
    let stamp = match pacman_stamp_of(&ts) {
        Some(s) => s,
        None => return None,
    };
    let r = match strip_prefix(&trim_start_vec(&rest), &chars_of("[ALPM]")) {
        Some(r) => r,
        None => return None,
    };
    let (action, r2) = match pacman_verb_of(&trim_vec(&r)) {
        Some(p) => p,
        None => return None,
    };
    let (name, vs) = match split_once(&r2, &chars_of(" (")) {
        Some(p) => p,
        None => return None,
    };
    let versions = trim_end_char_vec(&vs, ')');
    let (old, new) = match split_once(&versions, &chars_of(" -> ")) {
        Some((o, n)) => (trim_vec(&o), trim_vec(&n)),
        None => {
            let v = trim_vec(&versions);
            match action {
                Action::Removed => (v, Vec::new()),
                _ => (Vec::new(), v),
            }
        },
    };
    proof {
        let ghost want = pacman_versions(action, versions@);
        assert(old@ == want.0 && new@ == want.1);
    }
    Some(make_line(action, &trim_vec(&name), &old, &new, stamp))
}

/// Lines of a log, each parsed by `f`, keeping those it accepts.
pub open spec fn parsed_lines(text: Seq<char>, f: spec_fn(Seq<char>) -> Option<LineView>) -> Seq<LineView> {
    keep_some(lines(text).map_values(f))
}

/// One line of a package manager's log, parsed by that manager's rules.
pub open spec fn log_line(pm: PackageManager, l: Seq<char>) -> Option<LineView> {
    match pm {
        PackageManager::Pacman => pacman_line(l),
        PackageManager::Dpkg => dpkg_line(l),
        PackageManager::Rpm => rpm_line(l),
        PackageManager::Unknown => None,
    }
}

fn log_line_of(pm: PackageManager, l: &[char]) -> (r: Option<LogLine>)
    ensures
        opt_line_view(r) == log_line(pm, l@),
{
    match pm {
        PackageManager::Pacman => pacman_line_of(l),
        PackageManager::Dpkg => dpkg_line_of(l),
        PackageManager::Rpm => rpm_line_of(l),
        PackageManager::Unknown => None,
    }
}

/// The lines of a log that a manager's rules accept, times not yet placed.
pub open spec fn log_lines(pm: PackageManager, text: Seq<char>) -> Seq<LineView> {
    parsed_lines(text, |l: Seq<char>| log_line(pm, l))
}

/// Lines are read independently and in order: a log cut after a line
/// break reads as its two parts, one after the other.
pub proof fn law_log_lines_concatenate(pm: PackageManager, a: Seq<char>, b: Seq<char>)
    requires
        a.len() == 0 || a.last() == '\n',
    ensures
        log_lines(pm, a + b) == log_lines(pm, a) + log_lines(pm, b),
{
    let f = |l: Seq<char>| log_line(pm, l);
    crate::text::lemma_lines_concat(a, b);
    assert(lines(a + b).map_values(f) =~= lines(a).map_values(f) + lines(b).map_values(f));
    crate::text::lemma_keep_some_concat(lines(a).map_values(f), lines(b).map_values(f));
}

pub open spec fn pacman_lines(text: Seq<char>) -> Seq<LineView> {
    log_lines(PackageManager::Pacman, text)
}

pub open spec fn dpkg_lines(text: Seq<char>) -> Seq<LineView> {
    log_lines(PackageManager::Dpkg, text)
}

pub open spec fn rpm_lines(text: Seq<char>) -> Seq<LineView> {
    log_lines(PackageManager::Rpm, text)
}

/// The transaction lines of a log, by a manager's rules, in log order.
pub fn parse_log_lines(pm: PackageManager, text: &str) -> (r: Vec<LogLine>)
    ensures
        log_lines_view(r@) == log_lines(pm, text@),
{
    let s = chars_of(text);
    let spans = line_spans_of(&s);
    let ghost f = |l: Seq<char>| log_line(pm, l);
    let ghost q = lines(s@).map_values(f);
    proof {
        lemma_line_spans(s@);
    }
    let mut out: Vec<LogLine> = Vec::new();
    let mut k: usize = 0;
    while k < spans.len()
        invariant
            s@ == text@,
            spans_view(spans@) == line_spans(s@),
            q == lines(s@).map_values(f),
            f == (|l: Seq<char>| log_line(pm, l)),
            forall|j: int|
                0 <= j < line_spans(s@).len() ==> 0 <= #[trigger] line_spans(s@)[j].0
                    <= line_spans(s@)[j].1 <= s@.len(),
            k <= spans.len(),
            log_lines_view(out@) == keep_some(q.take(k as int)),
        decreases spans.len() - k,
    {
        let (a, b) = spans[k];
        assert(line_spans(s@)[k as int] == (a as int, b as int));
        let l = slice(&s, a, b);
        let got = log_line_of(pm, &l);
        assert(spans_view(spans@)[k as int] == (a as int, b as int));
        assert(lines(s@)[k as int] == s@.subrange(a as int, b as int));
        assert(q[k as int] == log_line(pm, l@));
        assert(q.take(k + 1).drop_last() =~= q.take(k as int));
        let ghost prev = log_lines_view(out@);
        match got {
            Some(e) => {
                out.push(e);
                assert(log_lines_view(out@) =~= prev.push(e@));
            },
            None => {},
        }
        k = k + 1;
    }
    assert(q.take(spans.len() as int) =~= q);
    out
}

/// The transaction lines of a pacman log, times not yet placed.
pub fn parse_pacman_lines(text: &str) -> (r: Vec<LogLine>)
    ensures
        log_lines_view(r@) == pacman_lines(text@),
{
    parse_log_lines(PackageManager::Pacman, text)
}

/// Every transaction in a pacman log: installs, upgrades, downgrades and
/// removals, in log order.
pub fn parse_pacman_log(text: &str) -> (r: Vec<LogEntry>)
    ensures
        exists|placed: Seq<Option<i64>>|
            entries_view(r@) == #[trigger] settled(pacman_lines(text@), placed),
{
    settle(parse_pacman_lines(text))
}


// ---------------------------------------------------------------------
// Debian / Ubuntu: /var/log/dpkg.log
// ---------------------------------------------------------------------
//
//   2026-09-20 09:50:40 install libasound2-dev:amd64 <none> 1.2.11-1ubuntu0.3
//   2026-09-20 09:50:40 upgrade libasound2t64:amd64 1.2.11-1ubuntu0.2 1.2.11-1ubuntu0.3
//   2026-09-20 09:50:40 remove foo:amd64 1.0-1 <none>
//
// `<none>` as the old version marks a package that was not there before.
// `status`, `configure` and `trigproc` lines are progress noise; `purge`
// follows a `remove` for the same package and would count it twice.

/// dpkg's `<none>` as the empty version.
pub open spec fn none_to_empty_spec(v: Seq<char>) -> Seq<char> {
    if v == "<none>"@ {
        Seq::empty()
    } else {
        v
    }
}

pub fn none_to_empty(v: &str) -> (r: String)
    ensures
        r@ == none_to_empty_spec(v@),
{
    let c = chars_of(v);
    if same(&c, &chars_of("<none>")) {
        string_of(&Vec::new())
    } else {
        string_of(&c)
    }
}

/// The verbs of dpkg's log that record a package coming or going.
pub open spec fn dpkg_verb(w: Seq<char>) -> Option<Action> {
    if w == "install"@ {
        Some(Action::Installed)
    } else if w == "upgrade"@ {
        Some(Action::Upgraded)
    } else if w == "remove"@ {
        Some(Action::Removed)
    } else {
        None
    }
}

/// A package name without its architecture suffix ("libfoo:amd64").
pub open spec fn without_arch(w: Seq<char>) -> Seq<char> {
    match split_once_spec(w, ":"@) {
        Some((a, _)) => a,
        None => w,
    }
}

/// One dpkg log line: `date time verb package old new`. dpkg logs a
/// downgrade as an upgrade; it is reported as one only when the version
/// comparison is sure.
pub open spec fn dpkg_line(l: Seq<char>) -> Option<LineView> {
    let f = words(l);
    if f.len() < 6 {
        None
    } else {
        match dpkg_verb(f[2]) {
            None => None,
            Some(action) => match naive_datetime_secs(f[0] + " "@ + f[1], "%Y-%m-%d %H:%M:%S"@) {
                None => None,
                Some(w) => {
                    let name = without_arch(f[3]);
                    if name.len() == 0 {
                        None
                    } else {
                        let old = none_to_empty_spec(f[4]);
                        let new = none_to_empty_spec(f[5]);
                        let action = if action == Action::Upgraded && downgrade_spec(old, new) {
                            Action::Downgraded
                        } else {
                            action
                        };
                        Some(line_view(action, name, old, new, Stamp::Local(w)))
                    }
                },
            },
        }
    }
}

fn dpkg_line_of(l: &[char]) -> (r: Option<LogLine>)
    ensures
        opt_line_view(r) == dpkg_line(l@),
{
    let spans = word_spans_of(l);
    proof {
        lemma_word_spans(l@);
    }
    if spans.len() < 6 {
        return None;
    }
    let ghost f = words(l@);
    let mut fields: Vec<Vec<char>> = Vec::new();
    let mut k: usize = 0;
    while k < 6
        invariant
            spans_view(spans@) == word_spans(l@),
            6 <= spans.len(),
            f == words(l@),
            forall|j: int|
                0 <= j < word_spans(l@).len() ==> 0 <= #[trigger] word_spans(l@)[j].0
                    < word_spans(l@)[j].1 <= l@.len(),
            k <= 6,
            fields@.len() == k,
            forall|j: int| 0 <= j < k ==> #[trigger] fields@[j]@ == f[j],
        decreases 6 - k,
    {
        let (a, b) = spans[k];
        assert(spans_view(spans@)[k as int] == (a as int, b as int));
        let w = slice(l, a, b);
        fields.push(w);
        k = k + 1;
    }
    let action = if same(&fields[2], &chars_of("install")) {
        Action::Installed
    } else if same(&fields[2], &chars_of("upgrade")) {
        Action::Upgraded
    } else if same(&fields[2], &chars_of("remove")) {
        Action::Removed
    } else {
        return None;
    };
    assert(dpkg_verb(f[2]) == Some(action));
    let mut when: Vec<char> = Vec::new();
    push_chars(&mut when, &fields[0]);
    when.push(' ');
    push_chars(&mut when, &fields[1]);
    assert(when@ =~= f[0] + " "@ + f[1]) by {
        reveal_strlit(" ");
    }
    let wall = match parse_naive_datetime(string_of(&when).as_str(), "%Y-%m-%d %H:%M:%S") {
        Some(w) => w,
        None => return None,
    };
    let name = match split_once(&fields[3], &chars_of(":")) {
        Some((a, _)) => a,
        None => slice(&fields[3], 0, fields[3].len()),
    };
    assert(name@ =~= without_arch(f[3]));
    if name.len() == 0 {
        return None;
    }
    let old = none_to_empty(string_of(&fields[4]).as_str());
    let new = none_to_empty(string_of(&fields[5]).as_str());
    let action = match action {
        Action::Upgraded => if is_probable_downgrade(old.as_str(), new.as_str()) {
            Action::Downgraded
        } else {
            Action::Upgraded
        },
        other => other,
    };
    Some(make_line(action, &name, &chars_of(old.as_str()), &chars_of(new.as_str()), Stamp::Local(wall)))
}

/// The transaction lines of a dpkg log, times not yet placed.
pub fn parse_dpkg_lines(text: &str) -> (r: Vec<LogLine>)
    ensures
        log_lines_view(r@) == dpkg_lines(text@),
{
    parse_log_lines(PackageManager::Dpkg, text)
}

/// Every install, upgrade, downgrade and removal in a dpkg log, in order.
pub fn parse_dpkg_log(text: &str) -> (r: Vec<LogEntry>)
    ensures
        exists|placed: Seq<Option<i64>>|
            entries_view(r@) == #[trigger] settled(dpkg_lines(text@), placed),
{
    settle(parse_dpkg_lines(text))
}

// ---------------------------------------------------------------------
// Fedora / RHEL: /var/log/dnf.rpm.log
// ---------------------------------------------------------------------
//
//   2026-09-20T10:00:00+0000 SUBDEBUG Installed: foo-1.0-1.fc40.x86_64
//   2026-09-20T10:00:00+0000 SUBDEBUG Erased: baz-1.0-1.fc40.x86_64
//
// Written from the documented format; not yet checked against a live
// Fedora system.

/// Name and version of an RPM NEVRA ("foo-1.0-1.fc40.x86_64"): the name is
/// everything before the last two hyphen-separated fields.
pub open spec fn split_nevra_spec(s: Seq<char>) -> Option<(Seq<char>, Seq<char>)> {
    match crate::text::last_pos(s, '-') {
        None => None,
        Some(rs) => {
            let head = s.take(rs);
            let rel = s.skip(rs);
            match crate::text::last_pos(head, '-') {
                None => None,
                Some(vs) => {
                    let name = head.take(vs);
                    if name.len() == 0 {
                        None
                    } else {
                        Some(
                            (
                                name,
                                trim_start_char(head.skip(vs), '-') + "-"@ + trim_start_char(
                                    rel,
                                    '-',
                                ),
                            ),
                        )
                    }
                },
            }
        },
    }
}

fn split_nevra_chars(s: &[char]) -> (r: Option<(Vec<char>, Vec<char>)>)
    ensures
        match split_nevra_spec(s@) {
            Some((n, v)) => r matches Some((a, b)) && a@ == n && b@ == v,
            None => r is None,
        },
{
    proof {
        crate::text::lemma_last_pos(s@, '-');
    }
    let rs = match rfind_char(s, '-') {
        Some(i) => i,
        None => return None,
    };
    let head = slice(s, 0, rs);
    let rel = slice(s, rs, s.len());
    assert(head@ =~= s@.take(rs as int));
    assert(rel@ =~= s@.skip(rs as int));
    proof {
        crate::text::lemma_last_pos(head@, '-');
    }
    let vs = match rfind_char(&head, '-') {
        Some(i) => i,
        None => return None,
    };
    let name = slice(&head, 0, vs);
    assert(name@ =~= head@.take(vs as int));
    if name.len() == 0 {
        return None;
    }
    let ver = slice(&head, vs, head.len());
    assert(ver@ =~= head@.skip(vs as int));
    let mut version = trim_start_char_vec(&ver, '-');
    version.push('-');
    let tail = trim_start_char_vec(&rel, '-');
    push_chars(&mut version, &tail);
    assert(version@ =~= trim_start_char(head@.skip(vs as int), '-') + "-"@ + trim_start_char(
        rel@,
        '-',
    )) by {
        reveal_strlit("-");
    }
    Some((name, version))
}

/// Split an RPM NEVRA into name and version.
pub fn split_nevra(nevra: &str) -> (r: Option<(String, String)>)
    ensures
        match split_nevra_spec(nevra@) {
            Some((n, v)) => r matches Some((a, b)) && a@ == n && b@ == v,
            None => r is None,
        },
{
    match split_nevra_chars(&chars_of(nevra)) {
        Some((a, b)) => Some((string_of(&a), string_of(&b))),
        None => None,
    }
}

/// An rpm log timestamp: RFC 3339, ISO-8601 with an offset, or a local
/// time without one.
pub open spec fn rpm_stamp(raw: Seq<char>) -> Option<Stamp> {
    match rfc3339_secs(raw) {
        Some(t) => Some(Stamp::Utc(t)),
        None => match offset_datetime_secs(raw, "%Y-%m-%dT%H:%M:%S%z"@) {
            Some(t) => Some(Stamp::Utc(t)),
            None => match naive_datetime_secs(raw, "%Y-%m-%dT%H:%M:%S"@) {
                Some(w) => Some(Stamp::Local(w)),
                None => None,
            },
        },
    }
}

fn rpm_stamp_of(raw: &[char]) -> (r: Option<Stamp>)
    ensures
        r == rpm_stamp(raw@),
{
    let t = string_of(raw);
    match parse_rfc3339(t.as_str()) {
        Some(x) => Some(Stamp::Utc(x)),
        None => match parse_offset_datetime(t.as_str(), "%Y-%m-%dT%H:%M:%S%z") {
            Some(x) => Some(Stamp::Utc(x)),
            None => match parse_naive_datetime(t.as_str(), "%Y-%m-%dT%H:%M:%S") {
                Some(w) => Some(Stamp::Local(w)),
                None => None,
            },
        },
    }
}

/// The verb of a dnf rpm log line, and what follows it.
pub open spec fn rpm_verb(r: Seq<char>) -> Option<(Action, Seq<char>)> {
    match strip_prefix_spec(r, "Installed:"@) {
        Some(x) => Some((Action::Installed, x)),
        None => match strip_prefix_spec(r, "Upgraded:"@) {
            Some(x) => Some((Action::Upgraded, x)),
            None => match strip_prefix_spec(r, "Downgraded:"@) {
                Some(x) => Some((Action::Downgraded, x)),
                None => match strip_prefix_spec(r, "Erased:"@) {
                    Some(x) => Some((Action::Removed, x)),
                    None => match strip_prefix_spec(r, "Obsoleted:"@) {
                        Some(x) => Some((Action::Removed, x)),
                        None => None,
                    },
                },
            },
        },
    }
}

fn rpm_verb_of(r: &[char]) -> (o: Option<(Action, Vec<char>)>)
    ensures
        match rpm_verb(r@) {
            Some((a, x)) => o matches Some((b, y)) && a == b && y@ == x,
            None => o is None,
        },
{
    match strip_prefix(r, &chars_of("Installed:")) {
        Some(x) => Some((Action::Installed, x)),
        None => match strip_prefix(r, &chars_of("Upgraded:")) {
            Some(x) => Some((Action::Upgraded, x)),
            None => match strip_prefix(r, &chars_of("Downgraded:")) {
                Some(x) => Some((Action::Downgraded, x)),
                None => match strip_prefix(r, &chars_of("Erased:")) {
                    Some(x) => Some((Action::Removed, x)),
                    None => match strip_prefix(r, &chars_of("Obsoleted:")) {
                        Some(x) => Some((Action::Removed, x)),
                        None => None,
                    },
                },
            },
        },
    }
}

/// One dnf rpm log line: `timestamp SUBDEBUG Verb: nevra`.
pub open spec fn rpm_line(l: Seq<char>) -> Option<LineView> {
    match split_once_spec(trim(l), " "@) {
        None => None,
        Some((ts, rest)) => match rpm_stamp(ts) {
            None => None,
            Some(stamp) => match rpm_verb(trim(trim_start_seq(rest, "SUBDEBUG"@))) {
                None => None,
                Some((action, nevra)) => match split_nevra_spec(trim(nevra)) {
                    None => None,
                    Some((name, version)) => if action == Action::Removed {
                        Some(line_view(action, name, version, Seq::empty(), stamp))
                    } else {
                        Some(line_view(action, name, Seq::empty(), version, stamp))
                    },
                },
            },
        },
    }
}

fn rpm_line_of(l: &[char]) -> (r: Option<LogLine>)
    ensures
        opt_line_view(r) == rpm_line(l@),
{
    let t = trim_vec(l);
    let (ts, rest) = match split_once(&t, &chars_of(" ")) {
        Some(p) => p,
        None => return None,
    };
    let stamp = match rpm_stamp_of(&ts) {
        Some(s) => s,
        None => return None,
    };
    let r = trim_vec(&trim_start_seq_vec(&rest, &chars_of("SUBDEBUG")));
    let (action, nevra) = match rpm_verb_of(&r) {
        Some(p) => p,
        None => return None,
    };
    let (name, version) = match split_nevra_chars(&trim_vec(&nevra)) {
        Some(p) => p,
        None => return None,
    };
    let empty: Vec<char> = Vec::new();
    match action {
        Action::Removed => Some(make_line(action, &name, &version, &empty, stamp)),
        _ => Some(make_line(action, &name, &empty, &version, stamp)),
    }
}

/// The transaction lines of a dnf rpm log, times not yet placed.
pub fn parse_rpm_lines(text: &str) -> (r: Vec<LogLine>)
    ensures
        log_lines_view(r@) == rpm_lines(text@),
{
    parse_log_lines(PackageManager::Rpm, text)
}

/// Every install, upgrade, downgrade and removal in a dnf rpm log.
pub fn parse_rpm_log(text: &str) -> (r: Vec<LogEntry>)
    ensures
        exists|placed: Seq<Option<i64>>|
            entries_view(r@) == #[trigger] settled(rpm_lines(text@), placed),
{
    settle(parse_rpm_lines(text))
}

// ---------------------------------------------------------------------
// Which package manager
// ---------------------------------------------------------------------

/// Which package manager this machine uses.
#[derive(Clone, Copy, Debug, PartialEq, Eq, Structural)]
pub enum PackageManager {
    Pacman,
    Dpkg,
    Rpm,
    Unknown,
}

/// `std::path::Path::exists`: whether something is at the path. It depends
/// on the disk, so nothing is stated of it.
#[verifier::external_body]
fn path_exists(p: &str) -> (r: bool)
{
    std::path::Path::new(p).exists()
}

/// The manager whose log is present, checked in a fixed order: a machine
/// can have several installed while only one manages the system.
pub open spec fn detect_spec(pacman_log: bool, dpkg_log: bool, dnf_rpm_log: bool, dnf5_log: bool) -> PackageManager {
    if pacman_log {
        PackageManager::Pacman
    } else if dpkg_log {
        PackageManager::Dpkg
    } else if dnf_rpm_log || dnf5_log {
        PackageManager::Rpm
    } else {
        PackageManager::Unknown
    }
}

impl PackageManager {
    /// Decide from which logs exist.
    pub fn detect_from(pacman_log: bool, dpkg_log: bool, dnf_rpm_log: bool, dnf5_log: bool) -> (r: PackageManager)
        ensures
            r == detect_spec(pacman_log, dpkg_log, dnf_rpm_log, dnf5_log),
    {
        if pacman_log {
            PackageManager::Pacman
        } else if dpkg_log {
            PackageManager::Dpkg
        } else if dnf_rpm_log || dnf5_log {
            PackageManager::Rpm
        } else {
            PackageManager::Unknown
        }
    }

    /// The log files whose presence decides the manager, in the order
    /// `detect_from` takes them: pacman's, dpkg's, dnf's and dnf5's.
    pub fn probed_logs() -> (r: Vec<&'static str>)
        ensures
            r@.len() == 4,
            r@[0]@ == "/var/log/pacman.log"@,
            r@[1]@ == "/var/log/dpkg.log"@,
            r@[2]@ == "/var/log/dnf.rpm.log"@,
            r@[3]@ == "/var/log/dnf5.log"@,
    {
        proof {
            reveal_strlit("/var/log/pacman.log");
            reveal_strlit("/var/log/dpkg.log");
            reveal_strlit("/var/log/dnf.rpm.log");
            reveal_strlit("/var/log/dnf5.log");
        }
        vec!["/var/log/pacman.log", "/var/log/dpkg.log", "/var/log/dnf.rpm.log", "/var/log/dnf5.log"]
    }

    /// Detect by looking for each of `probed_logs`, in order, and deciding
    /// with `detect_from`. Which files exist is the disk's to say, so of
    /// the result it is stated only that it is `detect_from` of some
    /// answers.
    pub fn detect() -> (r: PackageManager)
        ensures
            exists|a: bool, b: bool, c: bool, d: bool| r == #[trigger] detect_spec(a, b, c, d),
    {
        let logs = PackageManager::probed_logs();
        let pacman = path_exists(logs[0]);
        let dpkg = path_exists(logs[1]);
        let rpm = path_exists(logs[2]);
        let dnf5 = path_exists(logs[3]);
        PackageManager::detect_from(pacman, dpkg, rpm, dnf5)
    }

    pub fn log_path(self) -> (r: Option<&'static str>)
        ensures
            self == PackageManager::Pacman ==> (r matches Some(p) && p@ == "/var/log/pacman.log"@),
            self == PackageManager::Dpkg ==> (r matches Some(p) && p@ == "/var/log/dpkg.log"@),
            self == PackageManager::Rpm ==> (r matches Some(p) && p@ == "/var/log/dnf.rpm.log"@),
            self == PackageManager::Unknown ==> r is None,
    {
        match self {
            PackageManager::Pacman => Some("/var/log/pacman.log"),
            PackageManager::Dpkg => Some("/var/log/dpkg.log"),
            PackageManager::Rpm => Some("/var/log/dnf.rpm.log"),
            PackageManager::Unknown => None,
        }
    }

    pub fn source_name(self) -> (r: &'static str)
        ensures
            r@ == source_name_spec(self),
    {
        match self {
            PackageManager::Pacman => "pacman",
            PackageManager::Dpkg => "dpkg",
            PackageManager::Rpm => "rpm",
            PackageManager::Unknown => "unknown",
        }
    }

    pub fn parse_log(self, text: &str) -> (r: Vec<LogEntry>)
        ensures
            exists|placed: Seq<Option<i64>>|
                entries_view(r@) == #[trigger] settled(log_lines(self, text@), placed),
    {
        settle(parse_log_lines(self, text))
    }
}

pub open spec fn source_name_spec(pm: PackageManager) -> Seq<char> {
    match pm {
        PackageManager::Pacman => "pacman"@,
        PackageManager::Dpkg => "dpkg"@,
        PackageManager::Rpm => "rpm"@,
        PackageManager::Unknown => "unknown"@,
    }
}

// ---------------------------------------------------------------------
// Log entries to changes
// ---------------------------------------------------------------------

/// Whether `name` is one of the explicitly installed packages.
pub open spec fn in_set(set: Seq<String>, name: Seq<char>) -> bool {
    exists|j: int| 0 <= j < set.len() && #[trigger] set[j]@ == name
}

/// Whether the user asked for a package: when the explicit set is empty,
/// intent is unknown and everything counts as asked for.
pub open spec fn requested_spec(set: Seq<String>, name: Seq<char>) -> bool {
    set.len() == 0 || in_set(set, name)
}

/// The change an entry records.
pub open spec fn kind_of(e: LogEntry, requested: bool) -> ChangeKind {
    match e.action {
        Action::Installed => ChangeKind::PackageInstalled {
            name: e.name,
            version: e.new_version,
            requested,
        },
        Action::Removed => ChangeKind::PackageRemoved { name: e.name, version: e.old_version },
        Action::Upgraded => ChangeKind::PackageUpgraded {
            name: e.name,
            from: e.old_version,
            to: e.new_version,
        },
        Action::Downgraded => ChangeKind::PackageDowngraded {
            name: e.name,
            from: e.old_version,
            to: e.new_version,
        },
    }
}

fn is_listed(set: &[String], name: &String) -> (r: bool)
    ensures
        r == in_set(set@, name@),
{
    let mut j: usize = 0;
    while j < set.len()
        invariant
            j <= set.len(),
            forall|k: int| 0 <= k < j ==> set@[k]@ != name@,
        decreases set.len() - j,
    {
        if set[j] == *name {
            return true;
        }
        j = j + 1;
    }
    false
}

/// Turn log entries into changes, deciding for each install whether the
/// user asked for it. `explicitly_installed` is what the package manager
/// considers user-requested; when it is empty, intent is unknown and every
/// install is taken as requested, so a failed query produces silence
/// rather than a flood of false alerts.
pub fn to_changes(entries: &[LogEntry], explicitly_installed: &[String], source: &str) -> (r: Vec<Change>)
    ensures
        r@.len() == entries@.len(),
        forall|i: int|
            0 <= i < entries@.len() ==> {
                let k = kind_of(entries@[i], requested_spec(explicitly_installed@, entries@[i].name@));
                &&& #[trigger] r@[i].kind == k
                &&& r@[i].severity == classify_spec(k)
                &&& r@[i].detail@ == describe_spec(k)
                &&& r@[i].source@ == source@
                &&& r@[i].occurred_at == entries@[i].occurred_at
            },
{
    let intent_known = explicitly_installed.len() > 0;
    let mut out: Vec<Change> = Vec::new();
    let mut i: usize = 0;
    while i < entries.len()
        invariant
            i <= entries.len(),
            intent_known == (explicitly_installed@.len() > 0),
            out@.len() == i,
            forall|j: int|
                0 <= j < i ==> {
                    let k = kind_of(entries@[j], requested_spec(explicitly_installed@, entries@[j].name@));
                    &&& #[trigger] out@[j].kind == k
                    &&& out@[j].severity == classify_spec(k)
                    &&& out@[j].detail@ == describe_spec(k)
                    &&& out@[j].source@ == source@
                    &&& out@[j].occurred_at == entries@[j].occurred_at
                },
        decreases entries.len() - i,
    {
        let e = &entries[i];
        let kind = match e.action {
            Action::Installed => {
                let requested = !intent_known || is_listed(explicitly_installed, &e.name);
                ChangeKind::PackageInstalled {
                    name: e.name.clone(),
                    version: e.new_version.clone(),
                    requested,
                }
            },
            Action::Removed => ChangeKind::PackageRemoved {
                name: e.name.clone(),
                version: e.old_version.clone(),
            },
            Action::Upgraded => ChangeKind::PackageUpgraded {
                name: e.name.clone(),
                from: e.old_version.clone(),
                to: e.new_version.clone(),
            },
            Action::Downgraded => ChangeKind::PackageDowngraded {
                name: e.name.clone(),
                from: e.old_version.clone(),
                to: e.new_version.clone(),
            },
        };
        out.push(Change::new(kind, source, e.occurred_at));
        i = i + 1;
    }
    out
}

/// Entries at or after `since`, in log order.
pub open spec fn since_spec(entries: Seq<EntryView>, since: i64) -> Seq<EntryView> {
    keep_some(
        entries.map_values(
            |e: EntryView|
                if e.occurred_at >= since {
                    Some(e)
                } else {
                    None
                },
        ),
    )
}

/// Upgrades are always routine; an install is notable exactly when the
/// package manager's explicit set is known and lacks the package, so a
/// failed query of that set flags nothing.
pub proof fn law_only_unasked_installs_are_flagged(e: LogEntry, explicit: Seq<String>)
    ensures
        e.action == Action::Upgraded ==> classify_spec(kind_of(e, requested_spec(explicit, e.name@)))
            == Severity::Routine,
        e.action == Action::Installed ==> (classify_spec(kind_of(e, requested_spec(explicit, e.name@)))
            == Severity::Notable <==> (explicit.len() > 0 && !in_set(explicit, e.name@))),
{
}

/// Nothing written in the watermark's own second is lost: every entry at or
/// after `since` is kept, and only those, all from the log.
pub proof fn law_the_watermark_second_is_kept(entries: Seq<EntryView>, since: i64)
    ensures
        forall|i: int|
            0 <= i < entries.len() && (#[trigger] entries[i]).occurred_at >= since ==> since_spec(entries, since).contains(
                entries[i],
            ),
        forall|e: EntryView|
            #[trigger] since_spec(entries, since).contains(e) ==> e.occurred_at >= since && entries.contains(e),
{
    let q = entries.map_values(
        |e: EntryView|
            if e.occurred_at >= since {
                Some(e)
            } else {
                None
            },
    );
    crate::text::lemma_keep_some_members(q);
    assert forall|i: int| 0 <= i < entries.len() && (#[trigger] entries[i]).occurred_at >= since implies since_spec(
        entries,
        since,
    ).contains(entries[i]) by {
        assert(q[i] == Some(entries[i]));
    }
    assert forall|e: EntryView| #[trigger] since_spec(entries, since).contains(e) implies e.occurred_at >= since
        && entries.contains(e) by {
        let i = choose|i: int| 0 <= i < q.len() && #[trigger] q[i] == Some(e);
        assert(entries[i] == e);
    }
}

/// Entries at or after `since`.
pub fn entries_since(entries: &[LogEntry], since: i64) -> (r: Vec<LogEntry>)
    ensures
        entries_view(r@) == since_spec(entries_view(entries@), since),
{
    let ghost q = entries_view(entries@).map_values(
        |e: EntryView|
            if e.occurred_at >= since {
                Some(e)
            } else {
                None
            },
    );
    let mut out: Vec<LogEntry> = Vec::new();
    let mut i: usize = 0;
    while i < entries.len()
        invariant
            i <= entries.len(),
            q == entries_view(entries@).map_values(
                |e: EntryView|
                    if e.occurred_at >= since {
                        Some(e)
                    } else {
                        None
                    },
            ),
            entries_view(out@) == keep_some(q.take(i as int)),
        decreases entries.len() - i,
    {
        assert(q.take(i + 1).drop_last() =~= q.take(i as int));
        let ghost prev = entries_view(out@);
        let e = &entries[i];
        if e.occurred_at >= since {
            out.push(
                LogEntry {
                    action: e.action,
                    name: e.name.clone(),
                    old_version: e.old_version.clone(),
                    new_version: e.new_version.clone(),
                    occurred_at: e.occurred_at,
                },
            );
            assert(entries_view(out@) =~= prev.push(entries_view(entries@)[i as int]));
        }
        i = i + 1;
    }
    assert(q.take(entries.len() as int) =~= q);
    out
}

} // verus!
