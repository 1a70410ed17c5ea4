//! A minimal reader of the local calendar: it finds the next event still
//! to come. Recurring events are skipped rather than guessed at.
use crate::context::CalendarEvent;
use crate::text::{
    char_vecs_view, chars_of, contains, has_prefix, has_sub, line_list, lines, push_chars, push_str,
    same, slice, split_once, split_once_spec, string_of, trim_end_char, trim_end_char_vec,
    trim_start, trim_start_vec,
};
use vstd::prelude::*;

verus! {

// ---------------------------------------------------------------------
// Folded lines
// ---------------------------------------------------------------------

pub open spec fn continues(l: Seq<char>) -> bool {
    l.len() > 0 && (l[0] == ' ' || l[0] == '\t')
}

/// Lines joined back, a line that begins with a space or tab continuing
/// the one before it.
pub open spec fn unfold_lines(ls: Seq<Seq<char>>) -> Seq<char>
    decreases ls.len(),
{
    if ls.len() == 0 {
        Seq::empty()
    } else {
        let prev = unfold_lines(ls.drop_last());
        let l = ls.last();
        if continues(l) {
            prev + trim_start(l)
        } else if prev.len() > 0 {
            prev + "\n"@ + l
        } else {
            prev + l
        }
    }
}

/// Undo line folding: a line beginning with a space or a tab continues
/// the previous one.
pub fn unfold(raw: &str) -> (r: Vec<char>)
    ensures
        r@ == unfold_lines(lines(raw@)),
{
    let ls = line_list(&chars_of(raw));
    let ghost lv = char_vecs_view(ls@);
    let mut out: Vec<char> = Vec::new();
    let mut k: usize = 0;
    while k < ls.len()
        invariant
            lv == char_vecs_view(ls@),
            lv == lines(raw@),
            k <= ls.len(),
            out@ == unfold_lines(lv.take(k as int)),
        decreases ls.len() - k,
    {
        let l = &ls[k];
        assert(lv[k as int] == l@);
        assert(lv.take(k + 1).drop_last() =~= lv.take(k as int));
        assert(lv.take(k + 1).last() == l@);
        if l.len() > 0 && (l[0] == ' ' || l[0] == '\t') {
            let t = trim_start_vec(l);
            push_chars(&mut out, &t);
        } else {
            if out.len() > 0 {
                push_str(&mut out, "\n");
            }
            push_chars(&mut out, l);
        }
        k = k + 1;
    }
    assert(lv.take(ls.len() as int) =~= lv);
    out
}

// ---------------------------------------------------------------------
// Events
// ---------------------------------------------------------------------

/// An event as its block ended: its summary, its last `DTSTART` line
/// (the part before the colon, and the value), and whether it recurs.
pub struct BlockEnd {
    pub summary: Option<String>,
    pub start: Option<(String, String)>,
    pub recurring: bool,
}

pub struct BlockEndView {
    pub summary: Option<Seq<char>>,
    pub start: Option<(Seq<char>, Seq<char>)>,
    pub recurring: bool,
}

/// The reader's state after some lines.
pub struct ScanView {
    pub in_event: bool,
    pub summary: Option<Seq<char>>,
    pub start: Option<(Seq<char>, Seq<char>)>,
    pub recurring: bool,
    pub ends: Seq<BlockEndView>,
}

/// A property's name: before any `;` parameters.
pub open spec fn prop_name(name_part: Seq<char>) -> Seq<char> {
    match split_once_spec(name_part, seq![';']) {
        Some((n, _)) => n,
        None => name_part,
    }
}

/// The reader after one more line (its carriage return dropped): a block
/// opens and resets; a block end records the event, and a non-recurring
/// one hands its summary and start over; inside a block, SUMMARY, RRULE
/// and DTSTART are taken note of.
pub open spec fn scan_step(st: ScanView, line: Seq<char>) -> ScanView {
    let l = trim_end_char(line, '\r');
    if l == "BEGIN:VEVENT"@ {
        ScanView { in_event: true, summary: None, start: None, recurring: false, ends: st.ends }
    } else if l == "END:VEVENT"@ {
        let end = BlockEndView { summary: st.summary, start: st.start, recurring: st.recurring };
        if st.recurring {
            ScanView { in_event: false, ends: st.ends.push(end), ..st }
        } else {
            ScanView { in_event: false, summary: None, start: None, ends: st.ends.push(end), ..st }
        }
    } else if !st.in_event {
        st
    } else {
        match split_once_spec(l, seq![':']) {
            Some((name_part, value)) => {
                let name = prop_name(name_part);
                if name == "SUMMARY"@ {
                    ScanView { summary: Some(value), ..st }
                } else if name == "RRULE"@ {
                    ScanView { recurring: true, ..st }
                } else if name == "DTSTART"@ {
                    ScanView { start: Some((name_part, value)), ..st }
                } else {
                    st
                }
            },
            None => st,
        }
    }
}

pub open spec fn scan_lines(ls: Seq<Seq<char>>) -> ScanView
    decreases ls.len(),
{
    if ls.len() == 0 {
        ScanView { in_event: false, summary: None, start: None, recurring: false, ends: Seq::empty() }
    } else {
        scan_step(scan_lines(ls.drop_last()), ls.last())
    }
}

/// Every event block of a calendar text, as it ended.
pub open spec fn blocks_spec(raw: Seq<char>) -> Seq<BlockEndView> {
    scan_lines(lines(unfold_lines(lines(raw)))).ends
}

pub open spec fn end_view(e: BlockEnd) -> BlockEndView {
    BlockEndView {
        summary: match e.summary {
            Some(s) => Some(s@),
            None => None,
        },
        start: match e.start {
            Some((a, b)) => Some((a@, b@)),
            None => None,
        },
        recurring: e.recurring,
    }
}

pub open spec fn ends_view(v: Seq<BlockEnd>) -> Seq<BlockEndView> {
    v.map_values(|e: BlockEnd| end_view(e))
}

fn opt_copy(o: &Option<Vec<char>>) -> (r: Option<String>)
    ensures
        match r {
            Some(s) => o matches Some(v) && s@ == v@,
            None => o is None,
        },
{
    match o {
        Some(v) => Some(string_of(v)),
        None => None,
    }
}

/// Read the event blocks of a calendar text.
pub fn event_blocks(raw: &str) -> (r: Vec<BlockEnd>)
    ensures
        ends_view(r@) == blocks_spec(raw@),
{
    let unfolded = unfold(raw);
    let ls = line_list(&unfolded);
    let ghost lv = char_vecs_view(ls@);
    let mut in_event = false;
    let mut summary: Option<Vec<char>> = None;
    let mut start: Option<(Vec<char>, Vec<char>)> = None;
    let mut recurring = false;
    let mut ends: Vec<BlockEnd> = Vec::new();
    let colon = vec![':'];
    let semi = vec![';'];
    assert(colon@ =~= seq![':']);
    assert(semi@ =~= seq![';']);
    let mut k: usize = 0;
    while k < ls.len()
        invariant
            colon@ == seq![':'],
            semi@ == seq![';'],
            lv == char_vecs_view(ls@),
            lv == lines(unfold_lines(lines(raw@))),
            k <= ls.len(),
            ({
                let st = scan_lines(lv.take(k as int));
                &&& st.in_event == in_event
                &&& st.summary == (match summary {
                    Some(v) => Some(v@),
                    None => None,
                })
                &&& st.start == (match start {
                    Some((a, b)) => Some((a@, b@)),
                    None => None,
                })
                &&& st.recurring == recurring
                &&& st.ends == ends_view(ends@)
            }),
        decreases ls.len() - k,
    {
        assert(lv[k as int] == ls@[k as int]@);
        assert(lv.take(k + 1).drop_last() =~= lv.take(k as int));
        assert(lv.take(k + 1).last() == lv[k as int]);
        let l = trim_end_char_vec(&ls[k], '\r');
        let ghost before = ends_view(ends@);
        if same(&l, &chars_of("BEGIN:VEVENT")) {
            in_event = true;
            summary = None;
            start = None;
            recurring = false;
        } else if same(&l, &chars_of("END:VEVENT")) {
            let end = BlockEnd {
                summary: opt_copy(&summary),
                start: match &start {
                    Some((a, b)) => Some((string_of(a), string_of(b))),
                    None => None,
                },
                recurring,
            };
            ends.push(end);
            assert(ends_view(ends@) =~= before.push(end_view(end)));
            if !recurring {
                summary = None;
                start = None;
            }
            in_event = false;
        } else if in_event {
            match split_once(&l, &colon) {
                Some((name_part, value)) => {
                    let name = match split_once(&name_part, &semi) {
                        Some((n, _)) => n,
                        None => slice(&name_part, 0, name_part.len()),
                    };
                    assert(name@ =~= prop_name(name_part@));
                    if same(&name, &chars_of("SUMMARY")) {
                        summary = Some(value);
                    } else if same(&name, &chars_of("RRULE")) {
                        recurring = true;
                    } else if same(&name, &chars_of("DTSTART")) {
                        start = Some((name_part, value));
                    }
                },
                None => {},
            }
        }
        k = k + 1;
    }
    assert(lv.take(ls.len() as int) =~= lv);
    ends
}

// ---------------------------------------------------------------------
// Start times
// ---------------------------------------------------------------------

/// A start given as a date alone: flagged so, or eight bytes long.
pub open spec fn date_only(name_part: Seq<char>, value: Seq<char>) -> bool {
    has_sub(name_part, "VALUE=DATE"@) || crate::util::utf8_len(value) == 8
}

/// What is known of a start's reading: a date alone lasts all day and
/// parses as a date; a time ending in `Z` is exactly that UTC instant; any
/// other time is not all day and parses as a wall-clock reading.
pub open spec fn dtstart_fits(name_part: Seq<char>, value: Seq<char>, r: Option<(i64, bool)>) -> bool {
    if date_only(name_part, value) {
        &&& r matches Some((_, all_day)) ==> all_day
        &&& crate::clock::naive_date_secs(value, "%Y%m%d"@) is None ==> r is None
    } else if value.len() > 0 && value.last() == 'Z' {
        r == (match crate::clock::naive_datetime_secs(value.drop_last(), "%Y%m%dT%H%M%S"@) {
            Some(s) => Some((s, false)),
            None => None,
        })
    } else {
        &&& r matches Some((_, all_day)) ==> !all_day
        &&& crate::clock::naive_datetime_secs(value, "%Y%m%dT%H%M%S"@) is None ==> r is None
    }
}

/// When an event starts, in seconds, and whether it lasts all day. A
/// date alone is local midnight; a time ending in `Z` is UTC; any other
/// time is local wall time (a named zone is read as the local one). The
/// local readings depend on the machine's zone; of them it is stated only
/// that they come from a text that parses, and which kind they are.
pub fn parse_dtstart(name_part: &str, value: &str) -> (r: Option<(i64, bool)>)
    ensures
        dtstart_fits(name_part@, value@, r),
{
    let bytes = value.as_bytes().len();
    if contains(&chars_of(name_part), &chars_of("VALUE=DATE")) || bytes == 8 {
        return match crate::clock::parse_naive_date(value, "%Y%m%d") {
            Some(wall) => match crate::clock::local_single(wall) {
                Some(at) => Some((at, true)),
                None => None,
            },
            None => None,
        };
    }
    let v = chars_of(value);
    if v.len() > 0 && v[v.len() - 1] == 'Z' {
        let stripped = slice(&v, 0, v.len() - 1);
        assert(stripped@ =~= value@.drop_last());
        return match crate::clock::parse_naive_datetime(string_of(&stripped).as_str(), "%Y%m%dT%H%M%S") {
            Some(s) => Some((s, false)),
            None => None,
        };
    }
    match crate::clock::parse_naive_datetime(value, "%Y%m%dT%H%M%S") {
        Some(wall) => match crate::clock::local_single(wall) {
            Some(at) => Some((at, false)),
            None => None,
        },
        None => None,
    }
}

// ---------------------------------------------------------------------
// The next event
// ---------------------------------------------------------------------

/// Among the first `n` candidates `(start, summary, all day)`, the first
/// of those starting soonest after `now`.
pub open spec fn soonest(c: Seq<(i64, Seq<char>, bool)>, n: int, now: i64) -> Option<int>
    decreases n,
{
    if n <= 0 {
        None
    } else {
        let prev = soonest(c, n - 1, now);
        if c[n - 1].0 > now && (prev matches Some(j) ==> c[n - 1].0 < c[j].0) {
            Some(n - 1)
        } else {
            prev
        }
    }
}

pub open spec fn cands_view(v: Seq<(i64, String, bool)>) -> Seq<(i64, Seq<char>, bool)> {
    v.map_values(|c: (i64, String, bool)| (c.0, c.1@, c.2))
}

/// Whole minutes from `now` (seconds and nanoseconds) to `at`, counted
/// down as a duration's `num_minutes` does, and never below zero.
pub open spec fn minutes_until_spec(at: i64, now_secs: i64, now_nanos: u32) -> int {
    let secs = at - now_secs - (if now_nanos > 0 { 1int } else { 0int });
    if secs <= 0 {
        0
    } else {
        secs / 60
    }
}

/// The event among `cands` that starts soonest after `now`.
pub fn next_event_among(cands: &Vec<(i64, String, bool)>, now_secs: i64, now_nanos: u32) -> (r: Option<usize>)
    ensures
        match soonest(cands_view(cands@), cands@.len() as int, now_secs) {
            Some(j) => r == Some(j as usize),
            None => r is None,
        },
        r matches Some(j) ==> j < cands@.len() && cands@[j as int].0 > now_secs && forall|k: int|
            0 <= k < cands@.len() && cands@[k].0 > now_secs ==> cands@[j as int].0 <= cands@[k].0 && (
            cands@[k].0 == cands@[j as int].0 ==> j <= k),
        r is None <==> forall|k: int| 0 <= k < cands@.len() ==> cands@[k].0 <= now_secs,
{
    proof {
        law_next_event_is_the_soonest_to_come(cands_view(cands@), now_secs);
        assert forall|k: int| 0 <= k < cands@.len() implies cands_view(cands@)[k].0 == #[trigger] cands@[k].0 by {}
    }
    let ghost cv = cands_view(cands@);
    let mut best: Option<usize> = None;
    let mut k: usize = 0;
    while k < cands.len()
        invariant
            cv == cands_view(cands@),
            k <= cands.len(),
            match soonest(cv, k as int, now_secs) {
                Some(j) => best == Some(j as usize) && 0 <= j < k,
                None => best is None,
            },
        decreases cands.len() - k,
    {
        assert(cv[k as int].0 == cands@[k as int].0);
        let at = cands[k].0;
        if at > now_secs {
            let better = match best {
                Some(j) => {
                    assert(cv[j as int].0 == cands@[j as int].0);
                    at < cands[j].0
                },
                None => true,
            };
            if better {
                best = Some(k);
            }
        }
        k = k + 1;
    }
    best
}

pub fn minutes_until(at: i64, now_secs: i64, now_nanos: u32) -> (m: i64)
    requires
        i64::MIN / 2 < at < i64::MAX / 2,
        i64::MIN / 2 < now_secs < i64::MAX / 2,
    ensures
        m == minutes_until_spec(at, now_secs, now_nanos),
{
    let secs = at - now_secs - (if now_nanos > 0 { 1 } else { 0 });
    if secs <= 0 {
        0
    } else {
        secs / 60
    }
}

pub open spec fn from_usable(bv: Seq<BlockEndView>, k: int, c: (i64, String, bool)) -> bool {
    exists|i: int| 0 <= i < k && usable(#[trigger] bv[i]) && bv[i].summary == Some(c.1@)
}

/// A block that can be the next event: it has a summary and a start and
/// does not recur.
pub open spec fn usable(b: BlockEndView) -> bool {
    !b.recurring && b.summary is Some && b.start is Some
}

/// The candidates that the usable blocks among the first `n` give, each
/// start read as `placed` says; a start that reads as nothing gives none.
pub open spec fn cands_upto(bv: Seq<BlockEndView>, placed: Seq<Option<(i64, bool)>>, n: int) -> Seq<(i64, Seq<char>, bool)>
    decreases n,
{
    if n <= 0 {
        Seq::empty()
    } else {
        let prev = cands_upto(bv, placed, n - 1);
        let b = bv[n - 1];
        match (b.summary, placed[n - 1]) {
            (Some(s), Some((at, all_day))) => if usable(b) {
                prev.push((at, s, all_day))
            } else {
                prev
            },
            _ => prev,
        }
    }
}

/// Each usable block's start is read in a way that agrees with what is
/// known of its reading.
pub open spec fn placed_fits(bv: Seq<BlockEndView>, placed: Seq<Option<(i64, bool)>>) -> bool {
    &&& placed.len() == bv.len()
    &&& forall|i: int|
        0 <= i < bv.len() && usable(#[trigger] bv[i]) ==> (bv[i].start matches Some((np, v)) && dtstart_fits(
            np,
            v,
            placed[i],
        ))
}

/// `r` is the candidate that starts soonest after `now`, the first of
/// equals, with its minutes to go; or nothing when none is still to come.
pub open spec fn event_of(r: Option<CalendarEvent>, c: Seq<(i64, Seq<char>, bool)>, now_secs: i64, now_nanos: u32) -> bool {
    match soonest(c, c.len() as int, now_secs) {
        Some(j) => r matches Some(e) && e.summary@ == c[j].1 && e.all_day == c[j].2 && e.minutes_until == (if i64::MIN
            / 2 < c[j].0 < i64::MAX / 2 {
            minutes_until_spec(c[j].0, now_secs, now_nanos)
        } else {
            0
        }),
        None => r is None,
    }
}

proof fn lemma_cands_prefix(bv: Seq<BlockEndView>, p: Seq<Option<(i64, bool)>>, q: Seq<Option<(i64, bool)>>, n: int)
    requires
        0 <= n <= q.len() <= p.len(),
        forall|k: int| 0 <= k < q.len() ==> p[k] == q[k],
    ensures
        cands_upto(bv, p, n) == cands_upto(bv, q, n),
    decreases n,
{
    if n > 0 {
        lemma_cands_prefix(bv, p, q, n - 1);
    }
}

/// The next event in a calendar text that starts after `now` (seconds and
/// nanoseconds): of the blocks that have a summary and a start and do not
/// recur, the one starting soonest. How local start times read depends on
/// the machine's zone: the event is the soonest for some reading of the
/// starts that agrees with what is known of each (UTC starts exactly), and
/// its start text, in the local zone, is not stated.
pub fn next_event_from_ics(raw: &str, now_secs: i64, now_nanos: u32) -> (r: Option<CalendarEvent>)
    requires
        i64::MIN / 2 < now_secs < i64::MAX / 2,
    ensures
        exists|placed: Seq<Option<(i64, bool)>>|
            placed_fits(blocks_spec(raw@), placed) && event_of(
                r,
                #[trigger] cands_upto(blocks_spec(raw@), placed, blocks_spec(raw@).len() as int),
                now_secs,
                now_nanos,
            ),
        (forall|i: int| 0 <= i < blocks_spec(raw@).len() ==> !usable(#[trigger] blocks_spec(raw@)[i])) ==> r is None,
        r matches Some(e) ==> e.minutes_until >= 0 && exists|i: int|
            0 <= i < blocks_spec(raw@).len() && usable(#[trigger] blocks_spec(raw@)[i]) && blocks_spec(raw@)[i].summary
                == Some(e.summary@),
{
    let blocks = event_blocks(raw);
    let ghost bv = ends_view(blocks@);
    let ghost mut placed: Seq<Option<(i64, bool)>> = Seq::empty();
    let mut cands: Vec<(i64, String, bool)> = Vec::new();
    let mut k: usize = 0;
    while k < blocks.len()
        invariant
            bv == ends_view(blocks@),
            bv == blocks_spec(raw@),
            k <= blocks.len(),
            placed.len() == k,
            forall|i: int|
                0 <= i < k && usable(#[trigger] bv[i]) ==> (bv[i].start matches Some((np, v)) && dtstart_fits(
                    np,
                    v,
                    placed[i],
                )),
            cands_view(cands@) == cands_upto(bv, placed, k as int),
            forall|c: int| 0 <= c < cands@.len() ==> from_usable(bv, k as int, #[trigger] cands@[c]),
            cands@.len() > 0 ==> exists|i: int| 0 <= i < k && usable(#[trigger] bv[i]),
        decreases blocks.len() - k,
    {
        let b = &blocks[k];
        assert(bv[k as int] == end_view(*b));
        let ghost before = cands@;
        let mut parsed: Option<(i64, bool)> = None;
        if !b.recurring {
            match (&b.summary, &b.start) {
                (Some(s), Some((name_part, value))) => {
                    parsed = parse_dtstart(name_part.as_str(), value.as_str());
                    match parsed {
                        Some((at, all_day)) => {
                            cands.push((at, string_of(&chars_of(s.as_str())), all_day));
                            assert(cands_view(cands@) =~= cands_view(before).push((at, s@, all_day)));
                            assert forall|c: int| 0 <= c < cands@.len() implies from_usable(
                                bv,
                                k + 1,
                                #[trigger] cands@[c],
                            ) by {
                                if c < before.len() {
                                    assert(cands@[c] == before[c]);
                                    assert(from_usable(bv, k as int, before[c]));
                                } else {
                                    assert(usable(bv[k as int]));
                                }
                            }
                        },
                        None => {},
                    }
                },
                _ => {},
            }
        }
        proof {
            let old_placed = placed;
            placed = placed.push(parsed);
            lemma_cands_prefix(bv, placed, old_placed, k as int);
        }
        k = k + 1;
    }
    assert(placed_fits(bv, placed));
    if cands.len() == 0 {
        return None;
    }
    match next_event_among(&cands, now_secs, now_nanos) {
        Some(j) => {
            proof {
                lemma_soonest_in_range(cands_view(cands@), cands@.len() as int, now_secs);
            }
            let (at, summary, all_day) = (cands[j].0, string_of(&chars_of(cands[j].1.as_str())), cands[j].2);
            assert(from_usable(bv, blocks@.len() as int, cands@[j as int]));
            assert(cands_view(cands@)[j as int].0 > now_secs) by {
                lemma_soonest_in_range(cands_view(cands@), cands@.len() as int, now_secs);
            }
            let start = match crate::clock::local_rfc3339(at) {
                Some(t) => t,
                None => string_of(&Vec::new()),
            };
            let m = if i64::MIN / 2 < at && at < i64::MAX / 2 {
                minutes_until(at, now_secs, now_nanos)
            } else {
                0
            };
            let e = CalendarEvent { summary, start, minutes_until: m, all_day };
            assert(event_of(Some(e), cands_upto(bv, placed, bv.len() as int), now_secs, now_nanos));
            Some(e)
        },
        None => None,
    }
}

proof fn lemma_soonest_is_earliest(c: Seq<(i64, Seq<char>, bool)>, n: int, now: i64)
    requires
        0 <= n <= c.len(),
    ensures
        soonest(c, n, now) matches Some(j) ==> 0 <= j < n && c[j].0 > now && forall|k: int|
            0 <= k < n && c[k].0 > now ==> c[j].0 <= c[k].0 && (c[k].0 == c[j].0 ==> j <= k),
        soonest(c, n, now) is None ==> forall|k: int| 0 <= k < n ==> c[k].0 <= now,
    decreases n,
{
    if n > 0 {
        lemma_soonest_is_earliest(c, n - 1, now);
    }
}

/// The next event is the one that starts soonest among those still to
/// start (the first listed of those starting together), and there is none
/// only when every event has already started.
pub proof fn law_next_event_is_the_soonest_to_come(c: Seq<(i64, Seq<char>, bool)>, now: i64)
    ensures
        soonest(c, c.len() as int, now) matches Some(j) ==> 0 <= j < c.len() && c[j].0 > now && forall|k: int|
            0 <= k < c.len() && c[k].0 > now ==> c[j].0 <= c[k].0 && (c[k].0 == c[j].0 ==> j <= k),
        soonest(c, c.len() as int, now) is None <==> forall|k: int| 0 <= k < c.len() ==> c[k].0 <= now,
{
    lemma_soonest_is_earliest(c, c.len() as int, now);
    if forall|k: int| 0 <= k < c.len() ==> c[k].0 <= now {
        if soonest(c, c.len() as int, now) is Some {
            let j = soonest(c, c.len() as int, now)->0;
            assert(c[j].0 > now);
        }
    }
}

proof fn lemma_soonest_in_range(c: Seq<(i64, Seq<char>, bool)>, n: int, now: i64)
    requires
        0 <= n <= c.len(),
    ensures
        soonest(c, n, now) matches Some(j) ==> 0 <= j < n && c[j].0 > now,
    decreases n,
{
    if n > 0 {
        lemma_soonest_in_range(c, n - 1, now);
    }
}

} // verus!
