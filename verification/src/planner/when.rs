//! Time references in speech: "yesterday", "this morning", "last week",
//! and the window of time each one names.
use crate::clock::{at_hour, at_hour_with, midnight_of, offset_ok};
use crate::text::{chars_of, contains, has_sub, lower_chars, lowercase, push_str, string_of};
use vstd::prelude::*;

verus! {

#[derive(Clone, Copy, Debug, PartialEq, Eq, Structural)]
pub enum DayPart {
    Morning,
    Afternoon,
    Evening,
}

/// A period the user asked about, relative to today.
#[derive(Clone, Copy, Debug, PartialEq, Eq, Structural)]
pub enum TimeReference {
    YesterdayPart(DayPart),
    ThisPart(DayPart),
    Yesterday,
    Today,
    LastWeek,
    ThisWeek,
}

pub open spec fn part_name(p: DayPart) -> Seq<char> {
    match p {
        DayPart::Morning => "morning"@,
        DayPart::Afternoon => "afternoon"@,
        DayPart::Evening => "evening"@,
    }
}

/// The hours a part of the day runs between.
pub open spec fn part_hours(p: DayPart) -> (u32, u32) {
    match p {
        DayPart::Morning => (5, 12),
        DayPart::Afternoon => (12, 17),
        DayPart::Evening => (17, 23),
    }
}

pub open spec fn part_at(k: int) -> DayPart {
    if k == 0 {
        DayPart::Morning
    } else if k == 1 {
        DayPart::Afternoon
    } else {
        DayPart::Evening
    }
}

/// "yesterday <part>" or "this <part>", trying the parts of the day in
/// order from the `k`-th.
pub open spec fn part_reference(t: Seq<char>, k: int) -> Option<TimeReference>
    decreases 3 - k,
{
    if k < 0 || k >= 3 {
        None
    } else if has_sub(t, "yesterday "@ + part_name(part_at(k))) {
        Some(TimeReference::YesterdayPart(part_at(k)))
    } else if has_sub(t, "this "@ + part_name(part_at(k))) {
        Some(TimeReference::ThisPart(part_at(k)))
    } else {
        part_reference(t, k + 1)
    }
}

/// The period a lower-cased utterance refers to, if any: a small fixed set
/// of expressions, since a wrong window is worse than none.
pub open spec fn time_reference_spec(t: Seq<char>) -> Option<TimeReference> {
    if part_reference(t, 0) is Some {
        part_reference(t, 0)
    } else if has_sub(t, "yesterday"@) {
        Some(TimeReference::Yesterday)
    } else if has_sub(t, "today"@) || has_sub(t, "so far"@) {
        Some(TimeReference::Today)
    } else if has_sub(t, "last week"@) {
        Some(TimeReference::LastWeek)
    } else if has_sub(t, "this week"@) {
        Some(TimeReference::ThisWeek)
    } else {
        None
    }
}

pub open spec fn label_spec(r: TimeReference) -> Seq<char> {
    match r {
        TimeReference::YesterdayPart(p) => "yesterday "@ + part_name(p),
        TimeReference::ThisPart(p) => "this "@ + part_name(p),
        TimeReference::Yesterday => "yesterday"@,
        TimeReference::Today => "today"@,
        TimeReference::LastWeek => "last week"@,
        TimeReference::ThisWeek => "this week"@,
    }
}

fn part_name_of(p: DayPart) -> (r: &'static str)
    ensures
        r@ == part_name(p),
{
    match p {
        DayPart::Morning => "morning",
        DayPart::Afternoon => "afternoon",
        DayPart::Evening => "evening",
    }
}

fn phrase(lead: &str, p: DayPart) -> (r: Vec<char>)
    ensures
        r@ == lead@ + part_name(p),
{
    let mut v: Vec<char> = Vec::new();
    push_str(&mut v, lead);
    push_str(&mut v, part_name_of(p));
    v
}

/// The period an utterance refers to, if it names one.
pub fn time_reference(text: &str) -> (r: Option<TimeReference>)
    ensures
        r == time_reference_spec(lowercase(text@)),
{
    let t = lower_chars(&chars_of(text));
    let parts = [DayPart::Morning, DayPart::Afternoon, DayPart::Evening];
    let mut k: usize = 0;
    while k < 3
        invariant
            k <= 3,
            t@ == lowercase(text@),
            parts@ == seq![DayPart::Morning, DayPart::Afternoon, DayPart::Evening],
            part_reference(t@, 0) == part_reference(t@, k as int),
        decreases 3 - k,
    {
        let p = parts[k];
        assert(p == part_at(k as int));
        if contains(&t, &phrase("yesterday ", p)) {
            return Some(TimeReference::YesterdayPart(p));
        }
        if contains(&t, &phrase("this ", p)) {
            return Some(TimeReference::ThisPart(p));
        }
        k = k + 1;
    }
    if contains(&t, &chars_of("yesterday")) {
        Some(TimeReference::Yesterday)
    } else if contains(&t, &chars_of("today")) || contains(&t, &chars_of("so far")) {
        Some(TimeReference::Today)
    } else if contains(&t, &chars_of("last week")) {
        Some(TimeReference::LastWeek)
    } else if contains(&t, &chars_of("this week")) {
        Some(TimeReference::ThisWeek)
    } else {
        None
    }
}

impl TimeReference {
    /// How the period is named back to the user: "yesterday morning",
    /// "last week".
    pub fn label(&self) -> (r: String)
        ensures
            r@ == label_spec(*self),
    {
        let v = match self {
            TimeReference::YesterdayPart(p) => phrase("yesterday ", *p),
            TimeReference::ThisPart(p) => phrase("this ", *p),
            TimeReference::Yesterday => chars_of("yesterday"),
            TimeReference::Today => chars_of("today"),
            TimeReference::LastWeek => chars_of("last week"),
            TimeReference::ThisWeek => chars_of("this week"),
        };
        string_of(&v)
    }
}

pub open spec fn day() -> int {
    86400
}

pub open spec fn or_base(o: Option<i64>, base: int) -> int {
    match o {
        Some(x) => x as int,
        None => base,
    }
}

/// The window a period names, in seconds: from today's local midnight
/// `today` and the current instant `now`; for a part of a day, `from_at`
/// and `to_at` are the local instants at its first and last hour that day,
/// and the day's start stands in for either when the zone has no such
/// time. Yesterday is the day before today, a week is seven days back.
pub open spec fn window_spec(r: TimeReference, today: int, now: int, from_at: Option<i64>, to_at: Option<i64>) -> (
    int,
    int,
) {
    match r {
        TimeReference::YesterdayPart(_) => (or_base(from_at, today - day()), or_base(to_at, today - day())),
        TimeReference::ThisPart(_) => (or_base(from_at, today), or_base(to_at, today)),
        TimeReference::Yesterday => (today - day(), today),
        TimeReference::Today => (today, today + day()),
        TimeReference::LastWeek => (today - 7 * day(), today),
        TimeReference::ThisWeek => (today - 7 * day(), now),
    }
}

pub open spec fn in_range(today: int) -> bool {
    i64::MIN + 7 * day() <= today <= i64::MAX - day()
}

/// The start of the day a part of the day falls on.
pub open spec fn part_base(r: TimeReference, today: int) -> int {
    match r {
        TimeReference::YesterdayPart(_) => today - day(),
        _ => today,
    }
}

/// The hours of a part of the day were read on the right day: on the day
/// before today for "yesterday morning" and the like, on today for "this
/// morning" and the like.
pub open spec fn hours_read(r: TimeReference, today: int, from_at: Option<i64>, to_at: Option<i64>) -> bool {
    match r {
        TimeReference::YesterdayPart(p) => (from_at matches Some(x) ==> at_hour(
            today - day(),
            part_hours(p).0 as int,
            x as int,
        )) && (to_at matches Some(y) ==> at_hour(today - day(), part_hours(p).1 as int, y as int)),
        TimeReference::ThisPart(p) => (from_at matches Some(x) ==> at_hour(today, part_hours(p).0 as int, x as int))
            && (to_at matches Some(y) ==> at_hour(today, part_hours(p).1 as int, y as int)),
        _ => true,
    }
}

/// Where the zone's offset stays the same (no clock change around it), a
/// part of the day is read on the day meant: "yesterday morning" runs from
/// 05:00 to 12:00 of the day before today, and so lies between yesterday's
/// and today's midnights; "this morning" runs from 05:00 to 12:00 of today.
pub proof fn law_parts_of_the_day_fall_on_their_day(today: int, o: int, yesterday: bool, p: DayPart, a: int, b: int)
    requires
        offset_ok(o),
        (today + o) % 86400 == 0,
        at_hour_with(if yesterday { today - day() } else { today }, part_hours(p).0 as int, a, o, o),
        at_hour_with(if yesterday { today - day() } else { today }, part_hours(p).1 as int, b, o, o),
    ensures
        a == (if yesterday { today - day() } else { today }) + part_hours(p).0 * 3600,
        b == (if yesterday { today - day() } else { today }) + part_hours(p).1 * 3600,
        yesterday ==> today - day() <= a < b <= today,
        !yesterday ==> today <= a < b <= today + day(),
{
    let base = if yesterday { today - day() } else { today };
    let k = (today + o) / 86400;
    assert(today + o == k * 86400);
    assert(base + o == (if yesterday { k - 1 } else { k }) * 86400);
    assert((base + o) / 86400 == (if yesterday { k - 1 } else { k }));
    assert((base + o) % 3600 == 0);
    let h0 = part_hours(p).0 as int;
    let h1 = part_hours(p).1 as int;
    assert(0 <= h0 < h1 < 24);
    assert(a + o == ((a + o) / 86400) * 86400 + (a + o) % 86400);
    assert(b + o == ((b + o) / 86400) * 86400 + (b + o) % 86400);
}

/// The window a period names.
pub fn time_window(r: TimeReference, today: i64, now: i64, from_at: Option<i64>, to_at: Option<i64>) -> (w: (i64, i64))
    requires
        in_range(today as int),
    ensures
        (w.0 as int, w.1 as int) == window_spec(r, today as int, now as int, from_at, to_at),
{
    let d: i64 = 86400;
    match r {
        TimeReference::YesterdayPart(_) => {
            let base = today - d;
            (
                match from_at {
                    Some(x) => x,
                    None => base,
                },
                match to_at {
                    Some(x) => x,
                    None => base,
                },
            )
        },
        TimeReference::ThisPart(_) => (
            match from_at {
                Some(x) => x,
                None => today,
            },
            match to_at {
                Some(x) => x,
                None => today,
            },
        ),
        TimeReference::Yesterday => (today - d, today),
        TimeReference::Today => (today, today + d),
        TimeReference::LastWeek => (today - 7 * d, today),
        TimeReference::ThisWeek => (today - 7 * d, now),
    }
}

fn hours_of(p: DayPart) -> (r: (u32, u32))
    ensures
        r == part_hours(p),
{
    match p {
        DayPart::Morning => (5, 12),
        DayPart::Afternoon => (12, 17),
        DayPart::Evening => (17, 23),
    }
}

/// The period an utterance refers to, as the instants it runs between
/// (seconds) and its name. Nothing when the utterance names no period, or
/// when today's local midnight cannot be read (a clock reading outside
/// chrono's range included). The clock's reading and the
/// machine's zone decide today's midnight and the hours of a part of the
/// day: the window is the one `window_spec` gives for some such reading.
pub fn parse_time_reference(text: &str) -> (r: Option<(i64, i64, String)>)
    ensures
        time_reference_spec(lowercase(text@)) is None ==> r is None,
        r matches Some((a, b, l)) ==> time_reference_spec(lowercase(text@)) matches Some(tr) && l@
            == label_spec(tr) && match tr {
            TimeReference::Yesterday => b - a == day(),
            TimeReference::Today => b - a == day(),
            TimeReference::LastWeek => b - a == 7 * day(),
            _ => true,
        },
        r matches Some((a, b, _)) ==> time_reference_spec(lowercase(text@)) matches Some(tr) && exists|
            today: int,
            now: int,
            from_at: Option<i64>,
            to_at: Option<i64>,
        | in_range(today) && #[trigger] window_spec(tr, today, now, from_at, to_at) == (a as int, b as int),
        r matches Some((a, b, _)) ==> time_reference_spec(lowercase(text@)) matches Some(tr) && exists|
            today: int,
            now: int,
            from_at: Option<i64>,
            to_at: Option<i64>,
        |
            in_range(today) && midnight_of(now, today) && hours_read(tr, today, from_at, to_at)
                && #[trigger] window_spec(tr, today, now, from_at, to_at) == (a as int, b as int),
{
    let now = crate::clock::now_secs();
    if !crate::clock::clock_accepts(now) {
        return None;
    }
    let today = match crate::clock::local_midnight(now) {
        Some(t) => t,
        None => {
            return None;
        },
    };
    // A midnight chrono can represent is far inside this range.
    if !(i64::MIN + 604800 <= today && today <= i64::MAX - 86400) {
        return None;
    }
    let tr = match time_reference(text) {
        Some(tr) => tr,
        None => {
            return None;
        },
    };
    let (from_at, to_at) = match tr {
        TimeReference::YesterdayPart(p) => {
            let (h0, h1) = hours_of(p);
            (crate::clock::local_with_hour(today - 86400, h0), crate::clock::local_with_hour(today - 86400, h1))
        },
        TimeReference::ThisPart(p) => {
            let (h0, h1) = hours_of(p);
            (crate::clock::local_with_hour(today, h0), crate::clock::local_with_hour(today, h1))
        },
        _ => (None, None),
    };
    let (a, b) = time_window(tr, today, now, from_at, to_at);
    assert(window_spec(tr, today as int, now as int, from_at, to_at) == (a as int, b as int));
    Some((a, b, tr.label()))
}

} // verus!
