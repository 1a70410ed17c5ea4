//! The orb's states, as the interface reports them, and what they look
//! like; and when speech is to be cut off.
use crate::text::{chars_of, i64_text, parse_i64, same, split_once, split_once_spec, trim, trim_vec};
use vstd::prelude::*;

verus! {

#[derive(Clone, Copy, Debug, PartialEq, Eq, Structural)]
pub enum OrbState {
    Idle,
    Listening,
    Thinking,
    Speaking,
    Working,
    Error,
    Asleep,
    /// A short celebration after a plan completes.
    Celebrating,
}

pub open spec fn orb_state_spec(name: Seq<char>) -> OrbState {
    if name == "idle"@ {
        OrbState::Idle
    } else if name == "listening"@ {
        OrbState::Listening
    } else if name == "thinking"@ {
        OrbState::Thinking
    } else if name == "speaking"@ {
        OrbState::Speaking
    } else if name == "working"@ {
        OrbState::Working
    } else if name == "error"@ {
        OrbState::Error
    } else if name == "asleep"@ {
        OrbState::Asleep
    } else if name == "celebrating"@ {
        OrbState::Celebrating
    } else {
        OrbState::Idle
    }
}

/// The orb state an interface state names; an unknown one shows as idle.
pub fn orb_state_from(name: &str) -> (r: OrbState)
    ensures
        r == orb_state_spec(name@),
{
    let n = chars_of(name);
    if same(&n, &chars_of("idle")) {
        OrbState::Idle
    } else if same(&n, &chars_of("listening")) {
        OrbState::Listening
    } else if same(&n, &chars_of("thinking")) {
        OrbState::Thinking
    } else if same(&n, &chars_of("speaking")) {
        OrbState::Speaking
    } else if same(&n, &chars_of("working")) {
        OrbState::Working
    } else if same(&n, &chars_of("error")) {
        OrbState::Error
    } else if same(&n, &chars_of("asleep")) {
        OrbState::Asleep
    } else if same(&n, &chars_of("celebrating")) {
        OrbState::Celebrating
    } else {
        OrbState::Idle
    }
}

/// The orb's colour in each state, as red, green and blue.
pub open spec fn color_spec(s: OrbState) -> (u8, u8, u8) {
    match s {
        OrbState::Idle => (100, 180, 255),
        OrbState::Listening => (255, 100, 100),
        OrbState::Thinking => (255, 200, 50),
        OrbState::Speaking => (50, 255, 150),
        OrbState::Working => (200, 100, 255),
        OrbState::Error => (255, 50, 50),
        OrbState::Asleep => (80, 80, 120),
        OrbState::Celebrating => (255, 215, 0),
    }
}

pub fn state_color(s: OrbState) -> (r: (u8, u8, u8))
    ensures
        r == color_spec(s),
{
    match s {
        OrbState::Idle => (100, 180, 255),
        OrbState::Listening => (255, 100, 100),
        OrbState::Thinking => (255, 200, 50),
        OrbState::Speaking => (50, 255, 150),
        OrbState::Working => (200, 100, 255),
        OrbState::Error => (255, 50, 50),
        OrbState::Asleep => (80, 80, 120),
        OrbState::Celebrating => (255, 215, 0),
    }
}

/// Whether speech is playing after an interface state change: it starts
/// with "speaking" and stops with "idle" or "error"; other states leave
/// it as it was.
pub open spec fn speaking_after_spec(state: Seq<char>, speaking: bool) -> bool {
    if state == "speaking"@ {
        true
    } else if state == "idle"@ || state == "error"@ {
        false
    } else {
        speaking
    }
}

pub fn speaking_after(state: &str, speaking: bool) -> (r: bool)
    ensures
        r == speaking_after_spec(state@, speaking),
{
    let s = chars_of(state);
    if same(&s, &chars_of("speaking")) {
        true
    } else if same(&s, &chars_of("idle")) || same(&s, &chars_of("error")) {
        false
    } else {
        speaking
    }
}

/// The user talking while speech plays cuts the speech off.
pub fn interrupts_speech(kind: crate::models::EventType, speaking: bool) -> (r: bool)
    ensures
        r == (kind == crate::models::EventType::UserIntent && speaking),
{
    kind == crate::models::EventType::UserIntent && speaking
}

/// Where the orb is asked to stand: `x,y` in screen pixels, each side
/// trimmed and read as a signed whole number.
pub open spec fn orb_position_spec(text: Seq<char>) -> Option<(i64, i64)> {
    match split_once_spec(text, ","@) {
        Some((a, b)) => match (i64_text(trim(a)), i64_text(trim(b))) {
            (Some(x), Some(y)) => Some((x, y)),
            _ => None,
        },
        None => None,
    }
}

/// Read a requested orb position; `None` when the text is not `x,y`.
pub fn orb_position(text: &str) -> (r: Option<(i64, i64)>)
    ensures
        r == orb_position_spec(text@),
{
    let c = chars_of(text);
    let comma = chars_of(",");
    match split_once(&c, &comma) {
        Some((a, b)) => {
            let x = parse_i64(&trim_vec(&a));
            let y = parse_i64(&trim_vec(&b));
            match (x, y) {
                (Some(x), Some(y)) => Some((x, y)),
                _ => None,
            }
        },
        None => None,
    }
}

} // verus!
