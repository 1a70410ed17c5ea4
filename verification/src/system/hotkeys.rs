//! What a hotkey asks for: each line on the hotkey socket names an intent,
//! as bare text or as a JSON object with an `intent` member.
use crate::json::{field, get, json_of, parse_json, str_of, str_or, Json};
use crate::text::{chars_of, string_of, trim, trim_vec};
use vstd::prelude::*;

verus! {

/// The intent a line names: nothing for a blank line; for a line starting
/// with `{` that reads as JSON, its `intent` text ("unknown" when it has
/// none); otherwise the line, trimmed.
pub open spec fn intent_spec(line: Seq<char>, parsed: Option<Json>) -> Option<Seq<char>> {
    if trim(line).len() == 0 {
        None
    } else if line.len() > 0 && line[0] == '{' {
        match parsed {
            Some(j) => Some(str_or(field(j, "intent"@), "unknown"@)),
            None => Some(trim(line)),
        }
    } else {
        Some(trim(line))
    }
}

pub open spec fn opt_string_view(o: Option<String>) -> Option<Seq<char>> {
    match o {
        Some(s) => Some(s@),
        None => None,
    }
}

/// The intent a line names, given what the line reads as JSON.
pub fn intent_from(line: &str, parsed: Option<&Json>) -> (r: Option<String>)
    ensures
        opt_string_view(r) == intent_spec(line@, crate::system::browser::deref_json(parsed)),
{
    let chars = chars_of(line);
    let trimmed = trim_vec(&chars);
    if trimmed.len() == 0 {
        return None;
    }
    if chars.len() > 0 && chars[0] == '{' {
        if let Some(j) = parsed {
            return match str_of(get(j, "intent")) {
                Some(s) => Some(string_of(&chars_of(s))),
                None => Some(string_of(&chars_of("unknown"))),
            };
        }
    }
    Some(string_of(&trimmed))
}

/// The intent one line on the hotkey socket names.
pub fn hotkey_intent(line: &str) -> (r: Option<String>)
    ensures
        opt_string_view(r) == intent_spec(line@, json_of(line@)),
{
    let parsed = parse_json(line);
    match &parsed {
        Ok(j) => intent_from(line, Some(j)),
        Err(_) => intent_from(line, None),
    }
}

} // verus!
