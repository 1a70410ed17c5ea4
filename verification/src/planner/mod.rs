//! The planner's deterministic side: recognising commands, describing what
//! the user is doing, and deciding what context goes to the language model.
pub mod apps;
pub mod commands;
pub mod prompt;
pub mod when;
pub mod window;

use crate::planner::commands::{action_intent_spec, match_action_intent, say_view};
use crate::platform::{apps_view, AppEntry};
use crate::safety::risk::{steps_of, Plan, PlanAction, PlanActionView};
use crate::text::{
    any_in, char_vecs_view, chars_of, contains_any, lower_chars, lowercase, push_str, same,
    string_of,
};
use vstd::prelude::*;

verus! {

// ---------------------------------------------------------------------
// Questions about the assistant's own instructions
// ---------------------------------------------------------------------

/// Phrases that ask about the assistant's instructions; such questions are
/// answered with a fixed deflection instead of going to the model.
pub open spec fn meta_phrases() -> Seq<Seq<char>> {
    seq![
        "your instructions"@,
        "your system prompt"@,
        "system prompt"@,
        "your rules"@,
        "your guidelines"@,
        "your guidance"@,
        "your principles"@,
        "your programming"@,
        "are you an ai"@,
        "are you a language model"@,
        "language model"@,
        "following rules"@,
        "following instructions"@,
        "what were you told"@,
        "what are you programmed"@,
    ]
}

fn meta_phrases_vec() -> (r: Vec<Vec<char>>)
    ensures
        char_vecs_view(r@) == meta_phrases(),
{
    let v = vec![
        chars_of("your instructions"),
        chars_of("your system prompt"),
        chars_of("system prompt"),
        chars_of("your rules"),
        chars_of("your guidelines"),
        chars_of("your guidance"),
        chars_of("your principles"),
        chars_of("your programming"),
        chars_of("are you an ai"),
        chars_of("are you a language model"),
        chars_of("language model"),
        chars_of("following rules"),
        chars_of("following instructions"),
        chars_of("what were you told"),
        chars_of("what are you programmed"),
    ];
    assert(char_vecs_view(v@) =~= meta_phrases());
    v
}

/// Whether the text asks about the assistant's instructions, in any case.
pub fn is_meta_instruction_question(text: &str) -> (r: bool)
    ensures
        r == any_in(lowercase(text@), meta_phrases()),
{
    let lower = lower_chars(&chars_of(text));
    contains_any(&lower, &meta_phrases_vec())
}

// ---------------------------------------------------------------------
// Where an utterance goes
// ---------------------------------------------------------------------

/// The reply to a question about the assistant's instructions.
pub open spec fn deflection() -> Seq<char> {
    "Just trying to be helpful \u{2014} what do you need?"@
}

/// Where an utterance is sent.
pub enum IntentRoute {
    /// Answered here, without the model: publish this plan.
    Plan(Plan),
    /// Sent to the model, as this user message.
    AskModel(String),
}

/// What the model is told the user said: voice input is marked as such.
pub open spec fn user_message(intent: Seq<char>, source: Seq<char>) -> Seq<char> {
    if source == "voice"@ {
        "[Voice] "@ + intent
    } else {
        intent
    }
}

/// A question about instructions gets the deflection; a clear command its
/// plan; anything else goes to the model.
pub open spec fn route_spec(intent: Seq<char>, source: Seq<char>, apps: Seq<crate::platform::AppEntryView>) -> int {
    if any_in(lowercase(intent), meta_phrases()) {
        0
    } else if action_intent_spec(intent, apps) is Some {
        1
    } else {
        2
    }
}

pub fn say_plan(text: &[char]) -> (p: Plan)
    ensures
        p matches Plan::Object { action, actions } && actions is None && action@ == say_view(text@),
{
    proof {
        reveal_strlit("say");
    }
    let action = PlanAction {
        kind: Some(string_of(&chars_of("say"))),
        target: None,
        command: None,
        op: None,
        text: Some(string_of(text)),
        title: None,
        message: None,
        description: None,
        args: Vec::new(),
    };
    assert(crate::text::strings_view(action.args@) =~= Seq::<Seq<char>>::empty());
    Plan::Object { action, actions: None }
}

/// Decide where an utterance goes. `source` is where it came from
/// ("voice" for speech).
pub fn route_intent(intent: &str, source: &str, apps: &[AppEntry]) -> (r: IntentRoute)
    ensures
        route_spec(intent@, source@, apps_view(apps@)) == 0 ==> (r matches IntentRoute::Plan(p) && (p matches Plan::Object { action, actions } && actions is None && action@ == say_view(deflection()))),
        route_spec(intent@, source@, apps_view(apps@)) == 1 ==> (r matches IntentRoute::Plan(p) && (p matches Plan::List(v) && Some(crate::safety::risk::actions_view(v@)) == action_intent_spec(intent@, apps_view(apps@)))),
        route_spec(intent@, source@, apps_view(apps@)) == 2 ==> (r matches IntentRoute::AskModel(m) && m@ == user_message(intent@, source@)),
{
    if is_meta_instruction_question(intent) {
        return IntentRoute::Plan(say_plan(&chars_of("Just trying to be helpful \u{2014} what do you need?")));
    }
    match match_action_intent(intent, apps) {
        Some(v) => IntentRoute::Plan(Plan::List(v)),
        None => {
            proof {
                reveal_strlit("voice");
            }
            if same(&chars_of(source), &chars_of("voice")) {
                let mut m: Vec<char> = Vec::new();
                push_str(&mut m, "[Voice] ");
                push_str(&mut m, intent);
                IntentRoute::AskModel(string_of(&m))
            } else {
                IntentRoute::AskModel(string_of(&chars_of(intent)))
            }
        },
    }
}

/// What the assistant says back for a worker's reply: the model's answer
/// (or a fallback when it is missing), an apology naming an error, or
/// nothing for a reply of another type.
pub open spec fn reply_text(response_type: Seq<char>, content: Option<Seq<char>>, error: Option<Seq<char>>) -> Option<
    Seq<char>,
> {
    if response_type == "response"@ {
        Some(
            match content {
                Some(c) => c,
                None => "I didn't understand that."@,
            },
        )
    } else if response_type == "error"@ {
        Some(
            "Sorry, I encountered an error: "@ + match error {
                Some(e) => e,
                None => "Unknown worker error"@,
            },
        )
    } else {
        None
    }
}

pub open spec fn str_opt(o: Option<&str>) -> Option<Seq<char>> {
    match o {
        Some(s) => Some(s@),
        None => None,
    }
}

/// The plan for a worker's reply: say its text.
pub fn worker_reply_plan(response_type: &str, content: Option<&str>, error: Option<&str>) -> (r: Option<Plan>)
    ensures
        match reply_text(response_type@, str_opt(content), str_opt(error)) {
            Some(t) => r matches Some(p) && (p matches Plan::Object { action, actions } && actions is None
                && action@ == say_view(t)),
            None => r is None,
        },
{
    let kind = chars_of(response_type);
    proof {
        reveal_strlit("response");
        reveal_strlit("error");
        assert("response"@ != "error"@) by {
            assert("response"@.len() != "error"@.len());
        }
    }
    if same(&kind, &chars_of("response")) {
        let text = match content {
            Some(c) => chars_of(c),
            None => chars_of("I didn't understand that."),
        };
        Some(say_plan(&text))
    } else if same(&kind, &chars_of("error")) {
        let mut t: Vec<char> = Vec::new();
        push_str(&mut t, "Sorry, I encountered an error: ");
        match error {
            Some(e) => push_str(&mut t, e),
            None => push_str(&mut t, "Unknown worker error"),
        }
        Some(say_plan(&t))
    } else {
        None
    }
}

} // verus!
