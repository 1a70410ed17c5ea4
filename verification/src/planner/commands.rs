//! Commands the planner answers itself, without the language model: system
//! controls, playing, opening and searching.
use crate::planner::apps::{encode_byte, find_app, find_app_spec, normalize_spec, urlencode, urlencode_spec};
use crate::safety::risk::{opt_view, PlanAction, PlanActionView};
use crate::text::{
    alphanumeric, any_in, ascii_punct, char_vecs_view, chars_of, collapse_whitespace, collapse_ws,
    contains, contains_any, has_suffix, is_alphanumeric, is_ascii_alnum, is_ascii_lower, is_ws,
    lower_chars, lowercase, push_chars, push_str, same, slice, split_once, split_once_spec,
    string_of, strip_suffix, strip_suffix_spec, trim_start, trim_start_vec, whitespace,
    word_list, words,
};
use vstd::utf8::encode_utf8;
use vstd::prelude::*;

verus! {

// ---------------------------------------------------------------------
// Plans the planner builds itself
// ---------------------------------------------------------------------

pub open spec fn step_view(
    kind: Seq<char>,
    target: Option<Seq<char>>,
    op: Option<Seq<char>>,
    text: Option<Seq<char>>,
    args: Seq<Seq<char>>,
) -> PlanActionView {
    PlanActionView {
        kind: Some(kind),
        target,
        command: None,
        op,
        text,
        title: None,
        message: None,
        description: None,
        args,
    }
}

/// Speak a line.
pub open spec fn say_view(text: Seq<char>) -> PlanActionView {
    step_view("say"@, None, None, Some(text), Seq::empty())
}

/// Run a system control operation.
pub open spec fn system_view(op: Seq<char>) -> PlanActionView {
    step_view("system"@, None, Some(op), None, Seq::empty())
}

/// Launch an application or open a URL.
pub open spec fn app_view(target: Seq<char>, args: Seq<Seq<char>>) -> PlanActionView {
    step_view("app"@, Some(target), None, None, args)
}

fn step(kind: &str, target: Option<String>, op: Option<String>, text: Option<String>, args: Vec<String>) -> (r:
    PlanAction)
    ensures
        r@ == step_view(kind@, opt_view(target), opt_view(op), opt_view(text), crate::text::strings_view(args@)),
{
    PlanAction {
        kind: Some(string_of(&chars_of(kind))),
        target,
        command: None,
        op,
        text,
        title: None,
        message: None,
        description: None,
        args,
    }
}

fn say_step(text: &[char]) -> (r: PlanAction)
    ensures
        r@ == say_view(text@),
{
    proof {
        reveal_strlit("say");
    }
    let r = step("say", None, None, Some(string_of(text)), Vec::new());
    assert(crate::text::strings_view(Seq::<String>::empty()) =~= Seq::<Seq<char>>::empty());
    r
}

fn system_step(op: &str) -> (r: PlanAction)
    ensures
        r@ == system_view(op@),
{
    let r = step("system", None, Some(string_of(&chars_of(op))), None, Vec::new());
    assert(crate::text::strings_view(Seq::<String>::empty()) =~= Seq::<Seq<char>>::empty());
    r
}

fn app_step(target: &[char], args: Vec<String>) -> (r: PlanAction)
    ensures
        r@ == app_view(target@, crate::text::strings_view(args@)),
{
    step("app", Some(string_of(target)), None, None, args)
}

// ---------------------------------------------------------------------
// Being addressed by name
// ---------------------------------------------------------------------

/// Ways of addressing the assistant at the start of an utterance.
pub open spec fn address_prefixes() -> Seq<Seq<char>> {
    seq!["hey mavis"@, "ok mavis"@, "okay mavis"@, "mavis"@]
}

/// `t` opens with `p`, ignoring ASCII case.
pub open spec fn addressed_by(t: Seq<char>, p: Seq<char>) -> bool {
    &&& t.len() >= p.len()
    &&& forall|i: int| 0 <= i < p.len() ==> crate::text::ascii_to_lower(#[trigger] t[i]) == p[i]
}

/// Leading commas, spaces and full stops removed.
pub open spec fn trim_separators(s: Seq<char>) -> Seq<char>
    decreases s.len(),
{
    if s.len() > 0 && (s[0] == ',' || s[0] == ' ' || s[0] == '.') {
        trim_separators(s.drop_first())
    } else {
        s
    }
}

/// The first form, from the `k`-th on, that `t` opens with.
pub open spec fn address_form(t: Seq<char>, k: int) -> Option<int>
    decreases 4 - k,
{
    if k < 0 || k >= 4 {
        None
    } else if addressed_by(t, address_prefixes()[k]) {
        Some(k)
    } else {
        address_form(t, k + 1)
    }
}

/// The text without a leading "mavis", "hey mavis" and the like, so that
/// "MAVIS, open firefox" reads as "open firefox".
pub open spec fn strip_address_spec(text: Seq<char>) -> Seq<char> {
    let t = trim_start(text);
    match address_form(t, 0) {
        Some(k) => trim_separators(t.skip(address_prefixes()[k].len() as int)),
        None => t,
    }
}

fn address_prefixes_vec() -> (r: Vec<Vec<char>>)
    ensures
        char_vecs_view(r@) == address_prefixes(),
        r@.len() == 4,
{
    let v = vec![chars_of("hey mavis"), chars_of("ok mavis"), chars_of("okay mavis"), chars_of("mavis")];
    assert(char_vecs_view(v@) =~= address_prefixes());
    v
}

fn is_addressed_by(t: &[char], p: &[char]) -> (r: bool)
    ensures
        r == addressed_by(t@, p@),
{
    if t.len() < p.len() {
        return false;
    }
    let mut i: usize = 0;
    while i < p.len()
        invariant
            t.len() >= p.len(),
            i <= p.len(),
            forall|j: int| 0 <= j < i ==> crate::text::ascii_to_lower(#[trigger] t@[j]) == p@[j],
        decreases p.len() - i,
    {
        if crate::text::to_ascii_lower(t[i]) != p[i] {
            return false;
        }
        i = i + 1;
    }
    true
}

fn trim_separators_vec(s: &[char]) -> (r: Vec<char>)
    ensures
        r@ == trim_separators(s@),
{
    let mut i: usize = 0;
    assert(s@.subrange(0, s.len() as int) =~= s@);
    while i < s.len() && (s[i] == ',' || s[i] == ' ' || s[i] == '.')
        invariant
            i <= s.len(),
            trim_separators(s@) == trim_separators(s@.subrange(i as int, s.len() as int)),
        decreases s.len() - i,
    {
        assert(s@.subrange(i as int, s.len() as int).drop_first() =~= s@.subrange(i + 1, s.len() as int));
        i = i + 1;
    }
    slice(s, i, s.len())
}

/// Drop a leading address to the assistant. Forms are compared character
/// by character, so a form whose length would end inside a multi-byte
/// character simply does not match.
pub fn strip_address(text: &str) -> (r: Vec<char>)
    ensures
        r@ == strip_address_spec(text@),
{
    let t = trim_start_vec(&chars_of(text));
    let forms = address_prefixes_vec();
    let ghost fv = char_vecs_view(forms@);
    let mut k: usize = 0;
    while k < 4
        invariant
            fv == char_vecs_view(forms@),
            fv == address_prefixes(),
            forms@.len() == 4,
            t@ == trim_start(text@),
            k <= 4,
            address_form(t@, 0) == address_form(t@, k as int),
        decreases 4 - k,
    {
        assert(fv[k as int] == forms@[k as int]@);
        if is_addressed_by(&t, &forms[k]) {
            let rest = slice(&t, forms[k].len(), t.len());
            assert(rest@ =~= t@.skip(fv[k as int].len() as int));
            return trim_separators_vec(&rest);
        }
        k = k + 1;
    }
    t
}

// ---------------------------------------------------------------------
// System controls by voice
// ---------------------------------------------------------------------

/// The system operations speech can reach, each with its spoken reply.
pub open spec fn system_ops() -> Seq<(Seq<char>, Seq<char>)> {
    seq![
        ("volume_up"@, "Volume up."@),
        ("volume_down"@, "Volume down."@),
        ("volume_mute"@, "Muted."@),
        ("media_play_pause"@, "Done."@),
        ("media_next"@, "Next track."@),
        ("media_previous"@, "Previous track."@),
        ("brightness_up"@, "Brightness up."@),
        ("brightness_down"@, "Brightness down."@),
    ]
}

/// Every phrase that asks for a system operation, with the operation's
/// index in `system_ops`, in order of preference among equal lengths.
pub open spec fn system_phrases() -> Seq<(Seq<char>, int)> {
    seq![
        ("volume up"@, 0), ("turn up the volume"@, 0), ("turn the volume up"@, 0), ("louder"@, 0),
        ("increase the volume"@, 0), ("raise the volume"@, 0),
        ("volume down"@, 1), ("turn down the volume"@, 1), ("turn the volume down"@, 1),
        ("quieter"@, 1), ("decrease the volume"@, 1), ("lower the volume"@, 1),
        ("mute"@, 2), ("unmute"@, 2), ("mute the volume"@, 2), ("mute the sound"@, 2),
        ("pause the music"@, 3), ("resume the music"@, 3), ("play the music"@, 3), ("pause"@, 3),
        ("resume"@, 3), ("pause music"@, 3), ("stop the music"@, 3),
        ("next track"@, 4), ("next song"@, 4), ("skip the song"@, 4), ("skip this song"@, 4),
        ("skip track"@, 4),
        ("previous track"@, 5), ("previous song"@, 5), ("last song"@, 5), ("go back a song"@, 5),
        ("brightness up"@, 6), ("turn up the brightness"@, 6), ("brighter"@, 6),
        ("increase the brightness"@, 6),
        ("brightness down"@, 7), ("turn down the brightness"@, 7), ("dimmer"@, 7), ("darker"@, 7),
        ("decrease the brightness"@, 7), ("dim the screen"@, 7),
    ]
}

/// Openings that make an utterance something other than a system control,
/// even when a control phrase appears in it ("google how to mute a tab").
pub open spec fn overriding_prefixes() -> Seq<Seq<char>> {
    seq![
        "google "@, "search for "@, "look up "@, "open "@, "launch "@, "start "@, "run "@, "play "@,
        "put on "@, "search youtube for "@,
    ]
}

/// What a command is matched on: lower case, the address dropped, trimmed,
/// trailing ASCII punctuation dropped.
pub open spec fn command_text(text: Seq<char>) -> Seq<char> {
    crate::text::trim(crate::text::trim_end_punct(crate::text::trim(strip_address_spec(lowercase(text)))))
}

/// The phrase is the whole command, or stands in it as whole words.
pub open spec fn phrase_matches(t: Seq<char>, p: Seq<char>) -> bool {
    t == p || crate::text::has_sub(" "@ + t + " "@, " "@ + p + " "@)
}

/// Among the first `n` phrases, the longest that matches, the earliest of
/// equally long ones.
pub open spec fn best_phrase(t: Seq<char>, n: int) -> Option<int>
    decreases n,
{
    if n <= 0 {
        None
    } else {
        let prev = best_phrase(t, n - 1);
        let p = system_phrases()[n - 1].0;
        if phrase_matches(t, p) && (prev matches Some(j) ==> p.len() > system_phrases()[j].0.len()) {
            Some(n - 1)
        } else {
            prev
        }
    }
}

/// A system control plan: say the reply, then run the operation.
pub open spec fn system_intent_spec(text: Seq<char>) -> Option<Seq<PlanActionView>> {
    let t = command_text(text);
    if crate::text::starts_with_any(t, overriding_prefixes()) {
        None
    } else {
        match best_phrase(t, system_phrases().len() as int) {
            Some(j) => {
                let (op, spoken) = system_ops()[system_phrases()[j].1];
                Some(seq![say_view(spoken), system_view(op)])
            },
            None => None,
        }
    }
}

fn system_ops_vec() -> (r: Vec<(&'static str, &'static str)>)
    ensures
        r@.len() == system_ops().len(),
        forall|i: int| 0 <= i < r@.len() ==> (#[trigger] r@[i]).0@ == system_ops()[i].0 && r@[i].1@ == system_ops()[i].1,
{
    proof {
        reveal_strlit("volume_up");
        reveal_strlit("Volume up.");
        reveal_strlit("volume_down");
        reveal_strlit("Volume down.");
        reveal_strlit("volume_mute");
        reveal_strlit("Muted.");
        reveal_strlit("media_play_pause");
        reveal_strlit("Done.");
        reveal_strlit("media_next");
        reveal_strlit("Next track.");
        reveal_strlit("media_previous");
        reveal_strlit("Previous track.");
        reveal_strlit("brightness_up");
        reveal_strlit("Brightness up.");
        reveal_strlit("brightness_down");
        reveal_strlit("Brightness down.");
    }
    vec![
        ("volume_up", "Volume up."),
        ("volume_down", "Volume down."),
        ("volume_mute", "Muted."),
        ("media_play_pause", "Done."),
        ("media_next", "Next track."),
        ("media_previous", "Previous track."),
        ("brightness_up", "Brightness up."),
        ("brightness_down", "Brightness down."),
    ]
}

fn system_phrases_vec() -> (r: Vec<(Vec<char>, usize)>)
    ensures
        r@.len() == system_phrases().len(),
        forall|i: int|
            0 <= i < r@.len() ==> (#[trigger] r@[i]).0@ == system_phrases()[i].0 && r@[i].1 as int
                == system_phrases()[i].1,
{
    let v = vec![
        (chars_of("volume up"), 0usize), (chars_of("turn up the volume"), 0), (chars_of("turn the volume up"), 0),
        (chars_of("louder"), 0), (chars_of("increase the volume"), 0), (chars_of("raise the volume"), 0),
        (chars_of("volume down"), 1), (chars_of("turn down the volume"), 1),
        (chars_of("turn the volume down"), 1), (chars_of("quieter"), 1), (chars_of("decrease the volume"), 1),
        (chars_of("lower the volume"), 1),
        (chars_of("mute"), 2), (chars_of("unmute"), 2), (chars_of("mute the volume"), 2),
        (chars_of("mute the sound"), 2),
        (chars_of("pause the music"), 3), (chars_of("resume the music"), 3), (chars_of("play the music"), 3),
        (chars_of("pause"), 3), (chars_of("resume"), 3), (chars_of("pause music"), 3),
        (chars_of("stop the music"), 3),
        (chars_of("next track"), 4), (chars_of("next song"), 4), (chars_of("skip the song"), 4),
        (chars_of("skip this song"), 4), (chars_of("skip track"), 4),
        (chars_of("previous track"), 5), (chars_of("previous song"), 5), (chars_of("last song"), 5),
        (chars_of("go back a song"), 5),
        (chars_of("brightness up"), 6), (chars_of("turn up the brightness"), 6), (chars_of("brighter"), 6),
        (chars_of("increase the brightness"), 6),
        (chars_of("brightness down"), 7), (chars_of("turn down the brightness"), 7), (chars_of("dimmer"), 7),
        (chars_of("darker"), 7), (chars_of("decrease the brightness"), 7), (chars_of("dim the screen"), 7),
    ];
    v
}

fn overriding_prefixes_vec() -> (r: Vec<Vec<char>>)
    ensures
        char_vecs_view(r@) == overriding_prefixes(),
{
    let v = vec![
        chars_of("google "), chars_of("search for "), chars_of("look up "), chars_of("open "),
        chars_of("launch "), chars_of("start "), chars_of("run "), chars_of("play "), chars_of("put on "),
        chars_of("search youtube for "),
    ];
    assert(char_vecs_view(v@) =~= overriding_prefixes());
    v
}

/// The text a command is matched on.
fn command_chars(text: &str) -> (r: Vec<char>)
    ensures
        r@ == command_text(text@),
{
    let lower = string_of(&lower_chars(&chars_of(text)));
    let stripped = strip_address(lower.as_str());
    let t1 = crate::text::trim_vec(&stripped);
    let t2 = crate::text::trim_end_punct_vec(&t1);
    crate::text::trim_vec(&t2)
}

fn phrase_matches_exec(t: &[char], p: &[char]) -> (r: bool)
    ensures
        r == phrase_matches(t@, p@),
{
    if same(t, p) {
        return true;
    }
    let mut padded: Vec<char> = Vec::new();
    push_str(&mut padded, " ");
    push_chars(&mut padded, t);
    push_str(&mut padded, " ");
    let mut needle: Vec<char> = Vec::new();
    push_str(&mut needle, " ");
    push_chars(&mut needle, p);
    push_str(&mut needle, " ");
    contains(&padded, &needle)
}

/// A whole-phrase system command, as a say-and-act plan. Nothing when the
/// utterance opens with another kind of command.
pub fn match_system_intent(text: &str) -> (r: Option<Vec<PlanAction>>)
    ensures
        match system_intent_spec(text@) {
            Some(p) => r matches Some(v) && crate::safety::risk::actions_view(v@) == p,
            None => r is None,
        },
{
    let t = command_chars(text);
    if crate::text::begins_with_any(&t, &overriding_prefixes_vec()) {
        return None;
    }
    let phrases = system_phrases_vec();
    let mut best: Option<(usize, usize)> = None;
    let mut k: usize = 0;
    while k < phrases.len()
        invariant
            k <= phrases.len(),
            phrases@.len() == system_phrases().len(),
            forall|i: int|
                0 <= i < phrases@.len() ==> (#[trigger] phrases@[i]).0@ == system_phrases()[i].0
                    && phrases@[i].1 as int == system_phrases()[i].1,
            match best_phrase(t@, k as int) {
                Some(j) => best matches Some((len, idx)) && idx == j && len == system_phrases()[j].0.len()
                    && 0 <= j < k,
                None => best is None,
            },
        decreases phrases.len() - k,
    {
        let p = &phrases[k].0;
        let better = match best {
            Some((len, _)) => p.len() > len,
            None => true,
        };
        if better && phrase_matches_exec(&t, p) {
            best = Some((p.len(), k));
        }
        k = k + 1;
    }
    match best {
        Some((_, j)) => {
            let ops = system_ops_vec();
            let which = phrases[j].1;
            assert(0 <= which < 8) by {
                assert(system_phrases()[j as int].1 < 8);
            }
            let (op, spoken) = ops[which];
            let mut v: Vec<PlanAction> = Vec::new();
            v.push(say_step(&chars_of(spoken)));
            v.push(system_step(op));
            assert(crate::safety::risk::actions_view(v@) =~= seq![say_view(spoken@), system_view(op@)]);
            Some(v)
        },
        None => None,
    }
}

// ---------------------------------------------------------------------
// Commands: play, open, search
// ---------------------------------------------------------------------

pub open spec fn youtube_prefixes() -> Seq<Seq<char>> {
    seq!["play "@, "put on "@, "search youtube for "@]
}

pub open spec fn open_prefixes() -> Seq<Seq<char>> {
    seq!["open "@, "launch "@, "start "@, "run "@]
}

pub open spec fn search_prefixes() -> Seq<Seq<char>> {
    seq!["google "@, "search for "@, "look up "@]
}

/// Say a line, then open a target.
pub open spec fn say_then_open(spoken: Seq<char>, target: Seq<char>) -> Seq<PlanActionView> {
    seq![say_view(spoken), app_view(target, Seq::empty())]
}

pub open spec fn encoded(q: Seq<char>) -> Seq<char> {
    urlencode_spec(encode_utf8(q))
}

/// "play X", "put on X", "search youtube for X": a YouTube search, from
/// the `k`-th form on.
pub open spec fn youtube_from(t: Seq<char>, k: int) -> Option<Seq<PlanActionView>>
    decreases 3 - k,
{
    if k < 0 || k >= 3 {
        None
    } else {
        match crate::text::strip_prefix_spec(t, youtube_prefixes()[k]) {
            Some(rest) => {
                let query = crate::text::trim(crate::text::trim_end_seq(rest, " on youtube"@));
                if query.len() == 0 {
                    youtube_from(t, k + 1)
                } else {
                    Some(
                        say_then_open(
                            "Searching YouTube for "@ + query + "."@,
                            "https://www.youtube.com/results?search_query="@ + encoded(query),
                        ),
                    )
                }
            },
            None => youtube_from(t, k + 1),
        }
    }
}

/// What an "open" command comes to: a plan, a refusal to guess, or no
/// "open" command at all.
pub enum OpenOutcome {
    Plan(Seq<PlanActionView>),
    Unknown,
    NotOpen,
}

/// The plan that launches an installed app: its command's first word with
/// the rest as arguments.
pub open spec fn launch_view(app: crate::platform::AppEntryView) -> Seq<PlanActionView> {
    let parts = words(app.command);
    let (bin, args) = if parts.len() > 0 {
        (parts[0], parts.skip(1))
    } else {
        (Seq::empty(), Seq::empty())
    };
    seq![say_view("Opening "@ + app.name + "."@), app_view(bin, args)]
}

/// "open X", "launch X", "start X", "run X", from the `k`-th form on: a
/// URL is opened as given, a known app launched, an unknown one not
/// guessed at.
pub open spec fn open_from(t: Seq<char>, apps: Seq<crate::platform::AppEntryView>, k: int) -> OpenOutcome
    decreases 4 - k,
{
    if k < 0 || k >= 4 {
        OpenOutcome::NotOpen
    } else {
        match crate::text::strip_prefix_spec(t, open_prefixes()[k]) {
            Some(rest) => {
                let target = crate::text::trim(rest);
                if target.len() == 0 {
                    open_from(t, apps, k + 1)
                } else if crate::text::has_sub(target, "://"@) {
                    OpenOutcome::Plan(say_then_open("Opening "@ + target + "."@, target))
                } else {
                    match find_app_spec(target, apps) {
                        Some(i) => OpenOutcome::Plan(launch_view(apps[i])),
                        None => OpenOutcome::Unknown,
                    }
                }
            },
            None => open_from(t, apps, k + 1),
        }
    }
}

/// "google X", "search for X", "look up X", from the `k`-th form on.
pub open spec fn search_from(t: Seq<char>, k: int) -> Option<Seq<PlanActionView>>
    decreases 3 - k,
{
    if k < 0 || k >= 3 {
        None
    } else {
        match crate::text::strip_prefix_spec(t, search_prefixes()[k]) {
            Some(rest) => {
                let query = crate::text::trim(rest);
                if query.len() == 0 {
                    search_from(t, k + 1)
                } else {
                    Some(
                        say_then_open(
                            "Searching for "@ + query + "."@,
                            "https://www.google.com/search?q="@ + encoded(query),
                        ),
                    )
                }
            },
            None => search_from(t, k + 1),
        }
    }
}

/// The plan for a clear command, or nothing: then the utterance goes to
/// the model. System controls first, then YouTube, then opening, then web
/// search. Speech never reaches the shell.
pub open spec fn action_intent_spec(text: Seq<char>, apps: Seq<crate::platform::AppEntryView>) -> Option<
    Seq<PlanActionView>,
> {
    let t = command_text(text);
    if system_intent_spec(text) is Some {
        system_intent_spec(text)
    } else if youtube_from(t, 0) is Some {
        youtube_from(t, 0)
    } else {
        match open_from(t, apps, 0) {
            OpenOutcome::Plan(p) => Some(p),
            OpenOutcome::Unknown => None,
            OpenOutcome::NotOpen => search_from(t, 0),
        }
    }
}

fn prefixes_vec(which: u8) -> (r: Vec<Vec<char>>)
    requires
        which < 3,
    ensures
        which == 0 ==> char_vecs_view(r@) == youtube_prefixes() && r@.len() == 3,
        which == 1 ==> char_vecs_view(r@) == open_prefixes() && r@.len() == 4,
        which == 2 ==> char_vecs_view(r@) == search_prefixes() && r@.len() == 3,
{
    if which == 0 {
        let v = vec![chars_of("play "), chars_of("put on "), chars_of("search youtube for ")];
        assert(char_vecs_view(v@) =~= youtube_prefixes());
        v
    } else if which == 1 {
        let v = vec![chars_of("open "), chars_of("launch "), chars_of("start "), chars_of("run ")];
        assert(char_vecs_view(v@) =~= open_prefixes());
        v
    } else {
        let v = vec![chars_of("google "), chars_of("search for "), chars_of("look up ")];
        assert(char_vecs_view(v@) =~= search_prefixes());
        v
    }
}

fn say_then_open_plan(spoken: &[char], target: &[char]) -> (r: Vec<PlanAction>)
    ensures
        crate::safety::risk::actions_view(r@) == say_then_open(spoken@, target@),
{
    let mut v: Vec<PlanAction> = Vec::new();
    v.push(say_step(spoken));
    v.push(app_step(target, Vec::new()));
    assert(crate::text::strings_view(Seq::<String>::empty()) =~= Seq::<Seq<char>>::empty());
    assert(crate::safety::risk::actions_view(v@) =~= say_then_open(spoken@, target@));
    v
}

fn search_plan(lead: &str, query: &[char], url: &str) -> (r: Vec<PlanAction>)
    ensures
        crate::safety::risk::actions_view(r@) == say_then_open(
            lead@ + query@ + "."@,
            url@ + encoded(query@),
        ),
{
    let mut spoken: Vec<char> = Vec::new();
    push_str(&mut spoken, lead);
    push_chars(&mut spoken, query);
    push_str(&mut spoken, ".");
    let enc = urlencode(string_of(query).as_str());
    let mut target: Vec<char> = Vec::new();
    push_str(&mut target, url);
    push_str(&mut target, enc.as_str());
    say_then_open_plan(&spoken, &target)
}

fn youtube_plan(t: &[char]) -> (r: Option<Vec<PlanAction>>)
    ensures
        match youtube_from(t@, 0) {
            Some(p) => r matches Some(v) && crate::safety::risk::actions_view(v@) == p,
            None => r is None,
        },
{
    let forms = prefixes_vec(0);
    let ghost fv = char_vecs_view(forms@);
    let suffix = chars_of(" on youtube");
    let mut k: usize = 0;
    while k < forms.len()
        invariant
            fv == char_vecs_view(forms@),
            fv == youtube_prefixes(),
            forms@.len() == 3,
            suffix@ == " on youtube"@,
            k <= forms.len(),
            youtube_from(t@, 0) == youtube_from(t@, k as int),
        decreases forms.len() - k,
    {
        assert(fv[k as int] == forms@[k as int]@);
        match crate::text::strip_prefix(t, &forms[k]) {
            Some(rest) => {
                let query = crate::text::trim_vec(&crate::text::trim_end_seq_vec(&rest, &suffix));
                if query.len() > 0 {

                    return Some(
                        search_plan(
                            "Searching YouTube for ",
                            &query,
                            "https://www.youtube.com/results?search_query=",
                        ),
                    );
                }
            },
            None => {},
        }
        k = k + 1;
    }
    None
}

fn search_plan_for(t: &[char]) -> (r: Option<Vec<PlanAction>>)
    ensures
        match search_from(t@, 0) {
            Some(p) => r matches Some(v) && crate::safety::risk::actions_view(v@) == p,
            None => r is None,
        },
{
    let forms = prefixes_vec(2);
    let ghost fv = char_vecs_view(forms@);
    let mut k: usize = 0;
    while k < forms.len()
        invariant
            fv == char_vecs_view(forms@),
            fv == search_prefixes(),
            forms@.len() == 3,
            k <= forms.len(),
            search_from(t@, 0) == search_from(t@, k as int),
        decreases forms.len() - k,
    {
        assert(fv[k as int] == forms@[k as int]@);
        match crate::text::strip_prefix(t, &forms[k]) {
            Some(rest) => {
                let query = crate::text::trim_vec(&rest);
                if query.len() > 0 {
                    return Some(search_plan("Searching for ", &query, "https://www.google.com/search?q="));
                }
            },
            None => {},
        }
        k = k + 1;
    }
    None
}

fn launch_plan(app: &crate::platform::AppEntry) -> (r: Vec<PlanAction>)
    ensures
        crate::safety::risk::actions_view(r@) == launch_view(app@),
{
    let parts = word_list(&chars_of(app.command.as_str()));
    let ghost pv = char_vecs_view(parts@);
    let mut bin: Vec<char> = Vec::new();
    let mut args: Vec<String> = Vec::new();
    if parts.len() > 0 {
        assert(pv[0] == parts@[0]@);
        bin = slice(&parts[0], 0, parts[0].len());
        assert(bin@ =~= pv[0]);
        let mut i: usize = 1;
        while i < parts.len()
            invariant
                pv == char_vecs_view(parts@),
                1 <= i <= parts.len(),
                crate::text::strings_view(args@) == pv.subrange(1, i as int),
            decreases parts.len() - i,
        {
            assert(pv[i as int] == parts@[i as int]@);
            let ghost before = args@;
            args.push(string_of(&parts[i]));
            assert(crate::text::strings_view(args@) =~= crate::text::strings_view(before).push(pv[i as int]));
            assert(pv.subrange(1, i + 1) =~= pv.subrange(1, i as int).push(pv[i as int]));
            i = i + 1;
        }
        assert(pv.subrange(1, parts.len() as int) =~= pv.skip(1));
    } else {
        assert(crate::text::strings_view(args@) =~= Seq::<Seq<char>>::empty());
        assert(bin@ =~= Seq::<char>::empty());
    }
    assert(pv == words(app.command@));
    let ghost expected_args = if pv.len() > 0 { pv.skip(1) } else { Seq::<Seq<char>>::empty() };
    let ghost expected_bin = if pv.len() > 0 { pv[0] } else { Seq::<char>::empty() };
    assert(crate::text::strings_view(args@) == expected_args);
    assert(bin@ == expected_bin);
    let mut spoken: Vec<char> = Vec::new();
    push_str(&mut spoken, "Opening ");
    push_str(&mut spoken, app.name.as_str());
    push_str(&mut spoken, ".");
    let mut v: Vec<PlanAction> = Vec::new();
    v.push(say_step(&spoken));
    v.push(app_step(&bin, args));
    assert(crate::safety::risk::actions_view(v@) =~= launch_view(app@));
    v
}

/// What "open X" and its kin come to.
fn open_plan(t: &[char], apps: &[crate::platform::AppEntry]) -> (r: (bool, Option<Vec<PlanAction>>))
    ensures
        match open_from(t@, crate::platform::apps_view(apps@), 0) {
            OpenOutcome::Plan(p) => r.0 && (r.1 matches Some(v) && crate::safety::risk::actions_view(v@) == p),
            OpenOutcome::Unknown => r.0 && r.1 is None,
            OpenOutcome::NotOpen => !r.0 && r.1 is None,
        },
{
    let forms = prefixes_vec(1);
    let ghost fv = char_vecs_view(forms@);
    let ghost av = crate::platform::apps_view(apps@);
    let sep = chars_of("://");
    let mut k: usize = 0;
    while k < forms.len()
        invariant
            fv == char_vecs_view(forms@),
            fv == open_prefixes(),
            forms@.len() == 4,
            av == crate::platform::apps_view(apps@),
            sep@ == "://"@,
            k <= forms.len(),
            open_from(t@, av, 0) == open_from(t@, av, k as int),
        decreases forms.len() - k,
    {
        assert(fv[k as int] == forms@[k as int]@);
        match crate::text::strip_prefix(t, &forms[k]) {
            Some(rest) => {
                let target = crate::text::trim_vec(&rest);
                if target.len() > 0 {
                    if contains(&target, &sep) {
                        let mut spoken: Vec<char> = Vec::new();
                        push_str(&mut spoken, "Opening ");
                        push_chars(&mut spoken, &target);
                        push_str(&mut spoken, ".");
                        return (true, Some(say_then_open_plan(&spoken, &target)));
                    }
                    return match find_app(string_of(&target).as_str(), apps) {
                        Some(app) => (true, Some(launch_plan(app))),
                        None => (true, None),
                    };
                }
            },
            None => {},
        }
        k = k + 1;
    }
    (false, None)
}

/// A plan (a spoken reply and an action) when the utterance is a clear
/// command; nothing otherwise, and the utterance goes to the model.
pub fn match_action_intent(text: &str, apps: &[crate::platform::AppEntry]) -> (r: Option<Vec<PlanAction>>)
    ensures
        match action_intent_spec(text@, crate::platform::apps_view(apps@)) {
            Some(p) => r matches Some(v) && crate::safety::risk::actions_view(v@) == p,
            None => r is None,
        },
{
    let t = command_chars(text);
    match match_system_intent(text) {
        Some(plan) => {
            return Some(plan);
        },
        None => {},
    }
    match youtube_plan(&t) {
        Some(plan) => {
            return Some(plan);
        },
        None => {},
    }
    let (was_open, plan) = open_plan(&t, apps);
    if was_open {
        return plan;
    }
    search_plan_for(&t)
}

// ---------------------------------------------------------------------
// Laws
// ---------------------------------------------------------------------

/// A step that speech may cause: speaking, a system control, or opening an
/// app or a URL.
pub open spec fn voice_step(a: PlanActionView) -> bool {
    a.kind == Some("say"@) || a.kind == Some("system"@) || a.kind == Some("app"@)
}

pub open spec fn voice_steps(p: Seq<PlanActionView>) -> bool {
    forall|i: int| 0 <= i < p.len() ==> voice_step(#[trigger] p[i])
}

proof fn lemma_youtube_voice(t: Seq<char>, k: int)
    ensures
        youtube_from(t, k) matches Some(p) ==> voice_steps(p),
    decreases 3 - k,
{
    if 0 <= k < 3 {
        lemma_youtube_voice(t, k + 1);
    }
}

proof fn lemma_open_voice(t: Seq<char>, apps: Seq<crate::platform::AppEntryView>, k: int)
    ensures
        open_from(t, apps, k) matches OpenOutcome::Plan(p) ==> voice_steps(p),
    decreases 4 - k,
{
    if 0 <= k < 4 {
        lemma_open_voice(t, apps, k + 1);
    }
}

proof fn lemma_search_voice(t: Seq<char>, k: int)
    ensures
        search_from(t, k) matches Some(p) ==> voice_steps(p),
    decreases 3 - k,
{
    if 0 <= k < 3 {
        lemma_search_voice(t, k + 1);
    }
}

/// An utterance that opens with an explicit action ("google …", "open …",
/// "play …") is never read as a system control, whatever control phrase
/// it holds: "google how to mute a tab" searches.
pub proof fn law_explicit_actions_are_not_system_control(text: Seq<char>)
    requires
        crate::text::starts_with_any(command_text(text), overriding_prefixes()),
    ensures
        system_intent_spec(text) is None,
{
}

/// Speech never reaches the shell: every plan the planner builds from an
/// utterance only speaks, runs a system control, or opens an app or a URL.
pub proof fn law_speech_never_reaches_the_shell(text: Seq<char>, apps: Seq<crate::platform::AppEntryView>)
    ensures
        action_intent_spec(text, apps) matches Some(p) ==> voice_steps(p),
{
    let t = command_text(text);
    lemma_youtube_voice(t, 0);
    lemma_open_voice(t, apps, 0);
    lemma_search_voice(t, 0);
}

} // verus!
