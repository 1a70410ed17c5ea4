//! Describing the focused window: editors, terminals, anything else.
use crate::safety::risk::{opt_view, PlanAction, PlanActionView};
use crate::text::{
    alphanumeric, any_in, ascii_punct, char_vecs_view, chars_of, collapse_whitespace, collapse_ws,
    contains, contains_any, has_suffix, is_alphanumeric, is_ascii_alnum, is_ascii_lower, is_ws,
    lower_chars, lowercase, push_chars, push_str, same, slice, split_once, split_once_spec,
    string_of, strip_suffix, strip_suffix_spec, trim_start, trim_start_vec, whitespace,
    word_list, words,
};
use vstd::string::StringSliceAdditionalSpecFns;
use vstd::utf8::{encode_utf8, is_char_boundary};
use vstd::prelude::*;

verus! {

// ---------------------------------------------------------------------
// Describing the focused window
// ---------------------------------------------------------------------

/// File extensions that mark a word of a window title as a file name.
pub open spec fn code_extensions() -> Seq<Seq<char>> {
    seq![
        ".rs"@, ".py"@, ".js"@, ".ts"@, ".jsx"@, ".tsx"@, ".go"@, ".java"@, ".c"@, ".cpp"@,
        ".h"@, ".rb"@, ".php"@, ".html"@, ".css"@, ".json"@, ".toml"@, ".yaml"@, ".yml"@,
        ".md"@, ".sh"@, ".lua"@, ".swift"@, ".kt"@, ".cs"@, ".sql"@,
    ]
}

fn code_extensions_vec() -> (r: Vec<Vec<char>>)
    ensures
        char_vecs_view(r@) == code_extensions(),
{
    let v = vec![
        chars_of(".rs"), chars_of(".py"), chars_of(".js"), chars_of(".ts"), chars_of(".jsx"),
        chars_of(".tsx"), chars_of(".go"), chars_of(".java"), chars_of(".c"), chars_of(".cpp"),
        chars_of(".h"), chars_of(".rb"), chars_of(".php"), chars_of(".html"), chars_of(".css"),
        chars_of(".json"), chars_of(".toml"), chars_of(".yaml"), chars_of(".yml"),
        chars_of(".md"), chars_of(".sh"), chars_of(".lua"), chars_of(".swift"), chars_of(".kt"),
        chars_of(".cs"), chars_of(".sql"),
    ];
    assert(char_vecs_view(v@) =~= code_extensions());
    v
}

pub open spec fn has_code_extension(w: Seq<char>) -> bool {
    exists|k: int| 0 <= k < code_extensions().len() && has_suffix(w, #[trigger] code_extensions()[k])
}

/// The first of `ws`, from index `k` on, that ends in a code extension.
pub open spec fn first_code_word(ws: Seq<Seq<char>>, k: int) -> Option<Seq<char>>
    decreases ws.len() - k,
{
    if k < 0 || k >= ws.len() {
        None
    } else if has_code_extension(ws[k]) {
        Some(ws[k])
    } else {
        first_code_word(ws, k + 1)
    }
}

/// The first word of a window title that looks like a file name.
pub open spec fn filename_in_title(title: Seq<char>) -> Option<Seq<char>> {
    first_code_word(words(title), 0)
}

fn ends_with_any(w: &[char], exts: &Vec<Vec<char>>) -> (r: bool)
    ensures
        r == exists|k: int| 0 <= k < exts@.len() && has_suffix(w@, #[trigger] char_vecs_view(exts@)[k]),
{
    let ghost ev = char_vecs_view(exts@);
    let mut k: usize = 0;
    while k < exts.len()
        invariant
            ev == char_vecs_view(exts@),
            k <= exts.len(),
            forall|j: int| 0 <= j < k ==> !has_suffix(w@, #[trigger] ev[j]),
        decreases exts.len() - k,
    {
        assert(ev[k as int] == exts@[k as int]@);
        if crate::text::ends_with(w, &exts[k]) {
            return true;
        }
        k = k + 1;
    }
    false
}

/// The first word of a window title that ends in a code file extension.
pub fn find_filename_in_title(title: &str) -> (r: Option<String>)
    ensures
        match filename_in_title(title@) {
            Some(f) => r matches Some(x) && x@ == f,
            None => r is None,
        },
{
    let ws = word_list(&chars_of(title));
    let exts = code_extensions_vec();
    let ghost wv = char_vecs_view(ws@);
    let mut k: usize = 0;
    while k < ws.len()
        invariant
            wv == char_vecs_view(ws@),
            wv == words(title@),
            char_vecs_view(exts@) == code_extensions(),
            k <= ws.len(),
            first_code_word(wv, 0) == first_code_word(wv, k as int),
        decreases ws.len() - k,
    {
        assert(wv[k as int] == ws@[k as int]@);
        if ends_with_any(&ws[k], &exts) {
            return Some(string_of(&ws[k]));
        }
        k = k + 1;
    }
    None
}

/// Terminal emulators, whose titles show the running command.
pub open spec fn terminal_apps() -> Seq<Seq<char>> {
    seq![
        "kitty"@, "alacritty"@, "foot"@, "wezterm"@, "gnome-terminal"@, "konsole"@, "xterm"@,
        "urxvt"@, "terminator"@,
    ]
}

fn terminal_apps_vec() -> (r: Vec<Vec<char>>)
    ensures
        char_vecs_view(r@) == terminal_apps(),
{
    let v = vec![
        chars_of("kitty"), chars_of("alacritty"), chars_of("foot"), chars_of("wezterm"),
        chars_of("gnome-terminal"), chars_of("konsole"), chars_of("xterm"), chars_of("urxvt"),
        chars_of("terminator"),
    ];
    assert(char_vecs_view(v@) =~= terminal_apps());
    v
}

/// Length of the leading run of non-whitespace characters.
pub open spec fn token_len(s: Seq<char>) -> nat
    decreases s.len(),
{
    if s.len() == 0 || is_ws(s[0]) {
        0
    } else {
        1 + token_len(s.drop_first())
    }
}

pub proof fn lemma_token_len(s: Seq<char>)
    ensures
        token_len(s) <= s.len(),
        forall|i: int| 0 <= i < token_len(s) ==> !is_ws(#[trigger] s[i]),
        token_len(s) < s.len() ==> is_ws(s[token_len(s) as int]),
    decreases s.len(),
{
    if s.len() > 0 && !is_ws(s[0]) {
        lemma_token_len(s.drop_first());
        assert forall|i: int| 0 <= i < token_len(s) implies !is_ws(#[trigger] s[i]) by {
            if i > 0 {
                assert(s[i] == s.drop_first()[i - 1]);
            }
        }
    }
}

pub proof fn lemma_trim_start_len(s: Seq<char>)
    ensures
        trim_start(s).len() <= s.len(),
    decreases s.len(),
{
    if s.len() > 0 && is_ws(s[0]) {
        lemma_trim_start_len(s.drop_first());
    }
}

/// A shell variable assignment's name: upper-case letters, digits and
/// underscores, at least one character.
pub open spec fn env_key(key: Seq<char>) -> bool {
    &&& key.len() > 0
    &&& forall|i: int|
        0 <= i < key.len() ==> (is_ascii_alnum(#[trigger] key[i]) || key[i] == '_') && !is_ascii_lower(key[i])
}

/// `NAME=value`, with a proper variable name before the first `=`.
pub open spec fn env_assignment(token: Seq<char>) -> bool {
    match split_once_spec(token, seq!['=']) {
        Some((key, _)) => env_key(key),
        None => false,
    }
}

/// Leading `NAME=value` tokens dropped from `rest`, which starts with no
/// whitespace; a final assignment with nothing after it is kept.
pub open spec fn strip_env_from(rest: Seq<char>) -> Seq<char>
    decreases rest.len(),
{
    let n = token_len(rest);
    if n == 0 || !env_assignment(rest.take(n as int)) {
        rest
    } else {
        let after = trim_start(rest.skip(n as int));
        if after.len() == 0 {
            rest
        } else {
            proof {
                lemma_token_len(rest);
                lemma_trim_start_len(rest.skip(n as int));
            }
            strip_env_from(after)
        }
    }
}

/// A terminal title without the environment assignments that precede the
/// command: "A=1 B=2 cargo run" reads "cargo run".
pub open spec fn strip_env_prefix_spec(title: Seq<char>) -> Seq<char> {
    strip_env_from(trim_start(title))
}

fn token_len_exec(s: &[char]) -> (n: usize)
    ensures
        n == token_len(s@),
{
    let mut i: usize = 0;
    assert(s@.skip(0) =~= s@);
    while i < s.len() && !whitespace(s[i])
        invariant
            i <= s.len(),
            token_len(s@) == i + token_len(s@.skip(i as int)),
        decreases s.len() - i,
    {
        assert(s@.skip(i as int).drop_first() =~= s@.skip(i + 1));
        i = i + 1;
    }
    i
}

fn is_env_assignment(token: &[char]) -> (r: bool)
    ensures
        r == env_assignment(token@),
{
    let eq = vec!['='];
    assert(eq@ =~= seq!['=']);
    match split_once(token, &eq) {
        Some((key, _)) => {
            assert(split_once_spec(token@, seq!['=']) matches Some((k, _)) && k == key@);
            assert(env_assignment(token@) == env_key(key@));
            if key.len() == 0 {
                return false;
            }
            let mut i: usize = 0;
            while i < key.len()
                invariant
                    env_assignment(token@) == env_key(key@),
                    key@.len() > 0,
                    i <= key.len(),
                    forall|j: int|
                        0 <= j < i ==> (is_ascii_alnum(#[trigger] key@[j]) || key@[j] == '_')
                            && !is_ascii_lower(key@[j]),
                decreases key.len() - i,
            {
                let c = key[i];
                if !((crate::text::ascii_alnum(c) || c == '_') && !crate::text::ascii_lower(c)) {
                    assert(!((is_ascii_alnum(key@[i as int]) || key@[i as int] == '_') && !is_ascii_lower(
                        key@[i as int],
                    )));
                    assert(!env_key(key@));
                    return false;
                }
                i = i + 1;
            }
            true
        },
        None => false,
    }
}

/// Drop leading `NAME=value` assignments from a terminal title, so the
/// command itself survives.
pub fn strip_env_prefix(title: &str) -> (r: String)
    ensures
        r@ == strip_env_prefix_spec(title@),
{
    let mut rest = trim_start_vec(&chars_of(title));
    proof {
        lemma_trim_start_idem(title@);
    }
    loop
        invariant
            strip_env_prefix_spec(title@) == strip_env_from(rest@),
            trim_start(rest@) == rest@,
        decreases rest@.len(),
    {
        let n = token_len_exec(&rest);
        proof {
            lemma_token_len(rest@);
        }
        if n == 0 {
            return string_of(&rest);
        }
        let token = slice(&rest, 0, n);
        assert(token@ =~= rest@.take(n as int));
        if !is_env_assignment(&token) {
            return string_of(&rest);
        }
        let tail = slice(&rest, n, rest.len());
        assert(tail@ =~= rest@.skip(n as int));
        let after = trim_start_vec(&tail);
        if after.len() == 0 {
            return string_of(&rest);
        }
        proof {
            lemma_trim_start_len(tail@);
            lemma_trim_start_idem(tail@);
        }
        rest = after;
    }
}

proof fn lemma_trim_start_idem(s: Seq<char>)
    ensures
        trim_start(trim_start(s)) == trim_start(s),
    decreases s.len(),
{
    if s.len() > 0 && is_ws(s[0]) {
        lemma_trim_start_idem(s.drop_first());
    }
}

// ---------------------------------------------------------------------
// What the user is doing, in a sentence
// ---------------------------------------------------------------------

/// The sentence that tells the model which window the user is in: a known
/// editor names the file and project, a terminal names the command, a
/// title with a file name in it names the file, anything else names the
/// app and title.
pub open spec fn describe_window_spec(app: Seq<char>, title: Seq<char>) -> Seq<char> {
    if app == "antigravity-ide"@ && split_once_spec(title, " - Antigravity IDE - "@) is Some {
        let (workspace, filename) = split_once_spec(title, " - Antigravity IDE - "@)->0;
        "The user is editing "@ + filename + " in the "@ + workspace + " project using Antigravity IDE."@
    } else if app == "code-oss"@ && strip_suffix_spec(title, " - Code - OSS"@) is Some {
        let prefix = strip_suffix_spec(title, " - Code - OSS"@)->0;
        match split_once_spec(prefix, " - "@) {
            Some((filename, workspace)) => "The user is editing "@ + filename + " in the "@ + workspace
                + " project using VS Code."@,
            None => "The user is editing "@ + prefix + " using VS Code."@,
        }
    } else if terminal_apps().contains(app) {
        let cleaned = strip_env_prefix_spec(title);
        if cleaned.len() == 0 {
            "The user is in a terminal ("@ + app + ")."@
        } else {
            "The user is in a terminal ("@ + app + "), running: "@ + cleaned + "."@
        }
    } else if app != "brave-browser"@ && app != "firefox"@ && filename_in_title(title) is Some {
        "The user appears to be editing "@ + filename_in_title(title)->0 + " in "@ + app + "."@
    } else {
        "The user is currently in "@ + app + " \u{2014} \""@ + title + "\"."@
    }
}

/// Describe the focused window for the model.
pub fn describe_active_window(window: &crate::context::WindowInfo) -> (r: String)
    ensures
        r@ == describe_window_spec(window.app_name@, window.window_title@),
{
    let app = chars_of(window.app_name.as_str());
    let title = chars_of(window.window_title.as_str());
    let mut out: Vec<char> = Vec::new();
    if same(&app, &chars_of("antigravity-ide")) {
        match split_once(&title, &chars_of(" - Antigravity IDE - ")) {
            Some((workspace, filename)) => {
                push_str(&mut out, "The user is editing ");
                push_chars(&mut out, &filename);
                push_str(&mut out, " in the ");
                push_chars(&mut out, &workspace);
                push_str(&mut out, " project using Antigravity IDE.");
                return string_of(&out);
            },
            None => {},
        }
    }
    if same(&app, &chars_of("code-oss")) {
        match strip_suffix(&title, &chars_of(" - Code - OSS")) {
            Some(prefix) => {
                push_str(&mut out, "The user is editing ");
                match split_once(&prefix, &chars_of(" - ")) {
                    Some((filename, workspace)) => {
                        push_chars(&mut out, &filename);
                        push_str(&mut out, " in the ");
                        push_chars(&mut out, &workspace);
                        push_str(&mut out, " project using VS Code.");
                    },
                    None => {
                        push_chars(&mut out, &prefix);
                        push_str(&mut out, " using VS Code.");
                    },
                }
                return string_of(&out);
            },
            None => {},
        }
    }
    let terms = terminal_apps_vec();
    if crate::text::contains_word(&terms, &app) {
        let cleaned = chars_of(strip_env_prefix(window.window_title.as_str()).as_str());
        push_str(&mut out, "The user is in a terminal (");
        push_chars(&mut out, &app);
        if cleaned.len() == 0 {
            push_str(&mut out, ").");
        } else {
            push_str(&mut out, "), running: ");
            push_chars(&mut out, &cleaned);
            push_str(&mut out, ".");
        }
        return string_of(&out);
    }
    proof {
        reveal_strlit("brave-browser");
        reveal_strlit("firefox");
    }
    if !same(&app, &chars_of("brave-browser")) && !same(&app, &chars_of("firefox")) {
        match find_filename_in_title(window.window_title.as_str()) {
            Some(filename) => {
                push_str(&mut out, "The user appears to be editing ");
                push_str(&mut out, filename.as_str());
                push_str(&mut out, " in ");
                push_chars(&mut out, &app);
                push_str(&mut out, ".");
                return string_of(&out);
            },
            None => {},
        }
    }
    push_str(&mut out, "The user is currently in ");
    push_chars(&mut out, &app);
    push_str(&mut out, " \u{2014} \"");
    push_chars(&mut out, &title);
    push_str(&mut out, "\".");
    string_of(&out)
}

} // verus!
