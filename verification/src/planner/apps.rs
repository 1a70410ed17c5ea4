//! Finding the application the user asked for, and encoding search terms
//! for URLs.
use crate::safety::risk::{opt_view, PlanAction, PlanActionView};
use crate::text::{
    alphanumeric, any_in, ascii_punct, char_vecs_view, chars_of, collapse_whitespace, collapse_ws,
    contains, contains_any, has_suffix, is_alphanumeric, is_ascii_alnum, is_ascii_lower, is_ws,
    lower_chars, lowercase, push_chars, push_str, same, slice, split_once, split_once_spec,
    string_of, strip_suffix, strip_suffix_spec, trim_start, trim_start_vec, whitespace,
    word_list, words,
};
use vstd::string::StringSliceAdditionalSpecFns;
use vstd::utf8::{encode_utf8, is_char_boundary};
use vstd::prelude::*;

verus! {

// ---------------------------------------------------------------------
// Finding the application the user asked for
// ---------------------------------------------------------------------

pub open spec fn kept_for_matching(c: char) -> bool {
    alphanumeric(c) || c == ' '
}

/// The form names are compared in: lower case, letters, digits and single
/// spaces only, so "Code - OSS" and "code oss" compare equal.
pub open spec fn normalize_spec(s: Seq<char>) -> Seq<char> {
    collapse_ws(lowercase(s).filter(|c: char| kept_for_matching(c)))
}

pub fn normalize(s: &str) -> (r: Vec<char>)
    ensures
        r@ == normalize_spec(s@),
{
    let lower = lower_chars(&chars_of(s));
    let mut kept: Vec<char> = Vec::new();
    let mut i: usize = 0;
    while i < lower.len()
        invariant
            i <= lower.len(),
            kept@ == lower@.take(i as int).filter(|c: char| kept_for_matching(c)),
        decreases lower.len() - i,
    {
        let c = lower[i];
        proof {
            reveal(Seq::filter);
            assert(lower@.take(i + 1).drop_last() =~= lower@.take(i as int));
        }
        if is_alphanumeric(c) || c == ' ' {
            kept.push(c);
        }
        i = i + 1;
    }
    assert(lower@.take(lower.len() as int) =~= lower@);
    collapse_whitespace(&kept)
}

/// The binary of a launch command: its first word, after the last `/`.
pub open spec fn binary_name(command: Seq<char>) -> Option<Seq<char>> {
    if words(command).len() > 0 {
        let b = words(command)[0];
        match crate::text::last_pos(b, '/') {
            Some(i) => Some(b.skip(i + 1)),
            None => Some(b),
        }
    } else {
        None
    }
}

/// The first app, from index `k` on, that `pred` accepts.
pub open spec fn first_app(
    apps: Seq<crate::platform::AppEntryView>,
    pred: spec_fn(crate::platform::AppEntryView) -> bool,
    k: int,
) -> Option<int>
    decreases apps.len() - k,
{
    if k < 0 || k >= apps.len() {
        None
    } else if pred(apps[k]) {
        Some(k)
    } else {
        first_app(apps, pred, k + 1)
    }
}

pub open spec fn name_is(s: Seq<char>) -> spec_fn(crate::platform::AppEntryView) -> bool {
    |a: crate::platform::AppEntryView| normalize_spec(a.name) == s
}

pub open spec fn binary_is(s: Seq<char>) -> spec_fn(crate::platform::AppEntryView) -> bool {
    |a: crate::platform::AppEntryView| binary_name(a.command) matches Some(b) && normalize_spec(b) == s
}

pub open spec fn name_starts(s: Seq<char>) -> spec_fn(crate::platform::AppEntryView) -> bool {
    |a: crate::platform::AppEntryView| crate::text::has_prefix(normalize_spec(a.name), s)
}

pub open spec fn name_has_words(s: Seq<char>) -> spec_fn(crate::platform::AppEntryView) -> bool {
    |a: crate::platform::AppEntryView|
        forall|j: int| 0 <= j < words(s).len() ==> crate::text::has_sub(normalize_spec(a.name), #[trigger] words(s)[j])
}

/// The app the user asked for, by ever looser matches: exact name, exact
/// binary, name starting with what was said, name holding every spoken
/// word. Nothing when nothing matches, rather than a guess.
pub open spec fn find_app_spec(spoken: Seq<char>, apps: Seq<crate::platform::AppEntryView>) -> Option<int> {
    let s = normalize_spec(spoken);
    if s.len() == 0 {
        None
    } else if first_app(apps, name_is(s), 0) is Some {
        first_app(apps, name_is(s), 0)
    } else if first_app(apps, binary_is(s), 0) is Some {
        first_app(apps, binary_is(s), 0)
    } else if first_app(apps, name_starts(s), 0) is Some {
        first_app(apps, name_starts(s), 0)
    } else {
        first_app(apps, name_has_words(s), 0)
    }
}

fn binary_name_of(command: &str) -> (r: Option<Vec<char>>)
    ensures
        match binary_name(command@) {
            Some(b) => r matches Some(x) && x@ == b,
            None => r is None,
        },
{
    let ws = word_list(&chars_of(command));
    if ws.len() == 0 {
        return None;
    }
    assert(char_vecs_view(ws@)[0] == ws@[0]@);
    let b = &ws[0];
    proof {
        crate::text::lemma_last_pos(b@, '/');
    }
    match crate::text::rfind_char(b, '/') {
        Some(i) => {
            let r = slice(b, i + 1, b.len());
            assert(r@ =~= b@.skip(i + 1));
            Some(r)
        },
        None => Some(slice(b, 0, b.len())),
    }
}

fn has_all_words(name: &[char], ws: &Vec<Vec<char>>) -> (r: bool)
    ensures
        r == forall|j: int| 0 <= j < ws@.len() ==> crate::text::has_sub(name@, #[trigger] char_vecs_view(ws@)[j]),
{
    let ghost wv = char_vecs_view(ws@);
    let mut k: usize = 0;
    while k < ws.len()
        invariant
            wv == char_vecs_view(ws@),
            k <= ws.len(),
            forall|j: int| 0 <= j < k ==> crate::text::has_sub(name@, #[trigger] wv[j]),
        decreases ws.len() - k,
    {
        assert(wv[k as int] == ws@[k as int]@);
        if !contains(name, &ws[k]) {
            return false;
        }
        k = k + 1;
    }
    true
}

/// Which of the four matches an app meets, for the spoken form `s`.
fn app_matches(a: &crate::platform::AppEntry, s: &Vec<char>, ws: &Vec<Vec<char>>, pass: u8) -> (r: bool)
    requires
        pass < 4,
        char_vecs_view(ws@) == words(s@),
    ensures
        pass == 0 ==> r == name_is(s@)(a@),
        pass == 1 ==> r == binary_is(s@)(a@),
        pass == 2 ==> r == name_starts(s@)(a@),
        pass == 3 ==> r == name_has_words(s@)(a@),
{
    if pass == 1 {
        return match binary_name_of(a.command.as_str()) {
            Some(b) => same(&normalize(string_of(&b).as_str()), s),
            None => false,
        };
    }
    let n = normalize(a.name.as_str());
    if pass == 0 {
        same(&n, s)
    } else if pass == 2 {
        crate::text::starts_with(&n, s)
    } else {
        has_all_words(&n, ws)
    }
}

/// Find the app the user asked for, tolerant of how people speak.
pub fn find_app<'a>(spoken: &str, apps: &'a [crate::platform::AppEntry]) -> (r: Option<&'a crate::platform::AppEntry>)
    ensures
        match find_app_spec(spoken@, crate::platform::apps_view(apps@)) {
            Some(i) => r matches Some(a) && 0 <= i < apps@.len() && *a == apps@[i],
            None => r is None,
        },
{
    let s = normalize(spoken);
    if s.len() == 0 {
        return None;
    }
    let ws = word_list(&s);
    let ghost av = crate::platform::apps_view(apps@);
    let mut pass: u8 = 0;
    while pass < 4
        invariant
            pass <= 4,
            s@ == normalize_spec(spoken@),
            s@.len() > 0,
            char_vecs_view(ws@) == words(s@),
            av == crate::platform::apps_view(apps@),
            pass > 0 ==> first_app(av, name_is(s@), 0) is None,
            pass > 1 ==> first_app(av, binary_is(s@), 0) is None,
            pass > 2 ==> first_app(av, name_starts(s@), 0) is None,
            pass > 3 ==> first_app(av, name_has_words(s@), 0) is None,
        decreases 4 - pass,
    {
        let ghost pred = if pass == 0 {
            name_is(s@)
        } else if pass == 1 {
            binary_is(s@)
        } else if pass == 2 {
            name_starts(s@)
        } else {
            name_has_words(s@)
        };
        let mut i: usize = 0;
        while i < apps.len()
            invariant
                pass < 4,
                i <= apps.len(),
                s@ == normalize_spec(spoken@),
                s@.len() > 0,
                pass > 0 ==> first_app(av, name_is(s@), 0) is None,
                pass > 1 ==> first_app(av, binary_is(s@), 0) is None,
                pass > 2 ==> first_app(av, name_starts(s@), 0) is None,
                char_vecs_view(ws@) == words(s@),
                av == crate::platform::apps_view(apps@),
                pred == (if pass == 0 {
                    name_is(s@)
                } else if pass == 1 {
                    binary_is(s@)
                } else if pass == 2 {
                    name_starts(s@)
                } else {
                    name_has_words(s@)
                }),
                first_app(av, pred, 0) == first_app(av, pred, i as int),
            decreases apps.len() - i,
        {
            assert(av[i as int] == apps@[i as int]@);
            if app_matches(&apps[i], &s, &ws, pass) {
                assert(first_app(av, pred, i as int) == Some(i as int));
                return Some(&apps[i]);
            }
            i = i + 1;
        }
        pass = pass + 1;
    }
    None
}

// ---------------------------------------------------------------------
// Percent-encoding for search URLs
// ---------------------------------------------------------------------

/// Letters, digits and `-_.~` pass through unchanged.
pub open spec fn unreserved(b: u8) -> bool {
    ||| 65 <= b <= 90
    ||| 97 <= b <= 122
    ||| 48 <= b <= 57
    ||| b == 45
    ||| b == 95
    ||| b == 46
    ||| b == 126
}

/// An upper-case hexadecimal digit.
pub open spec fn hex_digit(n: u8) -> char {
    if n < 10 {
        ((48 + n) as u8) as char
    } else {
        ((55 + n) as u8) as char
    }
}

pub open spec fn encode_byte(b: u8) -> Seq<char> {
    if unreserved(b) {
        seq![b as char]
    } else if b == 32 {
        seq!['+']
    } else {
        seq!['%', hex_digit(b / 16), hex_digit(b % 16)]
    }
}

/// The bytes percent-encoded, a space as `+`.
pub open spec fn urlencode_spec(bytes: Seq<u8>) -> Seq<char>
    decreases bytes.len(),
{
    if bytes.len() == 0 {
        Seq::empty()
    } else {
        urlencode_spec(bytes.drop_last()) + encode_byte(bytes.last())
    }
}

fn hex_char(n: u8) -> (c: char)
    requires
        n < 16,
    ensures
        c == hex_digit(n),
{
    if n < 10 {
        (48 + n) as char
    } else {
        (55 + n) as char
    }
}

fn push_encoded(out: &mut Vec<char>, b: u8)
    ensures
        final(out)@ == old(out)@ + encode_byte(b),
{
    if (65 <= b && b <= 90) || (97 <= b && b <= 122) || (48 <= b && b <= 57) || b == 45 || b == 95
        || b == 46 || b == 126 {
        out.push(b as char);
    } else if b == 32 {
        out.push('+');
    } else {
        out.push('%');
        out.push(hex_char(b / 16));
        out.push(hex_char(b % 16));
    }
    assert(final(out)@ =~= old(out)@ + encode_byte(b));
}

/// Percent-encode a search query, byte by byte of its UTF-8.
pub fn urlencode(s: &str) -> (r: String)
    ensures
        r@ == urlencode_spec(s.spec_bytes()),
{
    let bytes = s.as_bytes();
    let mut out: Vec<char> = Vec::new();
    let mut i: usize = 0;
    while i < bytes.len()
        invariant
            i <= bytes.len(),
            bytes@ == s.spec_bytes(),
            out@ == urlencode_spec(bytes@.take(i as int)),
        decreases bytes.len() - i,
    {
        let b = bytes[i];
        assert(bytes@.take(i + 1).drop_last() =~= bytes@.take(i as int));
        push_encoded(&mut out, b);
        i = i + 1;
    }
    assert(bytes@.take(bytes.len() as int) =~= bytes@);
    string_of(&out)
}

} // verus!
