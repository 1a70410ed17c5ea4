//! What is worth remembering of a conversation, how to search it, and how
//! long each kind of memory is kept.
use crate::text::{
    ascii_alnum, char_vecs_view, chars_of, contains_any, has_suffix, is_ascii_alnum, lower_chars,
    lowercase, push_chars, push_str, same, starts_with_any, string_of, trim, trim_end,
    trim_end_punct, trim_end_punct_vec, trim_end_vec, trim_vec, word_list, words, any_in,
};
use vstd::prelude::*;

verus! {

/// One remembered utterance.
#[derive(Clone, Debug, PartialEq, Eq)]
pub struct Memory {
    pub text: String,
    /// "user" or "mavis".
    pub role: String,
    pub timestamp: String,
    pub importance: i64,
}

/// Words too common to narrow a search.
pub open spec fn stopwords() -> Seq<Seq<char>> {
    seq![
        "the"@, "a"@, "an"@, "is"@, "are"@, "was"@, "were"@, "do"@, "did"@, "does"@, "what"@,
        "when"@, "where"@, "who"@, "how"@, "why"@, "i"@, "you"@, "me"@, "my"@, "your"@, "we"@,
        "it"@, "that"@, "this"@, "of"@, "to"@, "in"@, "on"@, "for"@, "and"@, "or"@, "about"@,
        "tell"@, "can"@, "with"@,
    ]
}

fn stopwords_vec() -> (r: Vec<Vec<char>>)
    ensures
        char_vecs_view(r@) == stopwords(),
{
    let v = vec![
        chars_of("the"), chars_of("a"), chars_of("an"), chars_of("is"), chars_of("are"),
        chars_of("was"), chars_of("were"), chars_of("do"), chars_of("did"), chars_of("does"),
        chars_of("what"), chars_of("when"), chars_of("where"), chars_of("who"), chars_of("how"),
        chars_of("why"), chars_of("i"), chars_of("you"), chars_of("me"), chars_of("my"),
        chars_of("your"), chars_of("we"), chars_of("it"), chars_of("that"), chars_of("this"),
        chars_of("of"), chars_of("to"), chars_of("in"), chars_of("on"), chars_of("for"),
        chars_of("and"), chars_of("or"), chars_of("about"), chars_of("tell"), chars_of("can"),
        chars_of("with"),
    ];
    assert(char_vecs_view(v@) =~= stopwords());
    v
}

/// Phrases where the user states something durable about themselves.
pub open spec fn self_fact_markers() -> Seq<Seq<char>> {
    seq![
        "my name is"@, "call me"@, "i work"@, "i use"@, "i prefer"@, "i like"@, "i hate"@,
        "i'm working on"@, "i am working on"@, "remember that"@, "don't forget"@, "i always"@,
        "i usually"@, "my project"@, "my setup"@, "i live"@,
    ]
}

fn self_fact_markers_vec() -> (r: Vec<Vec<char>>)
    ensures
        char_vecs_view(r@) == self_fact_markers(),
{
    let v = vec![
        chars_of("my name is"), chars_of("call me"), chars_of("i work"), chars_of("i use"),
        chars_of("i prefer"), chars_of("i like"), chars_of("i hate"), chars_of("i'm working on"),
        chars_of("i am working on"), chars_of("remember that"), chars_of("don't forget"),
        chars_of("i always"), chars_of("i usually"), chars_of("my project"), chars_of("my setup"),
        chars_of("i live"),
    ];
    assert(char_vecs_view(v@) =~= self_fact_markers());
    v
}

/// Openings that make an utterance a question.
pub open spec fn question_openers() -> Seq<Seq<char>> {
    seq![
        "what"@, "when"@, "where"@, "who"@, "how"@, "why"@, "is "@, "are "@, "do "@, "did "@,
        "can "@,
    ]
}

fn question_openers_vec() -> (r: Vec<Vec<char>>)
    ensures
        char_vecs_view(r@) == question_openers(),
{
    let v = vec![
        chars_of("what"), chars_of("when"), chars_of("where"), chars_of("who"), chars_of("how"),
        chars_of("why"), chars_of("is "), chars_of("are "), chars_of("do "), chars_of("did "),
        chars_of("can "),
    ];
    assert(char_vecs_view(v@) =~= question_openers());
    v
}

// ---------------------------------------------------------------------
// Searching
// ---------------------------------------------------------------------

/// Everything but ASCII letters and digits becomes a space.
pub open spec fn term_char(c: char) -> char {
    if is_ascii_alnum(c) {
        c
    } else {
        ' '
    }
}

/// The runs of ASCII letters and digits in the lower-cased text.
pub open spec fn raw_terms(raw: Seq<char>) -> Seq<Seq<char>> {
    words(lowercase(raw).map_values(|c: char| term_char(c)))
}

pub open spec fn useful_term(w: Seq<char>) -> bool {
    w.len() > 2 && !stopwords().contains(w)
}

/// The first eight useful terms, each quoted.
pub open spec fn fts_terms(raw: Seq<char>) -> Seq<Seq<char>> {
    let kept = raw_terms(raw).filter(|w: Seq<char>| useful_term(w));
    let first = if kept.len() > 8 {
        kept.take(8)
    } else {
        kept
    };
    first.map_values(|w: Seq<char>| "\""@ + w + "\""@)
}

/// A full-text query for arbitrary speech: its plain terms, quoted and
/// joined by OR, so no character of speech can act as query syntax.
/// Nothing when no term is left.
pub open spec fn fts_query_spec(raw: Seq<char>) -> Option<Seq<char>> {
    if fts_terms(raw).len() == 0 {
        None
    } else {
        Some(crate::text::sep_join(fts_terms(raw), " OR "@))
    }
}

/// The past summaries to search when the intent is not a time reference:
/// only when recalling the user's words found nothing (`found` is how many
/// were found, `None` when recall failed), by the intent's full-text query.
pub open spec fn fallback_search_spec(found: Option<usize>, intent: Seq<char>) -> Option<Seq<char>> {
    if found == Some(0usize) {
        fts_query_spec(intent)
    } else {
        None
    }
}

pub fn fallback_search(found: Option<usize>, intent: &str) -> (r: Option<String>)
    ensures
        match fallback_search_spec(found, intent@) {
            Some(q) => r matches Some(s) && s@ == q,
            None => r is None,
        },
{
    if found == Some(0usize) {
        build_fts_query(intent)
    } else {
        None
    }
}

/// Turn arbitrary speech into a valid full-text MATCH expression.
pub fn build_fts_query(raw: &str) -> (r: Option<String>)
    ensures
        match fts_query_spec(raw@) {
            Some(q) => r matches Some(s) && s@ == q,
            None => r is None,
        },
{
    let lower = lower_chars(&chars_of(raw));
    let mut mapped: Vec<char> = Vec::new();
    let mut i: usize = 0;
    while i < lower.len()
        invariant
            i <= lower.len(),
            mapped@ == lower@.take(i as int).map_values(|c: char| term_char(c)),
        decreases lower.len() - i,
    {
        let c = lower[i];
        mapped.push(if ascii_alnum(c) { c } else { ' ' });
        assert(lower@.take(i + 1).map_values(|c: char| term_char(c)) =~= lower@.take(i as int).map_values(
            |c: char| term_char(c),
        ).push(term_char(c)));
        i = i + 1;
    }
    assert(lower@.take(lower.len() as int) =~= lower@);
    let ws = word_list(&mapped);
    let stops = stopwords_vec();
    let ghost wv = char_vecs_view(ws@);
    let ghost pred = |w: Seq<char>| useful_term(w);
    let mut kept: Vec<Vec<char>> = Vec::new();
    let mut k: usize = 0;
    while k < ws.len()
        invariant
            wv == char_vecs_view(ws@),
            wv == raw_terms(raw@),
            char_vecs_view(stops@) == stopwords(),
            pred == (|w: Seq<char>| useful_term(w)),
            k <= ws.len(),
            char_vecs_view(kept@) == wv.take(k as int).filter(pred),
        decreases ws.len() - k,
    {
        assert(wv[k as int] == ws@[k as int]@);
        proof {
            reveal(Seq::filter);
            assert(wv.take(k + 1).drop_last() =~= wv.take(k as int));
            assert(wv.take(k + 1).last() == wv[k as int]);
            assert(wv.take(k + 1).filter(pred) == (if pred(wv[k as int]) {
                wv.take(k as int).filter(pred).push(wv[k as int])
            } else {
                wv.take(k as int).filter(pred)
            }));
        }
        if ws[k].len() > 2 && !crate::text::contains_word(&stops, &ws[k]) {
            let ghost before = kept@;
            kept.push(slice_all(&ws[k]));
            assert(char_vecs_view(kept@) =~= char_vecs_view(before).push(wv[k as int]));
        }
        k = k + 1;
    }
    assert(wv.take(ws.len() as int) =~= wv);
    let ghost kv = char_vecs_view(kept@);
    let ghost first = if kv.len() > 8 { kv.take(8) } else { kv };
    if kept.len() == 0 {
        return None;
    }
    let n = if kept.len() > 8 { 8 } else { kept.len() };
    let ghost terms = first.map_values(|w: Seq<char>| "\""@ + w + "\""@);
    let mut out: Vec<char> = Vec::new();
    let mut j: usize = 0;
    while j < n
        invariant
            kv == char_vecs_view(kept@),
            n <= kept.len(),
            n == first.len(),
            first == (if kv.len() > 8 { kv.take(8) } else { kv }),
            terms == first.map_values(|w: Seq<char>| "\""@ + w + "\""@),
            j <= n,
            out@ == crate::text::sep_join(terms.take(j as int), " OR "@),
        decreases n - j,
    {
        if j > 0 {
            push_str(&mut out, " OR ");
        }
        assert(kv[j as int] == kept@[j as int]@);
        assert(terms[j as int] == "\""@ + kept@[j as int]@ + "\""@);
        push_str(&mut out, "\"");
        push_chars(&mut out, &kept[j]);
        push_str(&mut out, "\"");
        assert(terms.take(j + 1).drop_last() =~= terms.take(j as int));
        if j == 0 {
            assert(out@ =~= crate::text::sep_join(terms.take(1), " OR "@));
        }
        j = j + 1;
    }
    assert(terms.take(n as int) =~= terms);
    Some(string_of(&out))
}

fn slice_all(v: &Vec<char>) -> (r: Vec<char>)
    ensures
        r@ == v@,
{
    let r = crate::text::slice(v, 0, v.len());
    assert(r@ =~= v@);
    r
}

// ---------------------------------------------------------------------
// Importance
// ---------------------------------------------------------------------

/// How worth remembering an utterance is, from 1 to 10: what the assistant
/// said 2; a stated fact or preference 9; a question 3; a short command 1;
/// anything else 5.
pub open spec fn importance_spec(role: Seq<char>, text: Seq<char>) -> i64 {
    let t = lowercase(text);
    if role != "user"@ {
        2
    } else if any_in(t, self_fact_markers()) {
        9
    } else if (trim_end(text).len() > 0 && trim_end(text).last() == '?') || starts_with_any(
        trim_end_punct(t),
        question_openers(),
    ) {
        3
    } else if words(t).len() <= 3 {
        1
    } else {
        5
    }
}

/// Rate how worth remembering an utterance is.
pub fn score_importance(role: &str, text: &str) -> (r: i64)
    ensures
        r == importance_spec(role@, text@),
        1 <= r <= 9,
{
    proof {
        reveal_strlit("user");
    }
    let t = lower_chars(&chars_of(text));
    if !same(&chars_of(role), &chars_of("user")) {
        return 2;
    }
    if contains_any(&t, &self_fact_markers_vec()) {
        return 9;
    }
    let trimmed = trim_end_punct_vec(&t);
    let tail = trim_end_vec(&chars_of(text));
    let ends_q = tail.len() > 0 && tail[tail.len() - 1] == '?';
    if ends_q || crate::text::begins_with_any(&trimmed, &question_openers_vec()) {
        return 3;
    }
    if word_list(&t).len() <= 3 {
        return 1;
    }
    5
}

/// What gets stored of an utterance: its trimmed text and importance, or
/// nothing for blank text or an importance under 2 (one-shot commands and
/// the like would only dilute later searches).
pub open spec fn recorded_spec(role: Seq<char>, text: Seq<char>) -> Option<(Seq<char>, i64)> {
    let t = trim(text);
    if t.len() == 0 || importance_spec(role, t) < 2 {
        None
    } else {
        Some((t, importance_spec(role, t)))
    }
}

/// Decide what of an utterance the recall store keeps.
pub fn memory_to_record(role: &str, text: &str) -> (r: Option<(String, i64)>)
    ensures
        match recorded_spec(role@, text@) {
            Some((t, i)) => r matches Some((s, j)) && s@ == t && j == i,
            None => r is None,
        },
{
    let t = string_of(&trim_vec(&chars_of(text)));
    if t.as_str().as_bytes().len() == 0 {
        proof {
            vstd::utf8::encode_utf8_valid_utf8(t@);
            assert(t@.len() > 0 ==> vstd::utf8::encode_utf8(t@).len() > 0) by {
                if t@.len() > 0 {
                    vstd::utf8::char_is_scalar(t@[0]);
                }
            }
        }
        return None;
    }
    let importance = score_importance(role, t.as_str());
    if importance < 2 {
        return None;
    }
    Some((t, importance))
}

// ---------------------------------------------------------------------
// Retention
// ---------------------------------------------------------------------

/// How long memories are kept: up to each importance, so many days.
/// Importance 8 and above (stated facts and preferences) never expires.
pub open spec fn retention_policy() -> Seq<(i64, i64)> {
    seq![(2, 7), (4, 30), (7, 90)]
}

pub open spec fn day_secs() -> int {
    86400
}

/// Whether a memory of this importance, stored at `stored` (seconds), is
/// removed by a purge at `now`: some bucket covers its importance and it
/// is older than that bucket's cutoff.
pub open spec fn purged(importance: i64, stored: int, now: int) -> bool {
    exists|k: int|
        0 <= k < 3 && importance <= (#[trigger] retention_policy()[k]).0 && stored < now
            - retention_policy()[k].1 * day_secs()
}

/// The purge's rules at `now`: for each bucket, the highest importance it
/// covers and the instant (seconds) before which such memories go.
pub fn purge_cutoffs(now: i64) -> (r: Vec<(i64, i64)>)
    requires
        now >= i64::MIN + 90 * 86400,
    ensures
        r@.len() == 3,
        forall|k: int|
            0 <= k < 3 ==> (#[trigger] r@[k]).0 == retention_policy()[k].0 && r@[k].1 == now
                - retention_policy()[k].1 * day_secs(),
{
    vec![(2, now - 7 * 86400), (4, now - 30 * 86400), (7, now - 90 * 86400)]
}

/// Stated facts and preferences (importance 8 and up) are never purged,
/// however old.
pub proof fn law_facts_are_kept_forever(importance: i64, stored: int, now: int)
    requires
        importance >= 8,
    ensures
        !purged(importance, stored, now),
{
}

/// What the user states of themselves is kept for good, even when it is
/// put as a question ("can you remember that my sister's birthday is on
/// May 3?"): a user utterance holding a self-fact marker scores 9, and so
/// is never purged, whatever else it holds. Only what the user says scores
/// that high: the assistant's own replies score 2.
pub proof fn law_stated_facts_outrank_everything(role: Seq<char>, text: Seq<char>, stored: int, now: int)
    ensures
        role == "user"@ && any_in(lowercase(text), self_fact_markers()) ==> importance_spec(role, text) == 9
            && !purged(importance_spec(role, text), stored, now),
        role != "user"@ ==> importance_spec(role, text) == 2,
        role == "user"@ && !any_in(lowercase(text), self_fact_markers()) ==> importance_spec(role, text) < 8,
{
}

/// Less important memories go no later than more important ones: whatever
/// a purge removes, it also removes of anything older and less important.
pub proof fn law_retention_grows_with_importance(a: i64, b: i64, stored_a: int, stored_b: int, now: int)
    requires
        a <= b,
        stored_a <= stored_b,
        purged(b, stored_b, now),
    ensures
        purged(a, stored_a, now),
{
    let k = choose|k: int|
        0 <= k < 3 && b <= (#[trigger] retention_policy()[k]).0 && stored_b < now - retention_policy()[k].1
            * day_secs();
    assert(0 <= k < 3 && a <= retention_policy()[k].0 && stored_a < now - retention_policy()[k].1 * day_secs());
}

} // verus!
