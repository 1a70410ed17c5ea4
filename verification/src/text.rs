//! Character-level text handling shared by every parser in the crate.
//!
//! Text is carried as `Vec<char>` inside the library and specified over
//! `Seq<char>`; `String` appears only at the public edges.
use vstd::prelude::*;

verus! {

// ---------------------------------------------------------------------
// Character classes
// ---------------------------------------------------------------------

/// Unicode `White_Space`, the set `char::is_whitespace` tests for.
pub open spec fn is_ws(c: char) -> bool {
    let u = c as u32;
    ||| 0x09 <= u <= 0x0D
    ||| u == 0x20
    ||| u == 0x85
    ||| u == 0xA0
    ||| u == 0x1680
    ||| 0x2000 <= u <= 0x200A
    ||| u == 0x2028
    ||| u == 0x2029
    ||| u == 0x202F
    ||| u == 0x205F
    ||| u == 0x3000
}

pub open spec fn is_digit(c: char) -> bool {
    '0' <= c <= '9'
}

pub open spec fn is_ascii_lower(c: char) -> bool {
    'a' <= c <= 'z'
}

pub open spec fn is_ascii_upper(c: char) -> bool {
    'A' <= c <= 'Z'
}

pub open spec fn is_ascii_alpha(c: char) -> bool {
    is_ascii_lower(c) || is_ascii_upper(c)
}

pub open spec fn is_ascii_alnum(c: char) -> bool {
    is_ascii_alpha(c) || is_digit(c)
}

/// ASCII punctuation: `!` to `/`, `:` to `@`, `[` to `` ` ``, `{` to `~`.
pub open spec fn is_ascii_punct(c: char) -> bool {
    let u = c as u32;
    ||| 0x21 <= u <= 0x2F
    ||| 0x3A <= u <= 0x40
    ||| 0x5B <= u <= 0x60
    ||| 0x7B <= u <= 0x7E
}

pub fn whitespace(c: char) -> (b: bool)
    ensures
        b == is_ws(c),
{
    let u = c as u32;
    (0x09 <= u && u <= 0x0D) || u == 0x20 || u == 0x85 || u == 0xA0 || u == 0x1680 || (0x2000
        <= u && u <= 0x200A) || u == 0x2028 || u == 0x2029 || u == 0x202F || u == 0x205F || u
        == 0x3000
}

pub fn digit(c: char) -> (b: bool)
    ensures
        b == is_digit(c),
{
    '0' <= c && c <= '9'
}

pub fn ascii_lower(c: char) -> (b: bool)
    ensures
        b == is_ascii_lower(c),
{
    'a' <= c && c <= 'z'
}

pub fn ascii_upper(c: char) -> (b: bool)
    ensures
        b == is_ascii_upper(c),
{
    'A' <= c && c <= 'Z'
}

pub fn ascii_alpha(c: char) -> (b: bool)
    ensures
        b == is_ascii_alpha(c),
{
    ascii_lower(c) || ascii_upper(c)
}

pub fn ascii_alnum(c: char) -> (b: bool)
    ensures
        b == is_ascii_alnum(c),
{
    ascii_alpha(c) || digit(c)
}

pub fn ascii_punct(c: char) -> (b: bool)
    ensures
        b == is_ascii_punct(c),
{
    let u = c as u32;
    (0x21 <= u && u <= 0x2F) || (0x3A <= u && u <= 0x40) || (0x5B <= u && u <= 0x60) || (0x7B
        <= u && u <= 0x7E)
}

/// What `char::is_alphanumeric` says of a character: alphabetic or numeric
/// in the Unicode sense.
pub uninterp spec fn alphanumeric(c: char) -> bool;

/// What `char::is_alphabetic` says of a character: the Unicode `Alphabetic`
/// property.
pub uninterp spec fn alphabetic(c: char) -> bool;

/// `char::is_alphanumeric`. On ASCII it accepts exactly the letters and
/// digits.
#[verifier::external_body]
pub(crate) fn is_alphanumeric(c: char) -> (r: bool)
    ensures
        r == alphanumeric(c),
        (c as u32) < 128 ==> (r <==> is_ascii_alnum(c)),
{
    c.is_alphanumeric()
}

/// `char::is_alphabetic`. On ASCII it accepts exactly the letters.
#[verifier::external_body]
pub(crate) fn is_alphabetic(c: char) -> (r: bool)
    ensures
        r == alphabetic(c),
        (c as u32) < 128 ==> (r <==> is_ascii_alpha(c)),
{
    c.is_alphabetic()
}

// ---------------------------------------------------------------------
// Ordering text
// ---------------------------------------------------------------------

/// Lexicographic order on text by character code, the order of `str`.
pub open spec fn lex_le(a: Seq<char>, b: Seq<char>) -> bool
    decreases a.len(),
{
    if a.len() == 0 {
        true
    } else if b.len() == 0 {
        false
    } else if a[0] != b[0] {
        (a[0] as u32) < (b[0] as u32)
    } else {
        lex_le(a.drop_first(), b.drop_first())
    }
}

pub proof fn lemma_lex_total(a: Seq<char>, b: Seq<char>)
    ensures
        lex_le(a, b) || lex_le(b, a),
    decreases a.len(),
{
    if a.len() > 0 && b.len() > 0 {
        if a[0] == b[0] {
            lemma_lex_total(a.drop_first(), b.drop_first());
        } else {
            vstd::utf8::char_u32_cast(a[0], a[0] as u32);
            vstd::utf8::char_u32_cast(b[0], b[0] as u32);
        }
    }
}

pub proof fn lemma_lex_antisymmetric(a: Seq<char>, b: Seq<char>)
    requires
        lex_le(a, b),
        lex_le(b, a),
    ensures
        a == b,
    decreases a.len(),
{
    if a.len() > 0 && b.len() > 0 {
        if a[0] != b[0] {
            vstd::utf8::char_u32_cast(a[0], a[0] as u32);
            vstd::utf8::char_u32_cast(b[0], b[0] as u32);
        } else {
            lemma_lex_antisymmetric(a.drop_first(), b.drop_first());
            assert(a =~= seq![a[0]] + a.drop_first());
            assert(b =~= seq![b[0]] + b.drop_first());
        }
    }
}

pub fn lex_le_exec(a: &[char], b: &[char]) -> (r: bool)
    ensures
        r == lex_le(a@, b@),
{
    let mut i: usize = 0;
    assert(a@.skip(0) =~= a@);
    assert(b@.skip(0) =~= b@);
    while i < a.len()
        invariant
            i <= a.len(),
            i <= b.len(),
            a@.take(i as int) == b@.take(i as int),
            lex_le(a@, b@) == lex_le(a@.skip(i as int), b@.skip(i as int)),
        decreases a.len() - i,
    {
        if i >= b.len() {
            assert(b@.skip(i as int).len() == 0);
            return false;
        }
        assert(a@.skip(i as int)[0] == a@[i as int]);
        assert(b@.skip(i as int)[0] == b@[i as int]);
        if a[i] != b[i] {
            return (a[i] as u32) < (b[i] as u32);
        }
        assert(a@.skip(i as int).drop_first() =~= a@.skip(i + 1));
        assert(b@.skip(i as int).drop_first() =~= b@.skip(i + 1));
        assert(a@.take(i + 1) =~= a@.take(i as int).push(a@[i as int]));
        assert(b@.take(i + 1) =~= b@.take(i as int).push(b@[i as int]));
        i = i + 1;
    }
    assert(a@.skip(i as int).len() == 0);
    true
}

pub open spec fn lex_lt(a: Seq<char>, b: Seq<char>) -> bool {
    lex_le(a, b) && a != b
}

pub proof fn lemma_lex_trans(a: Seq<char>, b: Seq<char>, c: Seq<char>)
    requires
        lex_le(a, b),
        lex_le(b, c),
    ensures
        lex_le(a, c),
    decreases a.len(),
{
    if a.len() > 0 && b.len() > 0 && c.len() > 0 {
        if a[0] == b[0] && b[0] == c[0] {
            lemma_lex_trans(a.drop_first(), b.drop_first(), c.drop_first());
        }
    }
}

/// Every element before every later one, none twice.
pub open spec fn strictly_sorted(s: Seq<Seq<char>>) -> bool {
    forall|i: int, j: int| 0 <= i < j < s.len() ==> lex_lt(#[trigger] s[i], #[trigger] s[j])
}

/// The sorted list of the distinct texts of `s`.
pub open spec fn sorted_set(s: Seq<Seq<char>>) -> Seq<Seq<char>> {
    choose|r: Seq<Seq<char>>| strictly_sorted(r) && r.to_set() == s.to_set()
}

/// Two strictly sorted lists of the same texts are the same list.
pub proof fn lemma_sorted_unique(r1: Seq<Seq<char>>, r2: Seq<Seq<char>>)
    requires
        strictly_sorted(r1),
        strictly_sorted(r2),
        r1.to_set() == r2.to_set(),
    ensures
        r1 == r2,
    decreases r1.len(),
{
    if r1.len() == 0 {
        if r2.len() > 0 {
            assert(r2.to_set().contains(r2[0]));
        }
        assert(r1 =~= r2);
    } else {
        assert(r1.to_set().contains(r1[0]));
        assert(r2.len() > 0);
        assert(r2.to_set().contains(r2[0]));
        let j = choose|j: int| 0 <= j < r2.len() && r2[j] == r1[0];
        let i = choose|i: int| 0 <= i < r1.len() && r1[i] == r2[0];
        if j > 0 {
            assert(lex_lt(r2[0], r2[j]));
            if i > 0 {
                assert(lex_lt(r1[0], r1[i]));
                lemma_lex_antisymmetric(r1[0], r2[0]);
            }
        }
        assert(r1[0] == r2[0]);
        let t1 = r1.drop_first();
        let t2 = r2.drop_first();
        assert(strictly_sorted(t1)) by {
            assert forall|a: int, b: int| 0 <= a < b < t1.len() implies lex_lt(#[trigger] t1[a], #[trigger] t1[b]) by {
                assert(t1[a] == r1[a + 1] && t1[b] == r1[b + 1]);
            }
        }
        assert(strictly_sorted(t2)) by {
            assert forall|a: int, b: int| 0 <= a < b < t2.len() implies lex_lt(#[trigger] t2[a], #[trigger] t2[b]) by {
                assert(t2[a] == r2[a + 1] && t2[b] == r2[b + 1]);
            }
        }
        assert(t1.to_set() =~= t2.to_set()) by {
            assert forall|e: Seq<char>| t1.to_set().contains(e) <==> t2.to_set().contains(e) by {
                if t1.contains(e) {
                    let a = choose|a: int| 0 <= a < t1.len() && t1[a] == e;
                    assert(r1[a + 1] == e);
                    assert(lex_lt(r1[0], r1[a + 1]));
                    assert(r2.to_set().contains(e));
                    let b = choose|b: int| 0 <= b < r2.len() && r2[b] == e;
                    if b == 0 {
                        assert(e == r1[0]);
                    }
                    assert(t2[b - 1] == e);
                }
                if t2.contains(e) {
                    let a = choose|a: int| 0 <= a < t2.len() && t2[a] == e;
                    assert(r2[a + 1] == e);
                    assert(lex_lt(r2[0], r2[a + 1]));
                    assert(r1.to_set().contains(e));
                    let b = choose|b: int| 0 <= b < r1.len() && r1[b] == e;
                    if b == 0 {
                        assert(e == r2[0]);
                    }
                    assert(t1[b - 1] == e);
                }
            }
        }
        lemma_sorted_unique(t1, t2);
        assert(r1 =~= seq![r1[0]] + t1);
        assert(r2 =~= seq![r2[0]] + t2);
    }
}

/// The distinct texts of `v`, in order: what sorting and then removing
/// adjacent duplicates gives.
pub fn sorted_unique(v: &Vec<Vec<char>>) -> (r: Vec<Vec<char>>)
    ensures
        strictly_sorted(char_vecs_view(r@)),
        char_vecs_view(r@).to_set() == char_vecs_view(v@).to_set(),
        char_vecs_view(r@) == sorted_set(char_vecs_view(v@)),
{
    let ghost vv = char_vecs_view(v@);
    let mut r: Vec<Vec<char>> = Vec::new();
    let mut k: usize = 0;
    while k < v.len()
        invariant
            vv == char_vecs_view(v@),
            k <= v.len(),
            strictly_sorted(char_vecs_view(r@)),
            char_vecs_view(r@).to_set() == vv.take(k as int).to_set(),
        decreases v.len() - k,
    {
        let x = &v[k];
        assert(vv[k as int] == x@);
        let ghost rv = char_vecs_view(r@);
        // First position whose element is not below x.
        let mut p: usize = 0;
        while p < r.len() && !lex_le_exec(x, &r[p])
            invariant
                rv == char_vecs_view(r@),
                p <= r.len(),
                forall|j: int| 0 <= j < p ==> lex_lt(#[trigger] rv[j], x@),
            decreases r.len() - p,
        {
            assert(rv[p as int] == r@[p as int]@);
            proof {
                lemma_lex_total(x@, rv[p as int]);
            }
            p = p + 1;
        }
        if p < r.len() {
            assert(rv[p as int] == r@[p as int]@);
        }
        let dup = p < r.len() && same(&r[p], x);
        if !dup {
            let item = slice(x, 0, x.len());
            assert(item@ =~= x@);
            r.insert(p, item);
            let ghost nv = char_vecs_view(r@);
            assert(nv =~= rv.take(p as int).push(x@) + rv.skip(p as int));
            assert forall|i: int, j: int| 0 <= i < j < nv.len() implies lex_lt(#[trigger] nv[i], #[trigger] nv[j]) by {
                if j == p {
                    assert(nv[i] == rv[i]);
                } else if i == p {
                    assert(nv[j] == rv[j - 1]);
                    assert(lex_le(x@, rv[p as int]));
                    if j - 1 > p {
                        assert(lex_lt(rv[p as int], rv[j - 1]));
                        lemma_lex_trans(x@, rv[p as int], rv[j - 1]);
                        if x@ == rv[j - 1] {
                            lemma_lex_antisymmetric(x@, rv[p as int]);
                        }
                    } else {
                        if x@ == rv[p as int] {
                        }
                    }
                } else if i < p && j < p {
                    assert(nv[i] == rv[i] && nv[j] == rv[j]);
                } else if i < p && j > p {
                    assert(nv[i] == rv[i] && nv[j] == rv[j - 1]);
                } else {
                    assert(nv[i] == rv[i - 1] && nv[j] == rv[j - 1]);
                }
            }
            assert(nv.to_set() =~= rv.to_set().insert(x@)) by {
                assert forall|e: Seq<char>| nv.to_set().contains(e) <==> rv.to_set().insert(x@).contains(e) by {
                    if nv.contains(e) {
                        let i = choose|i: int| 0 <= i < nv.len() && nv[i] == e;
                        if i < p {
                            assert(rv[i] == e);
                        } else if i > p {
                            assert(rv[i - 1] == e);
                        }
                    }
                    if rv.contains(e) {
                        let i = choose|i: int| 0 <= i < rv.len() && rv[i] == e;
                        if i < p {
                            assert(nv[i] == e);
                        } else {
                            assert(nv[i + 1] == e);
                        }
                    }
                    if e == x@ {
                        assert(nv[p as int] == e);
                    }
                }
            }
        } else {
            assert(rv.to_set().contains(x@)) by {
                assert(rv[p as int] == x@);
            }
            assert(rv.to_set().insert(x@) =~= rv.to_set());
        }
        assert(vv.take(k + 1) =~= vv.take(k as int).push(x@));
        proof {
            let t1 = vv.take(k + 1);
            let t0 = vv.take(k as int);
            assert forall|e: Seq<char>| t1.to_set().contains(e) <==> t0.to_set().insert(x@).contains(e) by {
                if t1.contains(e) {
                    let i = choose|i: int| 0 <= i < t1.len() && #[trigger] t1[i] == e;
                    if i < k {
                        assert(t0[i] == e);
                    }
                }
                if t0.contains(e) {
                    let i = choose|i: int| 0 <= i < t0.len() && #[trigger] t0[i] == e;
                    assert(t1[i] == e);
                }
                if e == x@ {
                    assert(t1[k as int] == e);
                }
            }
            assert(t1.to_set() =~= t0.to_set().insert(x@));
        }
        k = k + 1;
    }
    assert(vv.take(v.len() as int) =~= vv);
    proof {
        let rv = char_vecs_view(r@);
        let c = sorted_set(vv);
        assert(strictly_sorted(c) && c.to_set() == vv.to_set());
        lemma_sorted_unique(rv, c);
    }
    r
}

// ---------------------------------------------------------------------
// Conversions at the String edge
// ---------------------------------------------------------------------

/// The characters of a string slice, in order.
pub fn chars_of(s: &str) -> (v: Vec<char>)
    ensures
        v@ == s@,
{
    let mut v: Vec<char> = Vec::new();
    for c in it: s.chars()
        invariant
            v@ == it.seq().take(it.index() as int),
    {
        v.push(c);
    }
    v
}

/// `String::push`: appends one character.
#[verifier::external_body]
fn string_push(s: &mut String, c: char)
    ensures
        final(s)@ == old(s)@.push(c),
{
    s.push(c);
}

/// A `String` holding exactly the given characters.
pub fn string_of(v: &[char]) -> (s: String)
    ensures
        s@ == v@,
{
    let mut s = String::new();
    let mut i: usize = 0;
    while i < v.len()
        invariant
            i <= v.len(),
            s@ == v@.take(i as int),
        decreases v.len() - i,
    {
        string_push(&mut s, v[i]);
        assert(v@.take(i + 1) =~= v@.take(i as int).push(v@[i as int]));
        i = i + 1;
    }
    assert(v@.take(v.len() as int) =~= v@);
    s
}

// ---------------------------------------------------------------------
// Slices, comparison, search
// ---------------------------------------------------------------------

/// A copy of `s[from..to]`.
pub fn slice(s: &[char], from: usize, to: usize) -> (r: Vec<char>)
    requires
        from <= to <= s.len(),
    ensures
        r@ == s@.subrange(from as int, to as int),
{
    let mut r: Vec<char> = Vec::new();
    let mut i: usize = from;
    while i < to
        invariant
            from <= i <= to <= s.len(),
            r@ == s@.subrange(from as int, i as int),
        decreases to - i,
    {
        r.push(s[i]);
        assert(s@.subrange(from as int, i + 1) =~= s@.subrange(from as int, i as int).push(
            s@[i as int],
        ));
        i = i + 1;
    }
    r
}

/// Whether `p` occurs in `s` starting at index `i`.
pub open spec fn occurs_at(s: Seq<char>, p: Seq<char>, i: int) -> bool {
    0 <= i && i + p.len() <= s.len() && s.subrange(i, i + p.len()) == p
}

pub open spec fn has_sub(s: Seq<char>, p: Seq<char>) -> bool {
    exists|i: int| occurs_at(s, p, i)
}

pub proof fn lemma_has_sub_left(a: Seq<char>, b: Seq<char>, t: Seq<char>)
    requires
        has_sub(a, t),
    ensures
        has_sub(a + b, t),
{
    let i = choose|i: int| occurs_at(a, t, i);
    assert((a + b).subrange(i, i + t.len()) =~= a.subrange(i, i + t.len()));
    assert(occurs_at(a + b, t, i));
}

pub proof fn lemma_has_sub_right(a: Seq<char>, b: Seq<char>, t: Seq<char>)
    requires
        has_sub(b, t),
    ensures
        has_sub(a + b, t),
{
    let i = choose|i: int| occurs_at(b, t, i);
    assert((a + b).subrange(a.len() + i, a.len() + i + t.len()) =~= b.subrange(i, i + t.len()));
    assert(occurs_at(a + b, t, a.len() + i));
}

pub proof fn lemma_has_sub_self(t: Seq<char>)
    ensures
        has_sub(t, t),
{
    assert(t.subrange(0, t.len() as int) =~= t);
    assert(occurs_at(t, t, 0));
}

pub proof fn lemma_has_sub_trans(a: Seq<char>, b: Seq<char>, t: Seq<char>)
    requires
        has_sub(a, b),
        has_sub(b, t),
    ensures
        has_sub(a, t),
{
    let i = choose|i: int| occurs_at(a, b, i);
    let j = choose|j: int| occurs_at(b, t, j);
    assert(a.subrange(i + j, i + j + t.len()) =~= b.subrange(j, j + t.len()));
    assert(occurs_at(a, t, i + j));
}

pub open spec fn has_prefix(s: Seq<char>, p: Seq<char>) -> bool {
    occurs_at(s, p, 0)
}

pub open spec fn has_suffix(s: Seq<char>, p: Seq<char>) -> bool {
    occurs_at(s, p, s.len() - p.len())
}

pub open spec fn has_char(s: Seq<char>, c: char) -> bool {
    exists|i: int| 0 <= i < s.len() && s[i] == c
}

pub fn same(a: &[char], b: &[char]) -> (r: bool)
    ensures
        r == (a@ == b@),
{
    if a.len() != b.len() {
        return false;
    }
    let mut i: usize = 0;
    while i < a.len()
        invariant
            a.len() == b.len(),
            i <= a.len(),
            forall|j: int| 0 <= j < i ==> a@[j] == b@[j],
        decreases a.len() - i,
    {
        if a[i] != b[i] {
            return false;
        }
        i = i + 1;
    }
    assert(a@ =~= b@);
    true
}

pub fn matches_at(s: &[char], p: &[char], i: usize) -> (r: bool)
    ensures
        r == occurs_at(s@, p@, i as int),
{
    if i > s.len() || p.len() > s.len() - i {
        return false;
    }
    let mut k: usize = 0;
    while k < p.len()
        invariant
            i + p.len() <= s.len(),
            k <= p.len(),
            forall|j: int| 0 <= j < k ==> s@[i + j] == p@[j],
        decreases p.len() - k,
    {
        if s[i + k] != p[k] {
            assert(s@.subrange(i as int, i + p.len())[k as int] != p@[k as int]);
            return false;
        }
        k = k + 1;
    }
    assert(s@.subrange(i as int, i + p.len()) =~= p@);
    true
}

pub fn starts_with(s: &[char], p: &[char]) -> (r: bool)
    ensures
        r == has_prefix(s@, p@),
{
    matches_at(s, p, 0)
}

pub fn ends_with(s: &[char], p: &[char]) -> (r: bool)
    ensures
        r == has_suffix(s@, p@),
{
    if p.len() > s.len() {
        return false;
    }
    matches_at(s, p, s.len() - p.len())
}

/// Index of the first occurrence of `p` in `s` at or after `from`.
pub open spec fn find_spec(s: Seq<char>, p: Seq<char>, from: int) -> Option<int>
    decreases s.len() + 1 - from,
{
    if from < 0 || from + p.len() > s.len() {
        None
    } else if occurs_at(s, p, from) {
        Some(from)
    } else {
        find_spec(s, p, from + 1)
    }
}

/// The first-occurrence search finds the first occurrence.
pub proof fn lemma_find_spec(s: Seq<char>, p: Seq<char>, from: int)
    requires
        0 <= from,
    ensures
        match find_spec(s, p, from) {
            Some(i) => from <= i && occurs_at(s, p, i) && forall|j: int|
                from <= j < i ==> !occurs_at(s, p, j),
            None => forall|j: int| from <= j ==> !occurs_at(s, p, j),
        },
    decreases s.len() + 1 - from,
{
    if from + p.len() > s.len() {
    } else if occurs_at(s, p, from) {
    } else {
        lemma_find_spec(s, p, from + 1);
    }
}

pub open spec fn opt_int(o: Option<usize>) -> Option<int> {
    match o {
        Some(i) => Some(i as int),
        None => None,
    }
}

pub fn find_from(s: &[char], p: &[char], from: usize) -> (r: Option<usize>)
    ensures
        opt_int(r) == find_spec(s@, p@, from as int),
        match r {
            Some(i) => from <= i && occurs_at(s@, p@, i as int) && forall|j: int|
                from <= j < i ==> !occurs_at(s@, p@, j),
            None => forall|j: int| from <= j ==> !occurs_at(s@, p@, j),
        },
{
    proof {
        lemma_find_spec(s@, p@, from as int);
    }
    if p.len() > s.len() || from > s.len() - p.len() {
        return None;
    }
    let last = s.len() - p.len();
    let mut i: usize = from;
    while i <= last
        invariant
            from <= i,
            last == s.len() - p.len(),
            find_spec(s@, p@, from as int) == find_spec(s@, p@, i as int),
        decreases last + 1 - i,
    {
        if matches_at(s, p, i) {
            proof {
                lemma_find_spec(s@, p@, from as int);
            }
            return Some(i);
        }
        if i == last {
            assert(find_spec(s@, p@, i + 1) == None::<int>);
            proof {
                lemma_find_spec(s@, p@, from as int);
            }
            return None;
        }
        i = i + 1;
    }
    None
}

pub fn find(s: &[char], p: &[char]) -> (r: Option<usize>)
    ensures
        opt_int(r) == find_spec(s@, p@, 0),
        match r {
            Some(i) => occurs_at(s@, p@, i as int) && forall|j: int|
                0 <= j < i ==> !occurs_at(s@, p@, j),
            None => !has_sub(s@, p@),
        },
{
    find_from(s, p, 0)
}

pub fn contains(s: &[char], p: &[char]) -> (r: bool)
    ensures
        r == has_sub(s@, p@),
{
    find(s, p).is_some()
}

/// Index of the first `c` in `s`.
pub fn find_char(s: &[char], c: char) -> (r: Option<usize>)
    ensures
        match r {
            Some(i) => i < s.len() && s@[i as int] == c && forall|j: int| 0 <= j < i ==> s@[j] != c,
            None => !has_char(s@, c),
        },
{
    let mut i: usize = 0;
    while i < s.len()
        invariant
            i <= s.len(),
            forall|j: int| 0 <= j < i ==> s@[j] != c,
        decreases s.len() - i,
    {
        if s[i] == c {
            return Some(i);
        }
        i = i + 1;
    }
    None
}

/// Index of the last `c` in `s`.
pub open spec fn last_pos(s: Seq<char>, c: char) -> Option<int>
    decreases s.len(),
{
    if s.len() == 0 {
        None
    } else if s.last() == c {
        Some(s.len() - 1)
    } else {
        last_pos(s.drop_last(), c)
    }
}

pub proof fn lemma_last_pos(s: Seq<char>, c: char)
    ensures
        match last_pos(s, c) {
            Some(i) => 0 <= i < s.len() && s[i] == c && forall|j: int| i < j < s.len() ==> s[j] != c,
            None => !has_char(s, c),
        },
    decreases s.len(),
{
    if s.len() > 0 && s.last() != c {
        lemma_last_pos(s.drop_last(), c);
        assert forall|j: int| 0 <= j < s.len() - 1 implies s[j] == s.drop_last()[j] by {}
    }
}

pub fn rfind_char(s: &[char], c: char) -> (r: Option<usize>)
    ensures
        opt_int(r) == last_pos(s@, c),
{
    let mut i: usize = s.len();
    assert(s@.take(s.len() as int) =~= s@);
    while i > 0
        invariant
            i <= s.len(),
            last_pos(s@, c) == last_pos(s@.take(i as int), c),
        decreases i,
    {
        if s[i - 1] == c {
            return Some(i - 1);
        }
        assert(s@.take(i as int).drop_last() =~= s@.take(i - 1));
        i = i - 1;
    }
    None
}

// ---------------------------------------------------------------------
// Trimming
// ---------------------------------------------------------------------

/// `s` without leading whitespace.
pub open spec fn trim_start(s: Seq<char>) -> Seq<char>
    decreases s.len(),
{
    if s.len() > 0 && is_ws(s[0]) {
        trim_start(s.drop_first())
    } else {
        s
    }
}

/// `s` without trailing whitespace.
pub open spec fn trim_end(s: Seq<char>) -> Seq<char>
    decreases s.len(),
{
    if s.len() > 0 && is_ws(s.last()) {
        trim_end(s.drop_last())
    } else {
        s
    }
}

pub open spec fn trim(s: Seq<char>) -> Seq<char> {
    trim_end(trim_start(s))
}

/// Number of leading whitespace characters.
pub fn lead_ws(s: &[char]) -> (n: usize)
    ensures
        n <= s.len(),
        trim_start(s@) == s@.subrange(n as int, s.len() as int),
{
    let mut i: usize = 0;
    assert(s@.subrange(0, s.len() as int) =~= s@);
    while i < s.len() && whitespace(s[i])
        invariant
            i <= s.len(),
            trim_start(s@) == trim_start(s@.subrange(i as int, s.len() as int)),
        decreases s.len() - i,
    {
        assert(s@.subrange(i as int, s.len() as int).drop_first() =~= s@.subrange(
            i + 1,
            s.len() as int,
        ));
        i = i + 1;
    }
    i
}

/// Length of `s` once trailing whitespace is dropped.
pub fn trail_ws_end(s: &[char], from: usize) -> (n: usize)
    requires
        from <= s.len(),
    ensures
        from <= n <= s.len(),
        trim_end(s@.subrange(from as int, s.len() as int)) == s@.subrange(from as int, n as int),
{
    let mut i: usize = s.len();
    while i > from && whitespace(s[i - 1])
        invariant
            from <= i <= s.len(),
            trim_end(s@.subrange(from as int, s.len() as int)) == trim_end(
                s@.subrange(from as int, i as int),
            ),
        decreases i,
    {
        assert(s@.subrange(from as int, i as int).drop_last() =~= s@.subrange(
            from as int,
            i - 1,
        ));
        i = i - 1;
    }
    i
}

pub fn trim_start_vec(s: &[char]) -> (r: Vec<char>)
    ensures
        r@ == trim_start(s@),
{
    let n = lead_ws(s);
    slice(s, n, s.len())
}

pub fn trim_end_vec(s: &[char]) -> (r: Vec<char>)
    ensures
        r@ == trim_end(s@),
{
    let n = trail_ws_end(s, 0);
    assert(s@.subrange(0, s.len() as int) =~= s@);
    slice(s, 0, n)
}

pub fn trim_vec(s: &[char]) -> (r: Vec<char>)
    ensures
        r@ == trim(s@),
{
    let a = trim_start_vec(s);
    trim_end_vec(&a)
}


// ---------------------------------------------------------------------
// Words and lines, as spans of the text they come from
// ---------------------------------------------------------------------

/// Integer view of spans held as `usize` pairs.
pub open spec fn spans_view(v: Seq<(usize, usize)>) -> Seq<(int, int)> {
    v.map_values(|p: (usize, usize)| (p.0 as int, p.1 as int))
}

/// The pieces a list of spans cuts out of `s`.
pub open spec fn pieces(s: Seq<char>, sp: Seq<(int, int)>) -> Seq<Seq<char>> {
    sp.map_values(|p: (int, int)| s.subrange(p.0, p.1))
}

/// Scanning state after the first `n` characters: the finished words and
/// the start of the word being read, if any.
pub open spec fn word_scan(s: Seq<char>, n: int) -> (Seq<(int, int)>, Option<int>)
    decreases n,
{
    if n <= 0 {
        (Seq::empty(), None)
    } else {
        let (done, cur) = word_scan(s, n - 1);
        if is_ws(s[n - 1]) {
            match cur {
                Some(a) => (done.push((a, n - 1)), None),
                None => (done, None),
            }
        } else {
            match cur {
                Some(a) => (done, Some(a)),
                None => (done, Some(n - 1)),
            }
        }
    }
}

/// Spans of the maximal runs of non-whitespace characters, in order:
/// what `str::split_whitespace` yields.
pub open spec fn word_spans(s: Seq<char>) -> Seq<(int, int)> {
    let (done, cur) = word_scan(s, s.len() as int);
    match cur {
        Some(a) => done.push((a, s.len() as int)),
        None => done,
    }
}

pub open spec fn words(s: Seq<char>) -> Seq<Seq<char>> {
    pieces(s, word_spans(s))
}

pub fn word_spans_of(s: &[char]) -> (r: Vec<(usize, usize)>)
    ensures
        spans_view(r@) == word_spans(s@),
{
    let mut done: Vec<(usize, usize)> = Vec::new();
    let mut cur: Option<usize> = None;
    let mut i: usize = 0;
    while i < s.len()
        invariant
            i <= s.len(),
            (spans_view(done@), match cur {
                Some(a) => Some(a as int),
                None => None,
            }) == word_scan(s@, i as int),
            cur matches Some(a) ==> a < i,
        decreases s.len() - i,
    {
        let ghost old_done = done@;
        if whitespace(s[i]) {
            match cur {
                Some(a) => {
                    done.push((a, i));
                    assert(spans_view(done@) =~= spans_view(old_done).push((a as int, i as int)));
                    cur = None;
                },
                None => {},
            }
        } else {
            match cur {
                Some(_) => {},
                None => {
                    cur = Some(i);
                },
            }
        }
        i = i + 1;
    }
    match cur {
        Some(a) => {
            let ghost old_done = done@;
            done.push((a, s.len()));
            assert(spans_view(done@) =~= spans_view(old_done).push((a as int, s.len() as int)));
        },
        None => {},
    }
    done
}

/// The words of `s`, as `str::split_whitespace` yields them.
pub fn word_list(s: &[char]) -> (r: Vec<Vec<char>>)
    ensures
        char_vecs_view(r@) == words(s@),
{
    let spans = word_spans_of(s);
    let ghost sp = spans_view(spans@);
    proof {
        lemma_word_spans(s@);
    }
    let mut r: Vec<Vec<char>> = Vec::new();
    let mut k: usize = 0;
    while k < spans.len()
        invariant
            sp == spans_view(spans@),
            sp == word_spans(s@),
            forall|j: int| 0 <= j < sp.len() ==> 0 <= #[trigger] sp[j].0 < sp[j].1 <= s@.len(),
            k <= spans.len(),
            char_vecs_view(r@) == pieces(s@, sp).take(k as int),
        decreases spans.len() - k,
    {
        let (a, b) = spans[k];
        assert(sp[k as int] == (a as int, b as int));
        let w = slice(s, a, b);
        let ghost before = r@;
        r.push(w);
        assert(char_vecs_view(r@) =~= char_vecs_view(before).push(w@));
        assert(pieces(s@, sp).take(k + 1) =~= pieces(s@, sp).take(k as int).push(w@));
        k = k + 1;
    }
    assert(pieces(s@, sp).take(spans.len() as int) =~= pieces(s@, sp));
    r
}

/// The lines of `s`, as `str::lines` yields them.
pub fn line_list(s: &[char]) -> (r: Vec<Vec<char>>)
    ensures
        char_vecs_view(r@) == lines(s@),
{
    let spans = line_spans_of(s);
    let ghost sp = spans_view(spans@);
    proof {
        lemma_line_spans(s@);
    }
    let mut r: Vec<Vec<char>> = Vec::new();
    let mut k: usize = 0;
    while k < spans.len()
        invariant
            sp == spans_view(spans@),
            sp == line_spans(s@),
            forall|j: int| 0 <= j < sp.len() ==> 0 <= #[trigger] sp[j].0 <= sp[j].1 <= s@.len(),
            k <= spans.len(),
            char_vecs_view(r@) == pieces(s@, sp).take(k as int),
        decreases spans.len() - k,
    {
        let (a, b) = spans[k];
        assert(sp[k as int] == (a as int, b as int));
        let w = slice(s, a, b);
        let ghost before = r@;
        r.push(w);
        assert(char_vecs_view(r@) =~= char_vecs_view(before).push(w@));
        assert(pieces(s@, sp).take(k + 1) =~= pieces(s@, sp).take(k as int).push(w@));
        k = k + 1;
    }
    assert(pieces(s@, sp).take(spans.len() as int) =~= pieces(s@, sp));
    r
}

/// Whether `w` is one of `ws`.
pub fn contains_word(ws: &Vec<Vec<char>>, w: &[char]) -> (r: bool)
    ensures
        r == char_vecs_view(ws@).contains(w@),
{
    let ghost wv = char_vecs_view(ws@);
    let mut k: usize = 0;
    while k < ws.len()
        invariant
            wv == char_vecs_view(ws@),
            k <= ws.len(),
            forall|j: int| 0 <= j < k ==> wv[j] != w@,
        decreases ws.len() - k,
    {
        assert(wv[k as int] == ws@[k as int]@);
        if same(&ws[k], w) {
            return true;
        }
        k = k + 1;
    }
    false
}

/// `s[end - 1]` when it is a carriage return ending a line, dropped.
pub open spec fn strip_cr(s: Seq<char>, start: int, end: int) -> int {
    if end > start && s[end - 1] == '\r' {
        end - 1
    } else {
        end
    }
}

/// Line scanning state after `n` characters: finished lines and where the
/// current one starts.
pub open spec fn line_scan(s: Seq<char>, n: int) -> (Seq<(int, int)>, int)
    decreases n,
{
    if n <= 0 {
        (Seq::empty(), 0)
    } else {
        let (done, start) = line_scan(s, n - 1);
        if s[n - 1] == '\n' {
            (done.push((start, strip_cr(s, start, n - 1))), n)
        } else {
            (done, start)
        }
    }
}

/// Spans of the lines of `s`, as `str::lines` yields them: split at `\n`,
/// a `\r` before the `\n` dropped, no empty line after a final `\n`.
pub open spec fn line_spans(s: Seq<char>) -> Seq<(int, int)> {
    let (done, start) = line_scan(s, s.len() as int);
    if start < s.len() {
        done.push((start, s.len() as int))
    } else {
        done
    }
}

pub open spec fn lines(s: Seq<char>) -> Seq<Seq<char>> {
    pieces(s, line_spans(s))
}

proof fn lemma_line_scan_bounds(s: Seq<char>, n: int)
    requires
        0 <= n <= s.len(),
    ensures
        0 <= line_scan(s, n).1 <= n,
    decreases n,
{
    if n > 0 {
        lemma_line_scan_bounds(s, n - 1);
    }
}

pub fn line_spans_of(s: &[char]) -> (r: Vec<(usize, usize)>)
    ensures
        spans_view(r@) == line_spans(s@),
{
    let mut done: Vec<(usize, usize)> = Vec::new();
    let mut start: usize = 0;
    let mut i: usize = 0;
    while i < s.len()
        invariant
            i <= s.len(),
            start <= i,
            (spans_view(done@), start as int) == line_scan(s@, i as int),
        decreases s.len() - i,
    {
        if s[i] == '\n' {
            let end = if i > start && s[i - 1] == '\r' {
                i - 1
            } else {
                i
            };
            let ghost old_done = done@;
            done.push((start, end));
            assert(spans_view(done@) =~= spans_view(old_done).push((start as int, end as int)));
            start = i + 1;
        }
        i = i + 1;
    }
    if start < s.len() {
        let ghost old_done = done@;
        done.push((start, s.len()));
        assert(spans_view(done@) =~= spans_view(old_done).push((start as int, s.len() as int)));
    }
    done
}


// ---------------------------------------------------------------------
// Building text
// ---------------------------------------------------------------------

/// Appends the characters of `t` to `v`.
pub fn push_str(v: &mut Vec<char>, t: &str)
    ensures
        final(v)@ == old(v)@ + t@,
{
    let ghost start = v@;
    for c in it: t.chars()
        invariant
            v@ == start + it.seq().take(it.index() as int),
    {
        v.push(c);
        assert(start + it.seq().take(it.index() + 1) =~= (start + it.seq().take(
            it.index() as int,
        )).push(c));
    }
}

/// Appends `t` to `v`.
pub fn push_chars(v: &mut Vec<char>, t: &[char])
    ensures
        final(v)@ == old(v)@ + t@,
{
    let ghost start = v@;
    let mut i: usize = 0;
    while i < t.len()
        invariant
            i <= t.len(),
            v@ == start + t@.take(i as int),
        decreases t.len() - i,
    {
        v.push(t[i]);
        assert(start + t@.take(i + 1) =~= (start + t@.take(i as int)).push(t@[i as int]));
        i = i + 1;
    }
    assert(t@.take(t.len() as int) =~= t@);
}

pub open spec fn digit_char(d: nat) -> char {
    if d == 0 { '0' }
    else if d == 1 { '1' }
    else if d == 2 { '2' }
    else if d == 3 { '3' }
    else if d == 4 { '4' }
    else if d == 5 { '5' }
    else if d == 6 { '6' }
    else if d == 7 { '7' }
    else if d == 8 { '8' }
    else { '9' }
}

/// Decimal digits of `n`, most significant first, no leading zeros.
pub open spec fn decimal(n: nat) -> Seq<char>
    decreases n,
{
    if n < 10 {
        seq![digit_char(n)]
    } else {
        decimal(n / 10).push(digit_char(n % 10))
    }
}

/// Decimal form of an integer, with a leading `-` when negative.
pub open spec fn signed_decimal(i: int) -> Seq<char> {
    if i < 0 {
        seq!['-'] + decimal((-i) as nat)
    } else {
        decimal(i as nat)
    }
}

fn digit_of(d: u64) -> (c: char)
    requires
        d < 10,
    ensures
        c == digit_char(d as nat),
{
    if d == 0 { '0' }
    else if d == 1 { '1' }
    else if d == 2 { '2' }
    else if d == 3 { '3' }
    else if d == 4 { '4' }
    else if d == 5 { '5' }
    else if d == 6 { '6' }
    else if d == 7 { '7' }
    else if d == 8 { '8' }
    else { '9' }
}

pub fn push_decimal(v: &mut Vec<char>, n: u64)
    ensures
        final(v)@ == old(v)@ + decimal(n as nat),
    decreases n,
{
    if n < 10 {
        v.push(digit_of(n));
        assert(seq![digit_char(n as nat)] =~= decimal(n as nat));
    } else {
        push_decimal(v, n / 10);
        v.push(digit_of(n % 10));
        assert(old(v)@ + decimal(n as nat) =~= (old(v)@ + decimal((n / 10) as nat)).push(
            digit_char((n % 10) as nat),
        ));
    }
}

/// What `str::parse::<u32>` accepts: an optional `+`, then one or more
/// ASCII digits whose value fits in 32 bits.
pub open spec fn plus_stripped(s: Seq<char>) -> Seq<char> {
    if s.len() > 0 && s[0] == '+' {
        s.drop_first()
    } else {
        s
    }
}

pub open spec fn u32_text(s: Seq<char>) -> Option<u32> {
    let digits = plus_stripped(s);
    if digits.len() > 0 && (forall|i: int| 0 <= i < digits.len() ==> is_digit(#[trigger] digits[i]))
        && crate::sentinel::version::digits_value(digits) <= u32::MAX {
        Some(crate::sentinel::version::digits_value(digits) as u32)
    } else {
        None
    }
}

proof fn lemma_value_grows(s: Seq<char>, j: int)
    requires
        0 <= j <= s.len(),
    ensures
        crate::sentinel::version::digits_value(s.take(j)) <= crate::sentinel::version::digits_value(s),
    decreases s.len(),
{
    if j < s.len() {
        lemma_value_grows(s.drop_last(), j);
        assert(s.drop_last().take(j) =~= s.take(j));
    } else {
        assert(s.take(j) =~= s);
    }
}

/// `str::parse::<u32>`.
pub fn parse_u32(s: &str) -> (r: Option<u32>)
    ensures
        r == u32_text(s@),
{
    let c = chars_of(s);
    let start: usize = if c.len() > 0 && c[0] == '+' { 1 } else { 0 };
    let ghost digits = plus_stripped(s@);
    assert(digits =~= c@.skip(start as int));
    if start == c.len() {
        return None;
    }
    let mut acc: u32 = 0;
    let mut i = start;
    while i < c.len()
        invariant
            start <= i <= c.len(),
            start < c.len(),
            digits == c@.skip(start as int),
            digits == plus_stripped(s@),
            c@ == s@,
            forall|j: int| start <= j < i ==> is_digit(#[trigger] c@[j]),
            acc as nat == crate::sentinel::version::digits_value(c@.subrange(start as int, i as int)),
        decreases c.len() - i,
    {
        let ch = c[i];
        if !(ch >= '0' && ch <= '9') {
            assert(!is_digit(plus_stripped(s@)[i - start]));
            return None;
        }
        let d = (ch as u32) - ('0' as u32);
        let ghost pre = c@.subrange(start as int, i as int);
        assert(c@.subrange(start as int, i + 1).drop_last() =~= pre);
        assert(d as nat == crate::sentinel::version::digit_value(c@[i as int]));
        if acc > (u32::MAX - d) / 10 {
            proof {
                assert(c@.subrange(start as int, i + 1) =~= digits.take(i + 1 - start));
                lemma_value_grows(digits, i + 1 - start);
                assert(acc * 10 + d > u32::MAX);
                assert(crate::sentinel::version::digits_value(c@.subrange(start as int, i + 1)) == acc * 10 + d);
            }
            return None;
        }
        acc = acc * 10 + d;
        i = i + 1;
    }
    assert(c@.subrange(start as int, c.len() as int) =~= digits);
    Some(acc)
}

/// What `str::parse::<i64>` accepts: an optional `+` or `-`, then one or
/// more ASCII digits whose signed value fits in 64 bits.
pub open spec fn sign_stripped(s: Seq<char>) -> Seq<char> {
    if s.len() > 0 && (s[0] == '+' || s[0] == '-') {
        s.drop_first()
    } else {
        s
    }
}

pub open spec fn i64_text(s: Seq<char>) -> Option<i64> {
    let digits = sign_stripped(s);
    let neg = s.len() > 0 && s[0] == '-';
    let v = crate::sentinel::version::digits_value(digits);
    if digits.len() > 0 && (forall|i: int| 0 <= i < digits.len() ==> is_digit(#[trigger] digits[i])) && (if neg {
        v <= 0x8000_0000_0000_0000
    } else {
        v <= i64::MAX
    }) {
        Some((if neg { -(v as int) } else { v as int }) as i64)
    } else {
        None
    }
}

/// `str::parse::<i64>`, on the characters of the text.
pub fn parse_i64(c: &[char]) -> (r: Option<i64>)
    ensures
        r == i64_text(c@),
{
    if c.len() == 0 {
        return None;
    }
    let neg = c[0] == '-';
    let start: usize = if c[0] == '+' || c[0] == '-' { 1 } else { 0 };
    let ghost digits = sign_stripped(c@);
    assert(digits =~= c@.skip(start as int));
    if start == c.len() {
        return None;
    }
    let limit: u64 = if neg { 0x8000_0000_0000_0000 } else { 0x7fff_ffff_ffff_ffff };
    let mut acc: u64 = 0;
    let mut i = start;
    while i < c.len()
        invariant
            start <= i <= c.len(),
            start < c.len(),
            digits == c@.skip(start as int),
            digits == sign_stripped(c@),
            neg == (c@.len() > 0 && c@[0] == '-'),
            limit == (if neg { 0x8000_0000_0000_0000u64 } else { 0x7fff_ffff_ffff_ffffu64 }),
            forall|j: int| start <= j < i ==> is_digit(#[trigger] c@[j]),
            acc as nat == crate::sentinel::version::digits_value(c@.subrange(start as int, i as int)),
            acc <= limit,
        decreases c.len() - i,
    {
        let ch = c[i];
        if !(ch >= '0' && ch <= '9') {
            assert(!is_digit(sign_stripped(c@)[i - start]));
            return None;
        }
        let d = (ch as u64) - ('0' as u64);
        let ghost pre = c@.subrange(start as int, i as int);
        assert(c@.subrange(start as int, i + 1).drop_last() =~= pre);
        assert(d as nat == crate::sentinel::version::digit_value(c@[i as int]));
        if d > limit || acc > (limit - d) / 10 {
            proof {
                assert(c@.subrange(start as int, i + 1) =~= digits.take(i + 1 - start));
                lemma_value_grows(digits, i + 1 - start);
                assert(acc * 10 + d > limit);
                assert(crate::sentinel::version::digits_value(c@.subrange(start as int, i + 1)) == acc * 10 + d);
            }
            return None;
        }
        acc = acc * 10 + d;
        i = i + 1;
    }
    assert(c@.subrange(start as int, c.len() as int) =~= digits);
    if neg {
        if acc == 0x8000_0000_0000_0000 {
            Some(i64::MIN)
        } else {
            Some(-(acc as i64))
        }
    } else {
        Some(acc as i64)
    }
}

pub fn push_signed_decimal(v: &mut Vec<char>, i: i64)
    ensures
        final(v)@ == old(v)@ + signed_decimal(i as int),
{
    if i < 0 {
        v.push('-');
        let m: u64 = if i == i64::MIN {
            9223372036854775808u64
        } else {
            (-i) as u64
        };
        push_decimal(v, m);
        assert(old(v)@ + signed_decimal(i as int) =~= old(v)@.push('-') + decimal(m as nat));
    } else {
        push_decimal(v, i as u64);
    }
}


// ---------------------------------------------------------------------
// Splitting and stripping
// ---------------------------------------------------------------------

/// `str::split_once`: the text before and after the first `p`.
pub open spec fn split_once_spec(s: Seq<char>, p: Seq<char>) -> Option<(Seq<char>, Seq<char>)> {
    match find_spec(s, p, 0) {
        Some(i) => Some((s.take(i), s.skip(i + p.len()))),
        None => None,
    }
}

pub fn split_once(s: &[char], p: &[char]) -> (r: Option<(Vec<char>, Vec<char>)>)
    ensures
        match split_once_spec(s@, p@) {
            Some((a, b)) => r matches Some((x, y)) && x@ == a && y@ == b,
            None => r is None,
        },
{
    match find(s, p) {
        Some(i) => {
            assert(occurs_at(s@, p@, i as int));
            assert(i + p@.len() <= s@.len());
            assert(p@.len() == p.len() && s@.len() == s.len());
            let a = slice(s, 0, i);
            let b = slice(s, i + p.len(), s.len());
            proof {
                assert(a@ =~= s@.take(i as int));
                assert(b@ =~= s@.skip(i + p@.len()));
            }
            Some((a, b))
        },
        None => None,
    }
}

/// `str::strip_prefix`.
pub open spec fn strip_prefix_spec(s: Seq<char>, p: Seq<char>) -> Option<Seq<char>> {
    if has_prefix(s, p) {
        Some(s.skip(p.len() as int))
    } else {
        None
    }
}

pub fn strip_prefix(s: &[char], p: &[char]) -> (r: Option<Vec<char>>)
    ensures
        match strip_prefix_spec(s@, p@) {
            Some(a) => r matches Some(x) && x@ == a,
            None => r is None,
        },
{
    if starts_with(s, p) {
        let a = slice(s, p.len(), s.len());
        assert(a@ =~= s@.skip(p@.len() as int));
        Some(a)
    } else {
        None
    }
}

/// `str::strip_suffix`.
pub open spec fn strip_suffix_spec(s: Seq<char>, p: Seq<char>) -> Option<Seq<char>> {
    if has_suffix(s, p) {
        Some(s.take(s.len() - p.len()))
    } else {
        None
    }
}

pub fn strip_suffix(s: &[char], p: &[char]) -> (r: Option<Vec<char>>)
    ensures
        match strip_suffix_spec(s@, p@) {
            Some(a) => r matches Some(x) && x@ == a,
            None => r is None,
        },
{
    if ends_with(s, p) {
        let a = slice(s, 0, s.len() - p.len());
        assert(a@ =~= s@.take(s@.len() - p@.len()));
        Some(a)
    } else {
        None
    }
}

/// `str::trim_end_matches` with a text pattern: every trailing `p` removed.
pub open spec fn trim_end_seq(s: Seq<char>, p: Seq<char>) -> Seq<char>
    decreases s.len(),
{
    if p.len() > 0 && has_suffix(s, p) {
        trim_end_seq(s.take(s.len() - p.len()), p)
    } else {
        s
    }
}

pub fn trim_end_seq_vec(s: &[char], p: &[char]) -> (r: Vec<char>)
    ensures
        r@ == trim_end_seq(s@, p@),
{
    let mut cur = slice(s, 0, s.len());
    assert(cur@ =~= s@);
    if p.len() == 0 {
        return cur;
    }
    loop
        invariant
            p@.len() > 0,
            trim_end_seq(s@, p@) == trim_end_seq(cur@, p@),
        decreases cur@.len(),
    {
        match strip_suffix(&cur, p) {
            Some(rest) => {
                cur = rest;
            },
            None => {
                return cur;
            },
        }
    }
}

/// Whether any of `pats` occurs in `s`.
pub open spec fn any_in(s: Seq<char>, pats: Seq<Seq<char>>) -> bool {
    exists|k: int| 0 <= k < pats.len() && has_sub(s, #[trigger] pats[k])
}

pub fn contains_any(s: &[char], pats: &Vec<Vec<char>>) -> (r: bool)
    ensures
        r == any_in(s@, char_vecs_view(pats@)),
{
    let ghost pv = char_vecs_view(pats@);
    let mut k: usize = 0;
    while k < pats.len()
        invariant
            pv == char_vecs_view(pats@),
            k <= pats.len(),
            forall|j: int| 0 <= j < k ==> !has_sub(s@, #[trigger] pv[j]),
        decreases pats.len() - k,
    {
        assert(pv[k as int] == pats@[k as int]@);
        if contains(s, &pats[k]) {
            return true;
        }
        k = k + 1;
    }
    false
}

/// Whether `s` starts with any of `pats`.
pub open spec fn starts_with_any(s: Seq<char>, pats: Seq<Seq<char>>) -> bool {
    exists|k: int| 0 <= k < pats.len() && has_prefix(s, #[trigger] pats[k])
}

pub fn begins_with_any(s: &[char], pats: &Vec<Vec<char>>) -> (r: bool)
    ensures
        r == starts_with_any(s@, char_vecs_view(pats@)),
{
    let ghost pv = char_vecs_view(pats@);
    let mut k: usize = 0;
    while k < pats.len()
        invariant
            pv == char_vecs_view(pats@),
            k <= pats.len(),
            forall|j: int| 0 <= j < k ==> !has_prefix(s@, #[trigger] pv[j]),
        decreases pats.len() - k,
    {
        assert(pv[k as int] == pats@[k as int]@);
        if starts_with(s, &pats[k]) {
            return true;
        }
        k = k + 1;
    }
    false
}

/// `s` with trailing ASCII punctuation removed.
pub open spec fn trim_end_punct(s: Seq<char>) -> Seq<char>
    decreases s.len(),
{
    if s.len() > 0 && is_ascii_punct(s.last()) {
        trim_end_punct(s.drop_last())
    } else {
        s
    }
}

pub fn trim_end_punct_vec(s: &[char]) -> (r: Vec<char>)
    ensures
        r@ == trim_end_punct(s@),
{
    let mut i: usize = s.len();
    assert(s@.subrange(0, s.len() as int) =~= s@);
    while i > 0 && ascii_punct(s[i - 1])
        invariant
            i <= s.len(),
            trim_end_punct(s@) == trim_end_punct(s@.subrange(0, i as int)),
        decreases i,
    {
        assert(s@.subrange(0, i as int).drop_last() =~= s@.subrange(0, i - 1));
        i = i - 1;
    }
    slice(s, 0, i)
}

/// `s` with every trailing `c` removed.
pub open spec fn trim_end_char(s: Seq<char>, c: char) -> Seq<char>
    decreases s.len(),
{
    if s.len() > 0 && s.last() == c {
        trim_end_char(s.drop_last(), c)
    } else {
        s
    }
}

/// `s` with every leading `c` removed.
pub open spec fn trim_start_char(s: Seq<char>, c: char) -> Seq<char>
    decreases s.len(),
{
    if s.len() > 0 && s[0] == c {
        trim_start_char(s.drop_first(), c)
    } else {
        s
    }
}

pub fn trim_end_char_vec(s: &[char], c: char) -> (r: Vec<char>)
    ensures
        r@ == trim_end_char(s@, c),
{
    let mut i: usize = s.len();
    assert(s@.subrange(0, s.len() as int) =~= s@);
    while i > 0 && s[i - 1] == c
        invariant
            i <= s.len(),
            trim_end_char(s@, c) == trim_end_char(s@.subrange(0, i as int), c),
        decreases i,
    {
        assert(s@.subrange(0, i as int).drop_last() =~= s@.subrange(0, i - 1));
        i = i - 1;
    }
    slice(s, 0, i)
}

pub fn trim_start_char_vec(s: &[char], c: char) -> (r: Vec<char>)
    ensures
        r@ == trim_start_char(s@, c),
{
    let mut i: usize = 0;
    assert(s@.subrange(0, s.len() as int) =~= s@);
    while i < s.len() && s[i] == c
        invariant
            i <= s.len(),
            trim_start_char(s@, c) == trim_start_char(s@.subrange(i as int, s.len() as int), c),
        decreases s.len() - i,
    {
        assert(s@.subrange(i as int, s.len() as int).drop_first() =~= s@.subrange(
            i + 1,
            s.len() as int,
        ));
        i = i + 1;
    }
    slice(s, i, s.len())
}

/// `s` with every leading copy of the non-empty `p` removed.
pub open spec fn trim_start_seq(s: Seq<char>, p: Seq<char>) -> Seq<char>
    decreases s.len(),
{
    if p.len() > 0 && has_prefix(s, p) {
        trim_start_seq(s.skip(p.len() as int), p)
    } else {
        s
    }
}

pub fn trim_start_seq_vec(s: &[char], p: &[char]) -> (r: Vec<char>)
    ensures
        r@ == trim_start_seq(s@, p@),
{
    let mut cur: Vec<char> = slice(s, 0, s.len());
    assert(cur@ =~= s@);
    while p.len() > 0 && starts_with(&cur, p)
        invariant
            trim_start_seq(s@, p@) == trim_start_seq(cur@, p@),
        decreases cur.len(),
    {
        cur = slice(&cur, p.len(), cur.len());
    }
    cur
}

/// The `Some` values of `s`, in order.
pub open spec fn keep_some<A>(s: Seq<Option<A>>) -> Seq<A>
    decreases s.len(),
{
    if s.len() == 0 {
        Seq::empty()
    } else {
        let prev = keep_some(s.drop_last());
        match s.last() {
            Some(a) => prev.push(a),
            None => prev,
        }
    }
}


/// Characters that would break a spoken line or read as markup.
pub open spec fn plain_char(c: char) -> bool {
    c != '\n' && c != '*' && c != '#'
}

/// Text free of line breaks and markup characters.
pub open spec fn plain(s: Seq<char>) -> bool {
    forall|i: int| 0 <= i < s.len() ==> plain_char(#[trigger] s[i])
}

/// A line break or a markup character.
pub open spec fn is_mark(c: char) -> bool {
    c == '\n' || c == '*' || c == '#'
}

/// `s` never holds `c`.
pub open spec fn free_of(s: Seq<char>, c: char) -> bool {
    forall|i: int| 0 <= i < s.len() ==> #[trigger] s[i] != c
}

pub proof fn lemma_free_of_concat(a: Seq<char>, b: Seq<char>, c: char)
    requires
        free_of(a, c),
        free_of(b, c),
    ensures
        free_of(a + b, c),
{
    assert forall|i: int| 0 <= i < (a + b).len() implies #[trigger] (a + b)[i] != c by {
        if i < a.len() {
            assert((a + b)[i] == a[i]);
        } else {
            assert((a + b)[i] == b[i - a.len()]);
        }
    }
}

/// Plain text holds no mark at all.
pub proof fn lemma_plain_free_of(s: Seq<char>, c: char)
    requires
        plain(s),
        is_mark(c),
    ensures
        free_of(s, c),
{
    assert forall|i: int| 0 <= i < s.len() implies #[trigger] s[i] != c by {
        assert(plain_char(s[i]));
    }
}

/// What `keep_some` keeps is exactly the values present, each one.
pub proof fn lemma_keep_some_members<A>(s: Seq<Option<A>>)
    ensures
        forall|i: int| 0 <= i < s.len() && (#[trigger] s[i]) is Some ==> keep_some(s).contains(s[i]->0),
        forall|x: A| keep_some(s).contains(x) ==> exists|i: int| 0 <= i < s.len() && #[trigger] s[i] == Some(x),
    decreases s.len(),
{
    if s.len() > 0 {
        let d = s.drop_last();
        lemma_keep_some_members(d);
        let prev = keep_some(d);
        assert forall|i: int| 0 <= i < s.len() && (#[trigger] s[i]) is Some implies keep_some(s).contains(s[i]->0) by {
            if i < s.len() - 1 {
                assert(d[i] == s[i]);
                let j = choose|j: int| 0 <= j < prev.len() && prev[j] == d[i]->0;
                if s.last() is Some {
                    assert(keep_some(s)[j] == prev[j]);
                } else {
                    assert(keep_some(s)[j] == prev[j]);
                }
            } else {
                assert(keep_some(s)[keep_some(s).len() - 1] == s[i]->0);
            }
        }
        assert forall|x: A| keep_some(s).contains(x) implies exists|i: int| 0 <= i < s.len() && #[trigger] s[i] == Some(x) by {
            let j = choose|j: int| 0 <= j < keep_some(s).len() && keep_some(s)[j] == x;
            if j < prev.len() {
                assert(prev[j] == x);
                assert(prev.contains(x));
                let i = choose|i: int| 0 <= i < d.len() && #[trigger] d[i] == Some(x);
                assert(s[i] == Some(x));
            } else {
                assert(s[s.len() - 1] == Some(x));
            }
        }
    }
}


proof fn lemma_line_scan(s: Seq<char>, n: int)
    requires
        0 <= n <= s.len(),
    ensures
        0 <= line_scan(s, n).1 <= n,
        forall|k: int|
            0 <= k < line_scan(s, n).0.len() ==> 0 <= #[trigger] line_scan(s, n).0[k].0
                <= line_scan(s, n).0[k].1 <= line_scan(s, n).1,
    decreases n,
{
    if n > 0 {
        lemma_line_scan(s, n - 1);
    }
}

/// Every line span lies inside the text.
pub proof fn lemma_line_spans(s: Seq<char>)
    ensures
        forall|k: int|
            0 <= k < line_spans(s).len() ==> 0 <= #[trigger] line_spans(s)[k].0
                <= line_spans(s)[k].1 <= s.len(),
{
    lemma_line_scan(s, s.len() as int);
}

pub open spec fn shift_spans(sp: Seq<(int, int)>, d: int) -> Seq<(int, int)> {
    sp.map_values(|p: (int, int)| (p.0 + d, p.1 + d))
}

proof fn lemma_line_scan_prefix(a: Seq<char>, b: Seq<char>, n: int)
    requires
        0 <= n <= a.len(),
    ensures
        line_scan(a + b, n) == line_scan(a, n),
    decreases n,
{
    if n > 0 {
        lemma_line_scan_prefix(a, b, n - 1);
        lemma_line_scan_bounds(a, n - 1);
        assert((a + b)[n - 1] == a[n - 1]);
        let start = line_scan(a, n - 1).1;
        if n - 1 > start {
            assert((a + b)[n - 2] == a[n - 2]);
        }
    }
}

proof fn lemma_line_scan_suffix(a: Seq<char>, b: Seq<char>, m: int)
    requires
        0 <= m <= b.len(),
        line_scan(a, a.len() as int).1 == a.len(),
    ensures
        line_scan(a + b, a.len() + m) == (
            line_scan(a, a.len() as int).0 + shift_spans(line_scan(b, m).0, a.len() as int),
            a.len() + line_scan(b, m).1,
        ),
    decreases m,
{
    let na = a.len() as int;
    if m == 0 {
        lemma_line_scan_prefix(a, b, na);
        assert(shift_spans(line_scan(b, 0).0, na) =~= Seq::<(int, int)>::empty());
        assert(line_scan(a, na).0 + Seq::<(int, int)>::empty() =~= line_scan(a, na).0);
    } else {
        lemma_line_scan_suffix(a, b, m - 1);
        lemma_line_scan_bounds(b, m - 1);
        let c = a + b;
        assert(c[na + m - 1] == b[m - 1]);
        let sb = line_scan(b, m - 1).1;
        if m - 1 > sb {
            assert(c[na + m - 2] == b[m - 2]);
        }
        if b[m - 1] == '\n' {
            assert(strip_cr(c, na + sb, na + m - 1) == na + strip_cr(b, sb, m - 1));
            assert(shift_spans(line_scan(b, m).0, na) =~= shift_spans(line_scan(b, m - 1).0, na).push(
                (na + sb, na + strip_cr(b, sb, m - 1)),
            ));
            assert(line_scan(a, na).0 + shift_spans(line_scan(b, m).0, na) =~= (line_scan(a, na).0
                + shift_spans(line_scan(b, m - 1).0, na)).push((na + sb, na + strip_cr(b, sb, m - 1))));
        }
    }
}

proof fn lemma_pieces_concat(s: Seq<char>, x: Seq<(int, int)>, y: Seq<(int, int)>)
    ensures
        pieces(s, x + y) == pieces(s, x) + pieces(s, y),
{
    assert(pieces(s, x + y) =~= pieces(s, x) + pieces(s, y));
}

/// A text cut after a line break reads as the lines of each part, in turn.
pub proof fn lemma_lines_concat(a: Seq<char>, b: Seq<char>)
    requires
        a.len() == 0 || a.last() == '\n',
    ensures
        lines(a + b) == lines(a) + lines(b),
{
    let na = a.len() as int;
    let c = a + b;
    lemma_line_scan_bounds(a, na);
    if na > 0 {
        lemma_line_scan_bounds(a, na - 1);
    }
    assert(line_scan(a, na).1 == na);
    lemma_line_scan_suffix(a, b, b.len() as int);
    assert(c.len() == na + b.len());
    lemma_line_scan_bounds(b, b.len() as int);
    let da = line_scan(a, na).0;
    let (db, sb) = line_scan(b, b.len() as int);
    assert(line_spans(a) == da);
    lemma_line_spans(a);
    lemma_line_spans(b);
    let bsp = line_spans(b);
    assert(line_spans(c) =~= da + shift_spans(bsp, na));
    lemma_pieces_concat(c, da, shift_spans(bsp, na));
    assert(pieces(c, da) =~= pieces(a, da)) by {
        assert forall|k: int| 0 <= k < da.len() implies #[trigger] pieces(c, da)[k] == pieces(a, da)[k] by {
            assert(0 <= da[k].0 <= da[k].1 <= na);
            assert(c.subrange(da[k].0, da[k].1) =~= a.subrange(da[k].0, da[k].1));
        }
    }
    assert(pieces(c, shift_spans(bsp, na)) =~= pieces(b, bsp)) by {
        assert forall|k: int| 0 <= k < bsp.len() implies #[trigger] pieces(c, shift_spans(bsp, na))[k] == pieces(
            b,
            bsp,
        )[k] by {
            assert(0 <= bsp[k].0 <= bsp[k].1 <= b.len());
            assert(c.subrange(bsp[k].0 + na, bsp[k].1 + na) =~= b.subrange(bsp[k].0, bsp[k].1));
        }
    }
}

/// Keeping the present values of two runs is keeping them of each, in turn.
pub proof fn lemma_keep_some_concat<A>(x: Seq<Option<A>>, y: Seq<Option<A>>)
    ensures
        keep_some(x + y) == keep_some(x) + keep_some(y),
    decreases y.len(),
{
    if y.len() == 0 {
        assert(x + y =~= x);
        assert(keep_some(x) + keep_some(y) =~= keep_some(x));
    } else {
        lemma_keep_some_concat(x, y.drop_last());
        assert((x + y).drop_last() =~= x + y.drop_last());
        assert((x + y).last() == y.last());
        match y.last() {
            Some(v) => {
                assert(keep_some(x) + keep_some(y) =~= (keep_some(x) + keep_some(y.drop_last())).push(v));
            },
            None => {},
        }
    }
}

proof fn lemma_word_scan(s: Seq<char>, n: int)
    requires
        0 <= n <= s.len(),
    ensures
        forall|k: int|
            0 <= k < word_scan(s, n).0.len() ==> 0 <= #[trigger] word_scan(s, n).0[k].0
                < word_scan(s, n).0[k].1 <= n,
        word_scan(s, n).1 matches Some(a) ==> 0 <= a < n,
    decreases n,
{
    if n > 0 {
        lemma_word_scan(s, n - 1);
    }
}

/// Every word span is a non-empty stretch inside the text.
pub proof fn lemma_word_spans(s: Seq<char>)
    ensures
        forall|k: int|
            0 <= k < word_spans(s).len() ==> 0 <= #[trigger] word_spans(s)[k].0
                < word_spans(s)[k].1 <= s.len(),
{
    lemma_word_scan(s, s.len() as int);
}


// ---------------------------------------------------------------------
// Joining for speech
// ---------------------------------------------------------------------

/// `items` joined with ", ".
pub open spec fn comma_join(items: Seq<Seq<char>>) -> Seq<char>
    decreases items.len(),
{
    if items.len() == 0 {
        Seq::empty()
    } else if items.len() == 1 {
        items[0]
    } else {
        comma_join(items.drop_last()) + ", "@ + items.last()
    }
}

/// Each item shows in the comma-separated list.
pub proof fn lemma_comma_join_has(items: Seq<Seq<char>>, k: int)
    requires
        0 <= k < items.len(),
    ensures
        has_sub(comma_join(items), items[k]),
    decreases items.len(),
{
    if items.len() == 1 {
        lemma_has_sub_self(items[0]);
    } else if k == items.len() - 1 {
        lemma_has_sub_self(items.last());
        lemma_has_sub_right(comma_join(items.drop_last()) + ", "@, items.last(), items[k]);
    } else {
        lemma_comma_join_has(items.drop_last(), k);
        lemma_has_sub_left(comma_join(items.drop_last()), ", "@ + items.last(), items[k]);
        assert(comma_join(items.drop_last()) + ", "@ + items.last() =~= comma_join(items.drop_last()) + (", "@
            + items.last()));
    }
}

/// Each item shows in the list written out.
pub proof fn lemma_join_naturally_has(items: Seq<Seq<char>>, k: int)
    requires
        0 <= k < items.len(),
    ensures
        has_sub(join_naturally_spec(items), items[k]),
{
    if items.len() == 1 {
        lemma_has_sub_self(items[0]);
    } else if k == items.len() - 1 {
        lemma_has_sub_self(items.last());
        lemma_has_sub_right(comma_join(items.drop_last()) + " and "@, items.last(), items[k]);
    } else {
        lemma_comma_join_has(items.drop_last(), k);
        lemma_has_sub_left(comma_join(items.drop_last()), " and "@ + items.last(), items[k]);
        assert(comma_join(items.drop_last()) + " and "@ + items.last() =~= comma_join(items.drop_last()) + (
        " and "@ + items.last()));
    }
}

/// "a", "a and b", "a, b and c": written out rather than comma-listed,
/// because it is read aloud.
pub open spec fn join_naturally_spec(items: Seq<Seq<char>>) -> Seq<char> {
    if items.len() == 0 {
        Seq::empty()
    } else if items.len() == 1 {
        items[0]
    } else {
        comma_join(items.drop_last()) + " and "@ + items.last()
    }
}

pub open spec fn strings_view(v: Seq<String>) -> Seq<Seq<char>> {
    v.map_values(|s: String| s@)
}

pub open spec fn strs_view(v: Seq<&str>) -> Seq<Seq<char>> {
    v.map_values(|s: &str| s@)
}

pub open spec fn char_vecs_view(v: Seq<Vec<char>>) -> Seq<Seq<char>> {
    v.map_values(|s: Vec<char>| s@)
}

/// Natural-language join of character texts.
pub fn join_chars(items: &Vec<Vec<char>>) -> (r: Vec<char>)
    ensures
        r@ == join_naturally_spec(char_vecs_view(items@)),
{
    let ghost iv = char_vecs_view(items@);
    let n = items.len();
    let mut out: Vec<char> = Vec::new();
    if n == 0 {
        return out;
    }
    if n == 1 {
        push_chars(&mut out, &items[0]);
        return out;
    }
    let mut i: usize = 0;
    while i < n - 1
        invariant
            n == items.len(),
            2 <= n,
            iv == char_vecs_view(items@),
            i <= n - 1,
            out@ == comma_join(iv.take(i as int)),
        decreases n - 1 - i,
    {
        let ghost before = out@;
        if i > 0 {
            push_str(&mut out, ", ");
        }
        push_chars(&mut out, &items[i]);
        assert(iv.take(i + 1).drop_last() =~= iv.take(i as int));
        assert(iv.take(i + 1).last() == iv[i as int]);
        if i == 0 {
            assert(out@ =~= comma_join(iv.take(1)));
        }
        i = i + 1;
    }
    assert(iv.take((n - 1) as int) =~= iv.drop_last());
    push_str(&mut out, " and ");
    push_chars(&mut out, &items[n - 1]);
    out
}

pub fn join_naturally(items: &[&str]) -> (r: String)
    ensures
        r@ == join_naturally_spec(strs_view(items@)),
{
    let mut v: Vec<Vec<char>> = Vec::new();
    let mut i: usize = 0;
    while i < items.len()
        invariant
            i <= items.len(),
            char_vecs_view(v@) == strs_view(items@).take(i as int),
        decreases items.len() - i,
    {
        let ghost prev = v@;
        let w = chars_of(items[i]);
        v.push(w);
        assert(v@ =~= prev.push(w));
        assert(char_vecs_view(v@) =~= char_vecs_view(prev).push(w@));
        assert(strs_view(items@).take(i + 1) =~= strs_view(items@).take(i as int).push(strs_view(items@)[i as int]));
        i = i + 1;
    }
    assert(strs_view(items@).take(items.len() as int) =~= strs_view(items@));
    string_of(&join_chars(&v))
}

pub fn join_naturally_owned(items: &[String]) -> (r: String)
    ensures
        r@ == join_naturally_spec(strings_view(items@)),
{
    let mut v: Vec<Vec<char>> = Vec::new();
    let mut i: usize = 0;
    while i < items.len()
        invariant
            i <= items.len(),
            char_vecs_view(v@) == strings_view(items@).take(i as int),
        decreases items.len() - i,
    {
        let ghost prev = v@;
        let w = chars_of(items[i].as_str());
        v.push(w);
        assert(v@ =~= prev.push(w));
        assert(char_vecs_view(v@) =~= char_vecs_view(prev).push(w@));
        assert(strings_view(items@).take(i + 1) =~= strings_view(items@).take(i as int).push(strings_view(items@)[i as int]));
        i = i + 1;
    }
    assert(strings_view(items@).take(items.len() as int) =~= strings_view(items@));
    string_of(&join_chars(&v))
}


/// `items` joined with `sep` between each pair.
pub open spec fn sep_join(items: Seq<Seq<char>>, sep: Seq<char>) -> Seq<char>
    decreases items.len(),
{
    if items.len() == 0 {
        Seq::empty()
    } else if items.len() == 1 {
        items[0]
    } else {
        sep_join(items.drop_last(), sep) + sep + items.last()
    }
}

/// The words of `s` separated by single spaces: runs of whitespace
/// collapsed, the ends trimmed.
pub open spec fn collapse_ws(s: Seq<char>) -> Seq<char> {
    sep_join(words(s), " "@)
}

/// Join the pieces of `s` that `spans` marks with `sep`.
pub fn join_spans(s: &[char], spans: &Vec<(usize, usize)>, sep: &[char]) -> (r: Vec<char>)
    requires
        forall|k: int| 0 <= k < spans@.len() ==> #[trigger] spans@[k].0 <= spans@[k].1 <= s@.len(),
    ensures
        r@ == sep_join(pieces(s@, spans_view(spans@)), sep@),
{
    let ghost ps = pieces(s@, spans_view(spans@));
    let mut out: Vec<char> = Vec::new();
    let mut k: usize = 0;
    while k < spans.len()
        invariant
            forall|j: int| 0 <= j < spans@.len() ==> #[trigger] spans@[j].0 <= spans@[j].1 <= s@.len(),
            ps == pieces(s@, spans_view(spans@)),
            k <= spans.len(),
            out@ == sep_join(ps.take(k as int), sep@),
        decreases spans.len() - k,
    {
        let (a, b) = spans[k];
        if k > 0 {
            push_chars(&mut out, sep);
        }
        let piece = slice(s, a, b);
        push_chars(&mut out, &piece);
        assert(ps[k as int] == s@.subrange(a as int, b as int));
        assert(ps.take(k + 1).drop_last() =~= ps.take(k as int));
        if k == 0 {
            assert(out@ =~= sep_join(ps.take(1), sep@));
        }
        k = k + 1;
    }
    assert(ps.take(spans.len() as int) =~= ps);
    out
}

pub fn collapse_whitespace(s: &[char]) -> (r: Vec<char>)
    ensures
        r@ == collapse_ws(s@),
{
    let spans = word_spans_of(s);
    proof {
        lemma_word_spans(s@);
        assert forall|k: int| 0 <= k < spans@.len() implies #[trigger] spans@[k].0 <= spans@[k].1
            <= s@.len() by {
            assert(spans_view(spans@)[k] == (spans@[k].0 as int, spans@[k].1 as int));
        }
    }
    let sp = chars_of(" ");
    join_spans(s, &spans, &sp)
}

/// What `str::to_lowercase` gives: the Unicode lowercase mapping.
pub uninterp spec fn lowercase(s: Seq<char>) -> Seq<char>;

pub open spec fn ascii_to_lower(c: char) -> char {
    if is_ascii_upper(c) {
        ((c as u32) + 32) as char
    } else {
        c
    }
}

pub fn to_ascii_lower(c: char) -> (r: char)
    ensures
        r == ascii_to_lower(c),
{
    if 'A' <= c && c <= 'Z' {
        ((c as u8) + 32) as char
    } else {
        c
    }
}

pub open spec fn all_ascii(s: Seq<char>) -> bool {
    forall|i: int| 0 <= i < s.len() ==> (s[i] as u32) < 128
}

/// `str::to_lowercase`: the Unicode lowercase form of a text. On ASCII
/// text that is each capital letter replaced by its small letter.
#[verifier::external_body]
pub(crate) fn to_lowercase(s: &str) -> (r: String)
    ensures
        r@ == lowercase(s@),
        all_ascii(s@) ==> r@ == s@.map_values(|c: char| ascii_to_lower(c)),
{
    s.to_lowercase()
}

/// Lower-cased characters of `s`.
pub fn lower_chars(s: &[char]) -> (r: Vec<char>)
    ensures
        r@ == lowercase(s@),
        all_ascii(s@) ==> r@ == s@.map_values(|c: char| ascii_to_lower(c)),
{
    let t = to_lowercase(string_of(s).as_str());
    chars_of(t.as_str())
}

} // verus!
