//! Comparing package version strings, closely enough to dpkg's algorithm
//! to tell whether a version went backwards.
use crate::text::{
    chars_of, digit, is_digit, is_ascii_alpha, ascii_alpha, slice, split_once, split_once_spec,
    string_of,
};
use std::cmp::Ordering;
use vstd::prelude::*;

verus! {

/// One component of a version: a run of non-digits (separators and tildes
/// included) or a run of digits read as a number.
#[derive(Clone, Debug, PartialEq, Eq)]
pub enum VersionToken {
    Alpha(String),
    Num(u64),
}

/// The mathematical form of a token.
pub enum Tok {
    Alpha(Seq<char>),
    Num(u64),
}

impl VersionToken {
    pub open spec fn tok(&self) -> Tok {
        match self {
            VersionToken::Alpha(s) => Tok::Alpha(s@),
            VersionToken::Num(n) => Tok::Num(*n),
        }
    }
}

pub open spec fn toks(v: Seq<VersionToken>) -> Seq<Tok> {
    v.map_values(|t: VersionToken| t.tok())
}

/// Length of the leading run of non-digits.
pub open spec fn nondigit_run(s: Seq<char>) -> nat
    decreases s.len(),
{
    if s.len() > 0 && !is_digit(s[0]) {
        1 + nondigit_run(s.drop_first())
    } else {
        0
    }
}

/// Length of the leading run of ASCII digits.
pub open spec fn digit_run(s: Seq<char>) -> nat
    decreases s.len(),
{
    if s.len() > 0 && is_digit(s[0]) {
        1 + digit_run(s.drop_first())
    } else {
        0
    }
}

pub open spec fn digit_value(c: char) -> nat {
    ((c as u32) - ('0' as u32)) as nat
}

/// The number a run of digits spells.
pub open spec fn digits_value(s: Seq<char>) -> nat
    decreases s.len(),
{
    if s.len() == 0 {
        0
    } else {
        digits_value(s.drop_last()) * 10 + digit_value(s.last())
    }
}

/// A number, held at `u64::MAX` when it does not fit.
pub open spec fn saturate(n: nat) -> u64 {
    if n > u64::MAX {
        u64::MAX
    } else {
        n as u64
    }
}

/// Strictly alternating non-digit and digit runs, starting with a
/// (possibly empty) non-digit run.
pub open spec fn tokens_of(s: Seq<char>) -> Seq<Tok>
    decreases s.len(),
{
    let a = nondigit_run(s) as int;
    let alpha = Tok::Alpha(s.take(a));
    if a >= s.len() {
        seq![alpha]
    } else {
        let rest = s.skip(a);
        let d = digit_run(rest) as int;
        let num = Tok::Num(saturate(digits_value(rest.take(d))));
        if d >= rest.len() || d == 0 {
            seq![alpha, num]
        } else {
            seq![alpha, num] + tokens_of(rest.skip(d))
        }
    }
}

/// A version without its epoch (the text up to the first `:`).
pub open spec fn without_epoch(v: Seq<char>) -> Seq<char> {
    match split_once_spec(v, seq![':']) {
        Some((_, rest)) => rest,
        None => v,
    }
}

pub open spec fn tokenize_spec(v: Seq<char>) -> Seq<Tok> {
    tokens_of(without_epoch(v))
}

proof fn lemma_nondigit_run(s: Seq<char>)
    ensures
        nondigit_run(s) <= s.len(),
        forall|j: int| 0 <= j < nondigit_run(s) ==> !is_digit(s[j]),
        nondigit_run(s) < s.len() ==> is_digit(s[nondigit_run(s) as int]),
    decreases s.len(),
{
    if s.len() > 0 && !is_digit(s[0]) {
        lemma_nondigit_run(s.drop_first());
        assert forall|j: int| 0 <= j < nondigit_run(s) implies !is_digit(s[j]) by {
            if j > 0 {
                assert(s[j] == s.drop_first()[j - 1]);
            }
        }
    }
}

proof fn lemma_digit_run(s: Seq<char>)
    ensures
        digit_run(s) <= s.len(),
        forall|j: int| 0 <= j < digit_run(s) ==> is_digit(s[j]),
        digit_run(s) < s.len() ==> !is_digit(s[digit_run(s) as int]),
    decreases s.len(),
{
    if s.len() > 0 && is_digit(s[0]) {
        lemma_digit_run(s.drop_first());
        assert forall|j: int| 0 <= j < digit_run(s) implies is_digit(s[j]) by {
            if j > 0 {
                assert(s[j] == s.drop_first()[j - 1]);
            }
        }
    }
}

/// Scanning non-digits from `start` to `i` has covered part of the run.
proof fn lemma_nondigit_step(s: Seq<char>, start: int, i: int)
    requires
        0 <= start <= i < s.len(),
        !is_digit(s[i]),
        nondigit_run(s.skip(start)) == (i - start) + nondigit_run(s.skip(i)),
    ensures
        nondigit_run(s.skip(start)) == (i + 1 - start) + nondigit_run(s.skip(i + 1)),
{
    assert(s.skip(i).drop_first() =~= s.skip(i + 1));
}

proof fn lemma_digit_step(s: Seq<char>, start: int, i: int)
    requires
        0 <= start <= i < s.len(),
        is_digit(s[i]),
        digit_run(s.skip(start)) == (i - start) + digit_run(s.skip(i)),
    ensures
        digit_run(s.skip(start)) == (i + 1 - start) + digit_run(s.skip(i + 1)),
{
    assert(s.skip(i).drop_first() =~= s.skip(i + 1));
}

/// The saturated value of a run of digits, as `str::parse` with an
/// overflow held at the maximum would give.
fn parse_digits(s: &[char], from: usize, to: usize) -> (n: u64)
    requires
        from <= to <= s.len(),
        forall|j: int| from <= j < to ==> is_digit(s@[j]),
    ensures
        n == saturate(digits_value(s@.subrange(from as int, to as int))),
{
    let mut acc: u64 = 0;
    let mut over = false;
    let mut i = from;
    while i < to
        invariant
            from <= i <= to <= s.len(),
            forall|j: int| from <= j < to ==> is_digit(s@[j]),
            !over ==> acc as nat == digits_value(s@.subrange(from as int, i as int)),
            over ==> digits_value(s@.subrange(from as int, i as int)) > u64::MAX,
        decreases to - i,
    {
        let ghost pre = s@.subrange(from as int, i as int);
        assert(s@.subrange(from as int, i + 1).drop_last() =~= pre);
        let d = (s[i] as u32 - '0' as u32) as u64;
        assert(d as nat == digit_value(s@[i as int]));
        if !over {
            if acc > (u64::MAX - d) / 10 {
                over = true;
            } else {
                acc = acc * 10 + d;
            }
        }
        i = i + 1;
    }
    if over {
        u64::MAX
    } else {
        acc
    }
}

/// Split a version into comparable components, after dropping any epoch.
#[verifier::spinoff_prover]
#[verifier::rlimit(40)]
pub fn tokenize_version(v: &str) -> (r: Vec<VersionToken>)
    ensures
        toks(r@) == tokenize_spec(v@),
{
    let all = chars_of(v);
    let colon = vec![':'];
    assert(colon@ =~= seq![':']);
    let s: Vec<char> = match split_once(&all, &colon) {
        Some((_, rest)) => rest,
        None => all,
    };
    assert(s@ == without_epoch(v@));
    let n = s.len();
    let mut out: Vec<VersionToken> = Vec::new();
    let mut i: usize = 0;
    assert(s@.skip(0) =~= s@);
    loop
        invariant_except_break
            i == 0 || i < n,
            tokens_of(s@) == toks(out@) + tokens_of(s@.skip(i as int)),
        invariant
            n == s.len(),
            i <= n,
        ensures
            tokens_of(s@) == toks(out@),
        decreases n - i,
    {
        let ghost out0 = toks(out@);
        let ghost rest0 = s@.skip(i as int);
        let start = i;
        proof {
            lemma_nondigit_run(rest0);
        }
        while i < n && !digit(s[i])
            invariant
                n == s.len(),
                start <= i <= n,
                rest0 == s@.skip(start as int),
                nondigit_run(rest0) == (i - start) + nondigit_run(s@.skip(i as int)),
            decreases n - i,
        {
            proof {
                lemma_nondigit_step(s@, start as int, i as int);
            }
            i = i + 1;
        }
        proof {
            lemma_nondigit_run(s@.skip(i as int));
            assert(nondigit_run(s@.skip(i as int)) == 0);
            assert(rest0.take(i - start) =~= s@.subrange(start as int, i as int));
        }
        let alpha = VersionToken::Alpha(string_of(&slice(&s, start, i)));
        out.push(alpha);
        assert(toks(out@) =~= out0.push(Tok::Alpha(rest0.take(i - start))));
        if i >= n {
            assert(tokens_of(rest0) == seq![Tok::Alpha(rest0.take(i - start))]);
            assert(toks(out@) =~= out0 + tokens_of(rest0));
            break;
        }
        let ghost rest1 = s@.skip(i as int);
        assert(rest1 =~= rest0.skip(i - start));
        let dstart = i;
        proof {
            lemma_digit_run(rest1);
        }
        while i < n && digit(s[i])
            invariant
                n == s.len(),
                dstart <= i <= n,
                rest1 == s@.skip(dstart as int),
                digit_run(rest1) == (i - dstart) + digit_run(s@.skip(i as int)),
                forall|j: int| dstart <= j < i ==> is_digit(s@[j]),
            decreases n - i,
        {
            proof {
                lemma_digit_step(s@, dstart as int, i as int);
            }
            i = i + 1;
        }
        proof {
            lemma_digit_run(s@.skip(i as int));
            assert(rest1.take(i - dstart) =~= s@.subrange(dstart as int, i as int));
        }
        let num = parse_digits(&s, dstart, i);
        let ghost out1 = toks(out@);
        out.push(VersionToken::Num(num));
        assert(toks(out@) =~= out1.push(Tok::Num(num)));
        if i >= n {
            assert(tokens_of(rest0) =~= seq![
                Tok::Alpha(rest0.take(dstart - start)),
                Tok::Num(num),
            ]);
            assert(toks(out@) =~= out0 + tokens_of(rest0));
            break;
        }
        assert(rest1.skip(i - dstart) =~= s@.skip(i as int));
        assert(tokens_of(rest0) =~= seq![
            Tok::Alpha(rest0.take(dstart - start)),
            Tok::Num(num),
        ] + tokens_of(s@.skip(i as int)));
    }
    out
}

/// Character order inside a non-digit run, following dpkg: `~` before
/// everything (the end of the text included), then letters, then every
/// other character in code order.
pub open spec fn char_order(c: char) -> int {
    if c == '~' {
        -1
    } else if is_ascii_alpha(c) {
        c as u32 as int
    } else {
        c as u32 as int + 256
    }
}

fn char_order_of(c: char) -> (r: i64)
    ensures
        r as int == char_order(c),
{
    if c == '~' {
        -1
    } else if ascii_alpha(c) {
        c as u32 as i64
    } else {
        c as u32 as i64 + 256
    }
}

/// Order value at position `i`, with the end of the text counting as 0.
pub open spec fn order_at(s: Seq<char>, i: int) -> int {
    if i < s.len() {
        char_order(s[i])
    } else {
        0
    }
}

fn order_at_of(s: &[char], i: usize) -> (r: i64)
    ensures
        r as int == order_at(s@, i as int),
{
    if i < s.len() {
        char_order_of(s[i])
    } else {
        0
    }
}


/// A `usize` as a mathematical integer.
pub open spec fn wide(u: usize) -> int {
    u as int
}

/// A `u64` as a mathematical integer.
pub open spec fn wide64(u: u64) -> int {
    u as int
}

pub open spec fn int_order(a: int, b: int) -> Ordering {
    if a < b {
        Ordering::Less
    } else if a > b {
        Ordering::Greater
    } else {
        Ordering::Equal
    }
}

/// dpkg's comparison of two non-digit runs, from position `i` on.
pub open spec fn alpha_order_from(a: Seq<char>, b: Seq<char>, i: int) -> Ordering
    decreases a.len() + b.len() - i,
{
    if i < 0 || (i >= a.len() && i >= b.len()) {
        Ordering::Equal
    } else if order_at(a, i) != order_at(b, i) {
        int_order(order_at(a, i), order_at(b, i))
    } else {
        alpha_order_from(a, b, i + 1)
    }
}

pub open spec fn alpha_order(a: Seq<char>, b: Seq<char>) -> Ordering {
    alpha_order_from(a, b, 0)
}

/// dpkg's comparison of two non-digit runs.
pub fn compare_alpha(a: &str, b: &str) -> (r: Ordering)
    ensures
        r == alpha_order(a@, b@),
{
    let x = chars_of(a);
    let y = chars_of(b);
    let m = if x.len() > y.len() {
        x.len()
    } else {
        y.len()
    };
    let mut i: usize = 0;
    while i < m
        invariant
            x@ == a@,
            y@ == b@,
            m == if x@.len() > y@.len() { x@.len() } else { y@.len() },
            i <= m,
            alpha_order(x@, y@) == alpha_order_from(x@, y@, wide(i)),
        decreases m - i,
    {
        let p = order_at_of(&x, i);
        let q = order_at_of(&y, i);
        if p < q {
            return Ordering::Less;
        }
        if p > q {
            return Ordering::Greater;
        }
        i = i + 1;
    }
    Ordering::Equal
}

/// The token at position `i`, or the empty run / zero that stands for a
/// missing one (non-digit runs sit at even positions).
pub open spec fn tok_at(t: Seq<Tok>, i: int) -> Tok {
    if 0 <= i < t.len() {
        t[i]
    } else if i % 2 == 0 {
        Tok::Alpha(Seq::empty())
    } else {
        Tok::Num(0)
    }
}

pub open spec fn tok_order(x: Tok, y: Tok) -> Ordering {
    match (x, y) {
        (Tok::Alpha(p), Tok::Alpha(q)) => alpha_order(p, q),
        (Tok::Num(p), Tok::Num(q)) => int_order(wide64(p), wide64(q)),
        _ => Ordering::Equal,
    }
}

pub open spec fn toks_order_from(a: Seq<Tok>, b: Seq<Tok>, i: int) -> Ordering
    decreases a.len() + b.len() - i,
{
    if i < 0 || (i >= a.len() && i >= b.len()) {
        Ordering::Equal
    } else if tok_order(tok_at(a, i), tok_at(b, i)) != Ordering::Equal {
        tok_order(tok_at(a, i), tok_at(b, i))
    } else {
        toks_order_from(a, b, i + 1)
    }
}

/// dpkg-style comparison of two versions; `None` when both are empty.
pub open spec fn version_order(a: Seq<char>, b: Seq<char>) -> Option<Ordering> {
    if a.len() == 0 && b.len() == 0 {
        None
    } else {
        Some(toks_order_from(tokenize_spec(a), tokenize_spec(b), 0))
    }
}

fn compare_tokens(x: &VersionToken, y: &VersionToken) -> (r: Ordering)
    ensures
        r == tok_order(x.tok(), y.tok()),
{
    match (x, y) {
        (VersionToken::Alpha(p), VersionToken::Alpha(q)) => compare_alpha(p.as_str(), q.as_str()),
        (VersionToken::Num(p), VersionToken::Num(q)) => {
            if *p < *q {
                Ordering::Less
            } else if *p > *q {
                Ordering::Greater
            } else {
                Ordering::Equal
            }
        },
        _ => Ordering::Equal,
    }
}

fn token_at(t: &Vec<VersionToken>, i: usize) -> (r: VersionToken)
    ensures
        r.tok() == tok_at(toks(t@), wide(i)),
{
    if i < t.len() {
        match &t[i] {
            VersionToken::Alpha(a) => VersionToken::Alpha(string_of(&chars_of(a.as_str()))),
            VersionToken::Num(n) => VersionToken::Num(*n),
        }
    } else if i % 2 == 0 {
        VersionToken::Alpha(string_of(&Vec::new()))
    } else {
        VersionToken::Num(0)
    }
}

/// Compare two version strings, following dpkg closely enough to decide
/// whether a version went backwards. `None` when neither has any content.
pub fn compare_versions(a: &str, b: &str) -> (r: Option<Ordering>)
    ensures
        r == version_order(a@, b@),
{
    if a.is_empty() && b.is_empty() {
        return None;
    }
    let ta = tokenize_version(a);
    let tb = tokenize_version(b);
    let m = if ta.len() > tb.len() {
        ta.len()
    } else {
        tb.len()
    };
    let mut i: usize = 0;
    while i < m
        invariant
            toks(ta@) == tokenize_spec(a@),
            toks(tb@) == tokenize_spec(b@),
            !(a@.len() == 0 && b@.len() == 0),
            m == if ta@.len() > tb@.len() { ta@.len() } else { tb@.len() },
            i <= m,
            toks_order_from(toks(ta@), toks(tb@), 0) == toks_order_from(
                toks(ta@),
                toks(tb@),
                wide(i),
            ),
        decreases m - i,
    {
        let x = token_at(&ta, i);
        let y = token_at(&tb, i);
        let o = compare_tokens(&x, &y);
        match o {
            Ordering::Equal => {},
            _ => {
                return Some(o);
            },
        }
        i = i + 1;
    }
    Some(Ordering::Equal)
}

/// The text holds an ASCII digit: it reads as a version number at all.
pub open spec fn has_digit(s: Seq<char>) -> bool {
    exists|i: int| 0 <= i < s.len() && '0' <= #[trigger] s[i] <= '9'
}

fn has_digit_exec(s: &str) -> (r: bool)
    ensures
        r == has_digit(s@),
{
    let cs = crate::text::chars_of(s);
    let mut i: usize = 0;
    while i < cs.len()
        invariant
            cs@ == s@,
            i <= cs.len(),
            forall|j: int| 0 <= j < i ==> !('0' <= #[trigger] cs@[j] <= '9'),
        decreases cs.len() - i,
    {
        if '0' <= cs[i] && cs[i] <= '9' {
            return true;
        }
        i = i + 1;
    }
    false
}

/// Whether `new` is older than `old`: false whenever either is empty or
/// holds no digit, so an unrecognised scheme stays the quieter "upgrade".
pub open spec fn downgrade_spec(old: Seq<char>, new: Seq<char>) -> bool {
    &&& old.len() > 0 && new.len() > 0
    &&& has_digit(old) && has_digit(new)
    &&& version_order(new, old) == Some(Ordering::Less)
}

/// Whether `new` is older than `old`. Used only to spot downgrades in
/// formats that don't label them; false whenever it isn't sure, so an
/// unrecognised scheme is reported as the quieter "upgrade".
pub fn is_probable_downgrade(old: &str, new: &str) -> (r: bool)
    ensures
        r == downgrade_spec(old@, new@),
{
    if old.is_empty() || new.is_empty() {
        return false;
    }
    if !has_digit_exec(old) || !has_digit_exec(new) {
        return false;
    }
    match compare_versions(new, old) {
        Some(Ordering::Less) => true,
        _ => false,
    }
}

pub open spec fn flip(o: Ordering) -> Ordering {
    match o {
        Ordering::Less => Ordering::Greater,
        Ordering::Greater => Ordering::Less,
        Ordering::Equal => Ordering::Equal,
    }
}

proof fn lemma_alpha_flip(a: Seq<char>, b: Seq<char>, i: int)
    ensures
        alpha_order_from(b, a, i) == flip(alpha_order_from(a, b, i)),
    decreases a.len() + b.len() - i,
{
    if i < 0 || (i >= a.len() && i >= b.len()) {
    } else if order_at(a, i) != order_at(b, i) {
    } else {
        lemma_alpha_flip(a, b, i + 1);
    }
}

proof fn lemma_toks_flip(a: Seq<Tok>, b: Seq<Tok>, i: int)
    ensures
        toks_order_from(b, a, i) == flip(toks_order_from(a, b, i)),
    decreases a.len() + b.len() - i,
{
    let x = tok_at(a, i);
    let y = tok_at(b, i);
    match (x, y) {
        (Tok::Alpha(p), Tok::Alpha(q)) => lemma_alpha_flip(p, q, 0),
        _ => {},
    }
    if i < 0 || (i >= a.len() && i >= b.len()) {
    } else if tok_order(x, y) != Ordering::Equal {
    } else {
        lemma_toks_flip(a, b, i + 1);
    }
}

proof fn lemma_alpha_same(a: Seq<char>, i: int)
    ensures
        alpha_order_from(a, a, i) == Ordering::Equal,
    decreases a.len() + a.len() - i,
{
    if i < 0 || i >= a.len() {
    } else {
        lemma_alpha_same(a, i + 1);
    }
}

proof fn lemma_toks_same(a: Seq<Tok>, i: int)
    ensures
        toks_order_from(a, a, i) == Ordering::Equal,
    decreases a.len() + a.len() - i,
{
    match tok_at(a, i) {
        Tok::Alpha(p) => lemma_alpha_same(p, 0),
        _ => {},
    }
    if i < 0 || i >= a.len() {
    } else {
        lemma_toks_same(a, i + 1);
    }
}

/// Swapping the two versions swaps the answer: `a` is older than `b`
/// exactly when `b` is newer than `a`.
pub proof fn law_version_order_antisymmetric(a: Seq<char>, b: Seq<char>)
    ensures
        version_order(b, a) == match version_order(a, b) {
            Some(o) => Some(flip(o)),
            None => None,
        },
{
    lemma_toks_flip(tokenize_spec(a), tokenize_spec(b), 0);
}

/// Every non-empty version compares equal to itself.
pub proof fn law_version_order_reflexive(a: Seq<char>)
    requires
        a.len() > 0,
    ensures
        version_order(a, a) == Some(Ordering::Equal),
{
    lemma_toks_same(tokenize_spec(a), 0);
}

/// A change is never a downgrade in both directions, and never a
/// downgrade to the same version.
pub proof fn law_downgrade_is_one_way(old: Seq<char>, new: Seq<char>)
    ensures
        downgrade_spec(old, new) ==> !downgrade_spec(new, old),
        !downgrade_spec(old, old),
{
    law_version_order_antisymmetric(old, new);
    if old.len() > 0 {
        law_version_order_reflexive(old);
    }
}

// ---------------------------------------------------------------------
// Longer versions
// ---------------------------------------------------------------------

/// The length of a sequence, as an integer.
pub open spec fn count<A>(s: Seq<A>) -> int {
    s.len() as int
}

proof fn lemma_alpha_extended_from(a: Seq<char>, rest: Seq<char>, i: int)
    requires
        0 <= i <= a.len(),
        rest.len() > 0,
    ensures
        alpha_order_from(a + rest, a, i) == int_order(char_order(rest[0]), 0),
    decreases a.len() - i,
{
    let x = a + rest;
    if i < a.len() {
        assert(x[i] == a[i]);
        lemma_alpha_extended_from(a, rest, i + 1);
    } else {
        assert(x[i] == rest[0]);
        assert(order_at(x, i) == char_order(rest[0]));
        assert(order_at(a, i) == 0);
        assert(char_order(rest[0]) != 0);
    }
}

/// Within a run of non-digits, the end of the text sorts after `~` and
/// before every other character: a run followed by more text is newer than
/// the run alone, unless what follows starts with `~`, which marks an
/// earlier (pre-release) version.
pub proof fn law_end_of_run_sorts_after_tilde_only(a: Seq<char>, rest: Seq<char>)
    requires
        rest.len() > 0,
    ensures
        rest[0] == '~' ==> alpha_order(a + rest, a) == Ordering::Less,
        rest[0] != '~' ==> alpha_order(a + rest, a) == Ordering::Greater,
{
    lemma_alpha_extended_from(a, rest, 0);
}

proof fn lemma_nondigit_run_concat(x: Seq<char>, y: Seq<char>)
    requires
        nondigit_run(x) < x.len(),
    ensures
        nondigit_run(x + y) == nondigit_run(x),
    decreases x.len(),
{
    if !is_digit(x[0]) {
        assert((x + y).drop_first() =~= x.drop_first() + y);
        lemma_nondigit_run_concat(x.drop_first(), y);
    }
}

proof fn lemma_digit_run_concat(x: Seq<char>, y: Seq<char>)
    requires
        digit_run(x) < x.len() || y.len() == 0 || !is_digit(y[0]),
    ensures
        digit_run(x + y) == digit_run(x),
    decreases x.len(),
{
    if x.len() == 0 {
        assert(x + y =~= y);
    } else if is_digit(x[0]) {
        assert((x + y).drop_first() =~= x.drop_first() + y);
        lemma_digit_run_concat(x.drop_first(), y);
    }
}

proof fn lemma_digit_run_all(d: Seq<char>)
    requires
        forall|i: int| 0 <= i < d.len() ==> is_digit(#[trigger] d[i]),
    ensures
        digit_run(d) == d.len(),
    decreases d.len(),
{
    if d.len() > 0 {
        assert forall|i: int| 0 <= i < d.drop_first().len() implies is_digit(#[trigger] d.drop_first()[i]) by {
            assert(d.drop_first()[i] == d[i + 1]);
        }
        lemma_digit_run_all(d.drop_first());
    }
}

/// Cutting a version that ends in a digit before text that starts with a
/// non-digit cuts its tokens there too.
proof fn lemma_tokens_concat(v: Seq<char>, s: Seq<char>)
    requires
        v.len() > 0,
        is_digit(v.last()),
        s.len() > 0,
        !is_digit(s[0]),
    ensures
        tokens_of(v + s) == tokens_of(v) + tokens_of(s),
        tokens_of(v).len() % 2 == 0,
    decreases v.len(),
{
    let x = v + s;
    lemma_nondigit_run(v);
    let a = nondigit_run(v) as int;
    assert(a < v.len()) by {
        if a >= v.len() {
            assert(!is_digit(v[v.len() - 1]));
        }
    }
    lemma_nondigit_run_concat(v, s);
    assert(nondigit_run(x) as int == a);
    assert(x.take(a) =~= v.take(a));
    let rest = v.skip(a);
    let rest2 = x.skip(a);
    assert(rest2 =~= rest + s);
    lemma_digit_run(rest);
    assert(rest[0] == v[a]);
    let d = digit_run(rest) as int;
    assert(d > 0);
    if d >= rest.len() {
        lemma_digit_run_concat(rest, s);
        assert(digit_run(rest2) as int == d);
        assert(rest2.take(d) =~= rest.take(d));
        assert(rest2.skip(d) =~= s);
        assert(tokens_of(v) == seq![Tok::Alpha(v.take(a)), Tok::Num(saturate(digits_value(rest.take(d))))]);
        assert(tokens_of(x) == seq![Tok::Alpha(v.take(a)), Tok::Num(saturate(digits_value(rest.take(d))))]
            + tokens_of(s));
    } else {
        lemma_digit_run_concat(rest, s);
        assert(digit_run(rest2) as int == d);
        assert(rest2.take(d) =~= rest.take(d));
        let tail = rest.skip(d);
        assert(rest2.skip(d) =~= tail + s);
        assert(tail.last() == v.last());
        lemma_tokens_concat(tail, s);
        let head = seq![Tok::Alpha(v.take(a)), Tok::Num(saturate(digits_value(rest.take(d))))];
        assert(tokens_of(v) == head + tokens_of(tail));
        assert(tokens_of(x) == head + tokens_of(tail + s));
        assert(head + (tokens_of(tail) + tokens_of(s)) =~= (head + tokens_of(tail)) + tokens_of(s));
    }
}

proof fn lemma_no_epoch(v: Seq<char>)
    requires
        !v.contains(':'),
    ensures
        without_epoch(v) == v,
{
    crate::text::lemma_find_spec(v, seq![':'], 0);
    if let Some(i) = crate::text::find_spec(v, seq![':'], 0) {
        assert(v.subrange(i, i + 1) == seq![':']);
        assert(v[i] == v.subrange(i, i + 1)[0]);
        assert(v.contains(v[i]));
    }
}

proof fn lemma_toks_extended_from(t: Seq<Tok>, u: Seq<Tok>, i: int)
    requires
        0 <= i <= t.len(),
    ensures
        toks_order_from(t + u, t, i) == toks_order_from(t + u, t, count(t)),
    decreases t.len() - i,
{
    if i < t.len() {
        assert(tok_at(t + u, i) == t[i]);
        assert(tok_at(t, i) == t[i]);
        match t[i] {
            Tok::Alpha(p) => lemma_alpha_same(p, 0),
            _ => {},
        }
        lemma_toks_extended_from(t, u, i + 1);
    }
}

/// A version is older than itself followed by a separator and more digits
/// ("1.0-1" is older than "1.0-1.1", "1.0" than "1.0.1"): an update that
/// only adds such a part is never reported as going backwards.
pub proof fn law_added_part_is_newer(v: Seq<char>, digits: Seq<char>)
    requires
        v.len() > 0,
        is_digit(v.last()),
        !v.contains(':'),
        digits.len() > 0,
        forall|i: int| 0 <= i < digits.len() ==> is_digit(#[trigger] digits[i]),
    ensures
        version_order(v + seq!['.'] + digits, v) == Some(Ordering::Greater),
        version_order(v, v + seq!['.'] + digits) == Some(Ordering::Less),
        !downgrade_spec(v, v + seq!['.'] + digits),
{
    let s = seq!['.'] + digits;
    let w = v + s;
    assert(v + seq!['.'] + digits =~= w);
    assert(s[0] == '.');
    assert(!is_digit('.'));
    assert(!s.contains(':')) by {
        if s.contains(':') {
            let i = choose|i: int| 0 <= i < s.len() && s[i] == ':';
            if i > 0 {
                assert(s[i] == digits[i - 1]);
            }
        }
    }
    assert(!w.contains(':')) by {
        if w.contains(':') {
            let i = choose|i: int| 0 <= i < w.len() && w[i] == ':';
            if i < v.len() {
                assert(w[i] == v[i]);
                assert(v.contains(':'));
            } else {
                assert(w[i] == s[i - v.len()]);
                assert(s.contains(':'));
            }
        }
    }
    lemma_no_epoch(v);
    lemma_no_epoch(w);
    lemma_tokens_concat(v, s);
    // The added part reads as one separator run and one number.
    lemma_nondigit_run(s);
    assert(s.drop_first() =~= digits);
    assert(is_digit(digits[0]));
    assert(nondigit_run(digits) == 0);
    assert(nondigit_run(s) == 1 + nondigit_run(s.drop_first()));
    assert(nondigit_run(s) == 1);
    assert(s.skip(1) =~= digits);
    lemma_digit_run_all(digits);
    assert(s.take(1) =~= seq!['.']);
    let n = Tok::Num(saturate(digits_value(digits.take(count(digits)))));
    assert(tokens_of(s) == seq![Tok::Alpha(seq!['.']), n]);
    let t = tokens_of(v);
    let u = tokens_of(s);
    lemma_toks_extended_from(t, u, 0);
    assert(tok_at(t + u, count(t)) == Tok::Alpha(seq!['.']));
    assert(tok_at(t, count(t)) == Tok::Alpha(Seq::<char>::empty()));
    law_end_of_run_sorts_after_tilde_only(Seq::<char>::empty(), seq!['.']);
    assert(Seq::<char>::empty() + seq!['.'] =~= seq!['.']);
    assert(tokenize_spec(w) == t + u);
    assert(tokenize_spec(v) == t);
    assert(version_order(w, v) == Some(Ordering::Greater));
    law_version_order_antisymmetric(w, v);
}

} // verus!
