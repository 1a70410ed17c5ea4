//! Small shared helpers: cutting text safely, and the restart rule that
//! keeps a crashing subsystem from disappearing silently.
use vstd::prelude::*;
use vstd::string::StringSliceAdditionalSpecFns;
use vstd::utf8::{
    char_is_scalar, decode_utf8, decode_utf8_split, encode_scalar, encode_utf8,
    encode_utf8_decode_utf8, encode_utf8_first_scalar, encode_utf8_valid_utf8, is_char_boundary,
    is_char_boundary_start_end_of_seq, pop_first_scalar,
};

verus! {

/// Bytes in the UTF-8 encoding of `s`.
pub open spec fn utf8_len(s: Seq<char>) -> int {
    encode_utf8(s).len() as int
}

/// How many leading characters of `s` fit in `max` bytes, counting on from
/// `k` characters.
pub open spec fn fit_count(s: Seq<char>, max: int, k: int) -> int
    decreases s.len() - k,
{
    if k < 0 || k >= s.len() || utf8_len(s.take(k + 1)) > max {
        k
    } else {
        fit_count(s, max, k + 1)
    }
}

/// The longest prefix of `s`, in whole characters, whose UTF-8 encoding
/// takes at most `max` bytes.
pub open spec fn utf8_prefix(s: Seq<char>, max: int) -> Seq<char> {
    s.take(fit_count(s, max, 0))
}

proof fn lemma_encode_concat(a: Seq<char>, b: Seq<char>)
    ensures
        encode_utf8(a + b) == encode_utf8(a) + encode_utf8(b),
    decreases a.len(),
{
    if a.len() == 0 {
        assert(a + b =~= b);
        assert(encode_utf8(a) + encode_utf8(b) =~= encode_utf8(b));
    } else {
        assert((a + b)[0] == a[0]);
        assert((a + b).drop_first() =~= a.drop_first() + b);
        lemma_encode_concat(a.drop_first(), b);
        assert(encode_utf8(a + b) =~= encode_utf8(a) + encode_utf8(b));
    }
}

proof fn lemma_take_len(s: Seq<char>, j: int, k: int)
    requires
        0 <= j <= k <= s.len(),
    ensures
        utf8_len(s.take(j)) <= utf8_len(s.take(k)) <= utf8_len(s),
        j < k ==> utf8_len(s.take(j)) < utf8_len(s.take(k)),
{
    let mid = s.subrange(j, k);
    assert(s.take(k) =~= s.take(j) + mid);
    lemma_encode_concat(s.take(j), mid);
    assert(s =~= s.take(k) + s.skip(k));
    lemma_encode_concat(s.take(k), s.skip(k));
    if j < k {
        assert(encode_utf8(mid) == encode_scalar(mid[0] as u32) + encode_utf8(mid.drop_first()));
        char_is_scalar(mid[0]);
    }
}

proof fn lemma_take_is_boundary(s: Seq<char>, k: int)
    requires
        0 <= k <= s.len(),
    ensures
        is_char_boundary(encode_utf8(s), utf8_len(s.take(k))),
    decreases s.len(),
{
    let bytes = encode_utf8(s);
    encode_utf8_valid_utf8(s);
    if k == 0 {
        assert(s.take(0) =~= Seq::<char>::empty());
    } else {
        let rest = s.drop_first();
        encode_utf8_first_scalar(s);
        assert(pop_first_scalar(bytes) =~= encode_utf8(rest));
        assert(s.take(k)[0] == s[0]);
        assert(s.take(k).drop_first() =~= rest.take(k - 1));
        lemma_take_len(s, k, k);
        char_is_scalar(s[0]);
        lemma_take_is_boundary(rest, k - 1);
    }
}

proof fn lemma_fit_count(s: Seq<char>, max: int, m: int, k: int)
    requires
        0 <= k <= m <= s.len(),
        utf8_len(s.take(m)) <= max,
        m < s.len() ==> utf8_len(s.take(m + 1)) > max,
    ensures
        fit_count(s, max, k) == m,
    decreases m - k,
{
    if k < m {
        lemma_take_len(s, k + 1, m);
        lemma_fit_count(s, max, m, k + 1);
    }
}

/// Truncate a string to at most `max_bytes` bytes of UTF-8, never
/// splitting a character: the longest whole-character prefix that fits.
pub fn truncate_bytes(s: &str, max_bytes: usize) -> (r: &str)
    ensures
        r@ == utf8_prefix(s@, max_bytes as int),
        r.spec_bytes().len() <= max_bytes,
        s.spec_bytes().len() <= max_bytes ==> r@ == s@,
        r.spec_bytes().len() <= s.spec_bytes().len(),
        r.spec_bytes() == s.spec_bytes().subrange(0, r.spec_bytes().len() as int),
        is_char_boundary(s.spec_bytes(), r.spec_bytes().len() as int),
        forall|k: int|
            r.spec_bytes().len() < k <= max_bytes && k <= s.spec_bytes().len() ==> !is_char_boundary(
                s.spec_bytes(),
                k,
            ),
{
    proof {
        encode_utf8_valid_utf8(s@);
        is_char_boundary_start_end_of_seq(s.spec_bytes());
        assert(s@.take(s@.len() as int) =~= s@);
    }
    let n = s.as_bytes().len();
    if n <= max_bytes {
        proof {
            lemma_fit_count(s@, max_bytes as int, s@.len() as int, 0);
            assert(s.spec_bytes() =~= s.spec_bytes().subrange(0, n as int));
        }
        return s;
    }
    let mut end = max_bytes;
    while !s.is_char_boundary(end)
        invariant
            end <= max_bytes < n,
            n == s.spec_bytes().len(),
            is_char_boundary(s.spec_bytes(), 0),
            forall|j: int| end < j <= max_bytes ==> !is_char_boundary(s.spec_bytes(), j),
        decreases end,
    {
        end = end - 1;
    }
    let (head, _) = s.split_at(end);
    proof {
        let b = s.spec_bytes();
        decode_utf8_split(b, end as int);
        encode_utf8_decode_utf8(s@);
        encode_utf8_decode_utf8(head@);
        assert(head.spec_bytes() =~= b.subrange(0, end as int));
        assert(head@ == decode_utf8(b.subrange(0, end as int)));
        assert(s@ == head@ + decode_utf8(b.subrange(end as int, b.len() as int)));
        assert(head@ =~= s@.take(head@.len() as int));
        let m = head@.len() as int;
        assert(utf8_len(s@.take(m)) == end);
        if m < s@.len() {
            lemma_take_is_boundary(s@, m + 1);
            lemma_take_len(s@, m, m + 1);
        }
        lemma_fit_count(s@, max_bytes as int, m, 0);
        assert(head.spec_bytes().len() == end);
    }
    head
}

/// How many times a subsystem may panic before it is no longer restarted.
pub const MAX_SUBSYSTEM_RESTARTS: u32 = 5;

/// Pause between restarts, in milliseconds.
pub const RESTART_BACKOFF_MS: u64 = 500;

/// How one run of a supervised subsystem ended.
#[derive(Clone, Copy, Debug, PartialEq, Eq, Structural)]
pub enum RunOutcome {
    /// The subsystem returned normally (it saw the bus close).
    Returned,
    /// The subsystem panicked.
    Panicked,
    /// The run was cancelled because the runtime is shutting down.
    Cancelled,
}

/// What the supervisor does after a run ends.
#[derive(Clone, Copy, Debug, PartialEq, Eq, Structural)]
pub enum Supervision {
    /// Stop supervising: the subsystem is finished or given up on.
    Stop,
    /// Wait for the back-off and start the subsystem again.
    Restart,
}

/// The supervisor's decision, and the restart count after it.
pub open spec fn supervise_spec(restarts: u32, outcome: RunOutcome, bus_open: bool) -> (Supervision, int) {
    match outcome {
        RunOutcome::Returned => (Supervision::Stop, restarts as int),
        RunOutcome::Cancelled => (Supervision::Stop, restarts as int),
        RunOutcome::Panicked => if !bus_open {
            (Supervision::Stop, restarts as int)
        } else if restarts + 1 >= MAX_SUBSYSTEM_RESTARTS {
            (Supervision::Stop, restarts + 1)
        } else {
            (Supervision::Restart, restarts + 1)
        },
    }
}

/// One decision of the supervision loop: given how many restarts have
/// happened, how the latest run ended and whether the bus is still open,
/// say whether to restart and return the new restart count.
///
/// A clean return or a cancellation ends supervision; a panic while the
/// bus is closed ends it too (the process is shutting down); any other
/// panic counts as a restart, and at the limit the subsystem is given up.
pub fn supervise_step(restarts: u32, outcome: RunOutcome, bus_open: bool) -> (r: (Supervision, u32))
    requires
        restarts < MAX_SUBSYSTEM_RESTARTS,
    ensures
        (r.0, r.1 as int) == supervise_spec(restarts, outcome, bus_open),
        r.1 <= MAX_SUBSYSTEM_RESTARTS,
{
    match outcome {
        RunOutcome::Returned => (Supervision::Stop, restarts),
        RunOutcome::Cancelled => (Supervision::Stop, restarts),
        RunOutcome::Panicked => {
            if !bus_open {
                return (Supervision::Stop, restarts);
            }
            let next = restarts + 1;
            if next >= MAX_SUBSYSTEM_RESTARTS {
                (Supervision::Stop, next)
            } else {
                (Supervision::Restart, next)
            }
        },
    }
}

/// How many times a subsystem that panics on every run is started, from a
/// given restart count, while the bus stays open.
pub open spec fn runs_when_always_panicking(restarts: u32) -> nat
    decreases MAX_SUBSYSTEM_RESTARTS - restarts,
{
    if restarts >= MAX_SUBSYSTEM_RESTARTS {
        0
    } else {
        let (next, count) = supervise_spec(restarts, RunOutcome::Panicked, true);
        if next == Supervision::Restart && restarts < count < MAX_SUBSYSTEM_RESTARTS {
            1 + runs_when_always_panicking(count as u32)
        } else {
            1
        }
    }
}

/// A subsystem that panics every time is started exactly
/// `MAX_SUBSYSTEM_RESTARTS` times and then given up on, rather than
/// spinning forever.
pub proof fn law_supervisor_gives_up_at_the_limit()
    ensures
        runs_when_always_panicking(0) == MAX_SUBSYSTEM_RESTARTS,
{
    reveal_with_fuel(runs_when_always_panicking, 6);
}

/// How many times a subsystem is started, from a given restart count while
/// the bus stays open, when its runs panic `k` times and then end cleanly.
pub open spec fn runs_panicking_then_exiting(k: nat, restarts: u32) -> nat
    decreases k,
{
    if restarts >= MAX_SUBSYSTEM_RESTARTS {
        0
    } else if k == 0 {
        1
    } else {
        let (next, count) = supervise_spec(restarts, RunOutcome::Panicked, true);
        if next == Supervision::Restart && restarts < count < MAX_SUBSYSTEM_RESTARTS {
            1 + runs_panicking_then_exiting((k - 1) as nat, count as u32)
        } else {
            1
        }
    }
}

pub open spec fn min_nat(a: nat, b: nat) -> nat {
    if a <= b {
        a
    } else {
        b
    }
}

proof fn lemma_runs_panicking_then_exiting(k: nat, restarts: u32)
    requires
        restarts < MAX_SUBSYSTEM_RESTARTS,
    ensures
        runs_panicking_then_exiting(k, restarts) == min_nat(k + 1, (MAX_SUBSYSTEM_RESTARTS - restarts) as nat),
    decreases k,
{
    if k > 0 && restarts + 1 < MAX_SUBSYSTEM_RESTARTS {
        lemma_runs_panicking_then_exiting((k - 1) as nat, (restarts + 1) as u32);
    }
}

/// A subsystem whose runs panic `k` times and then end cleanly is started
/// `min(k + 1, MAX_SUBSYSTEM_RESTARTS)` times: every panic below the limit
/// earns a restart, the clean end stops it, and the limit caps it.
pub proof fn law_supervisor_starts_min_of_panics_and_limit(k: nat)
    ensures
        runs_panicking_then_exiting(k, 0) == min_nat(k + 1, MAX_SUBSYSTEM_RESTARTS as nat),
{
    lemma_runs_panicking_then_exiting(k, 0);
}

/// A clean exit, a cancellation, and a panic while shutting down are never
/// restarted, whatever the count.
pub proof fn law_only_live_panics_restart(restarts: u32, outcome: RunOutcome, bus_open: bool)
    ensures
        supervise_spec(restarts, outcome, bus_open).0 == Supervision::Restart ==> (outcome
            == RunOutcome::Panicked && bus_open && restarts + 1 < MAX_SUBSYSTEM_RESTARTS),
{
}

} // verus!
