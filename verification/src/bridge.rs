//! The worker process's supervision rules: when to start it, when to stop
//! trying, when it is idle, and how requests are framed on its socket.
use crate::json::{as_str, field, get, json_of, parse_json, str_of, Json};
use crate::text::{chars_of, same};
use vstd::prelude::*;

verus! {

/// Crashes are counted within this window, in nanoseconds (60 s).
pub const CRASH_WINDOW_NS: u64 = 60_000_000_000;

/// Restarts allowed within the window before the worker is given up on.
pub const MAX_RESTARTS_IN_WINDOW: u32 = 2;

/// How long without a request before the worker is asked to unload its
/// model, in nanoseconds (5 minutes).
pub const IDLE_TIMEOUT_NS: u64 = 300_000_000_000;

/// What the supervisor knows of the worker process.
pub struct WorkerLifecycle {
    /// A process handle is held.
    pub running: bool,
    /// Crashes since the window opened.
    pub restart_count: u32,
    /// When the first crash of the window happened (monotonic ns).
    pub first_crash: Option<u64>,
    /// Cleared for good once the worker crashes too often.
    pub available: bool,
    /// When the last request was sent (monotonic ns).
    pub last_request: u64,
}

/// The process handle's state when a request is about to go out.
#[derive(Clone, Copy, Debug, PartialEq, Eq, Structural)]
pub enum ChildState {
    /// No process is held.
    NoChild,
    /// The process is still running.
    Alive,
    /// The process has exited, or its state could not be read.
    Exited,
}

/// What to do before sending a request.
#[derive(Clone, Copy, Debug, PartialEq, Eq, Structural)]
pub enum Launch {
    /// The worker is running: send.
    Running,
    /// The worker was given up on earlier: fail the request.
    Unavailable,
    /// Too many crashes within the window: give up on the worker now.
    GaveUp,
    /// Start a new worker process, then send.
    Spawn,
}

/// The decision before a request, and the supervisor's state after it: a
/// dead process counts as a crash; a worker given up on stays so; two
/// restarts inside the window give it up; a window that has passed is
/// forgotten; otherwise a new process is started.
pub open spec fn launch_spec(w: WorkerLifecycle, child: ChildState, now: u64) -> (Launch, WorkerLifecycle) {
    if child == ChildState::Alive {
        (Launch::Running, w)
    } else {
        let crashed = child == ChildState::Exited;
        let count = if crashed { (w.restart_count + 1) as u32 } else { w.restart_count };
        let first = if crashed && w.first_crash is None { Some(now) } else { w.first_crash };
        let after = WorkerLifecycle { running: false, restart_count: count, first_crash: first, ..w };
        if !w.available {
            (Launch::Unavailable, after)
        } else {
            match first {
                Some(f) => if count >= MAX_RESTARTS_IN_WINDOW && now - f < CRASH_WINDOW_NS {
                    (Launch::GaveUp, WorkerLifecycle { available: false, ..after })
                } else if now - f >= CRASH_WINDOW_NS {
                    (Launch::Spawn, WorkerLifecycle { restart_count: 0, first_crash: None, ..after })
                } else {
                    (Launch::Spawn, after)
                },
                None => (Launch::Spawn, after),
            }
        }
    }
}

impl WorkerLifecycle {
    /// A supervisor at monotonic time `now`, with no process yet.
    pub fn new(now: u64) -> (w: Self)
        ensures
            !w.running,
            w.restart_count == 0,
            w.first_crash is None,
            w.available,
            w.last_request == now,
    {
        WorkerLifecycle { running: false, restart_count: 0, first_crash: None, available: true, last_request: now }
    }

    pub fn is_running(&self) -> (r: bool)
        ensures
            r == self.running,
    {
        self.running
    }

    /// No request for longer than `idle`.
    pub fn is_idle(&self, idle: u64, now: u64) -> (r: bool)
        ensures
            r == (now - self.last_request > idle),
    {
        now > self.last_request && now - self.last_request > idle
    }

    /// A request went out at `now`.
    pub fn note_request(&mut self, now: u64)
        ensures
            final(self).last_request == now,
            final(self).running == old(self).running,
            final(self).restart_count == old(self).restart_count,
            final(self).first_crash == old(self).first_crash,
            final(self).available == old(self).available,
    {
        self.last_request = now;
    }

    /// The worker crashed at `now`: count it, open the window if none is
    /// open, and drop the process handle.
    pub fn record_crash(&mut self, now: u64)
        requires
            old(self).restart_count < u32::MAX,
        ensures
            final(self).restart_count == old(self).restart_count + 1,
            final(self).first_crash == (match old(self).first_crash {
                Some(f) => Some(f),
                None => Some(now),
            }),
            !final(self).running,
            final(self).available == old(self).available,
            final(self).last_request == old(self).last_request,
    {
        self.restart_count = self.restart_count + 1;
        if self.first_crash.is_none() {
            self.first_crash = Some(now);
        }
        self.running = false;
    }

    /// A new process started and its socket is ready.
    pub fn spawned(&mut self)
        ensures
            final(self).running,
            final(self).restart_count == old(self).restart_count,
            final(self).first_crash == old(self).first_crash,
            final(self).available == old(self).available,
            final(self).last_request == old(self).last_request,
    {
        self.running = true;
    }

    /// Decide, before a request at `now`, whether the worker can be used.
    pub fn ensure_running(&mut self, child: ChildState, now: u64) -> (r: Launch)
        requires
            old(self).restart_count < u32::MAX,
        ensures
            (r, *final(self)) == launch_spec(*old(self), child, now),
    {
        match child {
            ChildState::Alive => {
                return Launch::Running;
            },
            ChildState::Exited => {
                self.record_crash(now);
            },
            ChildState::NoChild => {
                self.running = false;
            },
        }
        if !self.available {
            return Launch::Unavailable;
        }
        match self.first_crash {
            Some(first) => {
                let within = now < first || now - first < CRASH_WINDOW_NS;
                if self.restart_count >= MAX_RESTARTS_IN_WINDOW && within {
                    self.available = false;
                    return Launch::GaveUp;
                }
                if !within {
                    self.restart_count = 0;
                    self.first_crash = None;
                }
            },
            None => {},
        }
        Launch::Spawn
    }
}

/// What to do at a health tick.
#[derive(Clone, Copy, Debug, PartialEq, Eq, Structural)]
pub enum TickAction {
    /// Nothing.
    Nothing,
    /// The worker is unhealthy: count a crash.
    RecordCrash,
    /// The worker is idle: ask it to unload its model.
    Unload,
}

/// At a health tick, for a running worker: an unhealthy one counts as a
/// crash, a healthy idle one is asked to unload. A stopped worker is left
/// alone.
pub fn health_tick(running: bool, healthy: bool, idle: bool) -> (r: TickAction)
    ensures
        r == (if !running {
            TickAction::Nothing
        } else if !healthy {
            TickAction::RecordCrash
        } else if idle {
            TickAction::Unload
        } else {
            TickAction::Nothing
        }),
{
    if !running {
        TickAction::Nothing
    } else if !healthy {
        TickAction::RecordCrash
    } else if idle {
        TickAction::Unload
    } else {
        TickAction::Nothing
    }
}

// ---------------------------------------------------------------------
// Framing
// ---------------------------------------------------------------------

/// The four little-endian bytes of `n`.
pub open spec fn le_bytes(n: u32) -> Seq<u8> {
    seq![(n % 256) as u8, ((n / 256) % 256) as u8, ((n / 65536) % 256) as u8, (n / 16777216) as u8]
}

/// A message as it goes on the socket: its length as four little-endian
/// bytes (the length taken modulo 2^32), then the bytes.
pub open spec fn framed(body: Seq<u8>) -> Seq<u8> {
    le_bytes((body.len() % 0x1_0000_0000) as u32) + body
}

/// Frame a message for the worker's socket.
pub fn frame(body: &[u8]) -> (r: Vec<u8>)
    ensures
        r@ == framed(body@),
{
    let len = body.len();
    let n: u32 = #[verifier::truncate] (len as u32);
    assert(n as u64 == (len as u64) % 0x1_0000_0000u64) by (bit_vector)
        requires
            n == #[verifier::truncate] (len as u32),
    ;
    let mut out: Vec<u8> = Vec::new();
    out.push((n % 256) as u8);
    out.push(((n / 256) % 256) as u8);
    out.push(((n / 65536) % 256) as u8);
    out.push((n / 16777216) as u8);
    let mut i: usize = 0;
    while i < body.len()
        invariant
            i <= body.len(),
            out@ == le_bytes(n) + body@.take(i as int),
        decreases body.len() - i,
    {
        out.push(body[i]);
        assert(body@.take(i + 1) =~= body@.take(i as int).push(body@[i as int]));
        assert(out@ =~= le_bytes(n) + body@.take(i + 1));
        i = i + 1;
    }
    assert(body@.take(body.len() as int) =~= body@);
    out
}

/// The length a frame header announces.
pub open spec fn header_len(h: Seq<u8>) -> int {
    h[0] + 256 * h[1] + 65536 * h[2] + 16777216 * h[3]
}

pub fn frame_length(header: [u8; 4]) -> (n: u32)
    ensures
        n as int == header_len(header@),
{
    (header[0] as u32) + 256 * (header[1] as u32) + 65536 * (header[2] as u32) + 16777216 * (header[3] as u32)
}

/// Reading a frame's header gives back the length that was framed.
pub proof fn law_frame_length_round_trips(body: Seq<u8>)
    requires
        body.len() < 0x1_0000_0000,
    ensures
        header_len(framed(body)) == body.len(),
{
    let n = body.len() as u32;
    assert(framed(body)[0] == (n % 256) as u8);
    assert(framed(body)[1] == ((n / 256) % 256) as u8);
    assert(framed(body)[2] == ((n / 65536) % 256) as u8);
    assert(framed(body)[3] == (n / 16777216) as u8);
    assert(n as int == (n % 256) + 256 * ((n / 256) % 256) + 65536 * ((n / 65536) % 256) + 16777216 * (n / 16777216)) by (nonlinear_arith);
}

/// Once given up on, the worker stays given up on: no later launch
/// decision starts it again.
pub proof fn law_giving_up_is_final(w: WorkerLifecycle, child: ChildState, now: u64)
    requires
        !w.available,
        w.restart_count < u32::MAX,
    ensures
        launch_spec(w, child, now).0 == Launch::Running || launch_spec(w, child, now).0 == Launch::Unavailable,
        !launch_spec(w, child, now).1.available,
{
}

/// A worker that has crashed twice within the window is given up on at
/// the next launch inside the window, rather than restarted a third time.
pub proof fn law_two_crashes_in_a_minute_give_up(w: WorkerLifecycle, now: u64)
    requires
        w.available,
        w.restart_count >= MAX_RESTARTS_IN_WINDOW,
        w.restart_count < u32::MAX,
        w.first_crash matches Some(f) && f <= now && now - f < CRASH_WINDOW_NS,
    ensures
        launch_spec(w, ChildState::NoChild, now).0 == Launch::GaveUp,
        !launch_spec(w, ChildState::NoChild, now).1.available,
{
}

/// After a quiet minute the crash count starts over, so occasional
/// crashes never add up to giving up.
pub proof fn law_the_crash_window_forgets(w: WorkerLifecycle, now: u64)
    requires
        w.available,
        w.restart_count < u32::MAX,
        w.first_crash matches Some(f) && now - f >= CRASH_WINDOW_NS,
    ensures
        launch_spec(w, ChildState::NoChild, now).0 == Launch::Spawn,
        launch_spec(w, ChildState::NoChild, now).1.restart_count == 0,
        launch_spec(w, ChildState::NoChild, now).1.first_crash is None,
{
}

/// Whether the worker's reply to a health request reports it well: its
/// `payload.status` is the string `"ok"`.
pub open spec fn health_ok_spec(reply: Option<Json>) -> bool {
    match reply {
        Some(v) => match field(v, "payload"@) {
            Some(p) => as_str(field(p, "status"@)) == Some("ok"@),
            None => false,
        },
        None => false,
    }
}

/// Read the worker's reply to a health request; a reply that is not JSON
/// is not a healthy one.
pub fn health_reply_ok(resp: &str) -> (r: bool)
    ensures
        r == health_ok_spec(json_of(resp@)),
{
    let parsed = parse_json(resp);
    match &parsed {
        Ok(v) => match get(v, "payload") {
            Some(p) => match str_of(get(p, "status")) {
                Some(status) => {
                    proof {
                        reveal_strlit("ok");
                    }
                    same(&chars_of(status), &chars_of("ok"))
                },
                None => false,
            },
            None => false,
        },
        Err(_) => false,
    }
}

/// Tries a request gets before it fails.
pub const REQUEST_ATTEMPTS: u32 = 2;

/// What follows one try of a request.
#[derive(Clone, Copy, Debug, PartialEq, Eq, Structural)]
pub enum RequestStep {
    /// The worker replied: hand the reply back.
    Deliver,
    /// The try failed: count it as a crash and try again.
    CrashAndRetry,
    /// The last try failed: count it as a crash and fail the request.
    CrashAndFail,
}

pub open spec fn request_step_spec(attempt: u32, replied: bool) -> RequestStep {
    if replied {
        RequestStep::Deliver
    } else if attempt >= REQUEST_ATTEMPTS {
        RequestStep::CrashAndFail
    } else {
        RequestStep::CrashAndRetry
    }
}

/// After try number `attempt` (from 1) of a request, whether the worker
/// `replied`: what to do next.
pub fn request_step(attempt: u32, replied: bool) -> (r: RequestStep)
    ensures
        r == request_step_spec(attempt, replied),
{
    if replied {
        RequestStep::Deliver
    } else if attempt >= REQUEST_ATTEMPTS {
        RequestStep::CrashAndFail
    } else {
        RequestStep::CrashAndRetry
    }
}

/// A request is tried at most `REQUEST_ATTEMPTS` times, and every failed
/// try counts as a crash.
pub proof fn law_requests_are_tried_twice_at_most(attempt: u32, replied: bool)
    ensures
        request_step_spec(attempt, replied) == RequestStep::CrashAndRetry ==> attempt < REQUEST_ATTEMPTS,
        !replied ==> request_step_spec(attempt, replied) != RequestStep::Deliver,
        replied ==> request_step_spec(attempt, replied) == RequestStep::Deliver,
{
}

} // verus!
