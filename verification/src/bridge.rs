//! The helper bridge: one command reaches a healthy helper process and its
//! reply comes back, or a precise failure is reported — never a hang.
//!
//! The bridge's decisions are pure functions here; the surrounding
//! application owns the process, the pipes and the clock, holds one lock
//! across a whole call (calls are strictly serialized — no pipelining),
//! and feeds in what it observes: spawn outcomes, exit checks, write
//! results and read attempts. [`run_call`] is the whole call protocol over
//! such a sequence of observations.

use vstd::prelude::*;
use vstd::string::StringExecFns;
use crate::json::{JsonValue, JsonV, jv};
use crate::protocol::{parse_response, interpret_response, response_of_text};
use crate::errors::BridgeError;

verus! {

/// Reply deadline and polling pace, fixed at startup.
#[derive(Debug, Clone, Copy, PartialEq, Eq, Structural)]
pub struct BridgeConfig {
    pub timeout_ms: u64,
    pub poll_interval_ms: u64,
}

impl Default for BridgeConfig {
    /// The documented defaults: a ten-second reply window, polled at a
    /// short interval.
    fn default() -> (r: Self)
        ensures
            r.timeout_ms == 10000,
            r.poll_interval_ms == 10,
    {
        BridgeConfig { timeout_ms: 10000, poll_interval_ms: 10 }
    }
}

/// What the bridge knows of the helper process: whether a handle is held,
/// how many times a process was spawned, and when the last good reply
/// arrived.
#[derive(Debug, Clone, Copy, PartialEq, Eq, Structural)]
pub struct BridgeState {
    pub running: bool,
    pub generation: u64,
    pub last_response_ms: u64,
}

/// What the application saw when asked to spawn the helper.
#[derive(Debug, PartialEq, Eq)]
pub enum SpawnOutcome {
    /// No executable at the path carried here.
    NotFound(String),
    /// The OS refused; its message is carried here.
    OsError(String),
    Spawned,
}

/// What one non-blocking read attempt saw.
#[derive(Debug, PartialEq, Eq)]
pub enum ReadEvent {
    /// A whole line arrived.
    Line(String),
    /// The stream ended before any data.
    Eof,
    /// Nothing available yet.
    NoData,
    /// The read itself failed; the message is carried here.
    IoError(String),
}

/// What the caller must do after one read attempt.
#[derive(Debug, PartialEq, Eq)]
pub enum PollVerdict {
    /// The reply line is here.
    Deliver(String),
    /// Sleep one poll interval and try again.
    Wait,
    /// Stop: kill the helper and report this failure.
    Abort(BridgeError),
}

impl BridgeState {
    /// Before any call: no handle, nothing spawned yet.
    pub fn new() -> (r: Self)
        ensures
            !r.running && r.generation == 0 && r.last_response_ms == 0,
    {
        BridgeState { running: false, generation: 0, last_response_ms: 0 }
    }

    /// Applies a spawn outcome. A call with a handle already held is the
    /// idempotent no-op success; otherwise exactly the outcome decides,
    /// and only a success takes a new generation.
    pub fn on_spawn_result(&mut self, outcome: SpawnOutcome) -> (r: Result<(), BridgeError>)
        requires
            old(self).generation < u64::MAX,
        ensures
            old(self).running ==> *final(self) == *old(self) && r is Ok,
            !old(self).running ==> match outcome {
                SpawnOutcome::Spawned => r is Ok && final(self).running && final(self).generation
                    == old(self).generation + 1 && final(self).last_response_ms
                    == old(self).last_response_ms,
                SpawnOutcome::NotFound(p) => (r matches Err(e) && e matches
                    BridgeError::HelperNotFound(q) && q@ == p@) && *final(self) == *old(self),
                SpawnOutcome::OsError(m) => (r matches Err(e) && e matches
                    BridgeError::SpawnFailed(q) && q@ == m@) && *final(self) == *old(self),
            },
    {
        if self.running {
            return Ok(());
        }
        match outcome {
            SpawnOutcome::Spawned => {
                self.running = true;
                self.generation = self.generation + 1;
                Ok(())
            },
            SpawnOutcome::NotFound(p) => Err(BridgeError::HelperNotFound(p)),
            SpawnOutcome::OsError(m) => Err(BridgeError::SpawnFailed(m)),
        }
    }

    /// The health check made before every send: a helper found dead loses
    /// its handle, so the caller respawns before proceeding.
    pub fn on_health_check(&mut self, exited: bool)
        ensures
            final(self).running == (old(self).running && !exited),
            final(self).generation == old(self).generation,
            final(self).last_response_ms == old(self).last_response_ms,
    {
        if exited {
            self.running = false;
        }
    }

    /// Applies the outcome of writing one request line. A write failure is
    /// a transport error and invalidates the handle, forcing a respawn on
    /// the next call.
    pub fn on_write_result(&mut self, write_error: Option<String>) -> (r: Result<
        (),
        BridgeError,
    >)
        ensures
            write_error is None ==> r is Ok && *final(self) == *old(self),
            write_error matches Some(m) ==> (r matches Err(e) && e matches
                BridgeError::TransportError(t) && t@ == "Write error: "@ + m@)
                && !final(self).running && final(self).generation == old(self).generation,
    {
        match write_error {
            None => Ok(()),
            Some(m) => {
                self.running = false;
                let mut t = String::from_str("Write error: ");
                t.append(m.as_str());
                Err(BridgeError::TransportError(t))
            },
        }
    }

    /// Records the arrival time of a good reply.
    pub fn note_response(&mut self, now_ms: u64)
        ensures
            final(self).running == old(self).running,
            final(self).generation == old(self).generation,
            final(self).last_response_ms == now_ms,
    {
        self.last_response_ms = now_ms;
    }

    /// Drops the handle — after a fatal read failure or unparsable
    /// output; the caller kills the process and the next call respawns.
    pub fn discard(&mut self)
        ensures
            !final(self).running,
            final(self).generation == old(self).generation,
            final(self).last_response_ms == old(self).last_response_ms,
    {
        self.running = false;
    }
}

/// Decides one read attempt. A reply is delivered; end-of-stream means
/// the helper died; a read error is a transport failure; and no data yet
/// means wait — unless the deadline has passed, in which case the call
/// fails with a timeout naming the command and the elapsed time. The
/// verdict is `Wait` only while `now_ms - start_ms <= timeout_ms`: the
/// wait is bounded.
pub fn poll_read(command: &str, start_ms: u64, now_ms: u64, timeout_ms: u64, ev: ReadEvent) -> (r:
    PollVerdict)
    requires
        now_ms >= start_ms,
    ensures
        (ev matches ReadEvent::Line(l) ==> r matches PollVerdict::Deliver(d) && d@ == l@),
        ev is Eof ==> (r matches PollVerdict::Abort(e) && e is HelperClosed),
        (ev matches ReadEvent::IoError(m) ==> r matches PollVerdict::Abort(e) && e matches
            BridgeError::TransportError(t) && t@ == "Read error: "@ + m@),
        ev is NoData && now_ms - start_ms > timeout_ms ==> (r matches PollVerdict::Abort(e)
            && e matches BridgeError::HelperTimeout { command: c, elapsed_ms } && c@ == command@
            && elapsed_ms == now_ms - start_ms),
        ev is NoData && now_ms - start_ms <= timeout_ms ==> r is Wait,
{
    match ev {
        ReadEvent::Line(l) => PollVerdict::Deliver(l),
        ReadEvent::Eof => PollVerdict::Abort(BridgeError::HelperClosed),
        ReadEvent::IoError(m) => {
            let mut t = String::from_str("Read error: ");
            t.append(m.as_str());
            PollVerdict::Abort(BridgeError::TransportError(t))
        },
        ReadEvent::NoData => {
            if now_ms - start_ms > timeout_ms {
                PollVerdict::Abort(
                    BridgeError::HelperTimeout {
                        command: String::from_str(command),
                        elapsed_ms: now_ms - start_ms,
                    },
                )
            } else {
                PollVerdict::Wait
            }
        },
    }
}

/// Turns one reply line into the call's outcome: a malformed line is a
/// protocol error carrying the raw text — never a silent default, and the
/// caller then discards the handle, since the conversation may be
/// desynchronized; a good line yields its result or the helper's reported
/// error.
pub fn finish_call(line: String) -> (r: Result<JsonValue, BridgeError>)
    requires
        line@.len() <= usize::MAX as int / 4,
    ensures
        (match response_of_text(line@) {
            None => r matches Err(e) && e matches BridgeError::ProtocolError(raw) && raw@
                == line@,
            Some(p) => {
                &&& p.ok ==> (r matches Ok(v) && jv(v) == (match p.result {
                    Some(x) => x,
                    None => JsonV::Null,
                }))
                &&& !p.ok ==> (r matches Err(e) && e matches BridgeError::HelperReportedError(m)
                    && m@ == (match p.error {
                    Some(t) => t,
                    None => "Unknown helper error"@,
                }))
            },
        }),
{
    match parse_response(line.as_str()) {
        None => Err(BridgeError::ProtocolError(line)),
        Some(resp) => interpret_response(resp),
    }
}

// ---------------------------------------------------------------------------
// The whole call protocol over a sequence of observations.
// ---------------------------------------------------------------------------

/// Whether one read attempt settles the poll loop.
pub open spec fn is_decisive(ev: (u64, ReadEvent), start_ms: u64, timeout_ms: u64) -> bool {
    !(ev.1 is NoData) || ev.0 - start_ms > timeout_ms
}

/// The index of the first read attempt that settles the poll loop
/// (the length when none does).
pub open spec fn first_decisive(reads: Seq<(u64, ReadEvent)>, start_ms: u64, timeout_ms: u64) -> int
    decreases reads,
{
    if reads.len() == 0 {
        0
    } else if is_decisive(reads[0], start_ms, timeout_ms) {
        0
    } else {
        1 + first_decisive(reads.drop_first(), start_ms, timeout_ms)
    }
}

proof fn lemma_first_decisive_at(reads: Seq<(u64, ReadEvent)>, start_ms: u64, timeout_ms: u64, i: int)
    requires
        0 <= i < reads.len(),
        is_decisive(reads[i], start_ms, timeout_ms),
        forall|j: int| 0 <= j < i ==> !is_decisive(#[trigger] reads[j], start_ms, timeout_ms),
    ensures
        first_decisive(reads, start_ms, timeout_ms) == i,
    decreases i,
{
    if i > 0 {
        assert(!is_decisive(reads[0], start_ms, timeout_ms));
        assert forall|j: int| 0 <= j < i - 1 implies !is_decisive(
            #[trigger] reads.drop_first()[j],
            start_ms,
            timeout_ms,
        ) by {
            assert(reads.drop_first()[j] == reads[j + 1]);
        }
        assert(reads.drop_first()[i - 1] == reads[i]);
        lemma_first_decisive_at(reads.drop_first(), start_ms, timeout_ms, i - 1);
    }
}

/// Timeout safety: when the helper never produces output — every read
/// attempt sees no data — the poll loop settles on exactly the first
/// attempt made after the deadline, and on no earlier one. With
/// [`run_call`]'s contract this bounds the wait: the call fails with
/// `HelperTimeout` carrying that attempt's elapsed time, one poll interval
/// past the deadline at most, and the handle is dropped so that the next
/// call makes exactly one respawn attempt.
pub proof fn lemma_timeout_settles_first_late_poll(
    reads: Seq<(u64, ReadEvent)>,
    start_ms: u64,
    timeout_ms: u64,
)
    requires
        forall|j: int| 0 <= j < reads.len() ==> (#[trigger] reads[j]).1 is NoData,
        forall|j: int| 0 <= j < reads.len() ==> (#[trigger] reads[j]).0 >= start_ms,
    ensures
        ({
            let k = first_decisive(reads, start_ms, timeout_ms);
            &&& 0 <= k <= reads.len()
            &&& (forall|j: int|
                0 <= j < k ==> (#[trigger] reads[j]).0 - start_ms <= timeout_ms)
            &&& (k < reads.len() ==> reads[k].0 - start_ms > timeout_ms)
        }),
    decreases reads,
{
    if reads.len() > 0 && !is_decisive(reads[0], start_ms, timeout_ms) {
        lemma_timeout_settles_first_late_poll(reads.drop_first(), start_ms, timeout_ms);
        let k = first_decisive(reads, start_ms, timeout_ms);
        let k2 = first_decisive(reads.drop_first(), start_ms, timeout_ms);
        assert(k == 1 + k2);
        assert forall|j: int| 0 <= j < k implies (#[trigger] reads[j]).0 - start_ms
            <= timeout_ms by {
            if j > 0 {
                assert(reads.drop_first()[j - 1] == reads[j]);
            }
        }
        if k < reads.len() {
            assert(reads.drop_first()[k2] == reads[k]);
        }
    }
}

/// Everything the application observes during one call, in the order the
/// call consumes it: the spawn outcome if no handle was held, the exit
/// check, the respawn outcome if the helper had exited, the write
/// outcome, and one entry per read attempt with the time it was made.
#[derive(Debug)]
pub struct CallScript {
    pub spawn_first: SpawnOutcome,
    pub exited: bool,
    pub spawn_again: SpawnOutcome,
    pub write_error: Option<String>,
    pub reads: Vec<(u64, ReadEvent)>,
}

/// How many spawns the call performs: at most one to create a missing
/// handle, at most one to replace a dead helper — never more.
pub open spec fn gen_delta(st: BridgeState, script: CallScript) -> int {
    (if !st.running && script.spawn_first is Spawned {
        1int
    } else {
        0int
    }) + (if (st.running || script.spawn_first is Spawned) && script.exited
        && script.spawn_again is Spawned {
        1int
    } else {
        0int
    })
}

/// One whole call: make sure a helper runs (respawning a dead one once),
/// send the request, poll for the reply line until it arrives or the
/// deadline passes, and read the reply. The handle survives only a
/// conversation that stayed well-formed: timeouts, closed or failing
/// pipes, and unparsable output all drop it, so the next call starts a
/// fresh helper. Each clause below pins one outcome; together they cover
/// every script the preconditions admit.
pub fn run_call(
    st: &mut BridgeState,
    cmd: &str,
    timeout_ms: u64,
    start_ms: u64,
    script: CallScript,
) -> (r: Result<JsonValue, BridgeError>)
    requires
        old(st).generation + 2 <= u64::MAX,
        script.reads@.len() >= 1,
        is_decisive(script.reads@[script.reads@.len() - 1], start_ms, timeout_ms),
        forall|j: int| 0 <= j < script.reads@.len() ==> (#[trigger] script.reads@[j]).0
            >= start_ms,
        forall|j: int|
            0 <= j < script.reads@.len() ==> ((#[trigger] script.reads@[j]).1 matches
            ReadEvent::Line(l) ==> l@.len() <= usize::MAX as int / 4),
    ensures
        !old(st).running ==> (script.spawn_first matches SpawnOutcome::NotFound(p) ==> (
        r matches Err(e) && e matches BridgeError::HelperNotFound(q) && q@ == p@) && *final(st)
            == *old(st)),
        !old(st).running ==> (script.spawn_first matches SpawnOutcome::OsError(m) ==> (
        r matches Err(e) && e matches BridgeError::SpawnFailed(q) && q@ == m@) && *final(st)
            == *old(st)),
        (old(st).running || script.spawn_first is Spawned) && script.exited && !(
        script.spawn_again is Spawned) ==> (r matches Err(e) && e is HelperUnavailable)
            && !final(st).running && final(st).generation == old(st).generation + (
        if !old(st).running {
            1int
        } else {
            0int
        }),
        (old(st).running || script.spawn_first is Spawned) && (!script.exited
            || script.spawn_again is Spawned) ==> (script.write_error matches Some(m) ==> (
        r matches Err(e) && e matches BridgeError::TransportError(t) && t@ == "Write error: "@
            + m@) && !final(st).running && final(st).generation == old(st).generation
            + gen_delta(*old(st), script)),
        (old(st).running || script.spawn_first is Spawned) && (!script.exited
            || script.spawn_again is Spawned) && script.write_error is None ==> ({
            let k = first_decisive(script.reads@, start_ms, timeout_ms);
            &&& 0 <= k < script.reads@.len()
            &&& final(st).generation == old(st).generation + gen_delta(*old(st), script)
            &&& (script.reads@[k].1 matches ReadEvent::Line(l) ==> final(st).last_response_ms
                == script.reads@[k].0 && (match response_of_text(
                l@,
            ) {
                None => (r matches Err(e) && e matches BridgeError::ProtocolError(raw) && raw@
                    == l@) && !final(st).running,
                Some(p) => {
                    &&& final(st).running
                    &&& p.ok ==> (r matches Ok(v) && jv(v) == (match p.result {
                        Some(x) => x,
                        None => JsonV::Null,
                    }))
                    &&& !p.ok ==> (r matches Err(e) && e matches
                        BridgeError::HelperReportedError(m) && m@ == (match p.error {
                        Some(t) => t,
                        None => "Unknown helper error"@,
                    }))
                },
            }))
            &&& (script.reads@[k].1 is Eof ==> (r matches Err(e) && e is HelperClosed)
                && !final(st).running)
            &&& (script.reads@[k].1 matches ReadEvent::IoError(m) ==> (r matches Err(e)
                && e matches BridgeError::TransportError(t) && t@ == "Read error: "@ + m@)
                && !final(st).running)
            &&& (script.reads@[k].1 is NoData ==> (r matches Err(e) && e matches
                BridgeError::HelperTimeout { command: c, elapsed_ms } && c@ == cmd@
                && elapsed_ms == script.reads@[k].0 - start_ms) && !final(st).running)
        }),
{
    let ghost st0 = *st;
    let ghost script0 = script;
    let CallScript { spawn_first, exited, spawn_again, write_error, reads } = script;
    proof {
        assert(reads@ == script0.reads@);
    }
    if !st.running {
        match st.on_spawn_result(spawn_first) {
            Err(e) => {
                return Err(e);
            },
            Ok(()) => {},
        }
    }
    st.on_health_check(exited);
    if !st.running {
        match st.on_spawn_result(spawn_again) {
            Err(_e) => {
                return Err(BridgeError::HelperUnavailable);
            },
            Ok(()) => {},
        }
    }
    match st.on_write_result(write_error) {
        Err(e) => {
            return Err(e);
        },
        Ok(()) => {},
    }
    let ghost mid = *st;
    proof {
        assert(mid.running);
        assert(mid.generation == st0.generation + gen_delta(st0, script0));
        assert(mid.last_response_ms == st0.last_response_ms);
    }
    let n: usize = reads.len();
    let mut i: usize = 0;
    loop
        invariant
            i < n,
            n == reads@.len(),
            reads@ == script0.reads@,
            script0 == script,
            *st == mid,
            mid.running,
            mid.generation == st0.generation + gen_delta(st0, script0),
            mid.last_response_ms == st0.last_response_ms,
            st0 == *old(st),
            st0.running || script0.spawn_first is Spawned,
            !script0.exited || script0.spawn_again is Spawned,
            script0.write_error is None,
            n >= 1,
            is_decisive(reads@[n - 1], start_ms, timeout_ms),
            forall|j: int| 0 <= j < n ==> (#[trigger] reads@[j]).0 >= start_ms,
            forall|j: int|
                0 <= j < n ==> ((#[trigger] reads@[j]).1 matches ReadEvent::Line(l) ==> l@.len()
                    <= usize::MAX as int / 4),
            forall|j: int| 0 <= j < i ==> !is_decisive(
                #[trigger] reads@[j],
                start_ms,
                timeout_ms,
            ),
        decreases n - i,
    {
        let now: u64 = reads[i].0;
        let ev: ReadEvent = match &reads[i].1 {
            ReadEvent::Line(l) => ReadEvent::Line(l.clone()),
            ReadEvent::Eof => ReadEvent::Eof,
            ReadEvent::NoData => ReadEvent::NoData,
            ReadEvent::IoError(m) => ReadEvent::IoError(m.clone()),
        };
        match poll_read(cmd, start_ms, now, timeout_ms, ev) {
            PollVerdict::Deliver(line) => {
                st.note_response(now);
                proof {
                    lemma_first_decisive_at(reads@, start_ms, timeout_ms, i as int);
                }
                let out = finish_call(line);
                let unparsable: bool = match &out {
                    Err(BridgeError::ProtocolError(_)) => true,
                    _ => false,
                };
                if unparsable {
                    st.discard();
                }
                return out;
            },
            PollVerdict::Wait => {
                proof {
                    assert(!is_decisive(reads@[i as int], start_ms, timeout_ms));
                    assert(i as int != n - 1);
                }
                i = i + 1;
            },
            PollVerdict::Abort(e) => {
                st.discard();
                proof {
                    lemma_first_decisive_at(reads@, start_ms, timeout_ms, i as int);
                }
                return Err(e);
            },
        }
    }
}

} // verus!
