//! The trace session: the syscall-stop state machine.
//!
//! A session alternates between awaiting a syscall entry and awaiting the
//! matching exit. Entry and exit stops are indistinguishable to the tracer,
//! so the `in_syscall` toggle is the only thing telling them apart; every
//! syscall-entry transition increments exactly one counter, and termination
//! events end the session. The caller drives the traced child: it turns each
//! observed wait status into a [`StopEvent`], hands it to
//! [`TraceSession::on_event`], and performs the returned [`Directive`]
//! (print the line, prompt the operator, resume the child, or finish).

use std::collections::HashMap;
use vstd::prelude::*;
use crate::catalog::{
    build_syscall_map, fallback_label, is_catalog, spec_syscall_name, syscall_name,
};
use crate::counts::{
    count_of, distinct_keys, lemma_bump, lookup_count, positive_counts, record_syscall, sat_inc,
    spec_bump, sum_counts,
};
use crate::render::{dec_digits, dec_signed, i64_to_dec, u64_to_dec};

verus! {

/// How much the monitor shows while tracing: nothing, every entry/exit
/// line, or every line plus an operator prompt after each.
#[derive(Clone, Copy, Debug, PartialEq, Eq, Structural)]
pub enum Verbosity {
    Silent,
    Trace,
    TraceAndStep,
}

/// One observation of the traced child, as the wait-and-classify edge hands
/// it to the session.
#[derive(Clone, Copy, Debug, PartialEq, Eq, Structural)]
pub enum StopEvent {
    /// A trace stop tagged as a syscall boundary, with the child's saved
    /// dispatch register (the syscall number) and return-value register.
    SyscallStop { number: u64, retval: i64 },
    /// A syscall stop whose register state could not be read: tolerated,
    /// skipped without counting.
    RegisterReadFailed,
    /// Any other stop reason: acknowledged by resuming, no state change.
    OtherStop,
    /// The child exited normally with a status code.
    Exited { code: i32 },
    /// The child was terminated by a signal.
    Signaled { signal: i32 },
    /// Waiting for the child failed; the session cannot continue.
    WaitFailed,
}

/// What the caller must do after an event: resume the child, printing the
/// line and prompting the operator first where asked, or stop the loop.
pub enum Directive {
    Resume { line: Option<String>, prompt: bool },
    Finished,
}

/// The mathematical state of a session.
pub struct SessionState {
    pub in_syscall: bool,
    pub last_syscall: Option<u64>,
    pub counts: Seq<(u64, u64)>,
    pub entries: nat,
    pub terminated: bool,
}

/// The state of a session that just reached the child's initial stop.
pub open spec fn init_state() -> SessionState {
    SessionState {
        in_syscall: false,
        last_syscall: None,
        counts: Seq::empty(),
        entries: 0,
        terminated: false,
    }
}

pub open spec fn is_syscall_stop_event(ev: StopEvent) -> bool {
    ev matches StopEvent::SyscallStop { .. }
}

pub open spec fn is_terminal_event(ev: StopEvent) -> bool {
    ||| ev matches StopEvent::Exited { .. }
    ||| ev matches StopEvent::Signaled { .. }
    ||| ev matches StopEvent::WaitFailed
}

/// One transition of the state machine: a syscall stop toggles `in_syscall`,
/// counting and remembering the number on the entry side; a termination
/// event ends the session; everything else changes nothing.
pub open spec fn step_state(s: SessionState, ev: StopEvent) -> SessionState {
    if s.terminated {
        s
    } else {
        match ev {
            StopEvent::SyscallStop { number, .. } => {
                if !s.in_syscall {
                    SessionState {
                        in_syscall: true,
                        last_syscall: Some(number),
                        counts: spec_bump(s.counts, number),
                        entries: s.entries + 1,
                        terminated: false,
                    }
                } else {
                    SessionState { in_syscall: false, ..s }
                }
            },
            StopEvent::RegisterReadFailed => s,
            StopEvent::OtherStop => s,
            StopEvent::Exited { .. } => SessionState { terminated: true, ..s },
            StopEvent::Signaled { .. } => SessionState { terminated: true, ..s },
            StopEvent::WaitFailed => SessionState { terminated: true, ..s },
        }
    }
}

/// The text of a syscall-entry line.
pub open spec fn entry_line(n: u64) -> Seq<char> {
    "[ENTRY] "@.add(spec_syscall_name(n)).add("("@).add(dec_digits(n as nat)).add(")"@)
}

/// The text of a syscall-exit line: labeled with the remembered entry
/// number, falling back to the exit stop's own number when none is
/// remembered, and showing the return-value register as a signed number.
pub open spec fn exit_line(label: Option<u64>, n: u64, ret: i64) -> Seq<char> {
    "[EXIT ] "@.add(
        match label {
            Some(l) => spec_syscall_name(l),
            None => fallback_label(n),
        },
    ).add("("@).add(dec_digits(n as nat)).add(") => "@).add(dec_signed(ret as int))
}

/// Renders a syscall-entry line.
pub fn render_entry_line(names: &HashMap<u64, &'static str>, num: u64) -> (r: String)
    requires
        is_catalog(names@),
    ensures
        r@ == entry_line(num),
{
    let mut s = String::from_str("[ENTRY] ");
    let name = syscall_name(names, num);
    s.append(name.as_str());
    s.append("(");
    let d = u64_to_dec(num);
    s.append(d.as_str());
    s.append(")");
    proof {
        assert(s@ =~= entry_line(num));
    }
    s
}

/// Renders a syscall-exit line.
pub fn render_exit_line(
    names: &HashMap<u64, &'static str>,
    label: Option<u64>,
    num: u64,
    ret: i64,
) -> (r: String)
    requires
        is_catalog(names@),
    ensures
        r@ == exit_line(label, num, ret),
{
    let mut s = String::from_str("[EXIT ] ");
    match label {
        Some(l) => {
            let name = syscall_name(names, l);
            s.append(name.as_str());
        },
        None => {
            s.append("sys_");
            let d = u64_to_dec(num);
            s.append(d.as_str());
        },
    }
    s.append("(");
    let d = u64_to_dec(num);
    s.append(d.as_str());
    s.append(") => ");
    let r = i64_to_dec(ret);
    s.append(r.as_str());
    proof {
        assert(s@ =~= exit_line(label, num, ret));
    }
    s
}

/// The signal number a trace stop reports for a plain trap.
pub const TRAP_SIGNAL: i32 = 5;

/// Whether a raw stop-signal number marks a syscall boundary: either the
/// syscall-tagged bit is set on the trap signal, or it is the plain trap
/// signal itself.
pub fn is_syscall_stop(signum: i32) -> (r: bool)
    ensures
        r == (signum & 0x80i32 != 0 || signum == TRAP_SIGNAL),
{
    (signum & 0x80i32) != 0 || signum == TRAP_SIGNAL
}

/// The live relationship between the tracer and one traced child, owned by
/// the monitor loop from the child's initial stop to its termination.
pub struct TraceSession {
    pub verbosity: Verbosity,
    pub in_syscall: bool,
    pub last_syscall: Option<u64>,
    pub counts: Vec<(u64, u64)>,
    pub entries: u64,
    pub terminated: bool,
    /// Diagnostic event counter for throttled debug logging.
    pub diag_events: u64,
    pub names: HashMap<u64, &'static str>,
}

impl TraceSession {
    /// The session's mathematical state.
    pub open spec fn state(&self) -> SessionState {
        SessionState {
            in_syscall: self.in_syscall,
            last_syscall: self.last_syscall,
            counts: self.counts@,
            entries: self.entries as nat,
            terminated: self.terminated,
        }
    }

    /// Well-formedness: the name map is the catalog, no syscall number has
    /// two rows, no row was put there without an observation, and the
    /// counts total exactly the observed entries.
    pub open spec fn wf(&self) -> bool {
        &&& is_catalog(self.names@)
        &&& distinct_keys(self.counts@)
        &&& positive_counts(self.counts@)
        &&& sum_counts(self.counts@) == self.entries
    }

    /// A fresh session for a child at its initial stop.
    pub fn new(verbosity: Verbosity) -> (s: Self)
        ensures
            s.wf(),
            s.state() == init_state(),
            s.verbosity == verbosity,
            s.diag_events == 0,
    {
        let s = TraceSession {
            verbosity,
            in_syscall: false,
            last_syscall: None,
            counts: Vec::new(),
            entries: 0,
            terminated: false,
            diag_events: 0,
            names: build_syscall_map(),
        };
        proof {
            assert(s.counts@ =~= Seq::<(u64, u64)>::empty());
        }
        s
    }

    /// Consumes one observed event: steps the state machine, and says what
    /// to do next. A line comes back exactly for a syscall stop outside
    /// silent mode; a prompt exactly for a syscall stop in step mode.
    pub fn on_event(&mut self, ev: StopEvent) -> (d: Directive)
        requires
            old(self).wf(),
            !old(self).terminated,
            old(self).entries < u64::MAX,
        ensures
            final(self).wf(),
            final(self).verbosity == old(self).verbosity,
            final(self).names@ == old(self).names@,
            final(self).state() == step_state(old(self).state(), ev),
            final(self).diag_events == (if is_syscall_stop_event(ev) {
                sat_inc(old(self).diag_events)
            } else {
                old(self).diag_events
            }),
            (d matches Directive::Finished) <==> is_terminal_event(ev),
            (match d {
                Directive::Resume { line, prompt } => {
                    &&& (line matches Some(_)) <==> (old(self).verbosity != Verbosity::Silent
                        && is_syscall_stop_event(ev))
                    &&& prompt <==> (old(self).verbosity == Verbosity::TraceAndStep
                        && is_syscall_stop_event(ev))
                    &&& (match (ev, line) {
                        (StopEvent::SyscallStop { number, retval }, Some(l)) => l@ == (if !old(
                            self,
                        ).in_syscall {
                            entry_line(number)
                        } else {
                            exit_line(old(self).last_syscall, number, retval)
                        }),
                        _ => true,
                    })
                },
                Directive::Finished => true,
            }),
    {
        match ev {
            StopEvent::SyscallStop { number, retval } => {
                self.diag_events = if self.diag_events < u64::MAX {
                    self.diag_events + 1
                } else {
                    self.diag_events
                };
                let show = match self.verbosity {
                    Verbosity::Silent => false,
                    _ => true,
                };
                let prompt = match self.verbosity {
                    Verbosity::TraceAndStep => true,
                    _ => false,
                };
                if !self.in_syscall {
                    proof {
                        lemma_bump(self.counts@, number);
                    }
                    record_syscall(&mut self.counts, number);
                    self.entries = self.entries + 1;
                    self.last_syscall = Some(number);
                    self.in_syscall = true;
                    let line = if show {
                        Some(render_entry_line(&self.names, number))
                    } else {
                        None
                    };
                    Directive::Resume { line, prompt }
                } else {
                    self.in_syscall = false;
                    let line = if show {
                        Some(render_exit_line(&self.names, self.last_syscall, number, retval))
                    } else {
                        None
                    };
                    Directive::Resume { line, prompt }
                }
            },
            StopEvent::RegisterReadFailed => Directive::Resume { line: None, prompt: false },
            StopEvent::OtherStop => Directive::Resume { line: None, prompt: false },
            StopEvent::Exited { .. } => {
                self.terminated = true;
                Directive::Finished
            },
            StopEvent::Signaled { .. } => {
                self.terminated = true;
                Directive::Finished
            },
            StopEvent::WaitFailed => {
                self.terminated = true;
                Directive::Finished
            },
        }
    }

    /// Reads how often a syscall number was observed so far.
    pub fn syscall_count(&self, num: u64) -> (c: u64)
        ensures
            c == count_of(self.counts@, num),
    {
        lookup_count(&self.counts, num)
    }
}

/// The state after feeding a whole event sequence, first event first.
pub open spec fn run_state(s: SessionState, evs: Seq<StopEvent>) -> SessionState
    decreases evs.len(),
{
    if evs.len() == 0 {
        s
    } else {
        run_state(step_state(s, evs[0]), evs.drop_first())
    }
}

/// A syscall stop observed while awaiting an entry: the entry side.
pub open spec fn is_entry_transition(s: SessionState, ev: StopEvent) -> bool {
    !s.terminated && is_syscall_stop_event(ev) && !s.in_syscall
}

/// A syscall stop observed while awaiting the matching exit: the exit side.
pub open spec fn is_exit_transition(s: SessionState, ev: StopEvent) -> bool {
    !s.terminated && is_syscall_stop_event(ev) && s.in_syscall
}

/// How many events of a sequence land on the entry side of the toggle.
pub open spec fn entry_count(s: SessionState, evs: Seq<StopEvent>) -> int
    decreases evs.len(),
{
    if evs.len() == 0 {
        0
    } else {
        (if is_entry_transition(s, evs[0]) {
            1int
        } else {
            0int
        }) + entry_count(step_state(s, evs[0]), evs.drop_first())
    }
}

/// How many events of a sequence land on the exit side of the toggle.
pub open spec fn exit_count(s: SessionState, evs: Seq<StopEvent>) -> int
    decreases evs.len(),
{
    if evs.len() == 0 {
        0
    } else {
        (if is_exit_transition(s, evs[0]) {
            1int
        } else {
            0int
        }) + exit_count(step_state(s, evs[0]), evs.drop_first())
    }
}

/// The toggle's bookkeeping identity from any starting state: entries seen,
/// plus one if the run began mid-syscall, equals exits seen, plus one if it
/// ended mid-syscall.
pub proof fn lemma_alternation(s: SessionState, evs: Seq<StopEvent>)
    ensures
        entry_count(s, evs) + (if s.in_syscall {
            1int
        } else {
            0int
        }) == exit_count(s, evs) + (if run_state(s, evs).in_syscall {
            1int
        } else {
            0int
        }),
    decreases evs.len(),
{
    if evs.len() > 0 {
        lemma_alternation(step_state(s, evs[0]), evs.drop_first());
    }
}

/// Entry and exit events alternate strictly, starting with an entry: over
/// any event sequence fed to a fresh session, the entry count equals the
/// exit count plus one exactly when the run ends mid-syscall — so the two
/// counts never differ by more than one.
pub proof fn lemma_entry_exit_balance(evs: Seq<StopEvent>)
    ensures
        entry_count(init_state(), evs) == exit_count(init_state(), evs) + (if run_state(
            init_state(),
            evs,
        ).in_syscall {
            1int
        } else {
            0int
        }),
        exit_count(init_state(), evs) <= entry_count(init_state(), evs) <= exit_count(
            init_state(),
            evs,
        ) + 1,
{
    lemma_alternation(init_state(), evs);
}

/// Along any run, the counters' total tracks the entry transitions and the
/// table keeps its shape.
pub proof fn lemma_sum_tracks_entries(s: SessionState, evs: Seq<StopEvent>)
    requires
        distinct_keys(s.counts),
        positive_counts(s.counts),
        sum_counts(s.counts) == s.entries,
        s.entries + evs.len() <= u64::MAX,
    ensures
        ({
            let f = run_state(s, evs);
            &&& sum_counts(f.counts) == f.entries
            &&& f.entries == s.entries + entry_count(s, evs)
            &&& distinct_keys(f.counts)
            &&& positive_counts(f.counts)
        }),
    decreases evs.len(),
{
    if evs.len() > 0 {
        if is_entry_transition(s, evs[0]) {
            match evs[0] {
                StopEvent::SyscallStop { number, .. } => {
                    lemma_bump(s.counts, number);
                },
                _ => {},
            }
        }
        lemma_sum_tracks_entries(step_state(s, evs[0]), evs.drop_first());
    }
}

/// The sum of all final counts equals the number of syscall-entry
/// transitions observed — entries alone, never entries plus exits.
pub proof fn lemma_counts_total(evs: Seq<StopEvent>)
    requires
        evs.len() <= u64::MAX,
    ensures
        sum_counts(run_state(init_state(), evs).counts) == entry_count(init_state(), evs),
{
    lemma_sum_tracks_entries(init_state(), evs);
}

} // verus!
