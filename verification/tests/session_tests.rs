use rastreador::session::{Directive, StopEvent, TraceSession, Verbosity, is_syscall_stop};

fn resume_parts(d: Directive) -> (Option<String>, bool) {
    match d {
        Directive::Resume { line, prompt } => (line, prompt),
        Directive::Finished => panic!("expected a resume directive"),
    }
}

fn syscall(number: u64, retval: i64) -> StopEvent {
    StopEvent::SyscallStop { number, retval }
}

#[test]
fn entry_then_exit_lines_in_trace_mode() {
    let mut s = TraceSession::new(Verbosity::Trace);
    let (line, prompt) = resume_parts(s.on_event(syscall(0, 0)));
    assert_eq!(line.unwrap(), "[ENTRY] read(0)");
    assert!(!prompt);
    assert!(s.in_syscall);
    let (line, prompt) = resume_parts(s.on_event(syscall(0, 42)));
    assert_eq!(line.unwrap(), "[EXIT ] read(0) => 42");
    assert!(!prompt);
    assert!(!s.in_syscall);
    assert_eq!(s.entries, 1);
    assert_eq!(s.syscall_count(0), 1);
}

#[test]
fn exit_line_shows_negative_return_value() {
    let mut s = TraceSession::new(Verbosity::Trace);
    s.on_event(syscall(2, 0));
    let (line, _) = resume_parts(s.on_event(syscall(2, -2)));
    assert_eq!(line.unwrap(), "[EXIT ] open(2) => -2");
}

#[test]
fn unknown_syscall_gets_fallback_label_in_lines() {
    let mut s = TraceSession::new(Verbosity::Trace);
    let (line, _) = resume_parts(s.on_event(syscall(999, 0)));
    assert_eq!(line.unwrap(), "[ENTRY] sys_999(999)");
    let (line, _) = resume_parts(s.on_event(syscall(999, -1)));
    assert_eq!(line.unwrap(), "[EXIT ] sys_999(999) => -1");
}

#[test]
fn toggle_alternates_strictly_and_counts_only_entries() {
    let mut s = TraceSession::new(Verbosity::Silent);
    for i in 0..5 {
        assert_eq!(s.in_syscall, i % 2 == 1);
        s.on_event(syscall(0, 0));
    }
    // five stops: three entries, two exits; ends mid-syscall.
    assert!(s.in_syscall);
    assert_eq!(s.entries, 3);
    assert_eq!(s.syscall_count(0), 3);
}

#[test]
fn silent_mode_emits_no_lines_and_no_prompts() {
    let mut s = TraceSession::new(Verbosity::Silent);
    let (line, prompt) = resume_parts(s.on_event(syscall(1, 0)));
    assert!(line.is_none());
    assert!(!prompt);
    let (line, prompt) = resume_parts(s.on_event(syscall(1, 5)));
    assert!(line.is_none());
    assert!(!prompt);
}

#[test]
fn step_mode_prompts_exactly_once_per_printed_line() {
    let mut s = TraceSession::new(Verbosity::TraceAndStep);
    let events = vec![
        StopEvent::OtherStop,
        syscall(0, 0),
        StopEvent::RegisterReadFailed,
        syscall(0, 7),
        StopEvent::OtherStop,
        syscall(1, 0),
        StopEvent::Exited { code: 0 },
    ];
    let mut lines = 0;
    let mut prompts = 0;
    for ev in events {
        match s.on_event(ev) {
            Directive::Resume { line, prompt } => {
                if line.is_some() {
                    lines += 1;
                }
                if prompt {
                    prompts += 1;
                    // a prompt never comes without its line
                    assert!(line.is_some());
                }
            }
            Directive::Finished => break,
        }
    }
    assert_eq!(lines, 3);
    assert_eq!(prompts, 3);
}

#[test]
fn unreadable_registers_and_other_stops_change_nothing() {
    let mut s = TraceSession::new(Verbosity::Trace);
    s.on_event(syscall(0, 0));
    let entries = s.entries;
    let in_syscall = s.in_syscall;
    let (line, prompt) = resume_parts(s.on_event(StopEvent::RegisterReadFailed));
    assert!(line.is_none());
    assert!(!prompt);
    let (line, prompt) = resume_parts(s.on_event(StopEvent::OtherStop));
    assert!(line.is_none());
    assert!(!prompt);
    assert_eq!(s.entries, entries);
    assert_eq!(s.in_syscall, in_syscall);
}

#[test]
fn immediate_exit_yields_empty_table_and_finishes() {
    let mut s = TraceSession::new(Verbosity::Trace);
    let d = s.on_event(StopEvent::Exited { code: 0 });
    assert!(matches!(d, Directive::Finished));
    assert!(s.terminated);
    assert!(s.frequency_table().is_empty());
}

#[test]
fn failed_target_launch_is_seen_as_plain_termination() {
    // a child whose exec fails exits immediately with a non-zero status;
    // the monitor observes only that termination and ends cleanly.
    let mut s = TraceSession::new(Verbosity::Trace);
    let d = s.on_event(StopEvent::Exited { code: 1 });
    assert!(matches!(d, Directive::Finished));
    assert!(s.terminated);
    assert!(s.frequency_table().is_empty());
}

#[test]
fn termination_by_signal_finishes_the_session() {
    let mut s = TraceSession::new(Verbosity::Silent);
    s.on_event(syscall(0, 0));
    let d = s.on_event(StopEvent::Signaled { signal: 9 });
    assert!(matches!(d, Directive::Finished));
    assert!(s.terminated);
}

#[test]
fn wait_failure_finishes_the_session() {
    let mut s = TraceSession::new(Verbosity::Silent);
    let d = s.on_event(StopEvent::WaitFailed);
    assert!(matches!(d, Directive::Finished));
    assert!(s.terminated);
}

#[test]
fn table_total_equals_entry_transitions() {
    let mut s = TraceSession::new(Verbosity::Silent);
    // read entry+exit, write entry+exit, read entry (no exit), then exit-by-signal
    s.on_event(syscall(0, 0));
    s.on_event(syscall(0, 1));
    s.on_event(syscall(1, 0));
    s.on_event(syscall(1, 1));
    s.on_event(syscall(0, 0));
    s.on_event(StopEvent::Signaled { signal: 15 });
    let table = s.frequency_table();
    let total: u64 = table.iter().map(|r| r.1).sum();
    assert_eq!(total, s.entries);
    assert_eq!(total, 3);
}

#[test]
fn diagnostic_counter_tracks_syscall_stops() {
    let mut s = TraceSession::new(Verbosity::Silent);
    assert_eq!(s.diag_events, 0);
    s.on_event(syscall(0, 0));
    s.on_event(StopEvent::OtherStop);
    s.on_event(syscall(0, 0));
    assert_eq!(s.diag_events, 2);
}

#[test]
fn syscall_stop_predicate_recognises_tagged_and_plain_traps() {
    assert!(is_syscall_stop(5)); // plain trap signal
    assert!(is_syscall_stop(5 | 0x80)); // syscall-tagged trap
    assert!(is_syscall_stop(0x80));
    assert!(!is_syscall_stop(17)); // an ordinary stop signal
    assert!(!is_syscall_stop(19));
    assert!(!is_syscall_stop(0));
}
