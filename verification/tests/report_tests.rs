use rastreador::catalog::build_syscall_map;
use rastreador::report::{sort_counts_desc, summarize};
use rastreador::session::{StopEvent, TraceSession, Verbosity};

#[test]
fn frequency_table_is_sorted_descending() {
    // a session producing counts {read: 5, write: 2, open: 1}
    let mut s = TraceSession::new(Verbosity::Silent);
    for _ in 0..5 {
        s.on_event(StopEvent::SyscallStop { number: 0, retval: 0 });
        s.on_event(StopEvent::SyscallStop { number: 0, retval: 1 });
    }
    for _ in 0..2 {
        s.on_event(StopEvent::SyscallStop { number: 1, retval: 0 });
        s.on_event(StopEvent::SyscallStop { number: 1, retval: 1 });
    }
    s.on_event(StopEvent::SyscallStop { number: 2, retval: 0 });
    s.on_event(StopEvent::SyscallStop { number: 2, retval: 3 });
    s.on_event(StopEvent::Exited { code: 0 });
    let table = s.frequency_table();
    assert_eq!(table.len(), 3);
    assert_eq!(table[0].0, "read");
    assert_eq!(table[0].1, 5);
    assert_eq!(table[1].0, "write");
    assert_eq!(table[1].1, 2);
    assert_eq!(table[2].0, "open");
    assert_eq!(table[2].1, 1);
}

#[test]
fn sort_keeps_rows_and_orders_by_count() {
    let v: Vec<(u64, u64)> = vec![(2, 1), (0, 5), (1, 2)];
    let r = sort_counts_desc(&v);
    assert_eq!(r, vec![(0, 5), (1, 2), (2, 1)]);
}

#[test]
fn sort_is_stable_for_equal_counts() {
    let v: Vec<(u64, u64)> = vec![(3, 2), (9, 2), (1, 7)];
    let r = sort_counts_desc(&v);
    assert_eq!(r[0], (1, 7));
    // ties keep their first-observed order
    assert_eq!(r[1], (3, 2));
    assert_eq!(r[2], (9, 2));
}

#[test]
fn summarize_resolves_names_and_sorts() {
    let names = build_syscall_map();
    let counts: Vec<(u64, u64)> = vec![(999, 4), (60, 9)];
    let t = summarize(&counts, &names);
    assert_eq!(t.len(), 2);
    assert_eq!(t[0].0, "exit");
    assert_eq!(t[0].1, 9);
    assert_eq!(t[1].0, "sys_999");
    assert_eq!(t[1].1, 4);
}

#[test]
fn empty_counts_give_an_empty_table() {
    let names = build_syscall_map();
    let counts: Vec<(u64, u64)> = Vec::new();
    assert!(summarize(&counts, &names).is_empty());
}
