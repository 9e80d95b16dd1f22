use rastreador::catalog::{build_syscall_map, syscall_name};

#[test]
fn curated_names_resolve_to_documented_mnemonics() {
    let map = build_syscall_map();
    let expected: Vec<(u64, &str)> = vec![
        (0, "read"),
        (1, "write"),
        (2, "open"),
        (3, "close"),
        (9, "mmap"),
        (11, "munmap"),
        (17, "pread64"),
        (32, "dup"),
        (33, "pipe"),
        (39, "getpid"),
        (41, "socket"),
        (42, "connect"),
        (44, "sendto"),
        (45, "recvfrom"),
        (57, "fork"),
        (59, "execve"),
        (60, "exit"),
        (61, "wait4"),
        (63, "uname"),
        (158, "arch_prctl"),
        (202, "futex"),
        (231, "exit_group"),
        (257, "openat"),
        (262, "newfstatat"),
    ];
    for (num, name) in expected {
        assert_eq!(syscall_name(&map, num), name);
    }
}

#[test]
fn unknown_numbers_get_a_label_with_the_exact_value() {
    let map = build_syscall_map();
    assert_eq!(syscall_name(&map, 4), "sys_4");
    assert_eq!(syscall_name(&map, 999), "sys_999");
    assert_eq!(syscall_name(&map, 12345), "sys_12345");
    assert_eq!(syscall_name(&map, u64::MAX), "sys_18446744073709551615");
}

#[test]
fn no_curated_name_collides_with_a_fallback_label() {
    let map = build_syscall_map();
    let curated: Vec<u64> = vec![
        0, 1, 2, 3, 9, 11, 17, 32, 33, 39, 41, 42, 44, 45, 57, 59, 60, 61, 63, 158, 202, 231,
        257, 262,
    ];
    for num in curated {
        let name = syscall_name(&map, num);
        assert!(!name.starts_with("sys_"));
    }
}
