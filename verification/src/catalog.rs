//! The syscall catalog: a fixed mapping from well-known syscall numbers to
//! their mnemonics, with a synthesized `sys_<N>` label for any other number,
//! so every syscall number has a printable name.

use std::collections::HashMap;
use vstd::prelude::*;
use crate::render::dec_digits;

verus! {

broadcast use vstd::std_specs::hash::group_hash_axioms;

/// Whether a syscall number belongs to the curated catalog.
pub open spec fn in_catalog(n: u64) -> bool {
    n == 0 || n == 1 || n == 2 || n == 3 || n == 9 || n == 11 || n == 17 || n == 32 || n == 33
        || n == 39 || n == 41 || n == 42 || n == 44 || n == 45 || n == 57 || n == 59 || n == 60
        || n == 61 || n == 63 || n == 158 || n == 202 || n == 231 || n == 257 || n == 262
}

/// The documented mnemonic of a catalog syscall number.
pub open spec fn catalog_name(n: u64) -> Seq<char> {
    if n == 0 {
        "read"@
    } else if n == 1 {
        "write"@
    } else if n == 2 {
        "open"@
    } else if n == 3 {
        "close"@
    } else if n == 9 {
        "mmap"@
    } else if n == 11 {
        "munmap"@
    } else if n == 17 {
        "pread64"@
    } else if n == 32 {
        "dup"@
    } else if n == 33 {
        "pipe"@
    } else if n == 39 {
        "getpid"@
    } else if n == 41 {
        "socket"@
    } else if n == 42 {
        "connect"@
    } else if n == 44 {
        "sendto"@
    } else if n == 45 {
        "recvfrom"@
    } else if n == 57 {
        "fork"@
    } else if n == 59 {
        "execve"@
    } else if n == 60 {
        "exit"@
    } else if n == 61 {
        "wait4"@
    } else if n == 63 {
        "uname"@
    } else if n == 158 {
        "arch_prctl"@
    } else if n == 202 {
        "futex"@
    } else if n == 231 {
        "exit_group"@
    } else if n == 257 {
        "openat"@
    } else if n == 262 {
        "newfstatat"@
    } else {
        Seq::empty()
    }
}

/// The synthesized label for a number outside the catalog: `sys_` followed
/// by the number in decimal, so the label embeds the exact numeric value.
pub open spec fn fallback_label(n: u64) -> Seq<char> {
    "sys_"@.add(dec_digits(n as nat))
}

/// The name every syscall number resolves to: the catalog mnemonic where one
/// exists, the synthesized label otherwise.
pub open spec fn spec_syscall_name(n: u64) -> Seq<char> {
    if in_catalog(n) {
        catalog_name(n)
    } else {
        fallback_label(n)
    }
}

/// A map holds exactly the catalog: a key for each curated number and no
/// other, each mapped to its mnemonic.
pub open spec fn is_catalog(m: Map<u64, &'static str>) -> bool {
    &&& forall|n: u64| #![trigger m.contains_key(n)] m.contains_key(n) <==> in_catalog(n)
    &&& forall|n: u64| #[trigger] m.contains_key(n) ==> m[n]@ == catalog_name(n)
}

/// Builds the curated syscall-number-to-name map.
pub fn build_syscall_map() -> (m: HashMap<u64, &'static str>)
    ensures
        is_catalog(m@),
{
    let mut m: HashMap<u64, &'static str> = HashMap::new();
    m.insert(0, "read");
    m.insert(1, "write");
    m.insert(2, "open");
    m.insert(3, "close");
    m.insert(9, "mmap");
    m.insert(11, "munmap");
    m.insert(17, "pread64");
    m.insert(32, "dup");
    m.insert(33, "pipe");
    m.insert(39, "getpid");
    m.insert(41, "socket");
    m.insert(42, "connect");
    m.insert(44, "sendto");
    m.insert(45, "recvfrom");
    m.insert(57, "fork");
    m.insert(59, "execve");
    m.insert(60, "exit");
    m.insert(61, "wait4");
    m.insert(63, "uname");
    m.insert(158, "arch_prctl");
    m.insert(202, "futex");
    m.insert(231, "exit_group");
    m.insert(257, "openat");
    m.insert(262, "newfstatat");
    proof {
        assert forall|n: u64| m@.contains_key(n) <==> in_catalog(n) by {}
        assert forall|n: u64| #[trigger] m@.contains_key(n) implies m@[n]@ == catalog_name(n) by {}
    }
    m
}

/// Resolves a syscall number to its display name: the catalog mnemonic, or
/// the `sys_<N>` label for a number outside the catalog.
pub fn syscall_name(map: &HashMap<u64, &'static str>, num: u64) -> (r: String)
    requires
        is_catalog(map@),
    ensures
        r@ == spec_syscall_name(num),
{
    match map.get(&num) {
        Some(s) => String::from_str(*s),
        None => {
            let mut out = String::from_str("sys_");
            let digits = crate::render::u64_to_dec(num);
            out.append(digits.as_str());
            proof {
                assert(out@ =~= spec_syscall_name(num));
            }
            out
        },
    }
}

/// No catalog mnemonic collides with a synthesized fallback label: looking
/// at the second character, every fallback label carries `'y'` there while
/// no mnemonic does.
pub proof fn lemma_no_fallback_collision(n: u64, other: u64)
    requires
        in_catalog(n),
    ensures
        catalog_name(n) != fallback_label(other),
{
    reveal_strlit("sys_");
    reveal_strlit("read");
    reveal_strlit("write");
    reveal_strlit("open");
    reveal_strlit("close");
    reveal_strlit("mmap");
    reveal_strlit("munmap");
    reveal_strlit("pread64");
    reveal_strlit("dup");
    reveal_strlit("pipe");
    reveal_strlit("getpid");
    reveal_strlit("socket");
    reveal_strlit("connect");
    reveal_strlit("sendto");
    reveal_strlit("recvfrom");
    reveal_strlit("fork");
    reveal_strlit("execve");
    reveal_strlit("exit");
    reveal_strlit("wait4");
    reveal_strlit("uname");
    reveal_strlit("arch_prctl");
    reveal_strlit("futex");
    reveal_strlit("exit_group");
    reveal_strlit("openat");
    reveal_strlit("newfstatat");
    crate::render::lemma_dec_digits_len(other as nat);
    assert(fallback_label(other)[1] == 'y');
    if catalog_name(n) == fallback_label(other) {
        assert(catalog_name(n)[1] == 'y');
        assert(false);
    }
}

} // verus!
