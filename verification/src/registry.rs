//! The closed registry of hostcall operation names.
//!
//! The set of names a store accepts is fixed here, once, and every
//! `TimingStore` is pre-populated with exactly these names. No name is ever
//! added or removed at run time: a push under any other name is a caller
//! defect and is rejected.

use vstd::prelude::*;

verus! {

/// The registered hostcall names, in registry order. This order is also the
/// iteration order of every store and therefore of every report.
pub open spec fn op_names() -> Seq<Seq<char>> {
    seq![
        "args_get"@,
        "args_sizes_get"@,
        "proc_exit"@,
        "environ_sizes_get"@,
        "environ_get"@,
        "fd_prestat_get"@,
        "fd_write"@,
        "fd_read"@,
        "fd_close"@,
        "fd_seek"@,
        "clock_time_get"@,
        "clock_res_get"@,
        "fd_advise"@,
        "fd_allocate"@,
        "fd_datasync"@,
        "fd_fdstat_get"@,
        "fd_fdstat_set_flags"@,
        "fd_filestat_get"@,
        "fd_filestat_set_size"@,
        "fd_filestat_set_times"@,
        "fd_pread"@,
        "fd_prestat_dir_name"@,
        "fd_pwrite"@,
        "fd_readdir"@,
        "fd_renumber"@,
        "fd_sync"@,
        "fd_tell"@,
        "path_create_directory"@,
        "path_filestat_get"@,
        "path_filestat_set_times"@,
        "path_link"@,
        "path_open"@,
        "path_readlink"@,
        "path_remove_directory"@,
        "path_rename"@,
        "path_symlink"@,
        "path_unlink_file"@,
        "poll_oneoff"@,
        "proc_raise"@,
        "random_get"@,
        "sched_yield"@,
        "sock_recv"@,
        "sock_send"@,
        "sock_shutdown"@,
        "socket"@,
        "sock_connect"@,
    ]
}

/// No operation name is registered twice: each name owns exactly one slot,
/// so a report derived from a fresh store carries at most one line per name.
#[verifier::rlimit(100)]
#[verifier::spinoff_prover]
pub proof fn lemma_op_names_distinct()
    ensures
        forall|i: int, j: int|
            0 <= i < j < op_names().len() ==> op_names()[i] != op_names()[j],
{
    reveal_strlit("args_get");
    reveal_strlit("args_sizes_get");
    reveal_strlit("proc_exit");
    reveal_strlit("environ_sizes_get");
    reveal_strlit("environ_get");
    reveal_strlit("fd_prestat_get");
    reveal_strlit("fd_write");
    reveal_strlit("fd_read");
    reveal_strlit("fd_close");
    reveal_strlit("fd_seek");
    reveal_strlit("clock_time_get");
    reveal_strlit("clock_res_get");
    reveal_strlit("fd_advise");
    reveal_strlit("fd_allocate");
    reveal_strlit("fd_datasync");
    reveal_strlit("fd_fdstat_get");
    reveal_strlit("fd_fdstat_set_flags");
    reveal_strlit("fd_filestat_get");
    reveal_strlit("fd_filestat_set_size");
    reveal_strlit("fd_filestat_set_times");
    reveal_strlit("fd_pread");
    reveal_strlit("fd_prestat_dir_name");
    reveal_strlit("fd_pwrite");
    reveal_strlit("fd_readdir");
    reveal_strlit("fd_renumber");
    reveal_strlit("fd_sync");
    reveal_strlit("fd_tell");
    reveal_strlit("path_create_directory");
    reveal_strlit("path_filestat_get");
    reveal_strlit("path_filestat_set_times");
    reveal_strlit("path_link");
    reveal_strlit("path_open");
    reveal_strlit("path_readlink");
    reveal_strlit("path_remove_directory");
    reveal_strlit("path_rename");
    reveal_strlit("path_symlink");
    reveal_strlit("path_unlink_file");
    reveal_strlit("poll_oneoff");
    reveal_strlit("proc_raise");
    reveal_strlit("random_get");
    reveal_strlit("sched_yield");
    reveal_strlit("sock_recv");
    reveal_strlit("sock_send");
    reveal_strlit("sock_shutdown");
    reveal_strlit("socket");
    reveal_strlit("sock_connect");
    assert forall|i: int, j: int|
        0 <= i < j < op_names().len() implies op_names()[i] != op_names()[j] by {
        let a = op_names()[i];
        let b = op_names()[j];
        assert(a.len() != b.len() || a[0] != b[0] || a[3] != b[3] || a[5] != b[5] || a[a.len()
            - 1] != b[b.len() - 1]);
    }
}

/// Builds the registry as owned strings, in registry order.
#[verifier::rlimit(60)]
pub(crate) fn registry_names() -> (v: Vec<String>)
    ensures
        v@.map_values(|s: String| s@) == op_names(),
{
    let mut v: Vec<String> = Vec::new();
    v.push("args_get".to_owned());
    v.push("args_sizes_get".to_owned());
    v.push("proc_exit".to_owned());
    v.push("environ_sizes_get".to_owned());
    v.push("environ_get".to_owned());
    v.push("fd_prestat_get".to_owned());
    v.push("fd_write".to_owned());
    v.push("fd_read".to_owned());
    v.push("fd_close".to_owned());
    v.push("fd_seek".to_owned());
    v.push("clock_time_get".to_owned());
    v.push("clock_res_get".to_owned());
    v.push("fd_advise".to_owned());
    v.push("fd_allocate".to_owned());
    v.push("fd_datasync".to_owned());
    v.push("fd_fdstat_get".to_owned());
    v.push("fd_fdstat_set_flags".to_owned());
    v.push("fd_filestat_get".to_owned());
    v.push("fd_filestat_set_size".to_owned());
    v.push("fd_filestat_set_times".to_owned());
    v.push("fd_pread".to_owned());
    v.push("fd_prestat_dir_name".to_owned());
    v.push("fd_pwrite".to_owned());
    v.push("fd_readdir".to_owned());
    v.push("fd_renumber".to_owned());
    v.push("fd_sync".to_owned());
    v.push("fd_tell".to_owned());
    v.push("path_create_directory".to_owned());
    v.push("path_filestat_get".to_owned());
    v.push("path_filestat_set_times".to_owned());
    v.push("path_link".to_owned());
    v.push("path_open".to_owned());
    v.push("path_readlink".to_owned());
    v.push("path_remove_directory".to_owned());
    v.push("path_rename".to_owned());
    v.push("path_symlink".to_owned());
    v.push("path_unlink_file".to_owned());
    v.push("poll_oneoff".to_owned());
    v.push("proc_raise".to_owned());
    v.push("random_get".to_owned());
    v.push("sched_yield".to_owned());
    v.push("sock_recv".to_owned());
    v.push("sock_send".to_owned());
    v.push("sock_shutdown".to_owned());
    v.push("socket".to_owned());
    v.push("sock_connect".to_owned());
    proof {
        assert(v@.map_values(|s: String| s@) =~= op_names());
    }
    v
}

} // verus!
