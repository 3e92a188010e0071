use hostcall_timing::store::TimingStore;
use hostcall_timing::TimingError;

#[test]
fn fresh_store_reports_nothing() {
    let s = TimingStore::new();
    assert_eq!(s.len(), 46);
    assert!(s.report_entries().is_empty());
}

#[test]
fn pushes_accumulate_in_order() {
    let mut s = TimingStore::new();
    assert!(s.push_result("fd_write", 10, 31).is_ok());
    assert!(s.push_result("fd_write", 5, 5).is_ok());
    assert!(s.push_result("fd_write", 7, 14).is_ok());
    let entries = s.report_entries();
    assert_eq!(entries.len(), 1);
    assert_eq!(entries[0].name, "fd_write");
    assert_eq!(entries[0].samples, vec![21u64, 0u64, 7u64]);
}

#[test]
fn push_unregistered_name_fails_and_records_nothing() {
    let mut s = TimingStore::new();
    let r = s.push_result("not_a_hostcall", 0, 10);
    assert_eq!(r, Err(TimingError::UnknownOperation));
    assert!(s.report_entries().is_empty());
    assert_eq!(s.len(), 46);
}

#[test]
fn report_has_one_line_per_pushed_operation() {
    let mut s = TimingStore::new();
    assert!(s.push_result("args_get", 0, 4).is_ok());
    assert!(s.push_result("sock_connect", 0, 8).is_ok());
    assert!(s.push_result("sock_connect", 2, 8).is_ok());
    let entries = s.report_entries();
    assert_eq!(entries.len(), 2);
    assert_eq!(entries[0].name, "args_get");
    assert_eq!(entries[0].samples.len(), 1);
    assert_eq!(entries[1].name, "sock_connect");
    assert_eq!(entries[1].samples.len(), 2);
}

#[test]
fn report_order_follows_registry_order() {
    let mut s = TimingStore::new();
    assert!(s.push_result("random_get", 1, 2).is_ok());
    assert!(s.push_result("proc_exit", 1, 2).is_ok());
    assert!(s.push_result("fd_close", 1, 2).is_ok());
    let names: Vec<String> = s.report_entries().into_iter().map(|e| e.name).collect();
    assert_eq!(names, vec!["proc_exit", "fd_close", "random_get"]);
}

#[test]
fn every_registered_name_accepts_pushes() {
    let names = [
        "args_get",
        "args_sizes_get",
        "proc_exit",
        "environ_sizes_get",
        "environ_get",
        "fd_prestat_get",
        "fd_write",
        "fd_read",
        "fd_close",
        "fd_seek",
        "clock_time_get",
        "clock_res_get",
        "fd_advise",
        "fd_allocate",
        "fd_datasync",
        "fd_fdstat_get",
        "fd_fdstat_set_flags",
        "fd_filestat_get",
        "fd_filestat_set_size",
        "fd_filestat_set_times",
        "fd_pread",
        "fd_prestat_dir_name",
        "fd_pwrite",
        "fd_readdir",
        "fd_renumber",
        "fd_sync",
        "fd_tell",
        "path_create_directory",
        "path_filestat_get",
        "path_filestat_set_times",
        "path_link",
        "path_open",
        "path_readlink",
        "path_remove_directory",
        "path_rename",
        "path_symlink",
        "path_unlink_file",
        "poll_oneoff",
        "proc_raise",
        "random_get",
        "sched_yield",
        "sock_recv",
        "sock_send",
        "sock_shutdown",
        "socket",
        "sock_connect",
    ];
    let mut s = TimingStore::new();
    for (k, name) in names.iter().enumerate() {
        assert!(s.push_result(name, 0, k as u64).is_ok());
    }
    let entries = s.report_entries();
    assert_eq!(entries.len(), names.len());
    for (k, entry) in entries.iter().enumerate() {
        assert_eq!(entry.name, names[k]);
        assert_eq!(entry.samples, vec![k as u64]);
    }
}

#[test]
fn two_stores_accumulate_independently() {
    let mut a = TimingStore::new();
    let mut b = TimingStore::new();
    assert!(a.push_result("fd_read", 0, 1).is_ok());
    assert!(a.push_result("fd_read", 0, 2).is_ok());
    assert!(b.push_result("fd_read", 0, 3).is_ok());
    assert!(b.push_result("fd_read", 0, 4).is_ok());
    assert!(b.push_result("fd_read", 0, 5).is_ok());
    let ea = a.report_entries();
    let eb = b.report_entries();
    assert_eq!(ea.len(), 1);
    assert_eq!(eb.len(), 1);
    assert_eq!(ea[0].samples, vec![1u64, 2u64]);
    assert_eq!(eb[0].samples, vec![3u64, 4u64, 5u64]);
}

#[test]
fn zero_width_interval_records_zero_ticks() {
    let mut s = TimingStore::new();
    assert!(s.push_result("sched_yield", 42, 42).is_ok());
    let entries = s.report_entries();
    assert_eq!(entries.len(), 1);
    assert_eq!(entries[0].samples, vec![0u64]);
}
