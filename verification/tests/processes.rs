use loungy::process::{
    aggregate, base_name, bundle_path, byte_size, order_groups, parse_row, parse_rows, process_entry, size_label,
    sort_by_cpu, sort_options, ByteSize, ProcessRow,
};

fn row(pid: u64, ppid: u64, mem: u64) -> ProcessRow {
    ProcessRow { pid, ppid, cpu: "0.0".to_string(), mem, name: format!("p{}", pid) }
}

#[test]
fn rows_are_read_from_ps() {
    let r = parse_row("  123   1  2.5  2048 /Applications/Safari.app/Contents/MacOS/Safari").unwrap();
    assert_eq!((r.pid, r.ppid, r.mem), (123, 1, 2048));
    assert_eq!(r.cpu, "2.5");
    assert_eq!(r.name, "/Applications/Safari.app/Contents/MacOS/Safari");
    assert!(parse_row("1 2 3 4").is_none());
    assert!(parse_row("x 1 0.0 10 name").is_none());
    let out = "  PID  PPID  %CPU   RSS COMM\n 1 0 0.0 10 launchd\n 50 1 1.0 100 a\nbad line\n 51 50 0.5 20 b\n";
    let rows = parse_rows(out);
    let pids: Vec<u64> = rows.iter().map(|r| r.pid).collect();
    assert_eq!(pids, vec![1, 50, 51]);
}

#[test]
fn law_group_memory_children_fold_into_parents() {
    let rows = vec![row(10, 1, 100), row(11, 10, 50), row(12, 11, 7), row(20, 1, 30), row(13, 10, 5), row(99, 42, 1)];
    let groups = aggregate(&rows);
    let summary: Vec<(u64, u128, Vec<usize>)> = groups.iter().map(|g| (g.pid, g.mem, g.members.clone())).collect();
    assert_eq!(summary, vec![(10, 155, vec![0, 1, 4]), (20, 30, vec![3])]);
    let again = vec![row(10, 1, 100), row(11, 10, 50), row(10, 1, 3)];
    let groups = aggregate(&again);
    assert_eq!(groups.len(), 1);
    assert_eq!((groups[0].mem, groups[0].members.clone()), (3, vec![2]));
}

#[test]
fn ordering_by_memory_or_cpu() {
    let rows = vec![row(1, 1, 10), row(2, 1, 30), row(3, 1, 20)];
    let groups = aggregate(&rows);
    let by_mem = order_groups(groups, false, vec![0, 0, 0]);
    assert_eq!(by_mem.iter().map(|g| g.pid).collect::<Vec<_>>(), vec![2, 3, 1]);
    let groups = aggregate(&rows);
    let by_cpu = order_groups(groups, true, vec![5, 1, 9]);
    assert_eq!(by_cpu.iter().map(|g| g.pid).collect::<Vec<_>>(), vec![3, 1, 2]);
    assert!(sort_by_cpu("cpu") && !sort_by_cpu("memory"));
    assert_eq!(sort_options()[1], ("cpu".to_string(), "Sort by CPU".to_string()));
}

#[test]
fn sizes_in_thousands() {
    assert_eq!(byte_size(999), ByteSize::Bytes(999));
    assert_eq!(byte_size(1_000), ByteSize::Kilobytes(1));
    assert_eq!(byte_size(2_500_000), ByteSize::Megabytes(2));
    assert_eq!(byte_size(1_000_000_000), ByteSize::Gigabytes { megabytes: 1000 });
    assert_eq!(size_label(ByteSize::Megabytes(12)).as_deref(), Some("12 MB"));
    assert_eq!(size_label(ByteSize::Bytes(0)).as_deref(), Some("0 B"));
    assert!(size_label(ByteSize::Gigabytes { megabytes: 1500 }).is_none());
}

#[test]
fn names_of_processes() {
    assert_eq!(bundle_path("/Applications/Safari.app/Contents/MacOS/Safari"), "/Applications/Safari.app");
    assert_eq!(bundle_path("/System/Library/PreferencePanes/Mouse.prefPane"), "/System/Library/PreferencePanes/Mouse.prefPane");
    assert_eq!(bundle_path("/usr/sbin/cron"), "");
    assert_eq!(base_name("/usr/sbin/cron"), "cron");
    assert_eq!(base_name("launchd"), "launchd");
    assert_eq!(base_name("/trailing/"), "");
    let e = process_entry(5, "cron");
    assert_eq!(e.keywords, vec!["cron"]);
    assert_eq!(e.actions[0].label, "Kill Process");
}
