use zero_shell::commands::ls::entry::{DeviceLayout, EntryMeta, LsEntry};
use zero_shell::commands::ls::ids::{parse_id_lines, IdTable};
use zero_shell::commands::ls::mode::{classify_mark, format_mode, major_minor, major_minor_darwin};
use zero_shell::commands::ls::render::{blocks_fit, collect_entries, list_directory, render_entries, render_file, DirContents};
use zero_shell::commands::ls::sort::sort_by_name;
use zero_shell::commands::ls::time::format_mtime;
use zero_shell::commands::ls::{header, parse_options, target_missing, LsOptions};
use zero_shell::types::errors::ShellError;

fn args(v: &[&str]) -> Vec<String> {
    v.iter().map(|s| s.to_string()).collect()
}

fn meta(mode: u32, is_dir: bool, blocks: u64, size: u64) -> EntryMeta {
    EntryMeta {
        mode,
        is_dir,
        is_symlink: false,
        nlink: 1,
        uid: 501,
        gid: 20,
        rdev: 0,
        size,
        blocks,
        mtime_text: Some("Thu Jul  6 21:05:33 2023\n".to_string()),
    }
}

fn opts(all: bool, long: bool, classify: bool) -> LsOptions {
    LsOptions { all, long, classify, targets: vec![] }
}

#[test]
fn options_are_read() {
    let o = parse_options(&args(&["-la", "x", "-F", "-", "y"])).ok().unwrap();
    assert!(o.all && o.long && o.classify);
    assert_eq!(o.targets, vec!["x", "-", "y"]);
    let o = parse_options(&args(&[])).ok().unwrap();
    assert!(!o.all && !o.long && !o.classify);
    assert_eq!(o.targets, vec!["."]);
}

#[test]
fn unknown_option_is_refused() {
    match parse_options(&args(&["-l", "x", "-aZq"])) {
        Err(ShellError::Generic(m)) => assert_eq!(m, "ls: invalid option -- 'Z'"),
        _ => panic!(),
    }
    match parse_options(&args(&["--all"])) {
        Err(ShellError::Generic(m)) => assert_eq!(m, "ls: invalid option -- '-'"),
        _ => panic!(),
    }
}

#[test]
fn modes() {
    assert_eq!(format_mode(0o040755, true, false), "drwxr-xr-x");
    assert_eq!(format_mode(0o100644, false, false), "-rw-r--r--");
    assert_eq!(format_mode(0o120777, false, true), "lrwxrwxrwx");
    assert_eq!(format_mode(0o060660, false, false), "brw-rw----");
    assert_eq!(format_mode(0o020620, false, false), "crw--w----");
    assert_eq!(format_mode(0o010600, false, false), "prw-------");
    assert_eq!(format_mode(0o140755, false, false), "srwxr-xr-x");
    assert_eq!(classify_mark(0o755, true, false), Some('/'));
    assert_eq!(classify_mark(0o777, false, true), Some('@'));
    assert_eq!(classify_mark(0o100, false, false), Some('*'));
    assert_eq!(classify_mark(0o644, false, false), None);
}

#[test]
fn device_numbers() {
    // makedev(8, 1) and makedev(0x1234, 0x56789) in glibc's layout.
    assert_eq!(major_minor(0x0801), (8, 1));
    let rdev: u64 = ((0x1234u64 & 0xfff) << 8) | ((0x1234u64 & !0xfff) << 32) | (0x56789u64 & 0xff) | ((0x56789u64 & !0xff) << 12);
    assert_eq!(major_minor(rdev), (0x1234, 0x56789));
    assert_eq!(major_minor_darwin(0x1000002), (1, 2));
}

#[test]
fn times() {
    assert_eq!(format_mtime(Some("Thu Jul  6 21:05:33 2023\n")), "Jul  6 21:05");
    assert_eq!(format_mtime(Some("Mon Dec 25 09:00:00 2023")), "Dec 25 09:00");
    assert_eq!(format_mtime(Some("garbage")), "Jan  1  1970");
    assert_eq!(format_mtime(None), "Jan  1  1970");
}

#[test]
fn id_tables() {
    let lines = args(&["root:x:0:0:root:/root:/bin/sh", "# comment", "bad:x:notanumber", "sayed:*:501:20::", "dup:x:0:"]);
    let t = parse_id_lines(&lines);
    assert_eq!(t.name_or_number(501), "sayed");
    assert_eq!(t.name_or_number(0), "dup");
    assert_eq!(t.name_or_number(7), "7");
    let mut u = IdTable::new();
    u.insert(5, "five".to_string());
    assert_eq!(u.get(5).map(|s| s.as_str()), Some("five"));
    assert!(u.get(6).is_none());
}

fn entry(name: &str, m: EntryMeta) -> LsEntry {
    LsEntry { name: name.to_string(), meta: m }
}

#[test]
fn sorting_is_by_code_point() {
    let v = vec![
        entry("b", meta(0o644, false, 0, 0)),
        entry("B", meta(0o644, false, 0, 0)),
        entry("a", meta(0o644, false, 0, 0)),
        entry("ab", meta(0o644, false, 0, 0)),
        entry("é", meta(0o644, false, 0, 0)),
        entry(".", meta(0o644, false, 0, 0)),
    ];
    let names: Vec<String> = sort_by_name(v).into_iter().map(|e| e.name).collect();
    assert_eq!(names, vec![".", "B", "a", "ab", "b", "é"]);
}

fn contents() -> DirContents {
    DirContents {
        dot: Some(meta(0o040755, true, 8, 96)),
        dotdot: Some(meta(0o040755, true, 0, 128)),
        read: vec![
            ("doc_old.txt".to_string(), Some(meta(0o100644, false, 8, 27))),
            (".hidden".to_string(), Some(meta(0o100644, false, 0, 3))),
            ("run.sh".to_string(), Some(meta(0o100755, false, 8, 1234))),
            ("vanished".to_string(), None),
        ],
    }
}

#[test]
fn hidden_entries_need_all() {
    let names = |all| -> Vec<String> { collect_entries(contents(), all).into_iter().map(|e| e.name).collect() };
    assert_eq!(names(false), vec!["doc_old.txt", "run.sh"]);
    assert_eq!(names(true), vec![".", "..", "doc_old.txt", ".hidden", "run.sh"]);
}

#[test]
fn short_listing() {
    let users = IdTable::new();
    let lines = list_directory(contents(), &opts(false, false, true), &users, &users, &DeviceLayout::Glibc);
    assert_eq!(lines, vec!["doc_old.txt  run.sh*"]);
    let lines = list_directory(contents(), &opts(true, false, false), &users, &users, &DeviceLayout::Glibc);
    assert_eq!(lines, vec![".  ..  .hidden  doc_old.txt  run.sh"]);
}

#[test]
fn long_listing_is_aligned() {
    let users = parse_id_lines(&args(&["sayed:x:501:20::/Users/sayed:/bin/zsh"]));
    let groups = parse_id_lines(&args(&["staff:*:20:"]));
    assert!(blocks_fit(&contents()));
    let lines = list_directory(contents(), &opts(true, true, true), &users, &groups, &DeviceLayout::Glibc);
    assert_eq!(
        lines,
        vec![
            "total 24",
            "drwxr-xr-x 1 sayed staff   96 Jul  6 21:05 ./",
            "drwxr-xr-x 1 sayed staff  128 Jul  6 21:05 ../",
            "-rw-r--r-- 1 sayed staff    3 Jul  6 21:05 .hidden",
            "-rw-r--r-- 1 sayed staff   27 Jul  6 21:05 doc_old.txt",
            "-rwxr-xr-x 1 sayed staff 1234 Jul  6 21:05 run.sh*",
        ]
    );
}

#[test]
fn long_listing_pads_unknown_owners_and_devices() {
    let none = IdTable::new();
    let mut dev = meta(0o020620, false, 0, 0);
    dev.rdev = 0x0501;
    dev.uid = 12345;
    let v = vec![entry("tty", dev), entry("f", meta(0o100600, false, 4, 7))];
    let sorted = sort_by_name(v);
    let lines = render_entries(&sorted, &opts(false, true, false), &none, &none, &DeviceLayout::Glibc);
    assert_eq!(
        lines,
        vec![
            "total 4",
            "-rw------- 1 501   20    7 Jul  6 21:05 f",
            "crw--w---- 1 12345 20 5, 1 Jul  6 21:05 tty",
        ]
    );
}

#[test]
fn empty_directory_prints_nothing() {
    let none = IdTable::new();
    let c = DirContents { dot: None, dotdot: None, read: vec![] };
    assert!(list_directory(c, &opts(true, true, false), &none, &none, &DeviceLayout::Glibc).is_empty());
}

#[test]
fn single_files() {
    let none = IdTable::new();
    let m = meta(0o100755, false, 8, 1234);
    assert_eq!(render_file("run.sh", &m, &opts(false, false, true), &none, &none, &DeviceLayout::Glibc), "run.sh*");
    assert_eq!(
        render_file("run.sh", &m, &opts(false, true, false), &none, &none, &DeviceLayout::Glibc),
        "-rwxr-xr-x 1 501 20 1234 Jul  6 21:05 run.sh"
    );
}

#[test]
fn headers_and_missing_targets() {
    assert!(header(0, 1, "a").is_empty());
    assert_eq!(header(0, 2, "a"), vec!["a:"]);
    assert_eq!(header(1, 2, "b"), vec!["", "b:"]);
    assert_eq!(target_missing("nope"), "ls: nope: No such file or directory");
}

#[test]
fn sorting_keeps_the_order_of_equal_names() {
    let v = vec![
        entry("x", meta(0o644, false, 0, 1)),
        entry("a", meta(0o644, false, 0, 2)),
        entry("x", meta(0o644, false, 0, 3)),
        entry("x", meta(0o644, false, 0, 4)),
    ];
    let sizes: Vec<u64> = sort_by_name(v).into_iter().map(|e| e.meta.size).collect();
    assert_eq!(sizes, vec![2, 1, 3, 4]);
}

#[test]
fn device_numbers_round_trip() {
    for (major, minor) in [(0u32, 0u32), (8, 1), (0x1234, 0x56789), (u32::MAX, u32::MAX)] {
        let rdev = ((major as u64 & 0xfff) << 8) | ((major as u64 & 0xffff_f000) << 32) | (minor as u64 & 0xff) | ((minor as u64 & 0xffff_ff00) << 12);
        assert_eq!(major_minor(rdev), (major, minor));
    }
    for (major, minor) in [(0u32, 0u32), (255, 0xff_ffff), (14, 3)] {
        assert_eq!(major_minor_darwin(((major as u64) << 24) | minor as u64), (major, minor));
    }
}
