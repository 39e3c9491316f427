use hrm::entries::{sort_entries, to_dir_entry, DirEntry, RawEntry};
use hrm::report::{run, PathProbe};

fn raw(name: &str, is_dir: bool, elapsed: u64) -> RawEntry {
    RawEntry { name: String::from(name), is_dir, elapsed }
}

#[test]
fn missing_path_exits_one_with_exact_message() {
    let report = run("./no/such/path", PathProbe::Missing);
    assert_eq!(report.exit_code, 1);
    assert_eq!(report.lines.len(), 1);
    assert_eq!(
        report.lines[0].as_str(),
        "Error: The path ./no/such/path is not valid"
    );
}

#[test]
fn unsupported_path_kind_exits_one_with_exact_message() {
    let report = run("/dev/null", PathProbe::Neither);
    assert_eq!(report.exit_code, 1);
    assert_eq!(report.lines.len(), 1);
    assert_eq!(
        report.lines[0].as_str(),
        "/dev/null is neither file or directory. Leaving."
    );
}

#[test]
fn empty_directory_exits_zero_with_message_and_no_table() {
    let report = run("./foo", PathProbe::Dir(Vec::new()));
    assert_eq!(report.exit_code, 0);
    assert_eq!(report.lines.len(), 1);
    assert_eq!(report.lines[0].as_str(), "Directory ./foo is empty.");
}

#[test]
fn file_report_has_header_and_one_row() {
    let report = run("./foo/zoo", PathProbe::File(90000));
    assert_eq!(report.exit_code, 0);
    assert_eq!(report.lines.len(), 4);
    assert_eq!(
        report.lines[0].as_str(),
        format!("{: <50}{}", "FILE: ", "AGE:").as_str()
    );
    assert_eq!(
        report.lines[1].as_str(),
        format!(
            "{: <50}{: <3}{: <4}{: <3}{: <3}{: <3}",
            "./foo/zoo", "Y", "D", "H", "M", "S"
        )
        .as_str()
    );
    assert_eq!(
        report.lines[2].as_str(),
        "-----------------------------------------------------------------"
    );
    assert_eq!(
        report.lines[3].as_str(),
        format!(
            "{: <50}{: <3}{: <4}{: <3}{: <3}{: <3}",
            "", 0, 1, 1, 0, 0
        )
        .as_str()
    );
}

#[test]
fn directory_rows_sorted_by_age_ascending() {
    let entries = vec![raw("older", false, 500), raw("newest", false, 3), raw("mid", false, 40)];
    let report = run("./d", PathProbe::Dir(entries));
    assert_eq!(report.exit_code, 0);
    assert_eq!(report.lines.len(), 6);
    let row = |name: &str, elapsed: u64| {
        let (y, d, h, m, s) = hrm::duration::mtime_since_now(elapsed);
        format!("{: <50}{: <3}{: <4}{: <3}{: <3}{: <3}", name, y, d, h, m, s)
    };
    assert_eq!(report.lines[3].as_str(), row("newest", 3).as_str());
    assert_eq!(report.lines[4].as_str(), row("mid", 40).as_str());
    assert_eq!(report.lines[5].as_str(), row("older", 500).as_str());
}

#[test]
fn subdirectory_gets_trailing_separator_and_file_stays_bare() {
    let entries = vec![raw("sub", true, 10), raw("plain", false, 20)];
    let report = run("./d", PathProbe::Dir(entries));
    assert_eq!(report.exit_code, 0);
    assert_eq!(report.lines.len(), 5);
    let row = |name: &str, elapsed: u64| {
        let (y, d, h, m, s) = hrm::duration::mtime_since_now(elapsed);
        format!("{: <50}{: <3}{: <4}{: <3}{: <3}{: <3}", name, y, d, h, m, s)
    };
    assert_eq!(report.lines[3].as_str(), row("sub/", 10).as_str());
    assert_eq!(report.lines[4].as_str(), row("plain", 20).as_str());
}

#[test]
fn directory_rows_of_equal_age_keep_scan_order() {
    let entries = vec![
        raw("second", false, 7),
        raw("first", false, 2),
        raw("third", false, 7),
    ];
    let report = run("./d", PathProbe::Dir(entries));
    assert_eq!(report.exit_code, 0);
    let row = |name: &str, elapsed: u64| {
        let (y, d, h, m, s) = hrm::duration::mtime_since_now(elapsed);
        format!("{: <50}{: <3}{: <4}{: <3}{: <3}{: <3}", name, y, d, h, m, s)
    };
    assert_eq!(report.lines[3].as_str(), row("first", 2).as_str());
    assert_eq!(report.lines[4].as_str(), row("second", 7).as_str());
    assert_eq!(report.lines[5].as_str(), row("third", 7).as_str());
}

#[test]
fn display_name_marks_directories_only() {
    let d = to_dir_entry(raw("sub", true, 1));
    assert_eq!(d.display_name.as_str(), "sub/");
    assert_eq!(d.elapsed, 1);
    let f = to_dir_entry(raw("jp", false, 2));
    assert_eq!(f.display_name.as_str(), "jp");
    assert_eq!(f.elapsed, 2);
}

#[test]
fn sort_is_ascending_and_keeps_all_entries() {
    let entries = vec![
        DirEntry { display_name: String::from("c"), elapsed: 9 },
        DirEntry { display_name: String::from("a"), elapsed: 2 },
        DirEntry { display_name: String::from("b"), elapsed: 9 },
        DirEntry { display_name: String::from("d"), elapsed: 0 },
    ];
    let sorted = sort_entries(entries);
    let got: Vec<(String, u64)> =
        sorted.into_iter().map(|e| (e.display_name, e.elapsed)).collect();
    assert_eq!(
        got,
        vec![
            (String::from("d"), 0),
            (String::from("a"), 2),
            (String::from("c"), 9),
            (String::from("b"), 9),
        ]
    );
}
