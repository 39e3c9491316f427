//! The driver's decisions: given the target path and what the operating
//! system said of it, produce the exact lines to print and the exit code.
//! Nothing here touches the filesystem; the caller probes the path and
//! hands the findings in as plain values.

use vstd::prelude::*;
use vstd::string::*;
use crate::entries::{
    RawEntry, displays_of, entry_views, sort_by_age_spec, build_entries, sort_entries,
};
use crate::render::{
    age_row, label_line, units_line, separator_line, render_row, render_label_line,
    render_units_line, render_separator,
};

verus! {

/// What the operating system says of the target path. The caller builds
/// this from one metadata query and, for a directory, one scan.
pub enum PathProbe {
    /// The path does not exist or cannot be read.
    Missing,
    /// The path exists but is neither a regular file nor a directory.
    Neither,
    /// A regular file, with its age in whole seconds since last
    /// modification.
    File(u64),
    /// A directory, with its immediate children in scan order.
    Dir(Vec<RawEntry>),
}

/// What one invocation prints and how it exits.
pub struct Report {
    /// The lines to print, in order, without line terminators.
    pub lines: Vec<String>,
    /// The process exit code: 0 on success, 1 on an unusable path.
    pub exit_code: u8,
}

/// The message for a path that does not exist or cannot be read.
pub open spec fn invalid_path_message(path: Seq<char>) -> Seq<char> {
    "Error: The path "@ + path + " is not valid"@
}

/// The message for a path that is neither a regular file nor a directory.
pub open spec fn unsupported_type_message(path: Seq<char>) -> Seq<char> {
    path + " is neither file or directory. Leaving."@
}

/// The message for a directory with no entries.
pub open spec fn empty_dir_message(path: Seq<char>) -> Seq<char> {
    "Directory "@ + path + " is empty."@
}

/// `lines` is the directory table for target `path` with data rows `rows`:
/// the two header lines, the separator, then one rendered row per entry.
pub open spec fn dir_report_lines(
    lines: Seq<String>,
    rows: Seq<(Seq<char>, u64)>,
    path: Seq<char>,
) -> bool {
    &&& lines.len() == 3 + rows.len()
    &&& lines[0]@ == label_line("DIR: "@)
    &&& lines[1]@ == units_line(path)
    &&& lines[2]@ == separator_line()
    &&& forall|i: int|
        0 <= i < rows.len() ==> lines[3 + i]@ == age_row(rows[i].0, rows[i].1 as int)
}

/// Decide one whole invocation: from the target path and the probe of it,
/// the exact lines to print and the exit code.
///
/// A missing or unreadable path, and a path of an unsupported kind, each
/// yield one message and exit code 1. A regular file yields its four-line
/// table. A directory with no entries yields the one "is empty" line; any
/// other directory yields the three header lines and one row per entry,
/// in the order of the stable ascending-by-age sort of the scan. Every
/// case exits 0 but the two path errors.
pub fn run(path: &str, probe: PathProbe) -> (r: Report)
    ensures
        match probe {
            PathProbe::Missing => r.exit_code == 1 && r.lines@.len() == 1 && r.lines@[0]@
                == invalid_path_message(path@),
            PathProbe::Neither => r.exit_code == 1 && r.lines@.len() == 1 && r.lines@[0]@
                == unsupported_type_message(path@),
            PathProbe::File(elapsed) => r.exit_code == 0 && r.lines@.len() == 4 && r.lines@[0]@
                == label_line("FILE: "@) && r.lines@[1]@ == units_line(path@) && r.lines@[2]@
                == separator_line() && r.lines@[3]@ == age_row(""@, elapsed as int),
            PathProbe::Dir(entries) => {
                if entries@.len() == 0 {
                    r.exit_code == 0 && r.lines@.len() == 1 && r.lines@[0]@
                        == empty_dir_message(path@)
                } else {
                    r.exit_code == 0 && dir_report_lines(
                        r.lines@,
                        sort_by_age_spec(displays_of(entries@)),
                        path@,
                    )
                }
            },
        },
{
    match probe {
        PathProbe::Missing => {
            let mut message = String::from_str("Error: The path ");
            message.append(path);
            message.append(" is not valid");
            let mut lines: Vec<String> = Vec::new();
            lines.push(message);
            Report { lines, exit_code: 1 }
        },
        PathProbe::Neither => {
            let mut message = String::from_str(path);
            message.append(" is neither file or directory. Leaving.");
            let mut lines: Vec<String> = Vec::new();
            lines.push(message);
            Report { lines, exit_code: 1 }
        },
        PathProbe::File(elapsed) => {
            let mut lines: Vec<String> = Vec::new();
            lines.push(render_label_line("FILE: "));
            lines.push(render_units_line(path));
            lines.push(render_separator());
            lines.push(render_row("", elapsed));
            Report { lines, exit_code: 0 }
        },
        PathProbe::Dir(entries) => {
            if entries.len() == 0 {
                let mut message = String::from_str("Directory ");
                message.append(path);
                message.append(" is empty.");
                let mut lines: Vec<String> = Vec::new();
                lines.push(message);
                Report { lines, exit_code: 0 }
            } else {
                let ghost raw = entries@;
                let built = build_entries(entries);
                let sorted = sort_entries(built);
                let ghost rows = entry_views(sorted@);
                let mut lines: Vec<String> = Vec::new();
                lines.push(render_label_line("DIR: "));
                lines.push(render_units_line(path));
                lines.push(render_separator());
                let n = sorted.len();
                let mut i: usize = 0;
                while i < n
                    invariant
                        n == sorted@.len(),
                        i <= n,
                        lines@.len() == 3 + i,
                        lines@[0]@ == label_line("DIR: "@),
                        lines@[1]@ == units_line(path@),
                        lines@[2]@ == separator_line(),
                        forall|k: int|
                            0 <= k < i ==> lines@[3 + k]@ == age_row(
                                entry_views(sorted@)[k].0,
                                entry_views(sorted@)[k].1 as int,
                            ),
                    decreases n - i,
                {
                    let row = render_row(sorted[i].display_name.as_str(), sorted[i].elapsed);
                    lines.push(row);
                    i = i + 1;
                }
                proof {
                    assert(rows == sort_by_age_spec(displays_of(raw)));
                    assert(dir_report_lines(lines@, rows, path@));
                }
                Report { lines, exit_code: 0 }
            }
        },
    }
}

} // verus!
