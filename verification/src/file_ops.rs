//! The file tools' logic: selecting and numbering lines for display,
//! reporting a write, and exact-string replacement. Reading and writing
//! the files themselves is the surrounding process's work.

use vstd::prelude::*;
use vstd::string::StringSliceAdditionalSpecFns;
use crate::text::{spec_dec, spec_pad_left, spec_lines, spec_join_nl, spec_count, spec_replace,
    spec_replace_first, u64_to_dec, pad_left, split_lines, join_nl, count_occurrences, replace_all,
    replace_first};

verus! {

/// Tool for reading files.
pub struct ReadTool;

/// Tool for writing files.
pub struct WriteTool;

/// Tool for editing files by exact string replacement.
pub struct EditTool;

/// One displayed line: its one-based number padded to five columns, an
/// arrow, and the line itself.
pub open spec fn numbered_line(idx: nat, line: Seq<char>) -> Seq<char> {
    spec_pad_left(spec_dec(idx), 5) + seq!['\u{2192}'] + line
}

/// The rows a read of `content` displays: the lines from `offset` (default
/// the start), at most `limit` of them (default all), each numbered by its
/// position in the whole file.
pub open spec fn spec_read_render(
    content: Seq<char>,
    offset: Option<usize>,
    limit: Option<usize>,
) -> Seq<char> {
    let lines = spec_lines(content);
    let o = (match offset {
        Some(v) => v as int,
        None => 0,
    });
    let l = (match limit {
        Some(v) => v as int,
        None => lines.len() as int,
    });
    let lo = if o <= lines.len() {
        o
    } else {
        lines.len() as int
    };
    let hi = if o + l <= lines.len() {
        o + l
    } else {
        lines.len() as int
    };
    let sel = lines.subrange(lo, hi);
    spec_join_nl(Seq::new(sel.len(), |k: int| numbered_line((lo + k + 1) as nat, sel[k])))
}

impl ReadTool {
    pub fn name(&self) -> (r: &'static str)
        ensures
            r@ == "read"@,
    {
        "read"
    }

    pub fn description(&self) -> (r: &'static str)
        ensures
            r@ == "Reads a file from the filesystem with optional line offset and limit"@,
    {
        "Reads a file from the filesystem with optional line offset and limit"
    }

    /// Number and select the lines of `content` for display.
    pub fn render(&self, content: &str, offset: Option<usize>, limit: Option<usize>) -> (r: String)
        ensures
            r@ == spec_read_render(content@, offset, limit),
    {
        let lines = split_lines(content);
        let n = lines.len();
        let o: usize = match offset {
            Some(v) => v,
            None => 0,
        };
        let l: usize = match limit {
            Some(v) => v,
            None => n,
        };
        let lo: usize = if o <= n {
            o
        } else {
            n
        };
        let hi: usize = if l <= n - lo {
            lo + l
        } else {
            n
        };
        proof {
            assert(lines.deep_view().len() == n);
            if o <= n {
                assert(lo == o);
            }
        }
        let ghost sel = lines.deep_view().subrange(lo as int, hi as int);
        let mut rows: Vec<String> = Vec::new();
        let mut m: usize = lo;
        proof {
            assert(rows.deep_view() =~= Seq::new(0, |k: int| numbered_line((lo + k + 1) as nat, sel[k])));
        }
        while m < hi
            invariant
                lo <= m <= hi <= n,
                n == lines.deep_view().len(),
                n == lines@.len(),
                sel == lines.deep_view().subrange(lo as int, hi as int),
                rows.deep_view() == Seq::new(
                    (m - lo) as nat,
                    |k: int| numbered_line((lo + k + 1) as nat, sel[k]),
                ),
            decreases hi - m,
        {
            let num = u64_to_dec((m + 1) as u64);
            let mut row = pad_left(num.as_str(), 5);
            row.append("\u{2192}");
            row.append(lines[m].as_str());
            proof {
                reveal_strlit("\u{2192}");
                assert("\u{2192}"@ =~= seq!['\u{2192}']);
                assert(sel[m - lo] == lines.deep_view()[m as int]);
                assert(lines.deep_view()[m as int] == lines@[m as int]@);
                assert(row@ =~= numbered_line((m + 1) as nat, sel[m - lo]));
            }
            let ghost rows_pre = rows.deep_view();
            rows.push(row);
            proof {
                assert(rows.deep_view() =~= rows_pre.push(numbered_line((m + 1) as nat, sel[m - lo])));
                assert(rows.deep_view() =~= Seq::new(
                    (m + 1 - lo) as nat,
                    |k: int| numbered_line((lo + k + 1) as nat, sel[k]),
                ));
            }
            m += 1;
        }
        let out = join_nl(&rows);
        proof {
            assert(rows.deep_view() =~= Seq::new(
                sel.len(),
                |k: int| numbered_line((lo + k + 1) as nat, sel[k]),
            ));
        }
        out
    }
}

/// "Successfully wrote <n> bytes to <path>"
pub open spec fn write_report_msg(path: Seq<char>, nbytes: nat) -> Seq<char> {
    "Successfully wrote "@ + spec_dec(nbytes) + " bytes to "@ + path
}

impl WriteTool {
    pub fn name(&self) -> (r: &'static str)
        ensures
            r@ == "write"@,
    {
        "write"
    }

    pub fn description(&self) -> (r: &'static str)
        ensures
            r@ == "Writes content to a file, creating or overwriting as needed"@,
    {
        "Writes content to a file, creating or overwriting as needed"
    }

    /// The success report for writing `content` to `file_path`, counting
    /// the content's bytes.
    pub fn report(&self, file_path: &str, content: &str) -> (r: String)
        requires
            content.spec_bytes().len() <= usize::MAX,
        ensures
            r@ == write_report_msg(file_path@, content.spec_bytes().len()),
    {
        let mut r = String::from_str("Successfully wrote ");
        r.append(u64_to_dec(content.len() as u64).as_str());
        r.append(" bytes to ");
        r.append(file_path);
        r
    }
}

/// "String not found in file: <old>"
pub open spec fn edit_not_found_msg(old_string: Seq<char>) -> Seq<char> {
    "String not found in file: "@ + old_string
}

/// "String appears <n> times. Use replace_all=true or provide more context"
pub open spec fn edit_multiple_msg(n: nat) -> Seq<char> {
    "String appears "@ + spec_dec(n) + " times. Use replace_all=true or provide more context"@
}

/// "Successfully edited <path>"
pub open spec fn edited_msg(path: Seq<char>) -> Seq<char> {
    "Successfully edited "@ + path
}

impl EditTool {
    pub fn name(&self) -> (r: &'static str)
        ensures
            r@ == "edit"@,
    {
        "edit"
    }

    pub fn description(&self) -> (r: &'static str)
        ensures
            r@ == "Performs exact string replacements in files"@,
    {
        "Performs exact string replacements in files"
    }

    /// Apply one exact-string replacement to `content`. Without
    /// `replace_all` the target must occur exactly once: no occurrence is
    /// an error, several occurrences are an error naming their count, and
    /// in both error cases no new content is produced.
    pub fn apply(&self, content: &str, old_string: &str, new_string: &str, replace_all_flag: bool)
        -> (r: Result<String, String>)
        requires
            content@.len() < usize::MAX,
        ensures
            replace_all_flag ==> (r matches Ok(c) && c@ == spec_replace(
                content@,
                old_string@,
                new_string@,
            )),
            !replace_all_flag && spec_count(content@, old_string@) == 0 ==> (r matches Err(e) && e@
                == edit_not_found_msg(old_string@)),
            !replace_all_flag && spec_count(content@, old_string@) == 1 ==> (r matches Ok(c) && c@
                == spec_replace_first(content@, old_string@, new_string@)),
            !replace_all_flag && spec_count(content@, old_string@) > 1 ==> (r matches Err(e) && e@
                == edit_multiple_msg(spec_count(content@, old_string@))),
    {
        if replace_all_flag {
            Ok(replace_all(content, old_string, new_string))
        } else {
            let count = count_occurrences(content, old_string);
            if count == 0 {
                let mut e = String::from_str("String not found in file: ");
                e.append(old_string);
                Err(e)
            } else if count > 1 {
                let mut e = String::from_str("String appears ");
                e.append(u64_to_dec(count as u64).as_str());
                e.append(" times. Use replace_all=true or provide more context");
                Err(e)
            } else {
                Ok(replace_first(content, old_string, new_string))
            }
        }
    }

    /// The success report for an applied edit.
    pub fn report(&self, file_path: &str) -> (r: String)
        ensures
            r@ == edited_msg(file_path@),
    {
        let mut r = String::from_str("Successfully edited ");
        r.append(file_path);
        r
    }
}

} // verus!
