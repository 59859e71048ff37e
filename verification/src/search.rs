//! The search tools' logic: rendering found files, and matching file
//! contents line by line against a regular expression with an optional
//! file-name filter. Walking the filesystem and reading the files is the
//! surrounding process's work; the pattern engines are outside crates,
//! held behind compiled handles that remember their pattern text.

use vstd::prelude::*;
use crate::definition::last_slash;
use crate::text::{spec_dec, spec_pad_left, spec_lines, spec_join_nl, u64_to_dec, pad_left,
    split_lines, join_nl, str_eq};
use crate::tools::ToolResult;

verus! {

/// Tool for finding files by name patterns.
pub struct GlobTool;

/// Tool for searching file contents by regular expressions.
pub struct GrepTool;

/// The output mode used when none is given.
pub fn default_output_mode() -> (r: String)
    ensures
        r@ == "files_with_matches"@,
{
    String::from_str("files_with_matches")
}

#[verifier::external_type_specification]
#[verifier::external_body]
pub struct ExRegex(regex::Regex);

#[verifier::external_type_specification]
#[verifier::external_body]
pub struct ExGlobPattern(glob::Pattern);

/// Whether regular-expression compilation accepts this pattern text.
pub uninterp spec fn regex_ok(pattern: Seq<char>) -> bool;

/// Whether the regular expression built from `pattern` matches `text`.
pub uninterp spec fn regex_accepts(pattern: Seq<char>, text: Seq<char>) -> bool;

/// A compiled regular expression, together with the pattern text it was
/// compiled from; every constructor compiles exactly that text.
pub struct CompiledRegex {
    re: regex::Regex,
    source: String,
}

impl CompiledRegex {
    /// The pattern text this expression was compiled from.
    pub closed spec fn spec_source(self) -> Seq<char> {
        self.source@
    }

    /// Relies on regex::Regex::new: whether a pattern compiles is a pure
    /// function of the pattern text.
    #[verifier::external_body]
    pub fn compile(pattern: &str) -> (r: Option<CompiledRegex>)
        ensures
            r is Some <==> regex_ok(pattern@),
            r matches Some(p) ==> p.spec_source() == pattern@,
    {
        match regex::Regex::new(pattern) {
            Ok(re) => Some(CompiledRegex { re, source: pattern.to_string() }),
            Err(_) => None,
        }
    }

    /// Relies on regex::Regex::is_match: whether a text matches is a pure
    /// function of the pattern text and the text searched.
    #[verifier::external_body]
    pub fn is_match(&self, text: &str) -> (b: bool)
        ensures
            b == regex_accepts(self.spec_source(), text@),
    {
        self.re.is_match(text)
    }
}

/// Whether file-name-pattern compilation accepts this pattern text.
pub uninterp spec fn glob_ok(pattern: Seq<char>) -> bool;

/// Whether the file-name pattern built from `pattern` matches `name`.
pub uninterp spec fn glob_matches(pattern: Seq<char>, name: Seq<char>) -> bool;

/// A compiled file-name pattern, together with the pattern text it was
/// compiled from; every constructor compiles exactly that text.
pub struct CompiledGlob {
    pat: glob::Pattern,
    source: String,
}

impl CompiledGlob {
    /// The pattern text this pattern was compiled from.
    pub closed spec fn spec_source(self) -> Seq<char> {
        self.source@
    }

    /// Relies on glob::Pattern::new: whether a pattern compiles is a pure
    /// function of the pattern text.
    #[verifier::external_body]
    pub fn compile(pattern: &str) -> (r: Option<CompiledGlob>)
        ensures
            r is Some <==> glob_ok(pattern@),
            r matches Some(p) ==> p.spec_source() == pattern@,
    {
        match glob::Pattern::new(pattern) {
            Ok(pat) => Some(CompiledGlob { pat, source: pattern.to_string() }),
            Err(_) => None,
        }
    }

    /// Relies on glob::Pattern::matches: whether a name matches is a pure
    /// function of the pattern text and the name.
    #[verifier::external_body]
    pub fn matches(&self, name: &str) -> (b: bool)
        ensures
            b == glob_matches(self.spec_source(), name@),
    {
        self.pat.matches(name)
    }
}

impl GlobTool {
    pub fn name(&self) -> (r: &'static str)
        ensures
            r@ == "glob"@,
    {
        "glob"
    }

    pub fn description(&self) -> (r: &'static str)
        ensures
            r@ == "Fast file pattern matching using glob patterns like **/*.js"@,
    {
        "Fast file pattern matching using glob patterns like **/*.js"
    }

    /// The pattern actually searched: the given directory (the current
    /// one by default) and the name pattern, joined by one separator.
    pub fn full_pattern(&self, path: Option<&String>, pattern: &str) -> (r: String)
        ensures
            r@ == (match path {
                Some(p) => p@,
                None => "."@,
            }) + "/"@ + pattern@,
    {
        let mut r = match path {
            Some(p) => p.clone(),
            None => String::from_str("."),
        };
        r.append("/");
        r.append(pattern);
        r
    }

    /// Display the matches found: their count and one path per line, or a
    /// note that none matched.
    pub fn render_matches(&self, matches: &Vec<String>) -> (r: String)
        ensures
            matches@.len() == 0 ==> r@ == "No files found matching the pattern"@,
            matches@.len() > 0 ==> r@ == "Found "@ + spec_dec(matches@.len() as nat)
                + " file(s):\n"@ + spec_join_nl(matches.deep_view()),
    {
        if matches.len() == 0 {
            String::from_str("No files found matching the pattern")
        } else {
            let mut r = String::from_str("Found ");
            r.append(u64_to_dec(matches.len() as u64).as_str());
            r.append(" file(s):\n");
            r.append(join_nl(matches).as_str());
            r
        }
    }
}

/// The pattern text handed to the engine: the case-insensitivity marker in
/// front of the pattern when asked for.
pub open spec fn effective_pattern(p: Seq<char>, case_insensitive: bool) -> Seq<char> {
    if case_insensitive {
        "(?i)"@ + p
    } else {
        p
    }
}

/// How many lines match.
pub open spec fn match_count(lines: Seq<Seq<char>>, pat: Seq<char>) -> nat
    decreases lines.len(),
{
    if lines.len() == 0 {
        0
    } else {
        match_count(lines.drop_last(), pat) + (if regex_accepts(pat, lines.last()) {
            1nat
        } else {
            0nat
        })
    }
}

/// One matching line as displayed: its one-based number padded to five
/// columns, a separator, the line.
pub open spec fn grep_line_row(idx: nat, line: Seq<char>) -> Seq<char> {
    spec_pad_left(spec_dec(idx), 5) + ": "@ + line
}

/// The displayed rows of a file's matching lines, in order.
pub open spec fn content_rows(lines: Seq<Seq<char>>, pat: Seq<char>) -> Seq<Seq<char>>
    decreases lines.len(),
{
    if lines.len() == 0 {
        Seq::<Seq<char>>::empty()
    } else if regex_accepts(pat, lines.last()) {
        content_rows(lines.drop_last(), pat) + seq![
            grep_line_row(lines.len() as nat, lines.last()),
        ]
    } else {
        content_rows(lines.drop_last(), pat)
    }
}

/// The last component of a path: the text after the last separator.
pub open spec fn file_name_of(path: Seq<char>) -> Seq<char> {
    let i = last_slash(path);
    if i == -1 {
        path
    } else {
        path.skip(i + 1)
    }
}

/// Whether a file takes part in the search: always without a filter, and
/// by its name against the filter otherwise.
pub open spec fn file_selected(path: Seq<char>, filter: Option<Seq<char>>) -> bool {
    match filter {
        None => true,
        Some(g) => glob_matches(g, file_name_of(path)),
    }
}

/// The rows one searched file contributes, by output mode: its path
/// alone, a header with its matching lines, or its match count; nothing
/// when nothing in it matches or the mode is unknown.
pub open spec fn file_rows(
    path: Seq<char>,
    lines: Seq<Seq<char>>,
    pat: Seq<char>,
    mode: Seq<char>,
) -> Seq<Seq<char>> {
    if match_count(lines, pat) == 0 {
        Seq::<Seq<char>>::empty()
    } else if mode == "files_with_matches"@ {
        seq![path]
    } else if mode == "content"@ {
        seq!["\n"@ + path + ":"@] + content_rows(lines, pat)
    } else if mode == "count"@ {
        seq![path + ": "@ + spec_dec(match_count(lines, pat))]
    } else {
        Seq::<Seq<char>>::empty()
    }
}

/// The rows of a whole search over (path, content) files, in file order.
pub open spec fn all_rows(
    files: Seq<(Seq<char>, Seq<char>)>,
    pat: Seq<char>,
    filter: Option<Seq<char>>,
    mode: Seq<char>,
) -> Seq<Seq<char>>
    decreases files.len(),
{
    if files.len() == 0 {
        Seq::<Seq<char>>::empty()
    } else if file_selected(files.last().0, filter) {
        all_rows(files.drop_last(), pat, filter, mode) + file_rows(
            files.last().0,
            spec_lines(files.last().1),
            pat,
            mode,
        )
    } else {
        all_rows(files.drop_last(), pat, filter, mode)
    }
}

/// Compute the last path component.
fn file_name_part(path: &str) -> (r: String)
    ensures
        r@ == file_name_of(path@),
{
    let n = path.unicode_len();
    match crate::definition::find_last_slash(path) {
        None => String::from_str(path),
        Some(i) => {
            let r = String::from_str(path.substring_char(i + 1, n));
            proof {
                assert(r@ =~= path@.skip(i + 1));
            }
            r
        },
    }
}

impl GrepTool {
    pub fn name(&self) -> (r: &'static str)
        ensures
            r@ == "grep"@,
    {
        "grep"
    }

    pub fn description(&self) -> (r: &'static str)
        ensures
            r@ == "Search tool for finding patterns in file contents using regex"@,
    {
        "Search tool for finding patterns in file contents using regex"
    }

    /// Search the given (path, content) files line by line. An invalid
    /// regular expression, or an invalid file-name filter with files to
    /// hold it against, aborts the search; otherwise the result lists the
    /// matches as the output mode asks, or says that none were found.
    pub fn search(
        &self,
        pattern: &str,
        case_insensitive: bool,
        glob_filter: Option<&String>,
        output_mode: &str,
        files: &Vec<(String, String)>,
    ) -> (r: Result<ToolResult, String>)
        ensures
            !regex_ok(effective_pattern(pattern@, case_insensitive)) ==> (r matches Err(e) && e@
                == "Failed to compile regex pattern"@),
            regex_ok(effective_pattern(pattern@, case_insensitive)) ==> ({
                let filter = match glob_filter {
                    Some(g) => Some(g@),
                    None => None,
                };
                let rows = all_rows(
                    files.deep_view(),
                    effective_pattern(pattern@, case_insensitive),
                    filter,
                    output_mode@,
                );
                if (glob_filter matches Some(g) && !glob_ok(g@)) && files@.len() > 0 {
                    r matches Err(e) && e@ == "Failed to parse glob pattern"@
                } else {
                    r matches Ok(t) && t.success && t.error is None && t.output@ == (if rows.len()
                        == 0 {
                        "No matches found"@
                    } else {
                        spec_join_nl(rows)
                    })
                }
            }),
    {
        let eff: String = if case_insensitive {
            let mut e = String::from_str("(?i)");
            e.append(pattern);
            e
        } else {
            String::from_str(pattern)
        };
        let re = match CompiledRegex::compile(eff.as_str()) {
            Some(re) => re,
            None => {
                return Err(String::from_str("Failed to compile regex pattern"));
            },
        };
        let ghost pat = effective_pattern(pattern@, case_insensitive);
        let ghost filter = match glob_filter {
            Some(g) => Some(g@),
            None => None,
        };
        let ghost dv = files.deep_view();
        let mut results: Vec<String> = Vec::new();
        let n = files.len();
        let mut t: usize = 0;
        proof {
            assert(dv.take(0) =~= Seq::<(Seq<char>, Seq<char>)>::empty());
            assert(results.deep_view() =~= all_rows(dv.take(0), pat, filter, output_mode@));
        }
        while t < n
            invariant
                t <= n,
                n == files@.len(),
                dv == files.deep_view(),
                dv.len() == n,
                re.spec_source() == pat,
                pat == effective_pattern(pattern@, case_insensitive),
                filter == (match glob_filter {
                    Some(g) => Some(g@),
                    None => None,
                }),
                regex_ok(pat),
                t > 0 ==> (glob_filter matches Some(g) ==> glob_ok(g@)),
                results.deep_view() == all_rows(dv.take(t as int), pat, filter, output_mode@),
            decreases n - t,
        {
            proof {
                assert(dv.take(t + 1).drop_last() =~= dv.take(t as int));
                assert(dv.take(t + 1).last() == dv[t as int]);
                assert(dv[t as int].0 == files@[t as int].0@);
                assert(dv[t as int].1 == files@[t as int].1@);
            }
            let selected: bool = match glob_filter {
                Some(g) => {
                    let cg = match CompiledGlob::compile(g.as_str()) {
                        Some(cg) => cg,
                        None => {
                            return Err(String::from_str("Failed to parse glob pattern"));
                        },
                    };
                    let fname = file_name_part(files[t].0.as_str());
                    cg.matches(fname.as_str())
                },
                None => true,
            };
            proof {
                assert(selected == file_selected(dv[t as int].0, filter));
            }
            if selected {
                let lines = split_lines(files[t].1.as_str());
                let ghost ldv = lines.deep_view();
                proof {
                    assert(ldv == spec_lines(dv[t as int].1));
                }
                let ln = lines.len();
                let mut cnt: usize = 0;
                let mut crows: Vec<String> = Vec::new();
                let mut j: usize = 0;
                proof {
                    assert(ldv.take(0) =~= Seq::<Seq<char>>::empty());
                    assert(crows.deep_view() =~= content_rows(ldv.take(0), pat));
                }
                while j < ln
                    invariant
                        j <= ln,
                        ln == lines@.len(),
                        ldv == lines.deep_view(),
                        ldv.len() == ln,
                        re.spec_source() == pat,
                        cnt <= j,
                        cnt == match_count(ldv.take(j as int), pat),
                        crows.deep_view() == content_rows(ldv.take(j as int), pat),
                    decreases ln - j,
                {
                    proof {
                        assert(ldv.take(j + 1).drop_last() =~= ldv.take(j as int));
                        assert(ldv.take(j + 1).last() == ldv[j as int]);
                        assert(ldv[j as int] == lines@[j as int]@);
                    }
                    if re.is_match(lines[j].as_str()) {
                        cnt += 1;
                        let num = u64_to_dec((j + 1) as u64);
                        let mut row = pad_left(num.as_str(), 5);
                        row.append(": ");
                        row.append(lines[j].as_str());
                        let ghost crows_pre = crows.deep_view();
                        proof {
                            assert(row@ =~= grep_line_row((j + 1) as nat, ldv[j as int]));
                        }
                        crows.push(row);
                        proof {
                            assert(crows.deep_view() =~= crows_pre + seq![
                                grep_line_row((j + 1) as nat, ldv[j as int]),
                            ]);
                            assert(ldv.take(j + 1).len() == j + 1);
                            assert(crows.deep_view() =~= content_rows(ldv.take(j + 1), pat));
                        }
                    } else {
                        proof {
                            assert(crows.deep_view() =~= content_rows(ldv.take(j + 1), pat));
                        }
                    }
                    j += 1;
                }
                proof {
                    assert(ldv.take(ln as int) =~= ldv);
                }
                let ghost res_pre = results.deep_view();
                if cnt > 0 {
                    if str_eq(output_mode, "files_with_matches") {
                        results.push(files[t].0.clone());
                        proof {
                            assert(results.deep_view() =~= res_pre + seq![dv[t as int].0]);
                            assert(file_rows(dv[t as int].0, ldv, pat, output_mode@) =~= seq![
                                dv[t as int].0,
                            ]);
                        }
                    } else if str_eq(output_mode, "content") {
                        let mut header = String::from_str("\n");
                        header.append(files[t].0.as_str());
                        header.append(":");
                        proof {
                            reveal_strlit("files_with_matches");
                            reveal_strlit("content");
                            assert(header@ == "\n"@ + dv[t as int].0 + ":"@);
                        }
                        results.push(header);
                        let ghost res_mid = results.deep_view();
                        let mut crows2 = crows;
                        results.append(&mut crows2);
                        proof {
                            assert(res_mid =~= res_pre + seq!["\n"@ + dv[t as int].0 + ":"@]);
                            assert(results.deep_view() =~= res_mid + content_rows(ldv, pat));
                            assert(file_rows(dv[t as int].0, ldv, pat, output_mode@) =~= seq![
                                "\n"@ + dv[t as int].0 + ":"@,
                            ] + content_rows(ldv, pat));
                            assert(results.deep_view() =~= res_pre + file_rows(
                                dv[t as int].0,
                                ldv,
                                pat,
                                output_mode@,
                            ));
                        }
                    } else if str_eq(output_mode, "count") {
                        let mut row = files[t].0.clone();
                        row.append(": ");
                        row.append(u64_to_dec(cnt as u64).as_str());
                        proof {
                            reveal_strlit("files_with_matches");
                            reveal_strlit("content");
                            reveal_strlit("count");
                            assert(row@ == dv[t as int].0 + ": "@ + spec_dec(
                                match_count(ldv, pat),
                            ));
                        }
                        results.push(row);
                        proof {
                            assert(results.deep_view() =~= res_pre + file_rows(
                                dv[t as int].0,
                                ldv,
                                pat,
                                output_mode@,
                            ));
                        }
                    } else {
                        proof {
                            reveal_strlit("files_with_matches");
                            reveal_strlit("content");
                            reveal_strlit("count");
                            assert(file_rows(dv[t as int].0, ldv, pat, output_mode@) =~= Seq::<
                                Seq<char>,
                            >::empty());
                            assert(results.deep_view() =~= res_pre + file_rows(
                                dv[t as int].0,
                                ldv,
                                pat,
                                output_mode@,
                            ));
                        }
                    }
                } else {
                    proof {
                        assert(file_rows(dv[t as int].0, ldv, pat, output_mode@) =~= Seq::<
                            Seq<char>,
                        >::empty());
                        assert(results.deep_view() =~= res_pre + file_rows(
                            dv[t as int].0,
                            ldv,
                            pat,
                            output_mode@,
                        ));
                    }
                }
                proof {
                    assert(results.deep_view() =~= all_rows(dv.take(t + 1), pat, filter, output_mode@));
                }
            } else {
                proof {
                    assert(results.deep_view() =~= all_rows(dv.take(t + 1), pat, filter, output_mode@));
                }
            }
            t += 1;
        }
        proof {
            assert(dv.take(n as int) =~= dv);
        }
        if results.len() == 0 {
            Ok(ToolResult::success(String::from_str("No matches found")))
        } else {
            Ok(ToolResult::success(join_nl(&results)))
        }
    }
}

} // verus!
