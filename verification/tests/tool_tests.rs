use code_agent::bash::BashTool;
use code_agent::file_ops::{EditTool, ReadTool, WriteTool};
use code_agent::search::{GlobTool, GrepTool};
use code_agent::todo::{format_todos, TodoAction, TodoItem, TodoStatus, TodoTool};

#[test]
fn edit_rejects_a_target_that_occurs_twice() {
    let tool = EditTool;
    let r = tool.apply("aba b aba", "aba", "X", false);
    assert_eq!(
        r.unwrap_err(),
        "String appears 2 times. Use replace_all=true or provide more context"
    );
}

#[test]
fn edit_rejects_a_missing_target() {
    let tool = EditTool;
    let r = tool.apply("hello", "xyz", "X", false);
    assert_eq!(r.unwrap_err(), "String not found in file: xyz");
}

#[test]
fn edit_replaces_a_unique_target_once() {
    let tool = EditTool;
    assert_eq!(tool.apply("one two three", "two", "2", false).unwrap(), "one 2 three");
}

#[test]
fn edit_replace_all_replaces_every_occurrence() {
    let tool = EditTool;
    assert_eq!(tool.apply("xaxa", "a", "b", true).unwrap(), "xbxb");
    assert_eq!(tool.apply("aaa", "aa", "b", true).unwrap(), "ba");
    assert_eq!(tool.apply("", "", "Z", false).unwrap(), "Z");
    assert_eq!(tool.report("f.txt"), "Successfully edited f.txt");
}

#[test]
fn read_numbers_and_selects_lines() {
    let tool = ReadTool;
    assert_eq!(tool.render("a\nb\nc", None, None), "    1\u{2192}a\n    2\u{2192}b\n    3\u{2192}c");
    assert_eq!(tool.render("a\nb\nc", Some(1), Some(1)), "    2\u{2192}b");
    assert_eq!(tool.render("a\nb\nc", Some(9), None), "");
    assert_eq!(tool.render("", None, None), "");
    assert_eq!(tool.render("x\r\ny", None, None), "    1\u{2192}x\n    2\u{2192}y");
}

#[test]
fn write_report_counts_bytes() {
    let tool = WriteTool;
    assert_eq!(tool.report("f.txt", "hello"), "Successfully wrote 5 bytes to f.txt");
    assert_eq!(tool.report("f.txt", ""), "Successfully wrote 0 bytes to f.txt");
}

#[test]
fn bash_outcome_combines_streams() {
    let tool = BashTool;
    let r = tool.outcome(true, Some(0), "out".to_string(), String::new());
    assert!(r.success);
    assert_eq!(r.output, "out");

    let r = tool.outcome(true, Some(0), String::new(), "err".to_string());
    assert_eq!(r.output, "err");

    let r = tool.outcome(true, Some(0), "o".to_string(), "e".to_string());
    assert_eq!(r.output, "STDOUT:\no\n\nSTDERR:\ne");
}

#[test]
fn bash_failure_names_the_exit_code() {
    let tool = BashTool;
    let r = tool.outcome(false, Some(2), "o".to_string(), "e".to_string());
    assert!(!r.success);
    assert_eq!(
        r.error.as_deref(),
        Some("Command failed with exit code: Some(2)\nSTDOUT:\no\n\nSTDERR:\ne")
    );

    let r = tool.outcome(false, None, String::new(), String::new());
    assert_eq!(r.error.as_deref(), Some("Command failed with exit code: None\n"));
    assert_eq!(code_agent::bash::default_timeout(), 120000);
}

#[test]
fn todos_format_with_numbers_and_markers() {
    let items = vec![
        TodoItem { content: "a".to_string(), status: TodoStatus::Pending, active_form: "A".to_string() },
        TodoItem { content: "b".to_string(), status: TodoStatus::InProgress, active_form: "B".to_string() },
        TodoItem { content: "c".to_string(), status: TodoStatus::Completed, active_form: "C".to_string() },
    ];
    assert_eq!(
        format_todos(&items),
        "Current todos:\n\n1. [ ] a\n2. [\u{2192}] b\n3. [\u{2713}] c\n"
    );
}

#[test]
fn todo_plan_reads_unless_a_list_is_supplied() {
    let tool = TodoTool;
    let read = "read".to_string();
    let write = "write".to_string();
    assert!(matches!(tool.plan(Some(&read), true), TodoAction::ReadList));
    assert!(matches!(tool.plan(None, false), TodoAction::ReadList));
    assert!(matches!(tool.plan(Some(&write), false), TodoAction::ReadList));
    assert!(matches!(tool.plan(None, true), TodoAction::WriteList));
    assert!(matches!(tool.plan(Some(&write), true), TodoAction::WriteList));
}

#[test]
fn todo_outcomes_display_the_list() {
    let tool = TodoTool;
    let r = tool.read_outcome(None);
    assert!(r.success);
    assert_eq!(r.output, "No todos found");

    let items = vec![TodoItem {
        content: "x".to_string(),
        status: TodoStatus::Pending,
        active_form: "X".to_string(),
    }];
    let r = tool.write_outcome(&items);
    assert_eq!(r.output, "Current todos:\n\n1. [ ] x\n");
    let r = tool.read_outcome(Some(&items));
    assert_eq!(r.output, "Current todos:\n\n1. [ ] x\n");
}

#[test]
fn glob_builds_the_search_pattern() {
    let tool = GlobTool;
    assert_eq!(tool.full_pattern(None, "*.rs"), "./*.rs");
    let dir = "src".to_string();
    assert_eq!(tool.full_pattern(Some(&dir), "*.rs"), "src/*.rs");
}

#[test]
fn glob_renders_matches() {
    let tool = GlobTool;
    assert_eq!(tool.render_matches(&vec![]), "No files found matching the pattern");
    assert_eq!(
        tool.render_matches(&vec!["a".to_string(), "b".to_string()]),
        "Found 2 file(s):\na\nb"
    );
}

fn grep_files() -> Vec<(String, String)> {
    vec![
        ("dir/a.txt".to_string(), "foo\nbar\nfoofoo".to_string()),
        ("dir/b.md".to_string(), "foo here".to_string()),
        ("dir/c.txt".to_string(), "nothing".to_string()),
    ]
}

#[test]
fn grep_lists_files_with_matches() {
    let tool = GrepTool;
    let r = tool.search("fo+", false, None, "files_with_matches", &grep_files()).unwrap();
    assert!(r.success);
    assert_eq!(r.output, "dir/a.txt\ndir/b.md");
}

#[test]
fn grep_content_mode_numbers_matching_lines() {
    let tool = GrepTool;
    let r = tool.search("fo+", false, None, "content", &grep_files()).unwrap();
    assert_eq!(
        r.output,
        "\ndir/a.txt:\n    1: foo\n    3: foofoo\n\ndir/b.md:\n    1: foo here"
    );
}

#[test]
fn grep_count_mode_counts_matching_lines() {
    let tool = GrepTool;
    let r = tool.search("fo+", false, None, "count", &grep_files()).unwrap();
    assert_eq!(r.output, "dir/a.txt: 2\ndir/b.md: 1");
}

#[test]
fn grep_filters_by_file_name() {
    let tool = GrepTool;
    let filter = "*.txt".to_string();
    let r = tool
        .search("fo+", false, Some(&filter), "files_with_matches", &grep_files())
        .unwrap();
    assert_eq!(r.output, "dir/a.txt");
}

#[test]
fn grep_case_insensitive_matches_other_cases() {
    let tool = GrepTool;
    let files = vec![("f".to_string(), "FOO".to_string())];
    let r = tool.search("foo", true, None, "files_with_matches", &files).unwrap();
    assert_eq!(r.output, "f");
    let r = tool.search("foo", false, None, "files_with_matches", &files).unwrap();
    assert_eq!(r.output, "No matches found");
}

#[test]
fn grep_rejects_bad_patterns() {
    let tool = GrepTool;
    let r = tool.search("(", false, None, "files_with_matches", &grep_files());
    assert_eq!(r.unwrap_err(), "Failed to compile regex pattern");

    let filter = "[".to_string();
    let r = tool.search("fo+", false, Some(&filter), "files_with_matches", &grep_files());
    assert_eq!(r.unwrap_err(), "Failed to parse glob pattern");
}

#[test]
fn grep_reports_when_nothing_matches() {
    let tool = GrepTool;
    let r = tool.search("zzz", false, None, "files_with_matches", &grep_files()).unwrap();
    assert_eq!(r.output, "No matches found");
    assert_eq!(code_agent::search::default_output_mode(), "files_with_matches");
}

#[test]
fn tool_names_and_descriptions_are_stable() {
    assert_eq!(ReadTool.name(), "read");
    assert_eq!(WriteTool.name(), "write");
    assert_eq!(EditTool.name(), "edit");
    assert_eq!(GlobTool.name(), "glob");
    assert_eq!(GrepTool.name(), "grep");
    assert_eq!(BashTool.name(), "bash");
    assert_eq!(TodoTool.name(), "todo");
    assert_eq!(
        ReadTool.description(),
        "Reads a file from the filesystem with optional line offset and limit"
    );
}
