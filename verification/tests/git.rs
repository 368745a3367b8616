use grepview::git::{
    push_shell_quoted, FileHighlight, GrepOptions, Highlight, LineHighlight,
    MatchLine, MatchedColumn, SearchResult,
};

fn options(pattern: &str, ignore_case: bool, before: usize, after: usize) -> GrepOptions {
    GrepOptions {
        pattern: pattern.to_string(),
        ignore_case,
        before_context: before,
        after_context: after,
    }
}

fn quoted(text: &str) -> String {
    let mut out = String::new();
    push_shell_quoted(&mut out, text);
    out
}

fn spans(count: usize) -> Vec<MatchedColumn> {
    (0..count).map(|i| MatchedColumn { column_offset: i, text_chars: 1 }).collect()
}

fn sample_highlight() -> Highlight {
    Highlight {
        lines: vec![
            FileHighlight {
                file: "a.rs".to_string(),
                lines: vec![
                    LineHighlight { number: 3, columns: spans(2) },
                    LineHighlight { number: 8, columns: spans(1) },
                    LineHighlight { number: 3, columns: spans(5) },
                ],
            },
            FileHighlight { file: "b.rs".to_string(), lines: vec![] },
            FileHighlight {
                file: "a.rs".to_string(),
                lines: vec![LineHighlight { number: 1, columns: spans(7) }],
            },
        ],
    }
}

#[test]
fn default_options() {
    let options = GrepOptions::default();
    assert_eq!(options.pattern, "");
    assert!(!options.ignore_case);
    assert_eq!(options.before_context, 0);
    assert_eq!(options.after_context, 0);
}

#[test]
fn command_string_of_default_options() {
    assert_eq!(GrepOptions::default().command_string(), "git grep -n -e ''");
}

#[test]
fn command_string_with_pattern() {
    assert_eq!(options("foo", false, 0, 0).command_string(), "git grep -n -e 'foo'");
}

#[test]
fn command_string_with_all_options() {
    assert_eq!(
        options("foo bar", true, 3, 12).command_string(),
        "git grep -n -i -B 3 -A 12 -e 'foo bar'"
    );
    assert_eq!(options("x", true, 0, 0).command_string(), "git grep -n -i -e 'x'");
    assert_eq!(options("x", false, 3, 0).command_string(), "git grep -n -B 3 -e 'x'");
    assert_eq!(options("x", false, 0, 3).command_string(), "git grep -n -A 3 -e 'x'");
}

#[test]
fn command_string_quotes_single_quotes() {
    assert_eq!(options("it's", false, 0, 0).command_string(), "git grep -n -e 'it'\\''s'");
}

#[test]
fn shell_quoting() {
    assert_eq!(quoted(""), "''");
    assert_eq!(quoted("abc"), "'abc'");
    assert_eq!(quoted("a b$c"), "'a b$c'");
    assert_eq!(quoted("'"), "''\\'''");
    assert_eq!(quoted("a'b'c"), "'a'\\''b'\\''c'");
}

#[test]
fn shell_quoting_is_appended() {
    let mut out = String::from("-e ");
    push_shell_quoted(&mut out, "x");
    assert_eq!(out, "-e 'x'");
}

#[test]
fn default_result_is_empty() {
    let result = SearchResult::default();
    assert!(result.files.is_empty());
    assert!(result.highlight.lines.is_empty());
    assert_eq!(result.max_line_width, 0);
}

#[test]
fn highlight_finds_first_entry_of_file() {
    let highlight = sample_highlight();
    let found = highlight.file("a.rs").unwrap();
    assert_eq!(found.lines.len(), 3);
    let found = highlight.file("b.rs").unwrap();
    assert_eq!(found.lines.len(), 0);
    assert!(highlight.file("c.rs").is_none());
    assert_eq!(highlight.find_file("a.rs"), Some(0));
    assert_eq!(highlight.find_file("b.rs"), Some(1));
    assert_eq!(highlight.find_file("c.rs"), None);
    assert_eq!(highlight.find_file(""), None);
}

#[test]
fn highlight_finds_first_entry_of_line() {
    let highlight = sample_highlight();
    let file = highlight.file("a.rs").unwrap();
    assert_eq!(file.line(3).unwrap().columns.len(), 2);
    assert_eq!(file.line(8).unwrap().columns.len(), 1);
    assert!(file.line(1).is_none());
    assert_eq!(file.find_line(3), Some(0));
    assert_eq!(file.find_line(8), Some(1));
    assert_eq!(file.find_line(1), None);
}

#[test]
fn hits_count_the_spans_of_a_file() {
    let highlight = sample_highlight();
    assert_eq!(highlight.hits("a.rs"), 8);
    assert_eq!(highlight.hits("b.rs"), 0);
    assert_eq!(highlight.hits("c.rs"), 0);
    assert_eq!(highlight.lines[2].hits(), 7);
}

fn words(options: &GrepOptions) -> Vec<String> {
    options.command_args()
}

#[test]
fn command_args_of_default_options() {
    assert_eq!(words(&GrepOptions::default()), vec!["git", "grep", "-n", "-e", ""]);
}

#[test]
fn command_args_with_all_options() {
    assert_eq!(
        words(&options("it's a", true, 3, 12)),
        vec!["git", "grep", "-n", "-i", "-B", "3", "-A", "12", "-e", "it's a"]
    );
    assert_eq!(words(&options("x", false, 0, 7)), vec!["git", "grep", "-n", "-A", "7", "-e", "x"]);
    assert_eq!(words(&options("x", false, 7, 0)), vec!["git", "grep", "-n", "-B", "7", "-e", "x"]);
}

#[test]
fn command_string_joins_the_args() {
    for ignore_case in [false, true] {
        for before in [0usize, 3, 10] {
            for after in [0usize, 3, 10] {
                let options = options("a'b c", ignore_case, before, after);
                let args = options.command_args();
                let (pattern, rest) = args.split_last().unwrap();
                let mut expected = rest.join(" ");
                expected.push(' ');
                push_shell_quoted(&mut expected, pattern);
                assert_eq!(options.command_string(), expected);
            }
        }
    }
}

fn line(number: usize, text: &str) -> MatchLine {
    MatchLine { number, text: text.to_string() }
}

fn texts(result: &SearchResult, file: usize) -> Vec<(usize, String)> {
    result.files[file].lines.iter().map(|line| (line.number, line.text.clone())).collect()
}

#[test]
fn add_line_groups_lines_by_file() {
    let mut result = SearchResult::default();
    result.add_line("b.rs", line(3, "three"));
    result.add_line("a.rs", line(10, "ten"));
    result.add_line("b.rs", line(4, "four"));
    assert_eq!(result.files.len(), 2);
    assert_eq!(result.files[0].file, "b.rs");
    assert_eq!(result.files[1].file, "a.rs");
    assert_eq!(texts(&result, 0), vec![(3, "three".to_string()), (4, "four".to_string())]);
    assert_eq!(texts(&result, 1), vec![(10, "ten".to_string())]);
    assert!(result.highlight.lines.is_empty());
    assert_eq!(result.find_file("a.rs"), Some(1));
    assert_eq!(result.find_file("b.rs"), Some(0));
    assert_eq!(result.find_file("c.rs"), None);
}

#[test]
fn add_line_widens_the_number_field() {
    let mut result = SearchResult::default();
    assert_eq!(result.max_line_width, 0);
    result.add_line("a", line(7, ""));
    assert_eq!(result.max_line_width, 1);
    result.add_line("a", line(1234, ""));
    assert_eq!(result.max_line_width, 4);
    result.add_line("b", line(99, ""));
    assert_eq!(result.max_line_width, 4);
    result.add_line("b", line(0, ""));
    assert_eq!(result.max_line_width, 4);
    result.add_line("c", line(usize::MAX, ""));
    assert_eq!(result.max_line_width, usize::MAX.to_string().len());
}

#[test]
fn add_match_groups_spans_by_file_and_line() {
    let mut result = SearchResult::default();
    result.add_line("a", line(1, "xx"));
    result.add_match("a", 1, MatchedColumn { column_offset: 0, text_chars: 1 });
    result.add_match("b", 9, MatchedColumn { column_offset: 5, text_chars: 2 });
    result.add_match("a", 2, MatchedColumn { column_offset: 3, text_chars: 4 });
    result.add_match("a", 1, MatchedColumn { column_offset: 1, text_chars: 1 });
    assert_eq!(result.files.len(), 1);
    assert_eq!(result.max_line_width, 1);
    let highlight = &result.highlight;
    assert_eq!(highlight.lines.len(), 2);
    assert_eq!(highlight.lines[0].file, "a");
    assert_eq!(highlight.lines[1].file, "b");
    assert_eq!(highlight.hits("a"), 3);
    assert_eq!(highlight.hits("b"), 1);
    let a = highlight.file("a").unwrap();
    assert_eq!(a.lines.len(), 2);
    assert_eq!(
        a.line(1).unwrap().columns,
        vec![
            MatchedColumn { column_offset: 0, text_chars: 1 },
            MatchedColumn { column_offset: 1, text_chars: 1 }
        ]
    );
    assert_eq!(a.line(2).unwrap().columns, vec![MatchedColumn { column_offset: 3, text_chars: 4 }]);
    assert_eq!(
        highlight.file("b").unwrap().line(9).unwrap().columns,
        vec![MatchedColumn { column_offset: 5, text_chars: 2 }]
    );
}

#[test]
fn file_highlight_add_match_keeps_one_entry_per_line() {
    let mut file = FileHighlight { file: "f".to_string(), lines: Vec::new() };
    for _ in 0..3 {
        file.add_match(5, MatchedColumn { column_offset: 0, text_chars: 1 });
        file.add_match(6, MatchedColumn { column_offset: 0, text_chars: 1 });
    }
    assert_eq!(file.file, "f");
    assert_eq!(file.lines.len(), 2);
    assert_eq!(file.lines[0].number, 5);
    assert_eq!(file.lines[1].number, 6);
    assert_eq!(file.hits(), 6);
}

#[test]
fn paths_are_compared_by_characters() {
    let mut result = SearchResult::default();
    for path in ["", "a", "A", "a ", "ab", "日本", "日"] {
        result.add_line(path, line(1, path));
    }
    assert_eq!(result.files.len(), 7);
    for (index, path) in ["", "a", "A", "a ", "ab", "日本", "日"].iter().enumerate() {
        assert_eq!(result.find_file(path), Some(index));
    }
    assert_eq!(result.find_file("b"), None);
}
