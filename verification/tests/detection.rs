use clean::detect::{
    blank_lines_at_eof, crlf_line_endings, lint_file, missing_newline, trailing_whitespace,
};
use clean::issue::{Issue, IssueType};
use clean::text::{chars_of, lines_of};

fn found(issue_type: IssueType, line: usize, file: &str, message: &str) -> Issue {
    Issue { issue_type, line: Some(line), file: file.to_string(), message: Some(message.to_string()) }
}

fn kinds(issues: &Vec<Issue>) -> Vec<(IssueType, Option<usize>)> {
    issues.iter().map(|i| (i.issue_type, i.line)).collect()
}

#[test]
fn trailing_whitespace_on_the_first_line() {
    let issues = lint_file("test.txt", "hello \nworld\n");
    assert_eq!(
        issues,
        vec![found(IssueType::TrailingWhitespace, 1, "test.txt", "Trailing whitespace")]
    );
}

#[test]
fn missing_newline_alone() {
    let issues = lint_file("test2.txt", "hello");
    assert_eq!(
        issues,
        vec![found(IssueType::MissingNewline, 1, "test2.txt", "Missing newline at end of file")]
    );
}

#[test]
fn crlf_is_reported_on_the_line_with_the_carriage_return() {
    let issues = lint_file("test_crlf.txt", "foo\r\nbar\n");
    assert_eq!(
        issues,
        vec![
            found(IssueType::TrailingWhitespace, 1, "test_crlf.txt", "Trailing whitespace"),
            found(IssueType::CrlfLineEnding, 1, "test_crlf.txt", "Contains CRLF line endings"),
        ]
    );
}

#[test]
fn blank_lines_at_the_end_are_reported_on_the_last_line() {
    let issues = lint_file("test_blank.txt", "foo\n\n\n");
    assert_eq!(
        issues,
        vec![found(
            IssueType::MultipleBlankLinesEof,
            4,
            "test_blank.txt",
            "Multiple blank lines at end of file"
        )]
    );
}

#[test]
fn empty_text_has_no_issues() {
    assert_eq!(lint_file("empty.txt", ""), Vec::<Issue>::new());
    assert_eq!(lint_file("", ""), Vec::<Issue>::new());
}

#[test]
fn clean_texts_have_no_issues() {
    for text in ["a\n", "hello\nworld\n", "\n", "a\n\nb\n", "  indented\n", "é\n"] {
        assert_eq!(lint_file("clean.txt", text), Vec::<Issue>::new(), "{:?}", text);
    }
}

#[test]
fn last_line_without_newline_is_reported_twice_when_it_ends_in_space() {
    let issues = lint_file("test_last_line.txt", "hello\nworld   ");
    assert_eq!(
        kinds(&issues),
        vec![(IssueType::TrailingWhitespace, Some(2)), (IssueType::MissingNewline, Some(2))]
    );
}

#[test]
fn single_line_with_one_trailing_space() {
    let issues = lint_file("test3.txt", "foo \n");
    assert_eq!(kinds(&issues), vec![(IssueType::TrailingWhitespace, Some(1))]);
}

#[test]
fn issues_come_rule_after_rule_not_line_after_line() {
    let issues = lint_file("mixed.txt", "a \r\nb\r\nc \n\n");
    assert_eq!(
        kinds(&issues),
        vec![
            (IssueType::TrailingWhitespace, Some(1)),
            (IssueType::TrailingWhitespace, Some(2)),
            (IssueType::TrailingWhitespace, Some(3)),
            (IssueType::CrlfLineEnding, Some(1)),
            (IssueType::CrlfLineEnding, Some(2)),
            (IssueType::MultipleBlankLinesEof, Some(5)),
        ]
    );
}

#[test]
fn all_four_kinds_in_one_text() {
    let issues = lint_file("all.txt", "x \r\ny\n\r");
    assert_eq!(
        kinds(&issues),
        vec![
            (IssueType::TrailingWhitespace, Some(1)),
            (IssueType::TrailingWhitespace, Some(3)),
            (IssueType::MissingNewline, Some(3)),
            (IssueType::CrlfLineEnding, Some(1)),
            (IssueType::CrlfLineEnding, Some(3)),
            (IssueType::MultipleBlankLinesEof, Some(3)),
        ]
    );
}

#[test]
fn carriage_returns_without_crlf_are_not_crlf_issues() {
    let issues = lint_file("cr.txt", "a\rb\n");
    assert_eq!(issues, Vec::<Issue>::new());
    let issues = lint_file("cr.txt", "a\r");
    assert_eq!(
        kinds(&issues),
        vec![(IssueType::TrailingWhitespace, Some(1)), (IssueType::MissingNewline, Some(1))]
    );
}

#[test]
fn one_crlf_flags_every_line_with_a_carriage_return() {
    let issues = lint_file("cr.txt", "a\rb\nc\r\nd\n");
    assert_eq!(
        kinds(&issues),
        vec![
            (IssueType::TrailingWhitespace, Some(2)),
            (IssueType::CrlfLineEnding, Some(1)),
            (IssueType::CrlfLineEnding, Some(2)),
        ]
    );
}

#[test]
fn two_line_breaks_at_the_end_are_too_many() {
    assert_eq!(kinds(&lint_file("f", "a\n\n")), vec![(IssueType::MultipleBlankLinesEof, Some(3))]);
    assert_eq!(kinds(&lint_file("f", "\n\n")), vec![(IssueType::MultipleBlankLinesEof, Some(3))]);
    assert_eq!(
        kinds(&lint_file("f", "a\r\n")),
        vec![
            (IssueType::TrailingWhitespace, Some(1)),
            (IssueType::CrlfLineEnding, Some(1)),
            (IssueType::MultipleBlankLinesEof, Some(2)),
        ]
    );
    assert_eq!(kinds(&lint_file("f", "a\n")), vec![]);
    assert_eq!(kinds(&lint_file("f", "a\n\nb\n")), vec![]);
}

#[test]
fn unicode_white_space_counts() {
    assert_eq!(
        kinds(&lint_file("f", "a\u{00A0}\nb\u{3000}\n")),
        vec![(IssueType::TrailingWhitespace, Some(1)), (IssueType::TrailingWhitespace, Some(2))]
    );
    assert_eq!(kinds(&lint_file("f", "a\u{200B}\n")), vec![]);
}

#[test]
fn every_issue_names_the_given_path() {
    let issues = lint_file("/tmp/some dir/é.txt", "a \nb \n\n\n");
    assert_eq!(issues.len(), 3);
    for issue in &issues {
        assert_eq!(issue.file, "/tmp/some dir/é.txt");
        assert!(issue.message.is_some());
    }
}

#[test]
fn the_rules_can_be_applied_one_by_one() {
    let text = chars_of("x \r\ny\n\r");
    let lines = lines_of(&text);
    assert_eq!(lines.len(), 3);
    assert_eq!(
        kinds(&trailing_whitespace("f", &lines)),
        vec![(IssueType::TrailingWhitespace, Some(1)), (IssueType::TrailingWhitespace, Some(3))]
    );
    assert_eq!(
        kinds(&missing_newline("f", &text, lines.len())),
        vec![(IssueType::MissingNewline, Some(3))]
    );
    assert_eq!(
        kinds(&crlf_line_endings("f", &text, &lines)),
        vec![(IssueType::CrlfLineEnding, Some(1)), (IssueType::CrlfLineEnding, Some(3))]
    );
    assert_eq!(
        kinds(&blank_lines_at_eof("f", &text, lines.len())),
        vec![(IssueType::MultipleBlankLinesEof, Some(3))]
    );
}

#[test]
fn lint_file_is_the_four_rules_in_order() {
    for content in ["a \n", "a", "a\r\nb", "\n\n\n", "x \r\ny\n\r", " ", "\r", "\r\n"] {
        let text = chars_of(content);
        let lines = lines_of(&text);
        let mut expected = trailing_whitespace("f", &lines);
        expected.extend(missing_newline("f", &text, lines.len()));
        expected.extend(crlf_line_endings("f", &text, &lines));
        expected.extend(blank_lines_at_eof("f", &text, lines.len()));
        assert_eq!(lint_file("f", content), expected, "{:?}", content);
    }
}

#[test]
fn kinds_have_their_names_and_descriptions() {
    assert_eq!(IssueType::TrailingWhitespace.name(), "trailing_whitespace");
    assert_eq!(IssueType::MissingNewline.name(), "missing_newline");
    assert_eq!(IssueType::CrlfLineEnding.name(), "crlf_line_ending");
    assert_eq!(IssueType::MultipleBlankLinesEof.name(), "multiple_blank_lines_eof");
    assert_eq!(IssueType::TrailingWhitespace.describe(), "Trailing whitespace");
    assert_eq!(IssueType::MissingNewline.describe(), "Missing newline at end of file");
    assert_eq!(IssueType::CrlfLineEnding.describe(), "Contains CRLF line endings");
    assert_eq!(
        IssueType::MultipleBlankLinesEof.describe(),
        "Multiple blank lines at end of file"
    );
}

#[test]
fn issues_can_be_made_copied_and_stripped() {
    let issue = Issue::detected(IssueType::CrlfLineEnding, 7, "a/b.txt");
    assert_eq!(issue, found(IssueType::CrlfLineEnding, 7, "a/b.txt", "Contains CRLF line endings"));
    assert_eq!(issue.clone(), issue);
    let bare = issue.stripped();
    assert_eq!(
        bare,
        Issue {
            issue_type: IssueType::CrlfLineEnding,
            line: Some(7),
            file: "a/b.txt".to_string(),
            message: None
        }
    );
}
