//! The defect detector: from the text of one file to its issues.
//!
//! Four rules run on every text that is not empty, each on its own, and
//! their issues follow one another in the order of the rules: trailing
//! white space, missing final line feed, CRLF line endings, blank lines at
//! the end. An empty text has no issues.

use vstd::prelude::*;
use crate::issue::{detected, issue_views, Issue, IssueType, IssueView};
use crate::text::{
    chars_of, contains_char, contains_crlf, ends_in_whitespace, has_char, has_crlf,
    lemma_split_then_join, line_ends_in_whitespace, line_texts, lines_of, split_lines,
    CARRIAGE_RETURN, LINE_FEED,
};

verus! {

/// Whether a line shows the per-line defect of the given kind. Only two
/// kinds are judged line by line.
pub open spec fn line_has(issue_type: IssueType, line: Seq<char>) -> bool {
    match issue_type {
        IssueType::TrailingWhitespace => ends_in_whitespace(line),
        IssueType::CrlfLineEnding => has_char(line, CARRIAGE_RETURN),
        _ => false,
    }
}

/// The numbers, counted from one and ascending, of the lines that show the
/// per-line defect of the given kind.
pub open spec fn flagged_lines(issue_type: IssueType, lines: Seq<Seq<char>>) -> Seq<nat>
    decreases lines.len(),
{
    if lines.len() == 0 {
        Seq::<nat>::empty()
    } else {
        let front = flagged_lines(issue_type, lines.drop_last());
        if line_has(issue_type, lines.last()) {
            front.push(lines.len())
        } else {
            front
        }
    }
}

/// One issue of the given kind for each of the given lines.
pub open spec fn issues_on(issue_type: IssueType, file: Seq<char>, numbers: Seq<nat>) -> Seq<
    IssueView,
> {
    Seq::new(numbers.len(), |i: int| detected(issue_type, numbers[i], file))
}

/// The number of line feeds and carriage returns that the text ends in.
pub open spec fn trailing_breaks(text: Seq<char>) -> nat
    decreases text.len(),
{
    if text.len() > 0 && (text.last() == LINE_FEED || text.last() == CARRIAGE_RETURN) {
        trailing_breaks(text.drop_last()) + 1
    } else {
        0
    }
}

/// First rule: an issue for every line that ends in white space, the
/// segment after the last line feed included.
pub open spec fn trailing_whitespace_issues(file: Seq<char>, lines: Seq<Seq<char>>) -> Seq<
    IssueView,
> {
    issues_on(
        IssueType::TrailingWhitespace,
        file,
        flagged_lines(IssueType::TrailingWhitespace, lines),
    )
}

/// Second rule: one issue on the last of `count` lines when the text does
/// not end in a line feed.
pub open spec fn missing_newline_issues(file: Seq<char>, text: Seq<char>, count: nat) -> Seq<
    IssueView,
> {
    if text.len() > 0 && text.last() == LINE_FEED {
        Seq::<IssueView>::empty()
    } else {
        seq![detected(IssueType::MissingNewline, count, file)]
    }
}

/// Third rule: when the text holds a carriage return directly before a line
/// feed, an issue for every line that holds a carriage return.
pub open spec fn crlf_issues(file: Seq<char>, text: Seq<char>, lines: Seq<Seq<char>>) -> Seq<
    IssueView,
> {
    if has_crlf(text) {
        issues_on(IssueType::CrlfLineEnding, file, flagged_lines(IssueType::CrlfLineEnding, lines))
    } else {
        Seq::<IssueView>::empty()
    }
}

/// Fourth rule: one issue on the last of `count` lines when the text ends
/// in more than one line break.
pub open spec fn blank_lines_issues(file: Seq<char>, text: Seq<char>, count: nat) -> Seq<
    IssueView,
> {
    if trailing_breaks(text) > 1 {
        seq![detected(IssueType::MultipleBlankLinesEof, count, file)]
    } else {
        Seq::<IssueView>::empty()
    }
}

/// The issues of a text: none for the empty text, else what the four rules
/// find in the text and its lines, rule after rule.
pub open spec fn detect(file: Seq<char>, text: Seq<char>) -> Seq<IssueView> {
    let lines = split_lines(text);
    if text.len() == 0 {
        Seq::<IssueView>::empty()
    } else {
        trailing_whitespace_issues(file, lines) + missing_newline_issues(file, text, lines.len())
            + crlf_issues(file, text, lines) + blank_lines_issues(file, text, lines.len())
    }
}

/// What [`flagged_lines`] holds: only numbers of lines that show the
/// defect, each such line, and in ascending order.
pub proof fn lemma_flagged_lines(issue_type: IssueType, lines: Seq<Seq<char>>)
    ensures
        flagged_lines(issue_type, lines).len() <= lines.len(),
        forall|k: int|
            0 <= k < flagged_lines(issue_type, lines).len() ==> {
                let n = #[trigger] flagged_lines(issue_type, lines)[k];
                1 <= n <= lines.len() && line_has(issue_type, lines[n - 1])
            },
        forall|j: int, k: int|
            0 <= j < k < flagged_lines(issue_type, lines).len() ==> flagged_lines(
                issue_type,
                lines,
            )[j] < flagged_lines(issue_type, lines)[k],
        forall|i: int|
            0 <= i < lines.len() && line_has(issue_type, #[trigger] lines[i]) ==> flagged_lines(
                issue_type,
                lines,
            ).contains((i + 1) as nat),
    decreases lines.len(),
{
    if lines.len() > 0 {
        let front_lines = lines.drop_last();
        let front = flagged_lines(issue_type, front_lines);
        let all = flagged_lines(issue_type, lines);
        lemma_flagged_lines(issue_type, front_lines);
        assert forall|k: int| 0 <= k < all.len() implies {
            let n = #[trigger] all[k];
            1 <= n <= lines.len() && line_has(issue_type, lines[n - 1])
        } by {
            if k < front.len() {
                assert(all[k] == front[k]);
                assert(front_lines[front[k] - 1] == lines[front[k] - 1]);
            }
        }
        assert forall|j: int, k: int| 0 <= j < k < all.len() implies all[j] < all[k] by {
            assert(all[j] == front[j]);
            if k < front.len() {
                assert(all[k] == front[k]);
            }
        }
        assert forall|i: int|
            0 <= i < lines.len() && line_has(issue_type, #[trigger] lines[i]) implies all.contains(
            (i + 1) as nat,
        ) by {
            if i < front_lines.len() {
                assert(front_lines[i] == lines[i]);
                assert(front.contains((i + 1) as nat));
                let k = choose|k: int| 0 <= k < front.len() && front[k] == (i + 1) as nat;
                assert(all[k] == (i + 1) as nat);
            } else {
                assert(all[all.len() - 1] == lines.len());
            }
        }
    }
}

/// The line issues of the given kind, one for each flagged line.
fn line_issues(issue_type: IssueType, path: &str, lines: &Vec<Vec<char>>) -> (issues: Vec<Issue>)
    ensures
        issue_views(issues@) == issues_on(
            issue_type,
            path@,
            flagged_lines(issue_type, line_texts(lines@)),
        ),
{
    let mut issues: Vec<Issue> = Vec::new();
    let mut i: usize = 0;
    assert(line_texts(lines@).take(0) =~= Seq::<Seq<char>>::empty());
    assert(issue_views(issues@) =~= issues_on(
        issue_type,
        path@,
        flagged_lines(issue_type, line_texts(lines@).take(0)),
    ));
    while i < lines.len()
        invariant
            i <= lines.len(),
            issue_views(issues@) == issues_on(
                issue_type,
                path@,
                flagged_lines(issue_type, line_texts(lines@).take(i as int)),
            ),
        decreases lines.len() - i,
    {
        let ghost texts = line_texts(lines@);
        let ghost before = flagged_lines(issue_type, texts.take(i as int));
        let ghost found = issue_views(issues@);
        assert(texts.take(i + 1).drop_last() == texts.take(i as int));
        assert(texts.take(i + 1).last() == lines@[i as int]@);
        let flagged = match issue_type {
            IssueType::TrailingWhitespace => line_ends_in_whitespace(&lines[i]),
            IssueType::CrlfLineEnding => contains_char(&lines[i], CARRIAGE_RETURN),
            _ => false,
        };
        if flagged {
            issues.push(Issue::detected(issue_type, i + 1, path));
            assert(issue_views(issues@) =~= found.push(
                detected(issue_type, (i + 1) as nat, path@),
            ));
            assert(issues_on(issue_type, path@, before.push((i + 1) as nat)) =~= found.push(
                detected(issue_type, (i + 1) as nat, path@),
            ));
        }
        i += 1;
    }
    assert(line_texts(lines@).take(lines.len() as int) == line_texts(lines@));
    issues
}

/// Applies the first rule to the lines of a text.
pub fn trailing_whitespace(path: &str, lines: &Vec<Vec<char>>) -> (issues: Vec<Issue>)
    ensures
        issue_views(issues@) == trailing_whitespace_issues(path@, line_texts(lines@)),
{
    line_issues(IssueType::TrailingWhitespace, path, lines)
}

/// Applies the second rule to a text with the given number of lines.
pub fn missing_newline(path: &str, text: &Vec<char>, line_count: usize) -> (issues: Vec<Issue>)
    ensures
        issue_views(issues@) == missing_newline_issues(path@, text@, line_count as nat),
{
    let mut issues: Vec<Issue> = Vec::new();
    if !(text.len() > 0 && text[text.len() - 1] == LINE_FEED) {
        issues.push(Issue::detected(IssueType::MissingNewline, line_count, path));
    }
    assert(issue_views(issues@) =~= missing_newline_issues(path@, text@, line_count as nat));
    issues
}

/// Applies the third rule to a text and its lines.
pub fn crlf_line_endings(path: &str, text: &Vec<char>, lines: &Vec<Vec<char>>) -> (issues: Vec<
    Issue,
>)
    ensures
        issue_views(issues@) == crlf_issues(path@, text@, line_texts(lines@)),
{
    if contains_crlf(text) {
        line_issues(IssueType::CrlfLineEnding, path, lines)
    } else {
        let issues: Vec<Issue> = Vec::new();
        assert(issue_views(issues@) =~= crlf_issues(path@, text@, line_texts(lines@)));
        issues
    }
}

/// Whether the text ends in more than one line break.
fn ends_in_blank_lines(text: &Vec<char>) -> (b: bool)
    ensures
        b == (trailing_breaks(text@) > 1),
{
    let n = text.len();
    if n < 2 {
        assert(trailing_breaks(text@) <= 1) by {
            reveal_with_fuel(trailing_breaks, 3);
        }
        return false;
    }
    let last = text[n - 1];
    let before = text[n - 2];
    proof {
        reveal_with_fuel(trailing_breaks, 3);
        assert(text@.drop_last().last() == before);
    }
    (last == LINE_FEED || last == CARRIAGE_RETURN) && (before == LINE_FEED || before
        == CARRIAGE_RETURN)
}

/// Applies the fourth rule to a text with the given number of lines.
pub fn blank_lines_at_eof(path: &str, text: &Vec<char>, line_count: usize) -> (issues: Vec<Issue>)
    ensures
        issue_views(issues@) == blank_lines_issues(path@, text@, line_count as nat),
{
    let mut issues: Vec<Issue> = Vec::new();
    if ends_in_blank_lines(text) {
        issues.push(Issue::detected(IssueType::MultipleBlankLinesEof, line_count, path));
    }
    assert(issue_views(issues@) =~= blank_lines_issues(path@, text@, line_count as nat));
    issues
}

/// Appends `more` to `issues`.
pub fn append_issues(issues: &mut Vec<Issue>, more: Vec<Issue>)
    ensures
        final(issues)@ == old(issues)@ + more@,
        issue_views(final(issues)@) == issue_views(old(issues)@) + issue_views(more@),
{
    let mut rest = more;
    issues.append(&mut rest);
    assert(issue_views(issues@) =~= issue_views(old(issues)@) + issue_views(more@));
}

/// Detects the defects of one file: the issues of `content`, each with
/// `path` as its file.
pub fn lint_file(path: &str, content: &str) -> (issues: Vec<Issue>)
    ensures
        issue_views(issues@) == detect(path@, content@),
{
    let text = chars_of(content);
    let mut issues: Vec<Issue> = Vec::new();
    if text.len() == 0 {
        assert(issue_views(issues@) =~= detect(path@, content@));
        return issues;
    }
    let lines = lines_of(&text);
    let count = lines.len();
    assert(count == split_lines(text@).len()) by {
        assert(line_texts(lines@).len() == lines@.len());
    }
    append_issues(&mut issues, trailing_whitespace(path, &lines));
    append_issues(&mut issues, missing_newline(path, &text, count));
    append_issues(&mut issues, crlf_line_endings(path, &text, &lines));
    append_issues(&mut issues, blank_lines_at_eof(path, &text, count));
    assert(issue_views(issues@) =~= detect(path@, content@));
    issues
}

/// A kind of line defect that no line shows flags no line.
pub proof fn lemma_nothing_flagged(issue_type: IssueType, lines: Seq<Seq<char>>)
    requires
        forall|i: int| 0 <= i < lines.len() ==> !line_has(issue_type, #[trigger] lines[i]),
    ensures
        flagged_lines(issue_type, lines) == Seq::<nat>::empty(),
{
    lemma_flagged_lines(issue_type, lines);
    let flagged = flagged_lines(issue_type, lines);
    if flagged.len() > 0 {
        let n = flagged[0];
        assert(line_has(issue_type, lines[n - 1]));
    }
    assert(flagged =~= Seq::<nat>::empty());
}

/// A text is free of issues when none of its lines ends in white space, it
/// ends in exactly one line feed, it holds no carriage return, and it ends
/// in at most one line break.
pub proof fn lemma_clean_text_has_no_issues(file: Seq<char>, text: Seq<char>)
    requires
        forall|i: int|
            0 <= i < split_lines(text).len() ==> !ends_in_whitespace(#[trigger] split_lines(text)[i]),
        text.len() > 0 && text.last() == LINE_FEED,
        text.len() > 1 ==> text[text.len() - 2] != LINE_FEED,
        !has_char(text, CARRIAGE_RETURN),
        trailing_breaks(text) <= 1,
    ensures
        detect(file, text) == Seq::<IssueView>::empty(),
{
    lemma_nothing_flagged(IssueType::TrailingWhitespace, split_lines(text));
    assert(!has_crlf(text)) by {
        if has_crlf(text) {
            let i = choose|i: int|
                0 <= i && i + 1 < text.len() && text[i] == CARRIAGE_RETURN && #[trigger] text[i
                    + 1] == LINE_FEED;
            assert(text[i] == CARRIAGE_RETURN);
        }
    }
    assert(detect(file, text) =~= Seq::<IssueView>::empty());
}

/// The empty text has no issues, whatever the file is called.
pub proof fn lemma_empty_text_has_no_issues(file: Seq<char>)
    ensures
        detect(file, Seq::<char>::empty()) == Seq::<IssueView>::empty(),
{
}

/// Every issue of a text names the file it was given, carries its kind's
/// description, and lies on a line of the text.
pub proof fn lemma_detected_issues_are_located(file: Seq<char>, text: Seq<char>)
    ensures
        forall|k: int|
            0 <= k < detect(file, text).len() ==> {
                let issue = #[trigger] detect(file, text)[k];
                &&& issue.file == file
                &&& issue.message == Some(issue.issue_type.message())
                &&& issue.line matches Some(n)
                &&& 1 <= n <= split_lines(text).len()
            },
{
    let lines = split_lines(text);
    lemma_split_then_join(text);
    lemma_flagged_lines(IssueType::TrailingWhitespace, lines);
    lemma_flagged_lines(IssueType::CrlfLineEnding, lines);
    let all = detect(file, text);
    assert forall|k: int| 0 <= k < all.len() implies {
        let issue = #[trigger] all[k];
        &&& issue.file == file
        &&& issue.message == Some(issue.issue_type.message())
        &&& issue.line matches Some(n)
        &&& 1 <= n <= lines.len()
    } by {
        let first = trailing_whitespace_issues(file, lines);
        let second = missing_newline_issues(file, text, lines.len());
        let third = crlf_issues(file, text, lines);
        let fourth = blank_lines_issues(file, text, lines.len());
        if k < first.len() {
            assert(all[k] == first[k]);
        } else if k < first.len() + second.len() {
            assert(all[k] == second[k - first.len()]);
        } else if k < first.len() + second.len() + third.len() {
            assert(all[k] == third[k - first.len() - second.len()]);
        } else {
            assert(all[k] == fourth[k - first.len() - second.len() - third.len()]);
        }
    }
}

} // verus!
