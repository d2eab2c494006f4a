//! The defects that the detector reports.

use vstd::prelude::*;
use vstd::string::StringExecFns;

verus! {

/// The four kinds of defect.
#[derive(Debug, Clone, Copy, PartialEq, Eq, Hash, Structural)]
pub enum IssueType {
    /// A line ends in white space.
    TrailingWhitespace,
    /// The text does not end in a line feed.
    MissingNewline,
    /// A line holds a carriage return, in a text with CRLF line endings.
    CrlfLineEnding,
    /// The text ends in more than one line break.
    MultipleBlankLinesEof,
}

impl IssueType {
    /// The description that a freshly detected issue of this kind carries.
    pub open spec fn message(self) -> Seq<char> {
        match self {
            IssueType::TrailingWhitespace => "Trailing whitespace"@,
            IssueType::MissingNewline => "Missing newline at end of file"@,
            IssueType::CrlfLineEnding => "Contains CRLF line endings"@,
            IssueType::MultipleBlankLinesEof => "Multiple blank lines at end of file"@,
        }
    }

    /// The name of this kind in structured output.
    pub open spec fn tag(self) -> Seq<char> {
        match self {
            IssueType::TrailingWhitespace => "trailing_whitespace"@,
            IssueType::MissingNewline => "missing_newline"@,
            IssueType::CrlfLineEnding => "crlf_line_ending"@,
            IssueType::MultipleBlankLinesEof => "multiple_blank_lines_eof"@,
        }
    }

    /// Gives [`IssueType::message`].
    pub fn describe(self) -> (text: &'static str)
        ensures
            text@ == self.message(),
    {
        match self {
            IssueType::TrailingWhitespace => "Trailing whitespace",
            IssueType::MissingNewline => "Missing newline at end of file",
            IssueType::CrlfLineEnding => "Contains CRLF line endings",
            IssueType::MultipleBlankLinesEof => "Multiple blank lines at end of file",
        }
    }

    /// Gives [`IssueType::tag`].
    pub fn name(self) -> (text: &'static str)
        ensures
            text@ == self.tag(),
    {
        match self {
            IssueType::TrailingWhitespace => "trailing_whitespace",
            IssueType::MissingNewline => "missing_newline",
            IssueType::CrlfLineEnding => "crlf_line_ending",
            IssueType::MultipleBlankLinesEof => "multiple_blank_lines_eof",
        }
    }
}

/// One occurrence of a defect.
#[derive(Debug, PartialEq, Eq)]
pub struct Issue {
    /// Which defect it is.
    pub issue_type: IssueType,
    /// The line it was seen on, counted from one.
    pub line: Option<usize>,
    /// The path of the file, as the scan reached it.
    pub file: String,
    /// A description for human readers; absent in structured output.
    pub message: Option<String>,
}

/// What an [`Issue`] stands for.
pub struct IssueView {
    pub issue_type: IssueType,
    pub line: Option<nat>,
    pub file: Seq<char>,
    pub message: Option<Seq<char>>,
}

impl View for Issue {
    type V = IssueView;

    open spec fn view(&self) -> IssueView {
        IssueView {
            issue_type: self.issue_type,
            line: match self.line {
                Some(n) => Some(n as nat),
                None => None,
            },
            file: self.file@,
            message: match self.message {
                Some(m) => Some(m@),
                None => None,
            },
        }
    }
}

/// What a vector of issues stands for.
pub open spec fn issue_views(issues: Seq<Issue>) -> Seq<IssueView> {
    Seq::new(issues.len(), |i: int| issues[i]@)
}

/// The issue that the detector makes for a defect of the given kind on the
/// given line: it carries the line, the file and the kind's description.
pub open spec fn detected(issue_type: IssueType, line: nat, file: Seq<char>) -> IssueView {
    IssueView { issue_type, line: Some(line), file, message: Some(issue_type.message()) }
}

impl IssueView {
    /// The same issue without its description.
    pub open spec fn without_message(self) -> IssueView {
        IssueView { message: None, ..self }
    }
}

impl Clone for Issue {
    fn clone(&self) -> (issue: Issue)
        ensures
            issue == *self,
    {
        Issue {
            issue_type: self.issue_type,
            line: self.line,
            file: self.file.clone(),
            message: match &self.message {
                Some(m) => Some(m.clone()),
                None => None,
            },
        }
    }
}

impl Issue {
    /// Makes the issue [`detected`].
    pub fn detected(issue_type: IssueType, line: usize, file: &str) -> (issue: Issue)
        ensures
            issue@ == detected(issue_type, line as nat, file@),
    {
        Issue {
            issue_type,
            line: Some(line),
            file: String::from_str(file),
            message: Some(String::from_str(issue_type.describe())),
        }
    }

    /// A copy of this issue without its description.
    pub fn stripped(&self) -> (issue: Issue)
        ensures
            issue@ == self@.without_message(),
    {
        Issue {
            issue_type: self.issue_type,
            line: self.line,
            file: self.file.clone(),
            message: None,
        }
    }
}

} // verus!
