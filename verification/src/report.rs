//! The report: which form it takes, what it says, and whether the run
//! counts as failed.

use vstd::prelude::*;
use crate::issue::{issue_views, Issue, IssueView};
use crate::text::{
    chars_of, decimal, has_prefix, push_all, push_decimal, push_str, same_text, starts_with,
    string_of, texts,
};

verus! {

/// The three forms of a report.
#[derive(Debug, Clone, Copy, PartialEq, Eq, Structural)]
pub enum OutputFormat {
    Json,
    Yaml,
    Text,
}

/// The form that the two switches select: JSON where it is asked for,
/// whatever else is; YAML where only it is; text where neither is.
pub open spec fn selected_format(json: bool, yaml: bool) -> OutputFormat {
    if json {
        OutputFormat::Json
    } else if yaml {
        OutputFormat::Yaml
    } else {
        OutputFormat::Text
    }
}

/// Gives [`selected_format`].
pub fn select_format(json: bool, yaml: bool) -> (format: OutputFormat)
    ensures
        format == selected_format(json, yaml),
{
    if json {
        OutputFormat::Json
    } else if yaml {
        OutputFormat::Yaml
    } else {
        OutputFormat::Text
    }
}

/// The issues as structured output carries them: each without its
/// description, in the same order.
pub open spec fn without_messages(issues: Seq<IssueView>) -> Seq<IssueView> {
    Seq::new(issues.len(), |i: int| issues[i].without_message())
}

/// Copies of the issues without their descriptions.
pub fn strip_messages(issues: &Vec<Issue>) -> (bare: Vec<Issue>)
    ensures
        issue_views(bare@) == without_messages(issue_views(issues@)),
{
    let mut bare: Vec<Issue> = Vec::new();
    let mut i: usize = 0;
    while i < issues.len()
        invariant
            i <= issues.len(),
            bare.len() == i,
            forall|j: int| 0 <= j < i ==> bare@[j]@ == issues@[j]@.without_message(),
        decreases issues.len() - i,
    {
        bare.push(issues[i].stripped());
        i += 1;
    }
    assert(issue_views(bare@) =~= without_messages(issue_views(issues@)));
    bare
}

/// The title that opens a text report.
pub open spec fn title() -> Seq<char> {
    "# Clean report\n\n"@
}

/// The notice that closes a text report without issues.
pub open spec fn all_clear() -> Seq<char> {
    "No lint issues found.\n\n"@
}

/// The heading of the section of one file.
pub open spec fn heading(file: Seq<char>) -> Seq<char> {
    "## "@ + file + "\n\n"@
}

/// The line of one issue: its line number, zero where it has none, and its
/// description, empty where it has none.
pub open spec fn bullet(issue: IssueView) -> Seq<char> {
    "- **Line:** `"@ + decimal(
        match issue.line {
            Some(n) => n,
            None => 0,
        },
    ) + "` "@ + (match issue.message {
        Some(m) => m,
        None => Seq::<char>::empty(),
    }) + "\n"@
}

/// What one issue adds to the part of a root while the section of the file
/// `open` is the last one begun (none where `open` is empty): a heading
/// when the issue belongs to another file, behind a blank line unless it is
/// the first heading of the part, and then the issue's own line.
pub open spec fn entry(open: Seq<char>, issue: IssueView) -> Seq<char> {
    (if issue.file != open {
        (if open.len() > 0 {
            "\n"@
        } else {
            Seq::<char>::empty()
        }) + heading(issue.file)
    } else {
        Seq::<char>::empty()
    }) + bullet(issue)
}

/// Whether an issue belongs to a root: the path of its file begins with
/// the root as it was given.
pub open spec fn belongs_to(issue: IssueView, root: Seq<char>) -> bool {
    has_prefix(issue.file, root)
}

/// The file of the last of the issues that belongs to the root; empty where
/// none does.
pub open spec fn open_file(issues: Seq<IssueView>, root: Seq<char>) -> Seq<char>
    decreases issues.len(),
{
    if issues.len() == 0 {
        Seq::<char>::empty()
    } else if belongs_to(issues.last(), root) {
        issues.last().file
    } else {
        open_file(issues.drop_last(), root)
    }
}

/// The part of a text report for one root: the entries of the issues that
/// belong to it, in the order of the issues.
pub open spec fn root_part(issues: Seq<IssueView>, root: Seq<char>) -> Seq<char>
    decreases issues.len(),
{
    if issues.len() == 0 {
        Seq::<char>::empty()
    } else {
        let before = issues.drop_last();
        root_part(before, root) + (if belongs_to(issues.last(), root) {
            entry(open_file(before, root), issues.last())
        } else {
            Seq::<char>::empty()
        })
    }
}

/// The parts of all roots, in the order of the roots, each closed by an
/// empty line.
pub open spec fn root_parts(issues: Seq<IssueView>, roots: Seq<Seq<char>>) -> Seq<char>
    decreases roots.len(),
{
    if roots.len() == 0 {
        Seq::<char>::empty()
    } else {
        root_parts(issues, roots.drop_last()) + root_part(issues, roots.last()) + "\n"@
    }
}

/// The text report: the title, the parts of the roots, and the closing
/// notice where there is no issue at all.
pub open spec fn text_report(issues: Seq<IssueView>, roots: Seq<Seq<char>>) -> Seq<char> {
    title() + root_parts(issues, roots) + (if issues.len() == 0 {
        all_clear()
    } else {
        Seq::<char>::empty()
    })
}

/// Appends [`bullet`] of an issue.
fn push_bullet(out: &mut Vec<char>, issue: &Issue)
    ensures
        final(out)@ == old(out)@ + bullet(issue@),
{
    push_str(out, "- **Line:** `");
    let line: usize = match issue.line {
        Some(n) => n,
        None => 0,
    };
    push_decimal(out, line as u64);
    push_str(out, "` ");
    match &issue.message {
        Some(m) => {
            push_str(out, m.as_str());
        },
        None => {},
    }
    push_str(out, "\n");
    assert(out@ =~= old(out)@ + bullet(issue@));
}

/// Appends [`root_part`] of the issues for one root.
fn push_root_part(out: &mut Vec<char>, issues: &Vec<Issue>, files: &Vec<Vec<char>>, root: &Vec<char>)
    requires
        files.len() == issues.len(),
        forall|i: int| 0 <= i < issues.len() ==> files@[i]@ == #[trigger] issues@[i].file@,
    ensures
        final(out)@ == old(out)@ + root_part(issue_views(issues@), root@),
{
    let ghost all = issue_views(issues@);
    let mut open: Vec<char> = Vec::new();
    let mut i: usize = 0;
    assert(all.take(0) =~= Seq::<IssueView>::empty());
    assert(out@ =~= old(out)@ + root_part(all.take(0), root@));
    while i < issues.len()
        invariant
            i <= issues.len(),
            all == issue_views(issues@),
            files.len() == issues.len(),
            forall|k: int| 0 <= k < issues.len() ==> files@[k]@ == #[trigger] issues@[k].file@,
            open@ == open_file(all.take(i as int), root@),
            out@ == old(out)@ + root_part(all.take(i as int), root@),
        decreases issues.len() - i,
    {
        let ghost before = out@;
        let ghost done = all.take(i as int);
        assert(all.take(i + 1).drop_last() == done);
        assert(all.take(i + 1).last() == issues@[i as int]@);
        assert(files@[i as int]@ == issues@[i as int].file@);
        assert(issues@[i as int].file@ == issues@[i as int]@.file);
        if starts_with(&files[i], root) {
            if !same_text(&files[i], &open) {
                if open.len() > 0 {
                    push_str(out, "\n");
                }
                push_str(out, "## ");
                push_all(out, &files[i]);
                push_str(out, "\n\n");
                open = Vec::new();
                push_all(&mut open, &files[i]);
                assert(open@ =~= files@[i as int]@);
            }
            push_bullet(out, &issues[i]);
            assert(out@ =~= before + entry(open_file(done, root@), issues@[i as int]@));
            assert(before + entry(open_file(done, root@), issues@[i as int]@) =~= old(out)@ + (
            root_part(done, root@) + entry(open_file(done, root@), issues@[i as int]@)));
        } else {
            assert(out@ =~= old(out)@ + (root_part(done, root@) + Seq::<char>::empty()));
        }
        i += 1;
    }
    assert(all.take(issues.len() as int) == all);
}

/// Writes the text report of the issues for the given roots.
pub fn render_text(issues: &Vec<Issue>, roots: &Vec<String>) -> (report: String)
    ensures
        report@ == text_report(issue_views(issues@), texts(roots@)),
{
    let ghost all = issue_views(issues@);
    let ghost dirs = texts(roots@);
    let mut files: Vec<Vec<char>> = Vec::new();
    let mut k: usize = 0;
    while k < issues.len()
        invariant
            k <= issues.len(),
            files.len() == k,
            forall|i: int| 0 <= i < k ==> files@[i]@ == #[trigger] issues@[i].file@,
        decreases issues.len() - k,
    {
        files.push(chars_of(issues[k].file.as_str()));
        k += 1;
    }
    let mut out: Vec<char> = Vec::new();
    push_str(&mut out, "# Clean report\n\n");
    let mut r: usize = 0;
    assert(dirs.take(0) =~= Seq::<Seq<char>>::empty());
    assert(out@ =~= title() + root_parts(all, dirs.take(0)));
    while r < roots.len()
        invariant
            r <= roots.len(),
            all == issue_views(issues@),
            dirs == texts(roots@),
            files.len() == issues.len(),
            forall|i: int| 0 <= i < issues.len() ==> files@[i]@ == #[trigger] issues@[i].file@,
            out@ == title() + root_parts(all, dirs.take(r as int)),
        decreases roots.len() - r,
    {
        let ghost before = out@;
        assert(dirs.take(r + 1).drop_last() == dirs.take(r as int));
        assert(dirs.take(r + 1).last() == roots@[r as int]@);
        let root = chars_of(roots[r].as_str());
        push_root_part(&mut out, issues, &files, &root);
        push_str(&mut out, "\n");
        assert(out@ =~= title() + (root_parts(all, dirs.take(r as int)) + root_part(
            all,
            roots@[r as int]@,
        ) + "\n"@));
        r += 1;
    }
    assert(dirs.take(roots.len() as int) == dirs);
    if issues.len() == 0 {
        push_str(&mut out, "No lint issues found.\n\n");
    }
    assert(out@ =~= text_report(all, dirs));
    string_of(&out)
}

/// What is handed over for writing.
#[derive(Debug, PartialEq, Eq)]
pub enum Report {
    /// The text report, to be written as it stands.
    Text(String),
    /// The issues, without descriptions, to be written as a JSON list.
    Json(Vec<Issue>),
    /// The issues, without descriptions, to be written as a YAML list.
    Yaml(Vec<Issue>),
}

/// What a [`Report`] stands for.
pub enum ReportView {
    Text(Seq<char>),
    Json(Seq<IssueView>),
    Yaml(Seq<IssueView>),
}

impl View for Report {
    type V = ReportView;

    open spec fn view(&self) -> ReportView {
        match self {
            Report::Text(text) => ReportView::Text(text@),
            Report::Json(issues) => ReportView::Json(issue_views(issues@)),
            Report::Yaml(issues) => ReportView::Yaml(issue_views(issues@)),
        }
    }
}

/// The report of a run in the selected form: for the structured forms the
/// issues without their descriptions, an empty list where there are none;
/// for text, the [`text_report`].
pub open spec fn report_of(
    issues: Seq<IssueView>,
    json: bool,
    yaml: bool,
    roots: Seq<Seq<char>>,
) -> ReportView {
    match selected_format(json, yaml) {
        OutputFormat::Json => ReportView::Json(without_messages(issues)),
        OutputFormat::Yaml => ReportView::Yaml(without_messages(issues)),
        OutputFormat::Text => ReportView::Text(text_report(issues, roots)),
    }
}

/// Whether a run with these issues counts as failed: it does as soon as
/// there is one, whatever the form of the report.
pub open spec fn issues_fail(issues: Seq<IssueView>) -> bool {
    issues.len() > 0
}

/// Renders the issues of a run. Returns the report in the selected form
/// and whether the run counts as failed.
pub fn render(issues: &Vec<Issue>, json: bool, yaml: bool, roots: &Vec<String>) -> (rendered: (
    Report,
    bool,
))
    ensures
        rendered.0@ == report_of(issue_views(issues@), json, yaml, texts(roots@)),
        rendered.1 == issues_fail(issue_views(issues@)),
{
    let failed = issues.len() > 0;
    let report = match select_format(json, yaml) {
        OutputFormat::Json => Report::Json(strip_messages(issues)),
        OutputFormat::Yaml => Report::Yaml(strip_messages(issues)),
        OutputFormat::Text => Report::Text(render_text(issues, roots)),
    };
    (report, failed)
}

} // verus!
