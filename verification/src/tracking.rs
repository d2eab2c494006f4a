//! Version-control tracking: when a scan is narrowed to tracked files, and
//! which files a listing of the tracking system names.

use vstd::prelude::*;
use vstd::hash_set::StringHashSet;
use crate::path::{join, join_paths, PathKind};
use crate::text::{
    chars_of, line_texts, lines_of_listing, listing_lines, push_signed_decimal, push_str,
    signed_decimal, string_of, trim, trimmed,
};

verus! {

/// Whether the caller asked for tracked files only, for all files, or left
/// the choice to the scan.
#[derive(Debug, Clone, Copy, PartialEq, Eq, Structural)]
pub enum TrackingPreference {
    /// Nothing was asked for: a root under version control is narrowed.
    Unset,
    /// Tracked files only; a root that is no repository fails the scan.
    Enabled,
    /// All files, also in a repository.
    Disabled,
}

impl TrackingPreference {
    /// The preference that an optional flag stands for.
    pub fn from_flag(flag: Option<bool>) -> (preference: TrackingPreference)
        ensures
            preference == match flag {
                None => TrackingPreference::Unset,
                Some(true) => TrackingPreference::Enabled,
                Some(false) => TrackingPreference::Disabled,
            },
    {
        match flag {
            None => TrackingPreference::Unset,
            Some(true) => TrackingPreference::Enabled,
            Some(false) => TrackingPreference::Disabled,
        }
    }
}

/// The path of the marker that shows a root to be a repository.
pub open spec fn marker_path(root: Seq<char>) -> Seq<char> {
    join(root, ".git"@)
}

/// Computes [`marker_path`].
pub fn marker_path_of(root: &str) -> (path: String)
    ensures
        path@ == marker_path(root@),
{
    string_of(&join_paths(&chars_of(root), &chars_of(".git")))
}

/// Whether a root is a repository, given what was found under its marker
/// path. Anything found there counts, whether or not it is a usable
/// repository.
pub fn is_git_repo(marker: PathKind) -> (in_repo: bool)
    ensures
        in_repo == (marker != PathKind::Missing),
{
    match marker {
        PathKind::Missing => false,
        _ => true,
    }
}

/// Whether a root is narrowed to its tracked files.
pub open spec fn tracking_applies(preference: TrackingPreference, in_repo: bool) -> bool {
    match preference {
        TrackingPreference::Unset => in_repo,
        TrackingPreference::Enabled => true,
        TrackingPreference::Disabled => false,
    }
}

/// Decides [`tracking_applies`].
pub fn use_tracking(preference: TrackingPreference, in_repo: bool) -> (narrowed: bool)
    ensures
        narrowed == tracking_applies(preference, in_repo),
{
    match preference {
        TrackingPreference::Unset => in_repo,
        TrackingPreference::Enabled => true,
        TrackingPreference::Disabled => false,
    }
}

/// How the process that was asked for the listing ended.
#[derive(Debug, Clone, Copy, PartialEq, Eq, Structural)]
pub enum QueryExit {
    /// It exited with this code; zero is success.
    Code(i32),
    /// It was killed by this signal.
    Signal(i32),
}

/// What the process that was asked for the listing left behind.
#[derive(Debug, PartialEq, Eq)]
pub struct QueryOutput {
    pub exit: QueryExit,
    /// Its standard output: the listing, one path a line, each relative to
    /// the root.
    pub stdout: String,
    /// Its standard error.
    pub stderr: String,
}

/// The tracking system could not say which files it tracks.
#[derive(Debug, PartialEq, Eq)]
pub enum TrackingQueryFailed {
    /// The process exited with a code other than zero; `stderr` is what it
    /// wrote to standard error, without the white space around it.
    ExitCode { code: i32, stderr: String },
    /// The process was killed by a signal.
    Signal { signal: i32 },
    /// The process could not be started or waited for.
    NotRun { reason: String },
}

impl TrackingQueryFailed {
    /// The failure in words.
    pub open spec fn message(self) -> Seq<char> {
        match self {
            TrackingQueryFailed::ExitCode { code, stderr } => "`git ls-files` exit with code="@
                + signed_decimal(code as int) + ": "@ + stderr@,
            TrackingQueryFailed::Signal { signal } => "`git ls-files` killed by signal: "@
                + signed_decimal(signal as int),
            TrackingQueryFailed::NotRun { reason } => reason@,
        }
    }

    /// Gives [`TrackingQueryFailed::message`].
    pub fn to_message(&self) -> (text: String)
        ensures
            text@ == self.message(),
    {
        let mut out: Vec<char> = Vec::new();
        match self {
            TrackingQueryFailed::ExitCode { code, stderr } => {
                push_str(&mut out, "`git ls-files` exit with code=");
                push_signed_decimal(&mut out, *code as i64);
                push_str(&mut out, ": ");
                push_str(&mut out, stderr.as_str());
                assert(out@ =~= self.message());
            },
            TrackingQueryFailed::Signal { signal } => {
                push_str(&mut out, "`git ls-files` killed by signal: ");
                push_signed_decimal(&mut out, *signal as i64);
                assert(out@ =~= self.message());
            },
            TrackingQueryFailed::NotRun { reason } => {
                push_str(&mut out, reason.as_str());
                assert(out@ =~= self.message());
            },
        }
        string_of(&out)
    }
}

/// The paths that a listing names: each of its lines, joined to the root.
pub open spec fn listed_paths(root: Seq<char>, listing: Seq<char>) -> Set<Seq<char>> {
    Set::new(
        |path: Seq<char>|
            exists|i: int|
                0 <= i < listing_lines(listing).len() && path == join(
                    root,
                    #[trigger] listing_lines(listing)[i],
                ),
    )
}

/// The files of one root that the tracking system tracks.
pub struct TrackedFiles {
    paths: StringHashSet,
}

impl View for TrackedFiles {
    type V = Set<Seq<char>>;

    closed spec fn view(&self) -> Set<Seq<char>> {
        self.paths@
    }
}

impl TrackedFiles {
    /// Whether the path is tracked.
    pub fn contains(&self, path: &str) -> (found: bool)
        ensures
            found == self@.contains(path@),
    {
        self.paths.contains(path)
    }
}

/// Reads the answer of the tracking system for one root.
///
/// On exit code zero, returns the set of [`listed_paths`]. On another exit
/// code, fails with the code and the trimmed standard error; on a signal,
/// with the signal.
pub fn git_tracked_files(root: &str, output: &QueryOutput) -> (r: Result<
    TrackedFiles,
    TrackingQueryFailed,
>)
    ensures
        match output.exit {
            QueryExit::Code(code) => if code == 0 {
                r matches Ok(files) && files@ == listed_paths(root@, output.stdout@)
            } else {
                r matches Err(TrackingQueryFailed::ExitCode { code: failed, stderr }) && failed
                    == code && stderr@ == trim(output.stderr@)
            },
            QueryExit::Signal(signal) => r == Err::<TrackedFiles, TrackingQueryFailed>(
                TrackingQueryFailed::Signal { signal },
            ),
        },
{
    match output.exit {
        QueryExit::Code(code) => {
            if code != 0 {
                let stderr = string_of(&trimmed(&chars_of(output.stderr.as_str())));
                return Err(TrackingQueryFailed::ExitCode { code, stderr });
            }
        },
        QueryExit::Signal(signal) => {
            return Err(TrackingQueryFailed::Signal { signal });
        },
    }
    let base = chars_of(root);
    let lines = lines_of_listing(&chars_of(output.stdout.as_str()));
    let ghost listed = listing_lines(output.stdout@);
    let mut paths = StringHashSet::new();
    let mut i: usize = 0;
    while i < lines.len()
        invariant
            i <= lines.len(),
            base@ == root@,
            line_texts(lines@) == listed,
            paths@ == Set::new(
                |path: Seq<char>|
                    exists|j: int| 0 <= j < i && path == join(root@, #[trigger] listed[j]),
            ),
        decreases lines.len() - i,
    {
        let ghost before = paths@;
        let path = string_of(&join_paths(&base, &lines[i]));
        assert(listed[i as int] == lines@[i as int]@);
        paths.insert(path);
        assert(paths@ =~= Set::new(
            |path: Seq<char>|
                exists|j: int| 0 <= j < i + 1 && path == join(root@, #[trigger] listed[j]),
        )) by {
            assert forall|p: Seq<char>| before.insert(join(root@, listed[i as int])).contains(
                p,
            ) implies (exists|j: int| 0 <= j < i + 1 && p == join(root@, #[trigger] listed[j])) by {
                if p == join(root@, listed[i as int]) {
                    assert(0 <= i < i + 1 && p == join(root@, listed[i as int]));
                } else {
                    let j = choose|j: int| 0 <= j < i && p == join(root@, #[trigger] listed[j]);
                    assert(0 <= j < i + 1 && p == join(root@, listed[j]));
                }
            }
        }
        i += 1;
    }
    assert(paths@ =~= listed_paths(root@, output.stdout@)) by {
        assert(listed.len() == lines.len());
    }
    Ok(TrackedFiles { paths })
}

} // verus!
