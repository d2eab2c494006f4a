//! The course of a scan, as a machine that is told what happened outside
//! and answers with what to do next.
//!
//! The machine never touches a file itself. Whoever drives it performs each
//! [`Action`] and reports the result as the next [`Event`]: root by root it
//! asks whether the root exists, what lies under its marker path, which
//! files are tracked where that matters, and which files there are; file by
//! file it decides whether the file is looked at, asks for its content and
//! detects its issues; at the end it hands out the report and, once that is
//! written, the outcome of the run.

use vstd::prelude::*;
use crate::config::ScanConfiguration;
use crate::detect::{append_issues, detect, lint_file};
use crate::ignore::{glob_error_text, ignore_outcome, should_ignore, InvalidPattern};
use crate::issue::{issue_views, Issue, IssueView};
use crate::path::PathKind;
use crate::report::{render, report_of, Report, ReportView};
use crate::text::{push_str, string_of, texts, trim};
use crate::tracking::{
    git_tracked_files, is_git_repo, listed_paths, marker_path, marker_path_of, tracking_applies,
    use_tracking, QueryExit, QueryOutput, TrackedFiles, TrackingPreference, TrackingQueryFailed,
};

verus! {

/// What ends a scan before its report is written, or while it is.
#[derive(Debug, PartialEq, Eq)]
pub enum ScanError {
    /// A root does not exist.
    MissingDirectory { dir: String },
    /// A pattern of the ignore list is no well-formed glob.
    InvalidPattern(InvalidPattern),
    /// The tracking system could not list its files.
    TrackingQueryFailed(TrackingQueryFailed),
    /// The report was to go to a path that is a directory.
    OutputIsDirectory { path: String },
    /// The destination of the report could not be opened.
    OutputNotOpened { path: String, reason: String },
    /// The report could not be written.
    OutputNotWritten { reason: String },
    /// An event came that the machine was not waiting for.
    UnexpectedEvent,
}

impl ScanError {
    /// The error in words.
    pub open spec fn message(self) -> Seq<char> {
        match self {
            ScanError::MissingDirectory { dir } => "Directory not found: "@ + dir@,
            ScanError::InvalidPattern(e) => "Invalid glob pattern: "@ + e.detail@,
            ScanError::TrackingQueryFailed(e) => e.message(),
            ScanError::OutputIsDirectory { path } => "output path is a directory: "@ + path@,
            ScanError::OutputNotOpened { path, reason } => "failed to write output file "@ + path@
                + ": "@ + reason@,
            ScanError::OutputNotWritten { reason } => reason@,
            ScanError::UnexpectedEvent => "unexpected event"@,
        }
    }

    /// Gives [`ScanError::message`].
    pub fn to_message(&self) -> (text: String)
        ensures
            text@ == self.message(),
    {
        let mut out: Vec<char> = Vec::new();
        match self {
            ScanError::MissingDirectory { dir } => {
                push_str(&mut out, "Directory not found: ");
                push_str(&mut out, dir.as_str());
                assert(out@ =~= self.message());
            },
            ScanError::InvalidPattern(e) => {
                push_str(&mut out, "Invalid glob pattern: ");
                push_str(&mut out, e.detail.as_str());
                assert(out@ =~= self.message());
            },
            ScanError::TrackingQueryFailed(e) => {
                return e.to_message();
            },
            ScanError::OutputIsDirectory { path } => {
                push_str(&mut out, "output path is a directory: ");
                push_str(&mut out, path.as_str());
                assert(out@ =~= self.message());
            },
            ScanError::OutputNotOpened { path, reason } => {
                push_str(&mut out, "failed to write output file ");
                push_str(&mut out, path.as_str());
                push_str(&mut out, ": ");
                push_str(&mut out, reason.as_str());
                assert(out@ =~= self.message());
            },
            ScanError::OutputNotWritten { reason } => {
                push_str(&mut out, reason.as_str());
                assert(out@ =~= self.message());
            },
            ScanError::UnexpectedEvent => {
                push_str(&mut out, "unexpected event");
                assert(out@ =~= self.message());
            },
        }
        string_of(&out)
    }
}

/// How a run ended.
#[derive(Debug, PartialEq, Eq)]
pub enum Outcome {
    /// The report is written and holds no issue.
    Clean,
    /// The report is written and holds at least one issue.
    IssuesFound,
    /// The run was given up.
    Failed(ScanError),
}

impl Outcome {
    /// The exit status of the process: zero for a clean run, one otherwise.
    pub fn exit_code(&self) -> (code: i32)
        ensures
            code == (if *self is Clean {
                0i32
            } else {
                1i32
            }),
    {
        match self {
            Outcome::Clean => 0,
            _ => 1,
        }
    }
}

/// Why a report did not reach its destination.
#[derive(Debug, PartialEq, Eq)]
pub enum WriteFailure {
    /// The destination could not be opened; `destination` says what was
    /// found under its path afterwards.
    Open { destination: PathKind, reason: String },
    /// The destination was opened, but writing to it failed.
    Write { reason: String },
}

/// What the driver reports back.
#[derive(Debug, PartialEq, Eq)]
pub enum Event {
    /// The run begins.
    Started,
    /// Whether the root that was asked about exists.
    RootChecked { exists: bool },
    /// What lies under the marker path that was asked about.
    MarkerProbed { marker: PathKind },
    /// What the tracking system answered, or why it could not be asked.
    TrackedListed { answer: Result<QueryOutput, String> },
    /// The regular files under the root, in the order of the walk.
    Walked { files: Vec<String> },
    /// The text of the file that was asked for; `None` where it could not
    /// be read or is not text.
    FileRead { content: Option<String> },
    /// Whether the report was written.
    Written { result: Result<(), WriteFailure> },
}

/// What the driver is to do next.
#[derive(Debug, PartialEq, Eq)]
pub enum Action {
    /// Find out whether the root exists; answer with `RootChecked`.
    CheckRoot { dir: String },
    /// Find out what lies under the path; answer with `MarkerProbed`.
    ProbeMarker { path: String },
    /// Ask the tracking system for the files of the root; answer with
    /// `TrackedListed`.
    ListTracked { dir: String },
    /// Walk the root for its regular files; answer with `Walked`.
    Walk { dir: String },
    /// Read the file as text; answer with `FileRead`.
    ReadFile { path: String },
    /// Write the report to the destination, standard output where there is
    /// none; answer with `Written`.
    Write { report: Report, destination: Option<String> },
    /// Stop: the run has this outcome.
    Finish { outcome: Outcome },
}

/// Where a scan stands: what it waits for.
#[derive(Debug, Clone, Copy, PartialEq, Eq, Structural)]
pub enum Stage {
    /// Not begun; waits for `Started`.
    Ready,
    /// Waits for `RootChecked`.
    Root,
    /// Waits for `MarkerProbed`.
    Marker,
    /// Waits for `TrackedListed`.
    Listing,
    /// Waits for `Walked`.
    Walking,
    /// Waits for `FileRead`.
    Reading,
    /// Waits for `Written`.
    Writing,
    /// Over.
    Finished,
}

/// What a [`Scan`] stands for, its options apart.
pub struct Progress {
    pub stage: Stage,
    /// The place of the current root among the roots.
    pub root: nat,
    /// The tracked files of the current root, where it is narrowed to them.
    pub filter: Option<Set<Seq<char>>>,
    /// The files of the current root, as the walk gave them.
    pub files: Seq<Seq<char>>,
    /// The place of the current file among them.
    pub file: nat,
    /// The issues found so far.
    pub found: Seq<IssueView>,
}

/// The place that a scan has reached among its roots and files.
struct Place {
    config: ScanConfiguration,
    stage: Stage,
    root: usize,
    filter: Option<TrackedFiles>,
    files: Vec<String>,
    file: usize,
}

impl Place {
    /// The places held are places that exist: while a root is worked on,
    /// it is one of the roots; while a file is read, it is one of the files.
    #[verifier::type_invariant]
    spec fn wf(&self) -> bool {
        &&& self.root <= self.config.dirs@.len()
        &&& (self.stage == Stage::Root || self.stage == Stage::Marker || self.stage
            == Stage::Listing || self.stage == Stage::Walking || self.stage == Stage::Reading)
            ==> self.root < self.config.dirs@.len()
        &&& self.stage == Stage::Reading ==> self.file < self.files@.len()
    }
}

/// A scan under way.
pub struct Scan {
    place: Place,
    issues: Vec<Issue>,
}

impl View for Scan {
    type V = Progress;

    closed spec fn view(&self) -> Progress {
        Progress {
            stage: self.place.stage,
            root: self.place.root as nat,
            filter: match self.place.filter {
                Some(files) => Some(files@),
                None => None,
            },
            files: texts(self.place.files@),
            file: self.place.file as nat,
            found: issue_views(self.issues@),
        }
    }
}

/// The text of a string that may be absent.
pub open spec fn optional_text(text: Option<String>) -> Option<Seq<char>> {
    match text {
        Some(t) => Some(t@),
        None => None,
    }
}

/// Whether a file of a root is looked at: not when the root is narrowed to
/// tracked files and the file is not among them; else when the ignore list
/// keeps it. `Err(i)` where the list is held against the file and pattern `i`
/// is its first malformed one.
pub open spec fn admits(
    path: Seq<char>,
    filter: Option<Set<Seq<char>>>,
    patterns: Seq<Seq<char>>,
) -> Result<bool, nat> {
    if filter matches Some(files) && !files.contains(path) {
        Ok(false)
    } else {
        match ignore_outcome(path, patterns) {
            Ok(left_out) => Ok(!left_out),
            Err(i) => Err(i),
        }
    }
}

/// What comes of going through the files from a place on.
pub enum Pick {
    /// The file at this place is the next to be read.
    File(nat),
    /// Before any file was admitted, this pattern turned out malformed.
    Malformed(nat),
    /// No file is left.
    Exhausted,
}

/// Goes through the files from place `from` on, up to the first that is
/// admitted or that brings a malformed pattern to light.
pub open spec fn pick_from(
    files: Seq<Seq<char>>,
    from: nat,
    filter: Option<Set<Seq<char>>>,
    patterns: Seq<Seq<char>>,
) -> Pick
    decreases files.len() - from,
{
    if from >= files.len() {
        Pick::Exhausted
    } else {
        match admits(files[from as int], filter, patterns) {
            Ok(true) => Pick::File(from),
            Ok(false) => pick_from(files, from + 1, filter, patterns),
            Err(i) => Pick::Malformed(i),
        }
    }
}

/// The scan is over: nothing but the stage changes.
pub open spec fn finished(pre: Progress) -> Progress {
    Progress { stage: Stage::Finished, ..pre }
}

/// The scan gives up with an error that `fits` describes.
pub open spec fn gives_up(
    pre: Progress,
    post: Progress,
    action: Action,
    fits: spec_fn(ScanError) -> bool,
) -> bool {
    &&& post == finished(pre)
    &&& action matches Action::Finish { outcome: Outcome::Failed(error) }
    &&& fits(error)
}

/// The scan turns to the root at place `i`: it asks whether that root
/// exists, or, behind the last root, hands out the report of the issues
/// found.
pub open spec fn enters_root(
    config: ScanConfiguration,
    pre: Progress,
    i: nat,
    post: Progress,
    action: Action,
) -> bool {
    let cleared = Progress {
        root: i,
        filter: None,
        files: Seq::<Seq<char>>::empty(),
        file: 0,
        ..pre
    };
    if i < config.dirs@.len() {
        &&& post == Progress { stage: Stage::Root, ..cleared }
        &&& action matches Action::CheckRoot { dir }
        &&& dir@ == config.dirs@[i as int]@
    } else {
        &&& post == Progress { stage: Stage::Writing, ..cleared }
        &&& action matches Action::Write { report, destination }
        &&& report@ == report_of(pre.found, config.json, config.yaml, texts(config.dirs@))
        &&& optional_text(destination) == optional_text(config.output)
    }
}

/// The scan goes on with the files of `pre` from place `from`: it asks for
/// the next admitted file, gives up at a malformed pattern, or turns to the
/// next root.
pub open spec fn picks(
    config: ScanConfiguration,
    pre: Progress,
    from: nat,
    post: Progress,
    action: Action,
) -> bool {
    match pick_from(pre.files, from, pre.filter, texts(config.ignore@)) {
        Pick::File(j) => {
            &&& post == Progress { stage: Stage::Reading, file: j, ..pre }
            &&& action matches Action::ReadFile { path }
            &&& path@ == pre.files[j as int]
        },
        Pick::Malformed(i) => gives_up(
            pre,
            post,
            action,
            |error: ScanError|
                error matches ScanError::InvalidPattern(e) && e.index == i && e.pattern@
                    == config.ignore@[i as int]@ && e.detail@ == glob_error_text(
                    config.ignore@[i as int]@,
                ),
        ),
        Pick::Exhausted => enters_root(config, pre, pre.root + 1, post, action),
    }
}

/// The scan has the answer of the tracking system for the root `dir`.
pub open spec fn takes_listing(
    dir: Seq<char>,
    answer: Result<QueryOutput, String>,
    pre: Progress,
    post: Progress,
    action: Action,
) -> bool {
    match answer {
        Err(why) => gives_up(
            pre,
            post,
            action,
            |error: ScanError|
                error matches ScanError::TrackingQueryFailed(
                    TrackingQueryFailed::NotRun { reason },
                ) && reason@ == why@,
        ),
        Ok(output) => match output.exit {
            QueryExit::Code(code) => if code == 0 {
                &&& post == Progress {
                    stage: Stage::Walking,
                    filter: Some(listed_paths(dir, output.stdout@)),
                    ..pre
                }
                &&& action matches Action::Walk { dir: walked }
                &&& walked@ == dir
            } else {
                gives_up(
                    pre,
                    post,
                    action,
                    |error: ScanError|
                        error matches ScanError::TrackingQueryFailed(
                            TrackingQueryFailed::ExitCode { code: failed, stderr },
                        ) && failed == code && stderr@ == trim(output.stderr@),
                )
            },
            QueryExit::Signal(signal) => gives_up(
                pre,
                post,
                action,
                |error: ScanError|
                    error matches ScanError::TrackingQueryFailed(
                        TrackingQueryFailed::Signal { signal: killed },
                    ) && killed == signal,
            ),
        },
    }
}

/// The scan learns how the writing of the report went.
pub open spec fn takes_written(
    config: ScanConfiguration,
    result: Result<(), WriteFailure>,
    pre: Progress,
    post: Progress,
    action: Action,
) -> bool {
    match result {
        Ok(_) => {
            &&& post == finished(pre)
            &&& action == (Action::Finish {
                outcome: if pre.found.len() > 0 {
                    Outcome::IssuesFound
                } else {
                    Outcome::Clean
                },
            })
        },
        Err(WriteFailure::Open { destination, reason }) => match config.output {
            Some(to) => if destination == PathKind::Directory {
                gives_up(
                    pre,
                    post,
                    action,
                    |error: ScanError|
                        error matches ScanError::OutputIsDirectory { path } && path@ == to@,
                )
            } else {
                gives_up(
                    pre,
                    post,
                    action,
                    |error: ScanError|
                        error matches ScanError::OutputNotOpened { path, reason: why } && path@
                            == to@ && why@ == reason@,
                )
            },
            None => gives_up(
                pre,
                post,
                action,
                |error: ScanError|
                    error matches ScanError::OutputNotWritten { reason: why } && why@ == reason@,
            ),
        },
        Err(WriteFailure::Write { reason }) => gives_up(
            pre,
            post,
            action,
            |error: ScanError|
                error matches ScanError::OutputNotWritten { reason: why } && why@ == reason@,
        ),
    }
}

/// One step of a scan with the given options: from where it stood and what
/// happened, to where it stands now and what is to be done.
pub open spec fn steps(
    config: ScanConfiguration,
    pre: Progress,
    event: Event,
    post: Progress,
    action: Action,
) -> bool {
    let dir = config.dirs@[pre.root as int]@;
    match (pre.stage, event) {
        (Stage::Ready, Event::Started) => enters_root(config, pre, 0, post, action),
        (Stage::Root, Event::RootChecked { exists }) => if exists {
            &&& post == Progress { stage: Stage::Marker, ..pre }
            &&& action matches Action::ProbeMarker { path }
            &&& path@ == marker_path(dir)
        } else {
            gives_up(
                pre,
                post,
                action,
                |error: ScanError|
                    error matches ScanError::MissingDirectory { dir: missing } && missing@ == dir,
            )
        },
        (Stage::Marker, Event::MarkerProbed { marker }) => if tracking_applies(
            config.git,
            marker != PathKind::Missing,
        ) {
            &&& post == Progress { stage: Stage::Listing, ..pre }
            &&& action matches Action::ListTracked { dir: listed }
            &&& listed@ == dir
        } else {
            &&& post == Progress { stage: Stage::Walking, filter: None, ..pre }
            &&& action matches Action::Walk { dir: walked }
            &&& walked@ == dir
        },
        (Stage::Listing, Event::TrackedListed { answer }) => takes_listing(
            dir,
            answer,
            pre,
            post,
            action,
        ),
        (Stage::Walking, Event::Walked { files }) => picks(
            config,
            Progress { files: texts(files@), file: 0, ..pre },
            0,
            post,
            action,
        ),
        (Stage::Reading, Event::FileRead { content }) => picks(
            config,
            Progress {
                found: match content {
                    Some(text) => pre.found + detect(pre.files[pre.file as int], text@),
                    None => pre.found,
                },
                ..pre
            },
            pre.file + 1,
            post,
            action,
        ),
        (Stage::Writing, Event::Written { result }) => takes_written(
            config,
            result,
            pre,
            post,
            action,
        ),
        _ => gives_up(pre, post, action, |error: ScanError| error is UnexpectedEvent),
    }
}

impl Scan {
    /// The options of the scan.
    pub closed spec fn config(&self) -> ScanConfiguration {
        self.place.config
    }

    /// A scan with the given options that has not begun.
    pub fn new(config: ScanConfiguration) -> (scan: Scan)
        ensures
            scan.config() == config,
            scan@ == (Progress {
                stage: Stage::Ready,
                root: 0,
                filter: None,
                files: Seq::<Seq<char>>::empty(),
                file: 0,
                found: Seq::<IssueView>::empty(),
            }),
    {
        let scan = Scan {
            place: Place {
                config,
                stage: Stage::Ready,
                root: 0,
                filter: None,
                files: Vec::new(),
                file: 0,
            },
            issues: Vec::new(),
        };
        assert(scan@.files =~= Seq::<Seq<char>>::empty());
        assert(scan@.found =~= Seq::<IssueView>::empty());
        scan
    }

    /// Where the scan stands.
    pub fn stage(&self) -> (stage: Stage)
        ensures
            stage == self@.stage,
    {
        self.place.stage
    }

    /// The issues found so far, in the order they were found.
    pub fn issues(&self) -> (issues: &Vec<Issue>)
        ensures
            issue_views(issues@) == self@.found,
    {
        &self.issues
    }

    /// Ends the scan with the given error.
    fn give_up(&mut self, error: ScanError) -> (action: Action)
        ensures
            final(self).config() == old(self).config(),
            final(self)@ == finished(old(self)@),
            action == (Action::Finish { outcome: Outcome::Failed(error) }),
    {
        proof {
            use_type_invariant(&self.place);
        }
        self.place.stage = Stage::Finished;
        Action::Finish { outcome: Outcome::Failed(error) }
    }

    /// Turns to the root at place `i`, or to the report behind the last root.
    fn enter_root(&mut self, i: usize) -> (action: Action)
        requires
            i <= old(self).config().dirs@.len(),
        ensures
            final(self).config() == old(self).config(),
            enters_root(old(self).config(), old(self)@, i as nat, final(self)@, action),
    {
        proof {
            use_type_invariant(&self.place);
        }
        self.place.stage = Stage::Writing;
        self.place.root = i;
        self.place.filter = None;
        self.place.files = Vec::new();
        self.place.file = 0;
        assert(self@.files =~= Seq::<Seq<char>>::empty());
        if i < self.place.config.dirs.len() {
            self.place.stage = Stage::Root;
            Action::CheckRoot { dir: self.place.config.dirs[i].clone() }
        } else {
            let (report, _) = render(
                &self.issues,
                self.place.config.json,
                self.place.config.yaml,
                &self.place.config.dirs,
            );
            let destination = match &self.place.config.output {
                Some(path) => Some(path.clone()),
                None => None,
            };
            Action::Write { report, destination }
        }
    }

    /// Goes on with the files of the current root from place `from`.
    fn pick(&mut self, from: usize) -> (action: Action)
        requires
            from <= old(self)@.files.len(),
            old(self)@.stage == Stage::Walking || old(self)@.stage == Stage::Reading,
        ensures
            final(self).config() == old(self).config(),
            picks(old(self).config(), old(self)@, from as nat, final(self)@, action),
    {
        let ghost patterns = texts(self.place.config.ignore@);
        let ghost pre = self@;
        let mut j: usize = from;
        while j < self.place.files.len()
            invariant
                from <= j <= self.place.files.len(),
                self.place.config == old(self).place.config,
                self@ == pre,
                pre == old(self)@,
                self.place.stage == Stage::Walking || self.place.stage == Stage::Reading,
                patterns == texts(self.place.config.ignore@),
                pick_from(pre.files, from as nat, pre.filter, patterns) == pick_from(
                    pre.files,
                    j as nat,
                    pre.filter,
                    patterns,
                ),
            decreases self.place.files.len() - j,
        {
            let path = &self.place.files[j];
            assert(pre.files[j as int] == path@);
            let listed = match &self.place.filter {
                Some(files) => files.contains(path.as_str()),
                None => true,
            };
            if listed {
                match should_ignore(path.as_str(), self.place.config.ignore.as_slice()) {
                    Ok(true) => {},
                    Ok(false) => {
                        let action = Action::ReadFile { path: path.clone() };
                        proof {
                            use_type_invariant(&self.place);
                        }
                        self.place.file = j;
                        self.place.stage = Stage::Reading;
                        return action;
                    },
                    Err(error) => {
                        return self.give_up(ScanError::InvalidPattern(error));
                    },
                }
            }
            j += 1;
        }
        proof {
            use_type_invariant(&self.place);
        }
        assert(self.place.root < self.place.config.dirs.len());
        let next = self.place.root + 1;
        self.enter_root(next)
    }

    /// Takes the answer of the tracking system for the current root.
    fn take_listing(&mut self, answer: Result<QueryOutput, String>) -> (action: Action)
        requires
            old(self)@.stage == Stage::Listing,
        ensures
            final(self).config() == old(self).config(),
            takes_listing(
                old(self).config().dirs@[old(self)@.root as int]@,
                answer,
                old(self)@,
                final(self)@,
                action,
            ),
    {
        proof {
            use_type_invariant(&self.place);
        }
        match answer {
            Err(reason) => self.give_up(
                ScanError::TrackingQueryFailed(TrackingQueryFailed::NotRun { reason }),
            ),
            Ok(output) => {
                let dir = self.place.config.dirs[self.place.root].clone();
                match git_tracked_files(dir.as_str(), &output) {
                    Ok(files) => {
                        self.place.filter = Some(files);
                        self.place.stage = Stage::Walking;
                        Action::Walk { dir }
                    },
                    Err(error) => self.give_up(ScanError::TrackingQueryFailed(error)),
                }
            },
        }
    }

    /// Takes the news of how the writing of the report went.
    fn take_written(&mut self, result: Result<(), WriteFailure>) -> (action: Action)
        ensures
            final(self).config() == old(self).config(),
            takes_written(old(self).config(), result, old(self)@, final(self)@, action),
    {
        match result {
            Ok(_) => {
                proof {
                    use_type_invariant(&self.place);
                }
                self.place.stage = Stage::Finished;
                Action::Finish {
                    outcome: if self.issues.len() > 0 {
                        Outcome::IssuesFound
                    } else {
                        Outcome::Clean
                    },
                }
            },
            Err(WriteFailure::Open { destination, reason }) => {
                let error = match &self.place.config.output {
                    Some(to) => match destination {
                        PathKind::Directory => ScanError::OutputIsDirectory { path: to.clone() },
                        _ => ScanError::OutputNotOpened { path: to.clone(), reason },
                    },
                    None => ScanError::OutputNotWritten { reason },
                };
                self.give_up(error)
            },
            Err(WriteFailure::Write { reason }) => self.give_up(
                ScanError::OutputNotWritten { reason },
            ),
        }
    }

    /// Takes one event and says what to do next, as [`steps`] lays down.
    /// An event that the scan is not waiting for ends it.
    pub fn step(&mut self, event: Event) -> (action: Action)
        ensures
            final(self).config() == old(self).config(),
            steps(old(self).config(), old(self)@, event, final(self)@, action),
    {
        proof {
            use_type_invariant(&self.place);
        }
        match (self.place.stage, event) {
            (Stage::Ready, Event::Started) => self.enter_root(0),
            (Stage::Root, Event::RootChecked { exists }) => {
                let dir = &self.place.config.dirs[self.place.root];
                if exists {
                    let path = marker_path_of(dir.as_str());
                    self.place.stage = Stage::Marker;
                    Action::ProbeMarker { path }
                } else {
                    let error = ScanError::MissingDirectory { dir: dir.clone() };
                    self.give_up(error)
                }
            },
            (Stage::Marker, Event::MarkerProbed { marker }) => {
                let dir = self.place.config.dirs[self.place.root].clone();
                if use_tracking(self.place.config.git, is_git_repo(marker)) {
                    self.place.stage = Stage::Listing;
                    Action::ListTracked { dir }
                } else {
                    self.place.filter = None;
                    self.place.stage = Stage::Walking;
                    Action::Walk { dir }
                }
            },
            (Stage::Listing, Event::TrackedListed { answer }) => self.take_listing(answer),
            (Stage::Walking, Event::Walked { files }) => {
                self.place.files = files;
                self.place.file = 0;
                self.pick(0)
            },
            (Stage::Reading, Event::FileRead { content }) => {
                match content {
                    Some(text) => {
                        let issues = lint_file(self.place.files[self.place.file].as_str(), text.as_str());
                        append_issues(&mut self.issues, issues);
                    },
                    None => {},
                }
                assert(self.place.file < self.place.files.len());
                let next = self.place.file + 1;
                self.pick(next)
            },
            (Stage::Writing, Event::Written { result }) => self.take_written(result),
            _ => self.give_up(ScanError::UnexpectedEvent),
        }
    }
}

/// No step takes an issue back or reorders what was found: the issues
/// before a step begin the issues after it.
pub proof fn lemma_issues_only_grow(
    config: ScanConfiguration,
    pre: Progress,
    event: Event,
    post: Progress,
    action: Action,
)
    requires
        steps(config, pre, event, post, action),
    ensures
        pre.found.len() <= post.found.len(),
        post.found.take(pre.found.len() as int) == pre.found,
{
    assert(pre.found.take(pre.found.len() as int) =~= pre.found);
    match (pre.stage, event) {
        (Stage::Reading, Event::FileRead { content }) => {
            if let Some(text) = content {
                let more = pre.found + detect(pre.files[pre.file as int], text@);
                assert(more.take(pre.found.len() as int) =~= pre.found);
            }
        },
        _ => {},
    }
}

/// Where the preference is unset and nothing lies under the marker path,
/// the root is walked without a filter: every file that the walk finds is
/// looked at unless the ignore list leaves it out, whatever the tracking
/// system would say of it.
pub proof fn lemma_unset_without_marker_scans_all(
    config: ScanConfiguration,
    pre: Progress,
    post: Progress,
    action: Action,
)
    requires
        config.git == TrackingPreference::Unset,
        pre.stage == Stage::Marker,
        steps(config, pre, Event::MarkerProbed { marker: PathKind::Missing }, post, action),
    ensures
        post.stage == Stage::Walking,
        post.filter is None,
        action is Walk,
        forall|path: Seq<char>, patterns: Seq<Seq<char>>|
            #[trigger] admits(path, post.filter, patterns) == (match ignore_outcome(
                path,
                patterns,
            ) {
                Ok(left_out) => Ok::<bool, nat>(!left_out),
                Err(i) => Err::<bool, nat>(i),
            }),
{
}

/// Where tracked files are asked for, the tracking system is asked whatever
/// lies under the marker path, and a root whose listing fails ends the run
/// with that failure: no file of it is read.
pub proof fn lemma_enabled_tracking_needs_listing(
    config: ScanConfiguration,
    probed: Progress,
    marker: PathKind,
    listing: Progress,
    asked: Action,
    answer: Result<QueryOutput, String>,
    post: Progress,
    action: Action,
)
    requires
        config.git == TrackingPreference::Enabled,
        probed.stage == Stage::Marker,
        steps(config, probed, Event::MarkerProbed { marker }, listing, asked),
        steps(config, listing, Event::TrackedListed { answer }, post, action),
        !(answer matches Ok(output) && output.exit == QueryExit::Code(0)),
    ensures
        listing.stage == Stage::Listing,
        asked is ListTracked,
        post.stage == Stage::Finished,
        action matches Action::Finish { outcome: Outcome::Failed(error) }
            && error is TrackingQueryFailed,
        post.found == probed.found,
{
}

/// Once the report is written the run is clean exactly when no issue was
/// found, in every form of report; and the report that was handed out has,
/// in the structured forms, one entry for each issue, none for none.
pub proof fn lemma_outcome_follows_issues(
    config: ScanConfiguration,
    last: Progress,
    i: nat,
    writing: Progress,
    write: Action,
    post: Progress,
    action: Action,
)
    requires
        i >= config.dirs@.len(),
        enters_root(config, last, i, writing, write),
        steps(config, writing, Event::Written { result: Ok(()) }, post, action),
    ensures
        write matches Action::Write { report, destination } && (match report@ {
            ReportView::Json(list) => config.json && list.len() == last.found.len(),
            ReportView::Yaml(list) => !config.json && config.yaml && list.len()
                == last.found.len(),
            ReportView::Text(_) => !config.json && !config.yaml,
        }),
        last.found.len() == 0 ==> action == (Action::Finish { outcome: Outcome::Clean }),
        last.found.len() > 0 ==> action == (Action::Finish { outcome: Outcome::IssuesFound }),
{
}

/// Where the report was to go to a path under which a directory lies, the
/// run fails with that error in every form of report.
pub proof fn lemma_output_directory_fails(
    config: ScanConfiguration,
    pre: Progress,
    reason: String,
    post: Progress,
    action: Action,
)
    requires
        config.output is Some,
        pre.stage == Stage::Writing,
        steps(
            config,
            pre,
            Event::Written {
                result: Err(WriteFailure::Open { destination: PathKind::Directory, reason }),
            },
            post,
            action,
        ),
    ensures
        post.stage == Stage::Finished,
        action matches Action::Finish { outcome: Outcome::Failed(error) }
            && error matches ScanError::OutputIsDirectory { path } && path@ == config.output->0@,
{
}

} // verus!
