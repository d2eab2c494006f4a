use clean::path::PathKind;
use clean::tracking::{
    git_tracked_files, is_git_repo, marker_path_of, use_tracking, QueryExit, QueryOutput,
    TrackingPreference, TrackingQueryFailed,
};

fn output(exit: QueryExit, stdout: &str, stderr: &str) -> QueryOutput {
    QueryOutput { exit, stdout: stdout.to_string(), stderr: stderr.to_string() }
}

#[test]
fn preference_from_flag() {
    assert_eq!(TrackingPreference::from_flag(None), TrackingPreference::Unset);
    assert_eq!(TrackingPreference::from_flag(Some(true)), TrackingPreference::Enabled);
    assert_eq!(TrackingPreference::from_flag(Some(false)), TrackingPreference::Disabled);
}

#[test]
fn marker_path_is_dot_git_under_the_root() {
    assert_eq!(marker_path_of("/tmp/x"), "/tmp/x/.git");
    assert_eq!(marker_path_of("/tmp/x/"), "/tmp/x/.git");
    assert_eq!(marker_path_of("."), "./.git");
    assert_eq!(marker_path_of(""), ".git");
}

#[test]
fn anything_under_the_marker_path_makes_a_repository() {
    assert!(is_git_repo(PathKind::Directory));
    assert!(is_git_repo(PathKind::Other));
    assert!(!is_git_repo(PathKind::Missing));
}

#[test]
fn tracking_policy() {
    assert!(use_tracking(TrackingPreference::Unset, true));
    assert!(!use_tracking(TrackingPreference::Unset, false));
    assert!(use_tracking(TrackingPreference::Enabled, true));
    assert!(use_tracking(TrackingPreference::Enabled, false));
    assert!(!use_tracking(TrackingPreference::Disabled, true));
    assert!(!use_tracking(TrackingPreference::Disabled, false));
}

#[test]
fn listing_gives_root_joined_paths() {
    let files =
        git_tracked_files("/repo", &output(QueryExit::Code(0), "a.txt\nsub/b.txt\n", "")).ok().unwrap();
    assert!(files.contains("/repo/a.txt"));
    assert!(files.contains("/repo/sub/b.txt"));
    assert!(!files.contains("a.txt"));
    assert!(!files.contains("/repo/c.txt"));
    assert!(!files.contains("/repo/"));
    assert!(!files.contains("/repo"));
}

#[test]
fn listing_under_a_root_with_a_trailing_separator() {
    let files =
        git_tracked_files("repo/", &output(QueryExit::Code(0), "a.txt\r\nb.txt", "")).ok().unwrap();
    assert!(files.contains("repo/a.txt"));
    assert!(files.contains("repo/b.txt"));
    assert!(!files.contains("repo//a.txt"));
    assert!(!files.contains("repo/a.txt\r"));
}

#[test]
fn empty_listing_tracks_nothing() {
    let files = git_tracked_files("/repo", &output(QueryExit::Code(0), "", "")).ok().unwrap();
    assert!(!files.contains("/repo/a.txt"));
    assert!(!files.contains("/repo/"));
    assert!(!files.contains(""));
}

#[test]
fn exit_code_other_than_zero_fails_with_trimmed_stderr() {
    let failure = git_tracked_files(
        "/repo",
        &output(QueryExit::Code(128), "a.txt\n", "fatal: not a git repository\n"),
    )
    .err()
    .unwrap();
    assert_eq!(
        failure,
        TrackingQueryFailed::ExitCode {
            code: 128,
            stderr: "fatal: not a git repository".to_string()
        }
    );
    assert_eq!(
        failure.to_message(),
        "`git ls-files` exit with code=128: fatal: not a git repository"
    );
}

#[test]
fn negative_exit_code_is_written_with_its_sign() {
    let failure =
        git_tracked_files("/repo", &output(QueryExit::Code(-1), "", "  ")).err().unwrap();
    assert_eq!(failure.to_message(), "`git ls-files` exit with code=-1: ");
}

#[test]
fn signal_fails_with_the_signal() {
    let failure =
        git_tracked_files("/repo", &output(QueryExit::Signal(9), "a.txt\n", "x")).err().unwrap();
    assert_eq!(failure, TrackingQueryFailed::Signal { signal: 9 });
    assert_eq!(failure.to_message(), "`git ls-files` killed by signal: 9");
}

#[test]
fn not_run_says_why() {
    let failure = TrackingQueryFailed::NotRun { reason: "No such file or directory".to_string() };
    assert_eq!(failure.to_message(), "No such file or directory");
}
