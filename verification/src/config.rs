//! What a caller asks of a scan.

use vstd::prelude::*;
use vstd::string::StringExecFns;
use crate::tracking::TrackingPreference;

verus! {

/// The options of one scan. They are set once and only read afterwards.
#[derive(Debug, PartialEq, Eq)]
pub struct ScanConfiguration {
    /// Report as a JSON list.
    pub json: bool,
    /// Report as a YAML list; `json` wins where both are set.
    pub yaml: bool,
    /// Glob patterns of the paths to leave out.
    pub ignore: Vec<String>,
    /// Where the report goes; standard output when absent.
    pub output: Option<String>,
    /// The roots to scan, in this order.
    pub dirs: Vec<String>,
    /// Whether roots are narrowed to tracked files.
    pub git: TrackingPreference,
}

impl ScanConfiguration {
    /// The options of a scan of the current directory: text report on
    /// standard output, nothing ignored, tracking left to each root.
    pub fn new() -> (config: ScanConfiguration)
        ensures
            !config.json,
            !config.yaml,
            config.ignore@.len() == 0,
            config.output is None,
            config.dirs@.len() == 1,
            config.dirs@[0]@ == "."@,
            config.git == TrackingPreference::Unset,
    {
        let mut dirs: Vec<String> = Vec::new();
        dirs.push(String::from_str("."));
        ScanConfiguration {
            json: false,
            yaml: false,
            ignore: Vec::new(),
            output: None,
            dirs,
            git: TrackingPreference::Unset,
        }
    }
}

} // verus!
