//! The configuration shared by every worker, and the state that one file
//! carries through the pipeline.

use vstd::prelude::*;

use crate::clock::UtcTime;
use crate::job::Job;
use crate::pattern::Pattern;

verus! {

/// Where screenshots live and how their names are read.
pub struct Options {
    /// The watched directory; moved files are placed under it.
    pub screenshots_dir: String,
    /// Tried in order; the first that reads a time from a name wins.
    pub patterns: Vec<Pattern>,
    /// The window, in milliseconds, within which raw events are coalesced.
    pub event_delay: i64,
}

/// The whole configuration: the options and the jobs run on each file.
pub struct Config {
    pub options: Options,
    pub pipeline: Vec<Job>,
}

/// The texts of a list of paths.
pub open spec fn paths_of(v: Seq<String>) -> Seq<Seq<char>> {
    v.map_values(|s: String| s@)
}

/// One file on its way through the pipeline.
pub struct State {
    /// Where the file's current copies are; never empty while jobs run.
    pub file_paths: Vec<String>,
    /// The instant read from the file's original name.
    pub datetime: UtcTime,
    /// The scratch directory for converted files.
    pub temp_dir: String,
}

impl State {
    pub open spec fn paths(&self) -> Seq<Seq<char>> {
        paths_of(self.file_paths@)
    }

    /// The state of a file found at `file_path`.
    pub fn new(file_path: String, datetime: UtcTime, temp_dir: String) -> (r: State)
        ensures
            r.paths() == seq![file_path@],
            r.datetime == datetime,
            r.temp_dir@ == temp_dir@,
    {
        let ghost p = file_path@;
        let mut file_paths: Vec<String> = Vec::new();
        file_paths.push(file_path);
        let r = State { datetime, temp_dir, file_paths };
        assert(r.paths() =~= seq![p]);
        r
    }
}

} // verus!
