//! Watches a screenshots directory, recognises timestamped file names and
//! plans the conversion and relocation jobs that each recognised file goes
//! through. The filesystem work itself is performed by the caller.

pub mod numbers;
pub mod paths;
pub mod clock;
pub mod pattern;
pub mod state;
pub mod job;
pub mod pipeline;
pub mod control;
