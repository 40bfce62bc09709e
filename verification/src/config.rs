//! The run configuration an external command-line front end hands over:
//! which level file to search and how long the search may run.

use vstd::prelude::*;

verus! {

/// A run of the search: the level source and the wall-clock budget.
#[derive(Debug)]
pub struct Config {
    /// Path of the level description file.
    pub level_file: String,
    /// Time budget of the search, in milliseconds.
    pub time_limit: u128,
}

impl Config {
    /// Bundle a level source and a time budget.
    pub fn new(level_file: String, time_limit: u128) -> (r: Config)
        ensures
            r.level_file@ == level_file@,
            r.time_limit == time_limit,
    {
        Config { level_file, time_limit }
    }
}

} // verus!
