//! The settings kept between sessions.
use vstd::prelude::*;

verus! {

/// How many history entries are kept when nothing else is configured.
pub const DEFAULT_HISTORY_LIMIT: usize = 100;

/// The settings kept between sessions.
pub struct Config {
    /// The directory the prompt starts in.
    pub last_directory: String,
    pub history_limit: usize,
}

impl Config {
    /// The settings used when none are saved: start in the home directory,
    /// or in `.` where there is none, and keep the default history length.
    pub fn with_home(home: Option<String>) -> (r: Config)
        ensures
            r.history_limit == DEFAULT_HISTORY_LIMIT,
            r.last_directory@ == match home {
                Some(h) => h@,
                None => "."@,
            },
    {
        let last_directory = match home {
            Some(h) => h,
            None => ".".to_owned(),
        };
        Config { last_directory, history_limit: DEFAULT_HISTORY_LIMIT }
    }
}

} // verus!
