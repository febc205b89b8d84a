//! What is remembered between runs: the open sources of the last session and
//! the saved local sources.
use vstd::prelude::*;
use crate::clock::local_now_rfc3339;
use crate::text::string_views;

verus! {

/// The sources open when the program last ran, and when that was.
pub struct SessionState {
    pub open_local_files: Vec<String>,
    pub open_ssh_sources: Vec<String>,
    /// Local time of saving, in RFC 3339.
    pub timestamp: String,
}

impl SessionState {
    /// The session to save now: the given open sources, stamped with the
    /// current local time.
    pub fn capture(open_local_files: Vec<String>, open_ssh_sources: Vec<String>) -> (r: SessionState)
        ensures
            string_views(r.open_local_files@) == string_views(open_local_files@),
            string_views(r.open_ssh_sources@) == string_views(open_ssh_sources@),
    {
        SessionState { open_local_files, open_ssh_sources, timestamp: local_now_rfc3339() }
    }
}

/// A local file source saved for opening on startup.
pub struct SavedLocalSource {
    pub name: String,
    pub path: String,
    pub auto_open: bool,
}

} // verus!
