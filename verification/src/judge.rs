//! Session-end evaluation: what the judge is handed about a finished session
//! and which rubrics it scores.

use vstd::prelude::*;

verus! {

/// The rubrics the judge scores.
pub const JUDGED_RUBRICS: [&'static str; 2] = ["rule-compliance", "technical-precision"];

/// Snapshot of a finished session handed to the judge.
pub struct JudgeInput {
    /// Stable session identifier.
    pub session_id: String,
    /// Agent name that ran the session.
    pub agent: String,
    /// The task the session worked on.
    pub task: String,
    /// Joined transcript of the session output.
    pub transcript: String,
    /// Number of turns or output lines in the session.
    pub turn_count: i32,
    /// Owning user id (tenant).
    pub user_id: i64,
}

} // verus!
