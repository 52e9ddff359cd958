//! Match lifecycle protocol between a daemon and its gamepack plugins:
//! the message vocabulary, the write pipeline that applies messages to
//! per-match state, the append-only timeline, and the recovery state machine
//! that reconciles stale matches after a restart.

mod assoc;
pub mod json;
pub mod types;
pub mod store;
pub mod recovery;
pub mod guarantees;

pub use json::stat_delta_json;
pub use types::{
    EntryView, GameEvent, GameStatus, GetMatchTimelineRequest, GetMatchTimelineResponse,
    InitResponse, IsMatchInProgressRequest, IsMatchInProgressResponse, MatchData,
    MatchDataMessage, StatField, SummarySource, TimelineEntry,
};
pub use store::{MatchRecord, MatchState, MatchStore, WriteError};
pub use recovery::{RecoveryAction, RecoveryEvent, RecoveryState};
