//! Recovery of stale matches: the per-match state machine that decides,
//! from what the owning gamepack answers, whether a match flagged in
//! progress stays open or is finalized.
//!
//! The caller runs the probes: it hands each outcome to `step` as an event
//! and performs the action that comes back.

use vstd::prelude::*;
use crate::types::{IsMatchInProgressRequest, IsMatchInProgressResponse, MatchDataMessage};

verus! {

/// Where a stale candidate stands.
#[derive(PartialEq, Eq, Structural, Clone, Copy, Debug)]
pub enum RecoveryState {
    /// Marked in progress in storage, true status unknown.
    Flagged,
    /// A status request is out to the gamepack.
    Verifying,
    /// The gamepack says the game is still running.
    Confirmed,
    /// Completion has been decided.
    Finalized,
}

/// What happened to a stale candidate.
pub enum RecoveryEvent {
    /// The owning gamepack process can be reached.
    GamepackReachable,
    /// The owning gamepack process is not running or cannot be reached.
    GamepackUnreachable,
    /// The status request went unanswered within its timeout.
    TimedOut,
    /// The gamepack answered the status request.
    Answered(IsMatchInProgressResponse),
}

/// What the caller must do next.
pub enum RecoveryAction {
    /// Nothing now; an unresolved match is retried on the next pass.
    Wait,
    /// Send this status request to the gamepack.
    SendProbe(IsMatchInProgressRequest),
    /// Apply this completion through the write pipeline.
    Apply(MatchDataMessage),
}

/// The state that follows `s` on event `e`.
pub open spec fn next_state(s: RecoveryState, e: RecoveryEvent) -> RecoveryState {
    match (s, e) {
        (RecoveryState::Flagged, RecoveryEvent::GamepackReachable) => RecoveryState::Verifying,
        (RecoveryState::Verifying, RecoveryEvent::TimedOut) => RecoveryState::Flagged,
        (RecoveryState::Verifying, RecoveryEvent::GamepackUnreachable) => RecoveryState::Flagged,
        (RecoveryState::Verifying, RecoveryEvent::Answered(resp)) => {
            if resp.still_playing {
                RecoveryState::Confirmed
            } else {
                RecoveryState::Finalized
            }
        },
        _ => s,
    }
}

/// Whether `m` is the gamepack's own completion for match `k`.
pub open spec fn own_completion(m: MatchDataMessage, k: (u8, Seq<char>)) -> bool {
    m is SetComplete && m.key() == k
}

/// The completion to apply for match `k` after the gamepack said the game
/// ended: its own SetComplete for `k` if it sent one, else a bare live
/// fallback completion.
pub open spec fn completion_for(a: RecoveryAction, k: (u8, Seq<char>), resp: IsMatchInProgressResponse) -> bool {
    match a {
        RecoveryAction::Apply(m) => match resp.set_complete {
            Some(given) if own_completion(given, k) => m == given,
            _ => match m {
                MatchDataMessage::SetComplete { subpack, external_match_id, summary_source, final_stats } => {
                    &&& (subpack, external_match_id@) == k
                    &&& summary_source@ == "live_fallback"@
                    &&& final_stats is None
                },
                _ => false,
            },
        },
        _ => false,
    }
}

/// The action that goes with the transition from `s` on `e`.
pub open spec fn action_ok(a: RecoveryAction, s: RecoveryState, k: (u8, Seq<char>), e: RecoveryEvent) -> bool {
    match (s, e) {
        (RecoveryState::Flagged, RecoveryEvent::GamepackReachable) => match a {
            RecoveryAction::SendProbe(req) => req.key() == k,
            _ => false,
        },
        (RecoveryState::Verifying, RecoveryEvent::Answered(resp)) => {
            if resp.still_playing {
                a is Wait
            } else {
                completion_for(a, k, resp)
            }
        },
        _ => a is Wait,
    }
}

/// One decision of recovery for match `(subpack, external_match_id)`.
pub fn step(state: RecoveryState, subpack: u8, external_match_id: &String, event: RecoveryEvent) -> (r: (RecoveryState, RecoveryAction))
    ensures
        r.0 == next_state(state, event),
        action_ok(r.1, state, (subpack, external_match_id@), event),
{
    match (state, event) {
        (RecoveryState::Flagged, RecoveryEvent::GamepackReachable) => {
            let req = IsMatchInProgressRequest { subpack, external_match_id: external_match_id.clone() };
            (RecoveryState::Verifying, RecoveryAction::SendProbe(req))
        },
        (RecoveryState::Verifying, RecoveryEvent::TimedOut) => (RecoveryState::Flagged, RecoveryAction::Wait),
        (RecoveryState::Verifying, RecoveryEvent::GamepackUnreachable) => (RecoveryState::Flagged, RecoveryAction::Wait),
        (RecoveryState::Verifying, RecoveryEvent::Answered(resp)) => {
            if resp.still_playing {
                (RecoveryState::Confirmed, RecoveryAction::Wait)
            } else {
                (RecoveryState::Finalized, RecoveryAction::Apply(completion(subpack, external_match_id, resp)))
            }
        },
        (s, _) => (s, RecoveryAction::Wait),
    }
}

fn completion(subpack: u8, external_match_id: &String, resp: IsMatchInProgressResponse) -> (m: MatchDataMessage)
    ensures
        completion_for(RecoveryAction::Apply(m), (subpack, external_match_id@), resp),
{
    match resp.set_complete {
        Some(given) => {
            let own = match &given {
                MatchDataMessage::SetComplete { subpack: s, external_match_id: id, .. } => *s == subpack && *id == *external_match_id,
                _ => false,
            };
            if own {
                return given;
            }
        },
        None => {},
    }
    MatchDataMessage::set_complete(subpack, external_match_id.clone(), "live_fallback".to_owned())
}

/// A match is finalized only on a gamepack's answer that the game ended:
/// no other event, and in particular neither an unreachable gamepack nor a
/// timeout, moves a match that is not yet finalized to `Finalized`.
pub proof fn lemma_finalized_only_on_answer(s: RecoveryState, e: RecoveryEvent)
    ensures
        next_state(s, e) == RecoveryState::Finalized && s != RecoveryState::Finalized ==> {
            &&& s == RecoveryState::Verifying
            &&& e matches RecoveryEvent::Answered(resp) && !resp.still_playing
        },
        (e is GamepackUnreachable || e is TimedOut) && s != RecoveryState::Finalized ==>
            next_state(s, e) != RecoveryState::Finalized,
        s == RecoveryState::Flagged && e is GamepackUnreachable ==> next_state(s, e) == RecoveryState::Flagged,
{
}

} // verus!
