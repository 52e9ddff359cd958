use gamepack_protocol::recovery::step;
use gamepack_protocol::{
    GameEvent, GameStatus, GetMatchTimelineRequest, IsMatchInProgressResponse, MatchDataMessage,
    MatchStore, RecoveryAction, RecoveryEvent, RecoveryState, StatField, SummarySource,
    TimelineEntry, WriteError,
};
use serde_json::Value;

fn columns() -> Vec<String> {
    vec!["kills".to_string(), "deaths".to_string(), "assists".to_string()]
}

fn field(c: &str, v: i64) -> StatField {
    StatField::new(c.to_string(), Value::from(v))
}

fn now() -> String {
    "2024-05-01T12:00:00Z".to_string()
}

fn stats_write(id: &str, fields: Vec<StatField>) -> MatchDataMessage {
    MatchDataMessage::write_stats(0, id.to_string(), fields)
}

fn request(id: &str, types: Option<Vec<&str>>, limit: Option<u32>) -> GetMatchTimelineRequest {
    GetMatchTimelineRequest {
        subpack: 0,
        external_match_id: id.to_string(),
        entry_types: types.map(|ts| ts.into_iter().map(|t| t.to_string()).collect()),
        limit,
    }
}

fn event(kind: &str, ms: i64) -> GameEvent {
    GameEvent::new(kind.to_string(), ms, Value::from(kind))
}

#[test]
fn two_stats_writes_merge_columns() {
    let mut store = MatchStore::new();
    let cols = columns();
    assert_eq!(store.apply(&cols, stats_write("M1", vec![field("kills", 5)]), &now()), Ok(()));
    assert_eq!(store.apply(&cols, stats_write("M1", vec![field("deaths", 2)]), &now()), Ok(()));
    let rec = store.get(0, &"M1".to_string()).unwrap();
    assert!(rec.is_in_progress);
    assert_eq!(rec.summary_stats.len(), 2);
    assert_eq!(rec.stat(&"kills".to_string()), Some(&Value::from(5)));
    assert_eq!(rec.stat(&"deaths".to_string()), Some(&Value::from(2)));
}

#[test]
fn later_stats_write_wins_per_column() {
    let mut store = MatchStore::new();
    let cols = columns();
    store.apply(&cols, stats_write("M1", vec![field("kills", 1), field("deaths", 1)]), &now()).unwrap();
    store.apply(&cols, stats_write("M1", vec![field("kills", 7)]), &now()).unwrap();
    store.apply(&cols, stats_write("M1", vec![field("assists", 3), field("kills", 9)]), &now()).unwrap();
    let rec = store.get(0, &"M1".to_string()).unwrap();
    assert_eq!(rec.summary_stats.len(), 3);
    assert_eq!(rec.stat(&"kills".to_string()), Some(&Value::from(9)));
    assert_eq!(rec.stat(&"deaths".to_string()), Some(&Value::from(1)));
    assert_eq!(rec.stat(&"assists".to_string()), Some(&Value::from(3)));
}

#[test]
fn batching_does_not_change_summary() {
    let cols = columns();
    let mut one = MatchStore::new();
    one.apply(&cols, stats_write("M", vec![field("kills", 2), field("deaths", 4), field("kills", 3)]), &now()).unwrap();
    let mut many = MatchStore::new();
    many.apply(&cols, stats_write("M", vec![field("kills", 2)]), &now()).unwrap();
    many.apply(&cols, stats_write("M", vec![field("deaths", 4)]), &now()).unwrap();
    many.apply(&cols, stats_write("M", vec![field("kills", 3)]), &now()).unwrap();
    let a = one.get(0, &"M".to_string()).unwrap();
    let b = many.get(0, &"M".to_string()).unwrap();
    for c in ["kills", "deaths", "assists"] {
        assert_eq!(a.stat(&c.to_string()), b.stat(&c.to_string()));
    }
    assert_eq!(a.stat(&"kills".to_string()), Some(&Value::from(3)));
}

#[test]
fn match_attributes_kept_unless_given() {
    let mut store = MatchStore::new();
    let cols = columns();
    let first = MatchDataMessage::WriteStats {
        subpack: 1,
        external_match_id: "G".to_string(),
        played_at: Some("2024-05-01T11:00:00Z".to_string()),
        duration_secs: Some(1800),
        result: None,
        stats: vec![],
    };
    store.apply(&cols, first, &now()).unwrap();
    let second = MatchDataMessage::WriteStats {
        subpack: 1,
        external_match_id: "G".to_string(),
        played_at: None,
        duration_secs: None,
        result: Some("win".to_string()),
        stats: vec![],
    };
    store.apply(&cols, second, &now()).unwrap();
    let rec = store.get(1, &"G".to_string()).unwrap();
    assert_eq!(rec.played_at.as_deref(), Some("2024-05-01T11:00:00Z"));
    assert_eq!(rec.duration_secs, Some(1800));
    assert_eq!(rec.result.as_deref(), Some("win"));
    assert!(store.get(0, &"G".to_string()).is_none());
}

#[test]
fn unknown_column_rejects_whole_message() {
    let mut store = MatchStore::new();
    let cols = columns();
    store.apply(&cols, stats_write("M1", vec![field("kills", 5)]), &now()).unwrap();
    let bad = stats_write("M1", vec![field("kills", 8), field("gold", 100)]);
    assert_eq!(store.apply(&cols, bad, &now()), Err(WriteError::UnknownColumn));
    let rec = store.get(0, &"M1".to_string()).unwrap();
    assert_eq!(rec.stat(&"kills".to_string()), Some(&Value::from(5)));
    assert_eq!(rec.timeline.len(), 1);
    let fresh = stats_write("M2", vec![field("gold", 1)]);
    assert_eq!(store.apply(&cols, fresh, &now()), Err(WriteError::UnknownColumn));
    assert!(store.get(0, &"M2".to_string()).is_none());
}

#[test]
fn events_appended_in_order() {
    let mut store = MatchStore::new();
    let cols = columns();
    let batch = vec![event("FirstBlood", 1000), event("DragonKill", 5000), event("BaronKill", 3000)];
    store.apply(&cols, MatchDataMessage::write_events(0, "M1".to_string(), batch), &now()).unwrap();
    let resp = store.timeline(&request("M1", None, None));
    assert!(resp.found);
    let keys: Vec<&str> = resp.entries.iter().map(|e| e.entry_key.as_str()).collect();
    assert_eq!(keys, vec!["FirstBlood", "DragonKill", "BaronKill", "stats"]);
    assert!(resp.entries[..3].iter().all(|e| e.entry_type == "event"));
    assert_eq!(resp.entries[3].entry_type, "statistic");
    assert_eq!(resp.entries[1].game_time_ms, 5000);
    assert_eq!(resp.entries[1].data, Value::from("DragonKill"));
    assert_eq!(resp.entries[1].captured_at, now());
}

#[test]
fn invalid_event_persists_nothing() {
    let mut store = MatchStore::new();
    let cols = columns();
    store.apply(&cols, MatchDataMessage::write_events(0, "M1".to_string(), vec![event("A", 1)]), &now()).unwrap();
    let batch = vec![event("B", 2), event("", 3), event("C", 4)];
    let r = store.apply(&cols, MatchDataMessage::write_events(0, "M1".to_string(), batch), &now());
    assert_eq!(r, Err(WriteError::InvalidEvent));
    assert_eq!(store.timeline(&request("M1", None, None)).entries.len(), 2);
    let negative = vec![event("D", 5), event("E", -1)];
    let r = store.apply(&cols, MatchDataMessage::write_events(0, "M9".to_string(), negative), &now());
    assert_eq!(r, Err(WriteError::InvalidEvent));
    assert!(!store.timeline(&request("M9", None, None)).found);
    let window = vec![event("F", 5).with_pre_capture(-10)];
    let r = store.apply(&cols, MatchDataMessage::write_events(0, "M1".to_string(), window), &now());
    assert_eq!(r, Err(WriteError::InvalidEvent));
}

#[test]
fn set_complete_twice_same_state() {
    let mut store = MatchStore::new();
    let cols = columns();
    store.apply(&cols, stats_write("M1", vec![field("kills", 5)]), &now()).unwrap();
    let done = || MatchDataMessage::set_complete_with_stats(0, "M1".to_string(), "api".to_string(), vec![field("kills", 6)]);
    assert_eq!(store.apply(&cols, done(), &now()), Ok(()));
    let len_once = store.get(0, &"M1".to_string()).unwrap().timeline.len();
    assert_eq!(store.apply(&cols, done(), &now()), Ok(()));
    let rec = store.get(0, &"M1".to_string()).unwrap();
    assert_eq!(rec.timeline.len(), len_once);
    assert!(!rec.is_in_progress);
    assert_eq!(rec.summary_source, Some(SummarySource::Api));
    assert_eq!(rec.stat(&"kills".to_string()), Some(&Value::from(6)));
}

#[test]
fn fallback_never_overrides_api() {
    let mut store = MatchStore::new();
    let cols = columns();
    store.apply(&cols, stats_write("M1", vec![field("kills", 5)]), &now()).unwrap();
    let api = MatchDataMessage::set_complete_with_stats(0, "M1".to_string(), "api".to_string(), vec![field("kills", 6)]);
    store.apply(&cols, api, &now()).unwrap();
    let fallback = MatchDataMessage::set_complete_with_stats(
        0,
        "M1".to_string(),
        "live_fallback".to_string(),
        vec![field("kills", 1), field("deaths", 9)],
    );
    assert_eq!(store.apply(&cols, fallback, &now()), Ok(()));
    let rec = store.get(0, &"M1".to_string()).unwrap();
    assert_eq!(rec.stat(&"kills".to_string()), Some(&Value::from(6)));
    assert_eq!(rec.stat(&"deaths".to_string()), None);
    assert_eq!(rec.summary_source, Some(SummarySource::Api));
}

#[test]
fn completed_match_is_terminal_and_api_upgrades_fallback() {
    let mut store = MatchStore::new();
    let cols = columns();
    store.apply(&cols, stats_write("M1", vec![field("kills", 5)]), &now()).unwrap();
    let fallback = MatchDataMessage::set_complete(0, "M1".to_string(), "live_fallback".to_string());
    assert_eq!(store.apply(&cols, fallback, &now()), Ok(()));
    assert!(store.stale_candidates().is_empty());
    let api = MatchDataMessage::set_complete_with_stats(0, "M1".to_string(), "api".to_string(), vec![field("kills", 6)]);
    assert_eq!(store.apply(&cols, api, &now()), Ok(()));
    let rec = store.get(0, &"M1".to_string()).unwrap();
    assert_eq!(rec.stat(&"kills".to_string()), Some(&Value::from(6)));
    assert_eq!(rec.summary_source, Some(SummarySource::Api));
    assert!(!rec.is_in_progress);
    assert!(store.stale_candidates().is_empty());
}

#[test]
fn late_writes_to_completed_match_rejected() {
    let mut store = MatchStore::new();
    let cols = columns();
    store.apply(&cols, stats_write("M1", vec![field("kills", 5)]), &now()).unwrap();
    store.apply(&cols, MatchDataMessage::set_complete(0, "M1".to_string(), "api".to_string()), &now()).unwrap();
    assert_eq!(store.apply(&cols, stats_write("M1", vec![field("kills", 7)]), &now()), Err(WriteError::MatchCompleted));
    let events = MatchDataMessage::write_events(0, "M1".to_string(), vec![event("A", 1)]);
    assert_eq!(store.apply(&cols, events, &now()), Err(WriteError::MatchCompleted));
    let rec = store.get(0, &"M1".to_string()).unwrap();
    assert_eq!(rec.stat(&"kills".to_string()), Some(&Value::from(5)));
    assert!(!rec.is_in_progress);
}

#[test]
fn set_complete_errors() {
    let mut store = MatchStore::new();
    let cols = columns();
    let unknown = MatchDataMessage::set_complete(0, "nope".to_string(), "api".to_string());
    assert_eq!(store.apply(&cols, unknown, &now()), Err(WriteError::UnknownMatch));
    assert!(!store.timeline(&request("nope", None, None)).found);
    store.apply(&cols, stats_write("M1", vec![]), &now()).unwrap();
    let odd = MatchDataMessage::set_complete(0, "M1".to_string(), "guess".to_string());
    assert_eq!(store.apply(&cols, odd, &now()), Err(WriteError::UnknownSource));
    let bad = MatchDataMessage::set_complete_with_stats(0, "M1".to_string(), "api".to_string(), vec![field("gold", 1)]);
    assert_eq!(store.apply(&cols, bad, &now()), Err(WriteError::UnknownColumn));
    assert!(store.get(0, &"M1".to_string()).unwrap().is_in_progress);
}

#[test]
fn timeline_not_found_until_written() {
    let mut store = MatchStore::new();
    let cols = columns();
    let resp = store.timeline(&request("M1", None, None));
    assert!(!resp.found);
    assert!(resp.entries.is_empty());
    store.apply(&cols, MatchDataMessage::write_events(0, "M1".to_string(), vec![]), &now()).unwrap();
    let resp = store.timeline(&request("M1", None, None));
    assert!(resp.found);
    assert!(store.timeline(&request("M1", Some(vec!["event"]), None)).entries.is_empty());
    assert_eq!(resp.entries.len(), 1);
    assert_eq!(resp.entries[0].entry_type, "statistic");
}

#[test]
fn timeline_filter_and_limit() {
    let mut store = MatchStore::new();
    let cols = columns();
    store.apply(&cols, MatchDataMessage::write_events(0, "M1".to_string(), vec![event("A", 1), event("B", 2)]), &now()).unwrap();
    store.apply(&cols, stats_write("M1", vec![field("kills", 1)]), &now()).unwrap();
    store.apply(&cols, MatchDataMessage::write_events(0, "M1".to_string(), vec![event("C", 3), event("D", 4)]), &now()).unwrap();
    let all = store.timeline(&request("M1", None, None));
    assert_eq!(all.entries.len(), 7);
    let events = store.timeline(&request("M1", Some(vec!["event"]), None));
    let keys: Vec<&str> = events.entries.iter().map(|e| e.entry_key.as_str()).collect();
    assert_eq!(keys, vec!["A", "B", "C", "D"]);
    let last_two = store.timeline(&request("M1", Some(vec!["event"]), Some(2)));
    let keys: Vec<&str> = last_two.entries.iter().map(|e| e.entry_key.as_str()).collect();
    assert_eq!(keys, vec!["C", "D"]);
    let big = store.timeline(&request("M1", None, Some(50)));
    assert_eq!(big.entries.len(), 7);
    let stats = store.timeline(&request("M1", Some(vec!["statistic"]), None));
    assert_eq!(stats.entries.len(), 3);
    let none = store.timeline(&request("M1", Some(vec!["moment"]), None));
    assert!(none.found);
    assert!(none.entries.is_empty());
    let zero = store.timeline(&request("M1", None, Some(0)));
    assert!(zero.entries.is_empty());
}

#[test]
fn stats_write_records_delta_object() {
    let mut store = MatchStore::new();
    let cols = columns();
    store.apply(&cols, stats_write("M1", vec![field("kills", 5), field("deaths", 2)]), &now()).unwrap();
    let resp = store.timeline(&request("M1", Some(vec!["statistic"]), None));
    assert_eq!(resp.entries.len(), 1);
    let e = &resp.entries[0];
    assert_eq!(e.entry_key, "stats");
    let mut expected = serde_json::Map::new();
    expected.insert("kills".to_string(), Value::from(5));
    expected.insert("deaths".to_string(), Value::from(2));
    assert_eq!(e.data, Value::Object(expected));
}

#[test]
fn stale_candidates_lists_open_matches() {
    let mut store = MatchStore::new();
    let cols = columns();
    store.apply(&cols, stats_write("A", vec![]), &now()).unwrap();
    store.apply(&cols, stats_write("B", vec![]), &now()).unwrap();
    store.apply(&cols, MatchDataMessage::set_complete(0, "A".to_string(), "api".to_string()), &now()).unwrap();
    let c = store.stale_candidates();
    assert_eq!(c.len(), 1);
    assert_eq!(c[0].external_match_id, "B");
    assert_eq!(c[0].subpack, 0);
}

#[test]
fn recovery_unreachable_stays_flagged() {
    let id = "M1".to_string();
    let (s, a) = step(RecoveryState::Flagged, 0, &id, RecoveryEvent::GamepackUnreachable);
    assert_eq!(s, RecoveryState::Flagged);
    assert!(matches!(a, RecoveryAction::Wait));
    let (s, a) = step(RecoveryState::Flagged, 0, &id, RecoveryEvent::GamepackReachable);
    assert_eq!(s, RecoveryState::Verifying);
    match a {
        RecoveryAction::SendProbe(req) => assert_eq!(req.external_match_id, "M1"),
        _ => panic!("expected a probe"),
    }
    let (s, a) = step(RecoveryState::Verifying, 0, &id, RecoveryEvent::TimedOut);
    assert_eq!(s, RecoveryState::Flagged);
    assert!(matches!(a, RecoveryAction::Wait));
}

#[test]
fn recovery_confirms_running_game() {
    let id = "M1".to_string();
    let answer = RecoveryEvent::Answered(IsMatchInProgressResponse::still_playing());
    let (s, a) = step(RecoveryState::Verifying, 0, &id, answer);
    assert_eq!(s, RecoveryState::Confirmed);
    assert!(matches!(a, RecoveryAction::Wait));
    let late = RecoveryEvent::Answered(IsMatchInProgressResponse::ended());
    let (s, _) = step(RecoveryState::Flagged, 0, &id, late);
    assert_eq!(s, RecoveryState::Flagged);
}

#[test]
fn recovery_finalizes_with_fallback_or_given_completion() {
    let id = "M1".to_string();
    let (s, a) = step(RecoveryState::Verifying, 2, &id, RecoveryEvent::Answered(IsMatchInProgressResponse::ended()));
    assert_eq!(s, RecoveryState::Finalized);
    match a {
        RecoveryAction::Apply(MatchDataMessage::SetComplete { subpack, external_match_id, summary_source, final_stats }) => {
            assert_eq!(subpack, 2);
            assert_eq!(external_match_id, "M1");
            assert_eq!(summary_source, "live_fallback");
            assert!(final_stats.is_none());
        }
        _ => panic!("expected a completion"),
    }
    let given = MatchDataMessage::set_complete_with_stats(2, "M1".to_string(), "api".to_string(), vec![field("kills", 4)]);
    let resp = IsMatchInProgressResponse::ended_with_stats(given);
    let (s, a) = step(RecoveryState::Verifying, 2, &id, RecoveryEvent::Answered(resp));
    assert_eq!(s, RecoveryState::Finalized);
    match a {
        RecoveryAction::Apply(MatchDataMessage::SetComplete { summary_source, final_stats, .. }) => {
            assert_eq!(summary_source, "api");
            assert_eq!(final_stats.unwrap().len(), 1);
        }
        _ => panic!("expected a completion"),
    }
    let other = MatchDataMessage::set_complete(2, "M7".to_string(), "api".to_string());
    let (_, a) = step(RecoveryState::Verifying, 2, &id, RecoveryEvent::Answered(IsMatchInProgressResponse::ended_with_stats(other)));
    match a {
        RecoveryAction::Apply(MatchDataMessage::SetComplete { external_match_id, summary_source, .. }) => {
            assert_eq!(external_match_id, "M1");
            assert_eq!(summary_source, "live_fallback");
        }
        _ => panic!("expected a completion"),
    }
}

#[test]
fn recovery_run_finalizes_store() {
    let mut store = MatchStore::new();
    let cols = columns();
    store.apply(&cols, stats_write("M1", vec![field("kills", 3)]), &now()).unwrap();
    let cand = store.stale_candidates();
    let (_, a) = step(RecoveryState::Flagged, cand[0].subpack, &cand[0].external_match_id, RecoveryEvent::GamepackReachable);
    assert!(matches!(a, RecoveryAction::SendProbe(_)));
    let (s, a) = step(
        RecoveryState::Verifying,
        cand[0].subpack,
        &cand[0].external_match_id,
        RecoveryEvent::Answered(IsMatchInProgressResponse::ended()),
    );
    assert_eq!(s, RecoveryState::Finalized);
    if let RecoveryAction::Apply(msg) = a {
        assert_eq!(store.apply(&cols, msg, &now()), Ok(()));
    }
    let rec = store.get(0, &"M1".to_string()).unwrap();
    assert!(!rec.is_in_progress);
    assert_eq!(rec.summary_source, Some(SummarySource::LiveFallback));
    assert!(store.stale_candidates().is_empty());
}

#[test]
fn summary_source_names() {
    assert_eq!(SummarySource::parse(&"api".to_string()), Some(SummarySource::Api));
    assert_eq!(SummarySource::parse(&"live_fallback".to_string()), Some(SummarySource::LiveFallback));
    assert_eq!(SummarySource::parse(&"API".to_string()), None);
}

#[test]
fn entry_constructors() {
    let e = TimelineEntry::event("Kill".to_string(), 1500, now(), Value::from(1));
    assert_eq!((e.entry_type.as_str(), e.entry_key.as_str(), e.trigger_fired), ("event", "Kill", None));
    let s = TimelineEntry::statistic(20, now(), Value::from(2));
    assert_eq!((s.entry_type.as_str(), s.entry_key.as_str()), ("statistic", "stats"));
    let m = TimelineEntry::moment("ace".to_string(), 30, now(), Value::Null, true);
    assert_eq!((m.entry_type.as_str(), m.entry_key.as_str(), m.trigger_fired), ("moment", "ace", Some(true)));
    let d = m.duplicate();
    assert_eq!(d.entry_key, "ace");
    assert_eq!(d.game_time_ms, 30);
}

#[test]
fn game_status_builders() {
    let d = GameStatus::disconnected();
    assert!(!d.connected);
    assert_eq!(d.connection_status, "Not connected");
    let c = GameStatus::connected("Connected".to_string()).with_phase("Lobby".to_string()).in_game(true);
    assert!(c.connected && c.is_in_game);
    assert_eq!(c.game_phase.as_deref(), Some("Lobby"));
    let e = GameEvent::new("Kill".to_string(), 10, Value::Null).with_pre_capture(5000).with_post_capture(2000);
    assert_eq!((e.pre_capture_ms, e.post_capture_ms), (Some(5000), Some(2000)));
}

#[test]
fn every_change_leaves_statistic_entry() {
    let mut store = MatchStore::new();
    let cols = columns();
    store.apply(&cols, MatchDataMessage::write_events(0, "M1".to_string(), vec![event("A", 1)]), &now()).unwrap();
    let tl = store.timeline(&request("M1", None, None)).entries;
    assert_eq!(tl.len(), 2);
    assert_eq!((tl[1].entry_type.as_str(), tl[1].entry_key.as_str()), ("statistic", "stats"));
    assert_eq!(tl[1].data, Value::Object(serde_json::Map::new()));
    let later = "2024-05-01T12:30:00Z".to_string();
    store.apply(&cols, MatchDataMessage::set_complete(0, "M1".to_string(), "live_fallback".to_string()), &later).unwrap();
    let tl = store.timeline(&request("M1", None, None)).entries;
    assert_eq!(tl.len(), 3);
    assert_eq!(tl[2].entry_type, "statistic");
    assert_eq!(tl[2].captured_at, later);
    assert_eq!(tl[2].data, Value::Object(serde_json::Map::new()));
    store.apply(&cols, MatchDataMessage::set_complete(0, "M1".to_string(), "live_fallback".to_string()), &later).unwrap();
    assert_eq!(store.timeline(&request("M1", None, None)).entries.len(), 3);
    store.apply(&cols, MatchDataMessage::set_complete(0, "M1".to_string(), "api".to_string()), &later).unwrap();
    let tl = store.timeline(&request("M1", None, None)).entries;
    assert_eq!(tl.len(), 4);
    assert_eq!(tl[3].entry_type, "statistic");
    assert_eq!(store.get(0, &"M1".to_string()).unwrap().summary_source, Some(SummarySource::Api));
}

#[test]
fn one_write_or_two_same_summary() {
    let cols = columns();
    let mut one = MatchStore::new();
    one.apply(&cols, stats_write("M", vec![field("kills", 1), field("deaths", 2), field("kills", 4)]), &now()).unwrap();
    let mut two = MatchStore::new();
    two.apply(&cols, stats_write("M", vec![field("kills", 1), field("deaths", 2)]), &now()).unwrap();
    two.apply(&cols, stats_write("M", vec![field("kills", 4)]), &now()).unwrap();
    let a = one.get(0, &"M".to_string()).unwrap();
    let b = two.get(0, &"M".to_string()).unwrap();
    for c in ["kills", "deaths", "assists"] {
        assert_eq!(a.stat(&c.to_string()), b.stat(&c.to_string()));
    }
}
