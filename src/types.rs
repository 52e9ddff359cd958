//! The protocol's vocabulary: game events, match data messages, recovery
//! requests and responses, and timeline entries.
//!
//! Times are carried as whole milliseconds: `timestamp_ms` and
//! `game_time_ms` on the in-game clock, capture windows as durations.

use vstd::prelude::*;

verus! {

/// The text of an optional string.
pub open spec fn opt_text(o: Option<String>) -> Option<Seq<char>> {
    match o {
        Some(s) => Some(s@),
        None => None,
    }
}

/// One column of a stats write: the column name and its new value.
pub struct StatField {
    pub column: String,
    pub value: serde_json::Value,
}

impl StatField {
    pub fn new(column: String, value: serde_json::Value) -> (r: StatField)
        ensures
            r.column == column,
            r.value == value,
    {
        StatField { column, value }
    }
}

/// Where the final stats of a completed match came from. `Api` outranks
/// `LiveFallback`.
#[derive(PartialEq, Eq, Structural, Clone, Copy, Debug)]
pub enum SummarySource {
    Api,
    LiveFallback,
}

impl SummarySource {
    pub open spec fn parse_spec(s: Seq<char>) -> Option<SummarySource> {
        if s == "api"@ {
            Some(SummarySource::Api)
        } else if s == "live_fallback"@ {
            Some(SummarySource::LiveFallback)
        } else {
            None
        }
    }

    /// Reads a source name: "api" or "live_fallback".
    pub fn parse(s: &String) -> (r: Option<SummarySource>)
        ensures
            r == Self::parse_spec(s@),
    {
        let api = "api".to_owned();
        let live = "live_fallback".to_owned();
        if *s == api {
            Some(SummarySource::Api)
        } else if *s == live {
            Some(SummarySource::LiveFallback)
        } else {
            None
        }
    }
}

/// A game event reported by a gamepack; it may trigger clip capture.
pub struct GameEvent {
    /// Event type identifier, e.g. "ChampionKill".
    pub event_type: String,
    /// Milliseconds from game start.
    pub timestamp_ms: i64,
    /// Game-specific event data.
    pub data: serde_json::Value,
    /// Milliseconds to capture before the event, overriding the default.
    pub pre_capture_ms: Option<i64>,
    /// Milliseconds to capture after the event, overriding the default.
    pub post_capture_ms: Option<i64>,
}

impl GameEvent {
    /// An event can be recorded when it names its type and no time in it is
    /// negative.
    pub open spec fn valid(&self) -> bool {
        &&& self.event_type@.len() > 0
        &&& self.timestamp_ms >= 0
        &&& (self.pre_capture_ms matches Some(p) ==> p >= 0)
        &&& (self.post_capture_ms matches Some(p) ==> p >= 0)
    }

    pub fn is_valid(&self) -> (r: bool)
        ensures
            r == self.valid(),
    {
        !self.event_type.as_str().is_empty() && self.timestamp_ms >= 0 && match self.pre_capture_ms {
            Some(p) => p >= 0,
            None => true,
        } && match self.post_capture_ms {
            Some(p) => p >= 0,
            None => true,
        }
    }

    /// A new event with the default capture window.
    pub fn new(event_type: String, timestamp_ms: i64, data: serde_json::Value) -> (r: GameEvent)
        ensures
            r.event_type == event_type,
            r.timestamp_ms == timestamp_ms,
            r.data == data,
            r.pre_capture_ms.is_none(),
            r.post_capture_ms.is_none(),
    {
        GameEvent { event_type, timestamp_ms, data, pre_capture_ms: None, post_capture_ms: None }
    }

    /// Sets the capture time before the event.
    pub fn with_pre_capture(self, ms: i64) -> (r: GameEvent)
        ensures
            r == (GameEvent { pre_capture_ms: Some(ms), ..self }),
    {
        let mut e = self;
        e.pre_capture_ms = Some(ms);
        e
    }

    /// Sets the capture time after the event.
    pub fn with_post_capture(self, ms: i64) -> (r: GameEvent)
        ensures
            r == (GameEvent { post_capture_ms: Some(ms), ..self }),
    {
        let mut e = self;
        e.post_capture_ms = Some(ms);
        e
    }
}

/// Response to a gamepack's `init` command.
pub struct InitResponse {
    /// Unique identifier of the game.
    pub game_id: i32,
    /// URL-friendly slug, e.g. "league".
    pub slug: String,
    /// Protocol version the pack implements.
    pub protocol_version: u32,
}

/// Current game status reported by a gamepack.
pub struct GameStatus {
    /// Whether the pack is connected to the game's client.
    pub connected: bool,
    /// Human-readable connection status.
    pub connection_status: String,
    /// Current game phase, e.g. "Lobby".
    pub game_phase: Option<String>,
    /// Whether the player is in a game.
    pub is_in_game: bool,
}

impl GameStatus {
    /// A disconnected status.
    pub fn disconnected() -> (r: GameStatus)
        ensures
            !r.connected,
            r.connection_status@ == "Not connected"@,
            r.game_phase.is_none(),
            !r.is_in_game,
    {
        GameStatus {
            connected: false,
            connection_status: "Not connected".to_owned(),
            game_phase: None,
            is_in_game: false,
        }
    }

    /// A connected status with the given description.
    pub fn connected(status: String) -> (r: GameStatus)
        ensures
            r.connected,
            r.connection_status == status,
            r.game_phase.is_none(),
            !r.is_in_game,
    {
        GameStatus { connected: true, connection_status: status, game_phase: None, is_in_game: false }
    }

    /// Sets the game phase.
    pub fn with_phase(self, phase: String) -> (r: GameStatus)
        ensures
            r == (GameStatus { game_phase: Some(phase), ..self }),
    {
        let mut s = self;
        s.game_phase = Some(phase);
        s
    }

    /// Sets whether the player is in a game.
    pub fn in_game(self, in_game: bool) -> (r: GameStatus)
        ensures
            r == (GameStatus { is_in_game: in_game, ..self }),
    {
        let mut s = self;
        s.is_in_game = in_game;
        s
    }
}

/// Match data reported when a game session ends.
pub struct MatchData {
    /// Game slug, e.g. "league".
    pub game_slug: String,
    pub game_id: i32,
    /// Match result: "win", "loss" or "remake".
    pub result: String,
    /// Game-specific match details.
    pub details: serde_json::Value,
}

impl MatchData {
    pub fn new(game_slug: String, game_id: i32, result: String, details: serde_json::Value) -> (r: MatchData)
        ensures
            r == (MatchData { game_slug, game_id, result, details }),
    {
        MatchData { game_slug, game_id, result, details }
    }
}

/// Gamepack to daemon: the only messages that change match state. Each is
/// scoped to one `(subpack, external_match_id)`.
pub enum MatchDataMessage {
    /// Creates the match if it is new, then upserts `stats` into its summary
    /// column by column.
    WriteStats {
        subpack: u8,
        external_match_id: String,
        /// When the match started (ISO 8601).
        played_at: Option<String>,
        duration_secs: Option<i32>,
        /// "win" | "loss" | "draw" | "remake".
        result: Option<String>,
        stats: Vec<StatField>,
    },
    /// Creates the match if it is new, then appends the events to its
    /// timeline.
    WriteEvents { subpack: u8, external_match_id: String, events: Vec<GameEvent> },
    /// Marks the match complete, with the origin of its final stats.
    SetComplete {
        subpack: u8,
        external_match_id: String,
        /// "api" | "live_fallback".
        summary_source: String,
        final_stats: Option<Vec<StatField>>,
    },
}

impl MatchDataMessage {
    /// The match a message is about.
    pub open spec fn key(&self) -> (u8, Seq<char>) {
        match self {
            MatchDataMessage::WriteStats { subpack, external_match_id, .. } => (*subpack, external_match_id@),
            MatchDataMessage::WriteEvents { subpack, external_match_id, .. } => (*subpack, external_match_id@),
            MatchDataMessage::SetComplete { subpack, external_match_id, .. } => (*subpack, external_match_id@),
        }
    }

    /// A WriteStats message with no match attributes.
    pub fn write_stats(subpack: u8, external_match_id: String, stats: Vec<StatField>) -> (r: MatchDataMessage)
        ensures
            r == (MatchDataMessage::WriteStats {
                subpack,
                external_match_id,
                played_at: None,
                duration_secs: None,
                result: None,
                stats,
            }),
    {
        MatchDataMessage::WriteStats { subpack, external_match_id, played_at: None, duration_secs: None, result: None, stats }
    }

    pub fn write_events(subpack: u8, external_match_id: String, events: Vec<GameEvent>) -> (r: MatchDataMessage)
        ensures
            r == (MatchDataMessage::WriteEvents { subpack, external_match_id, events }),
    {
        MatchDataMessage::WriteEvents { subpack, external_match_id, events }
    }

    /// A SetComplete message without final stats.
    pub fn set_complete(subpack: u8, external_match_id: String, summary_source: String) -> (r: MatchDataMessage)
        ensures
            r == (MatchDataMessage::SetComplete { subpack, external_match_id, summary_source, final_stats: None }),
    {
        MatchDataMessage::SetComplete { subpack, external_match_id, summary_source, final_stats: None }
    }

    pub fn set_complete_with_stats(
        subpack: u8,
        external_match_id: String,
        summary_source: String,
        final_stats: Vec<StatField>,
    ) -> (r: MatchDataMessage)
        ensures
            r == (MatchDataMessage::SetComplete {
                subpack,
                external_match_id,
                summary_source,
                final_stats: Some(final_stats),
            }),
    {
        MatchDataMessage::SetComplete { subpack, external_match_id, summary_source, final_stats: Some(final_stats) }
    }
}

/// Daemon to gamepack: is this match still being played?
pub struct IsMatchInProgressRequest {
    pub subpack: u8,
    pub external_match_id: String,
}

impl IsMatchInProgressRequest {
    pub open spec fn key(&self) -> (u8, Seq<char>) {
        (self.subpack, self.external_match_id@)
    }
}

/// Gamepack to daemon: answer to `IsMatchInProgressRequest`.
pub struct IsMatchInProgressResponse {
    /// Whether the game is still running.
    pub still_playing: bool,
    /// When the game ended, optionally the SetComplete to apply.
    pub set_complete: Option<MatchDataMessage>,
}

impl IsMatchInProgressResponse {
    pub fn still_playing() -> (r: IsMatchInProgressResponse)
        ensures
            r.still_playing,
            r.set_complete.is_none(),
    {
        IsMatchInProgressResponse { still_playing: true, set_complete: None }
    }

    pub fn ended() -> (r: IsMatchInProgressResponse)
        ensures
            !r.still_playing,
            r.set_complete.is_none(),
    {
        IsMatchInProgressResponse { still_playing: false, set_complete: None }
    }

    pub fn ended_with_stats(set_complete: MatchDataMessage) -> (r: IsMatchInProgressResponse)
        ensures
            !r.still_playing,
            r.set_complete == Some(set_complete),
    {
        IsMatchInProgressResponse { still_playing: false, set_complete: Some(set_complete) }
    }
}

/// What a timeline entry holds, as plain values.
pub struct EntryView {
    pub entry_type: Seq<char>,
    pub entry_key: Seq<char>,
    pub game_time_ms: i64,
    pub captured_at: Seq<char>,
    pub data: serde_json::Value,
    pub trigger_fired: Option<bool>,
}

/// One entry of a match timeline: an event, a statistic delta or a moment.
pub struct TimelineEntry {
    /// "event" | "statistic" | "moment".
    pub entry_type: String,
    /// The event type, "stats", or a moment id.
    pub entry_key: String,
    /// In-game time in milliseconds.
    pub game_time_ms: i64,
    /// Wall-clock time (ISO 8601).
    pub captured_at: String,
    /// Type-specific payload.
    pub data: serde_json::Value,
    /// For moments only: whether recording was triggered.
    pub trigger_fired: Option<bool>,
}

impl View for TimelineEntry {
    type V = EntryView;

    open spec fn view(&self) -> EntryView {
        EntryView {
            entry_type: self.entry_type@,
            entry_key: self.entry_key@,
            game_time_ms: self.game_time_ms,
            captured_at: self.captured_at@,
            data: self.data,
            trigger_fired: self.trigger_fired,
        }
    }
}

/// The entry that records a game event.
pub open spec fn event_entry(e: GameEvent, captured_at: Seq<char>) -> EntryView {
    EntryView {
        entry_type: "event"@,
        entry_key: e.event_type@,
        game_time_ms: e.timestamp_ms,
        captured_at,
        data: e.data,
        trigger_fired: None,
    }
}

impl TimelineEntry {
    /// An event entry.
    pub fn event(event_type: String, game_time_ms: i64, captured_at: String, data: serde_json::Value) -> (r: TimelineEntry)
        ensures
            r@ == (EntryView {
                entry_type: "event"@,
                entry_key: event_type@,
                game_time_ms,
                captured_at: captured_at@,
                data,
                trigger_fired: None,
            }),
    {
        TimelineEntry {
            entry_type: "event".to_owned(),
            entry_key: event_type,
            game_time_ms,
            captured_at,
            data,
            trigger_fired: None,
        }
    }

    /// A statistic entry holding the fields that changed.
    pub fn statistic(game_time_ms: i64, captured_at: String, changed_fields: serde_json::Value) -> (r: TimelineEntry)
        ensures
            r@ == (EntryView {
                entry_type: "statistic"@,
                entry_key: "stats"@,
                game_time_ms,
                captured_at: captured_at@,
                data: changed_fields,
                trigger_fired: None,
            }),
    {
        TimelineEntry {
            entry_type: "statistic".to_owned(),
            entry_key: "stats".to_owned(),
            game_time_ms,
            captured_at,
            data: changed_fields,
            trigger_fired: None,
        }
    }

    /// A moment entry.
    pub fn moment(
        moment_id: String,
        game_time_ms: i64,
        captured_at: String,
        data: serde_json::Value,
        trigger_fired: bool,
    ) -> (r: TimelineEntry)
        ensures
            r@ == (EntryView {
                entry_type: "moment"@,
                entry_key: moment_id@,
                game_time_ms,
                captured_at: captured_at@,
                data,
                trigger_fired: Some(trigger_fired),
            }),
    {
        TimelineEntry {
            entry_type: "moment".to_owned(),
            entry_key: moment_id,
            game_time_ms,
            captured_at,
            data,
            trigger_fired: Some(trigger_fired),
        }
    }

    /// The entry that records `e`, captured at `captured_at`.
    pub fn from_event(e: &GameEvent, captured_at: &String) -> (r: TimelineEntry)
        ensures
            r@ == event_entry(*e, captured_at@),
    {
        TimelineEntry::event(e.event_type.clone(), e.timestamp_ms, captured_at.clone(), e.data.clone())
    }

    /// A copy of this entry.
    pub fn duplicate(&self) -> (r: TimelineEntry)
        ensures
            r@ == self@,
    {
        TimelineEntry {
            entry_type: self.entry_type.clone(),
            entry_key: self.entry_key.clone(),
            game_time_ms: self.game_time_ms,
            captured_at: self.captured_at.clone(),
            data: self.data.clone(),
            trigger_fired: self.trigger_fired,
        }
    }
}

/// Request for a match's timeline, used by a gamepack to rebuild its state.
pub struct GetMatchTimelineRequest {
    pub subpack: u8,
    pub external_match_id: String,
    /// Only entries of these types; `None` for all.
    pub entry_types: Option<Vec<String>>,
    /// Only the latest this many entries; `None` for all.
    pub limit: Option<u32>,
}

/// Response with a match's timeline.
pub struct GetMatchTimelineResponse {
    /// Whether the match exists.
    pub found: bool,
    /// Timeline entries in chronological order (empty if not found).
    pub entries: Vec<TimelineEntry>,
}

} // verus!
