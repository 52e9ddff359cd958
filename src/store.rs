//! The match write pipeline and the timeline store.
//!
//! A `MatchStore` holds at most one record per `(subpack, external_match_id)`.
//! Records are created lazily by the first stats or events write, stats are
//! upserted column by column, timelines only grow, and a completed match is
//! never reopened: later stats or events writes to it are rejected.
//!
//! Every accepted message that changes a match also appends one statistic
//! entry (type "statistic", key "stats") holding the stat fields it wrote:
//! the written fields for a stats write or a completion with final stats, an
//! empty delta for an events write or a bare completion. The timeline is thus
//! a complete record of everything done to the match. A repeated completion is
//! a no-op, except that an api completion still overrides one that came from
//! the live fallback; the reverse never happens.

use vstd::prelude::*;
use crate::assoc::{
    assoc_map, keys_unique, lemma_assoc_at, lemma_assoc_contains, lemma_assoc_push,
    lemma_assoc_update, lemma_unique_push,
};
use crate::json::{field_pairs, stat_delta_json, stat_delta_object};
use crate::types::{
    event_entry, opt_text, EntryView, GameEvent, GetMatchTimelineRequest,
    GetMatchTimelineResponse, IsMatchInProgressRequest, MatchDataMessage, StatField,
    SummarySource, TimelineEntry,
};

verus! {

/// Why a message was rejected. A rejected message changes nothing.
#[derive(PartialEq, Eq, Structural, Clone, Copy, Debug)]
pub enum WriteError {
    /// A stat column is not declared in the subpack's schema.
    UnknownColumn,
    /// The match does not exist and the message does not create matches.
    UnknownMatch,
    /// The match is complete and no longer takes stats or events.
    MatchCompleted,
    /// An event of the batch cannot be recorded.
    InvalidEvent,
    /// The summary source is neither "api" nor "live_fallback".
    UnknownSource,
}

/// The state of one match, as plain values.
pub struct MatchState {
    pub played_at: Option<Seq<char>>,
    pub duration_secs: Option<i32>,
    pub result: Option<Seq<char>>,
    pub in_progress: bool,
    pub stats: Map<Seq<char>, serde_json::Value>,
    pub source: Option<SummarySource>,
    pub timeline: Seq<EntryView>,
}

/// The state of a match that has just been created.
pub open spec fn fresh_state() -> MatchState {
    MatchState {
        played_at: None,
        duration_secs: None,
        result: None,
        in_progress: true,
        stats: Map::empty(),
        source: None,
        timeline: Seq::empty(),
    }
}

/// The summary that a list of stat fields denotes; a later field for a
/// column overrides an earlier one.
pub open spec fn stats_map(fields: Seq<StatField>) -> Map<Seq<char>, serde_json::Value> {
    assoc_map(field_pairs(fields))
}

/// Whether `c` is one of the declared columns.
pub open spec fn declared(columns: Seq<String>, c: Seq<char>) -> bool {
    exists|i: int| 0 <= i < columns.len() && columns[i]@ == c
}

pub open spec fn all_declared(columns: Seq<String>, fields: Seq<StatField>) -> bool {
    forall|j: int| 0 <= j < fields.len() ==> declared(columns, #[trigger] fields[j].column@)
}

pub open spec fn all_valid(events: Seq<GameEvent>) -> bool {
    forall|j: int| 0 <= j < events.len() ==> #[trigger] events[j].valid()
}

pub open spec fn entry_views(s: Seq<TimelineEntry>) -> Seq<EntryView> {
    s.map_values(|e: TimelineEntry| e@)
}

pub open spec fn event_entries(events: Seq<GameEvent>, captured_at: Seq<char>) -> Seq<EntryView> {
    events.map_values(|e: GameEvent| event_entry(e, captured_at))
}

/// The statistic entry that records a stats write. Stats carry no in-game
/// clock, so its game time is zero.
pub open spec fn stat_entry(fields: Seq<StatField>, captured_at: Seq<char>) -> EntryView {
    EntryView {
        entry_type: "statistic"@,
        entry_key: "stats"@,
        game_time_ms: 0,
        captured_at,
        data: stat_delta_json(field_pairs(fields)),
        trigger_fired: None,
    }
}

/// `st` with `fields` upserted into its summary and recorded on its timeline.
pub open spec fn with_stats(st: MatchState, fields: Seq<StatField>, captured_at: Seq<char>) -> MatchState {
    MatchState {
        stats: st.stats.union_prefer_right(stats_map(fields)),
        timeline: st.timeline.push(stat_entry(fields, captured_at)),
        ..st
    }
}

pub open spec fn keep_or_set<T>(given: Option<T>, current: Option<T>) -> Option<T> {
    match given {
        Some(v) => Some(v),
        None => current,
    }
}

/// The state a write starts from: the match's own, or a fresh one.
pub open spec fn current_or_fresh(m: Map<(u8, Seq<char>), MatchState>, k: (u8, Seq<char>)) -> MatchState {
    if m.contains_key(k) {
        m[k]
    } else {
        fresh_state()
    }
}

/// Whether a SetComplete from `src` still changes a match completed from
/// `current`: only an api completion over a live fallback one.
pub open spec fn upgrades(src: SummarySource, current: Option<SummarySource>) -> bool {
    src == SummarySource::Api && current == Some(SummarySource::LiveFallback)
}

/// What applying `msg` does to the matches `m`, given the columns declared
/// for the message's subpack and the wall-clock time of arrival.
pub open spec fn apply_spec(
    m: Map<(u8, Seq<char>), MatchState>,
    columns: Seq<String>,
    msg: MatchDataMessage,
    captured_at: Seq<char>,
) -> (Map<(u8, Seq<char>), MatchState>, Result<(), WriteError>) {
    let k = msg.key();
    let base = current_or_fresh(m, k);
    match msg {
        MatchDataMessage::WriteStats { played_at, duration_secs, result, stats, .. } => {
            if !base.in_progress {
                (m, Err(WriteError::MatchCompleted))
            } else if !all_declared(columns, stats@) {
                (m, Err(WriteError::UnknownColumn))
            } else {
                let st = MatchState {
                    played_at: keep_or_set(opt_text(played_at), base.played_at),
                    duration_secs: keep_or_set(duration_secs, base.duration_secs),
                    result: keep_or_set(opt_text(result), base.result),
                    ..with_stats(base, stats@, captured_at)
                };
                (m.insert(k, st), Ok(()))
            }
        },
        MatchDataMessage::WriteEvents { events, .. } => {
            if !base.in_progress {
                (m, Err(WriteError::MatchCompleted))
            } else if !all_valid(events@) {
                (m, Err(WriteError::InvalidEvent))
            } else {
                let st = MatchState {
                    timeline: (base.timeline + event_entries(events@, captured_at)).push(
                        stat_entry(Seq::empty(), captured_at),
                    ),
                    ..base
                };
                (m.insert(k, st), Ok(()))
            }
        },
        MatchDataMessage::SetComplete { summary_source, final_stats, .. } => {
            match SummarySource::parse_spec(summary_source@) {
                None => (m, Err(WriteError::UnknownSource)),
                Some(src) => {
                    if !m.contains_key(k) {
                        (m, Err(WriteError::UnknownMatch))
                    } else if !m[k].in_progress && !upgrades(src, m[k].source) {
                        (m, Ok(()))
                    } else {
                        match final_stats {
                            None => (
                                m.insert(
                                    k,
                                    MatchState {
                                        in_progress: false,
                                        source: Some(src),
                                        timeline: m[k].timeline.push(stat_entry(Seq::empty(), captured_at)),
                                        ..m[k]
                                    },
                                ),
                                Ok(()),
                            ),
                            Some(fs) => {
                                if !all_declared(columns, fs@) {
                                    (m, Err(WriteError::UnknownColumn))
                                } else {
                                    let st = with_stats(m[k], fs@, captured_at);
                                    (
                                        m.insert(k, MatchState { in_progress: false, source: Some(src), ..st }),
                                        Ok(()),
                                    )
                                }
                            },
                        }
                    }
                },
            }
        },
    }
}

/// Whether an entry passes a type filter; `None` passes everything.
pub open spec fn selected(types: Option<Vec<String>>, e: EntryView) -> bool {
    match types {
        None => true,
        Some(ts) => exists|i: int| 0 <= i < ts@.len() && ts@[i]@ == e.entry_type,
    }
}

/// The entries of `s` that pass the filter, in order.
pub open spec fn select(s: Seq<EntryView>, types: Option<Vec<String>>) -> Seq<EntryView>
    decreases s.len(),
{
    if s.len() == 0 {
        Seq::empty()
    } else if selected(types, s.last()) {
        select(s.drop_last(), types).push(s.last())
    } else {
        select(s.drop_last(), types)
    }
}

/// The last `limit` entries of `s`, or all of them.
pub open spec fn latest(s: Seq<EntryView>, limit: Option<u32>) -> Seq<EntryView> {
    match limit {
        Some(n) if (n as int) < s.len() => s.subrange(s.len() - n, s.len() as int),
        _ => s,
    }
}

/// The answer to a timeline request: whether the match exists, and the
/// latest entries of the requested types, oldest first.
pub open spec fn timeline_spec(m: Map<(u8, Seq<char>), MatchState>, req: GetMatchTimelineRequest) -> (bool, Seq<EntryView>) {
    let k = (req.subpack, req.external_match_id@);
    if m.contains_key(k) {
        (true, latest(select(m[k].timeline, req.entry_types), req.limit))
    } else {
        (false, Seq::empty())
    }
}

fn type_selected(types: &Option<Vec<String>>, t: &String) -> (r: bool)
    ensures
        forall|e: EntryView| e.entry_type == t@ ==> r == selected(*types, e),
{
    match types {
        None => true,
        Some(ts) => is_declared(ts, t),
    }
}

fn is_declared(columns: &Vec<String>, c: &String) -> (r: bool)
    ensures
        r == declared(columns@, c@),
{
    let mut i: usize = 0;
    while i < columns.len()
        invariant
            i <= columns.len(),
            forall|j: int| 0 <= j < i ==> #[trigger] columns@[j]@ != c@,
        decreases columns.len() - i,
    {
        if columns[i] == *c {
            return true;
        }
        i = i + 1;
    }
    false
}

fn all_columns_declared(columns: &Vec<String>, fields: &Vec<StatField>) -> (r: bool)
    ensures
        r == all_declared(columns@, fields@),
{
    let mut j: usize = 0;
    while j < fields.len()
        invariant
            j <= fields.len(),
            forall|k: int| 0 <= k < j ==> declared(columns@, #[trigger] fields@[k].column@),
        decreases fields.len() - j,
    {
        if !is_declared(columns, &fields[j].column) {
            return false;
        }
        j = j + 1;
    }
    true
}

fn all_events_valid(events: &Vec<GameEvent>) -> (r: bool)
    ensures
        r == all_valid(events@),
{
    let mut j: usize = 0;
    while j < events.len()
        invariant
            j <= events.len(),
            forall|k: int| 0 <= k < j ==> #[trigger] events@[k].valid(),
        decreases events.len() - j,
    {
        if !events[j].is_valid() {
            return false;
        }
        j = j + 1;
    }
    true
}

/// One match as stored: its attributes, its summary stats and its timeline.
pub struct MatchRecord {
    pub subpack: u8,
    pub external_match_id: String,
    pub played_at: Option<String>,
    pub duration_secs: Option<i32>,
    pub result: Option<String>,
    pub is_in_progress: bool,
    /// The summary, one field per column.
    pub summary_stats: Vec<StatField>,
    /// Set on completion.
    pub summary_source: Option<SummarySource>,
    /// Append-only, in arrival order.
    pub timeline: Vec<TimelineEntry>,
}

impl MatchRecord {
    pub open spec fn key(&self) -> (u8, Seq<char>) {
        (self.subpack, self.external_match_id@)
    }

    pub open spec fn state(&self) -> MatchState {
        MatchState {
            played_at: opt_text(self.played_at),
            duration_secs: self.duration_secs,
            result: opt_text(self.result),
            in_progress: self.is_in_progress,
            stats: stats_map(self.summary_stats@),
            source: self.summary_source,
            timeline: entry_views(self.timeline@),
        }
    }

    /// Each column occurs once in the summary.
    pub open spec fn wf(&self) -> bool {
        keys_unique(field_pairs(self.summary_stats@))
    }

    fn fresh(subpack: u8, external_match_id: String) -> (r: MatchRecord)
        ensures
            r.key() == (subpack, external_match_id@),
            r.state() == fresh_state(),
            r.wf(),
    {
        let r = MatchRecord {
            subpack,
            external_match_id,
            played_at: None,
            duration_secs: None,
            result: None,
            is_in_progress: true,
            summary_stats: Vec::new(),
            summary_source: None,
            timeline: Vec::new(),
        };
        assert(stats_map(r.summary_stats@) =~= Map::empty());
        assert(entry_views(r.timeline@) =~= Seq::empty());
        r
    }

    /// The position of `column` in the summary.
    fn position_of(&self, column: &String) -> (r: Option<usize>)
        ensures
            match r {
                Some(i) => i < self.summary_stats.len() && self.summary_stats@[i as int].column@ == column@,
                None => forall|i: int| 0 <= i < self.summary_stats.len() ==> #[trigger] self.summary_stats@[i].column@ != column@,
            },
    {
        let mut i: usize = 0;
        while i < self.summary_stats.len()
            invariant
                i <= self.summary_stats.len(),
                forall|j: int| 0 <= j < i ==> #[trigger] self.summary_stats@[j].column@ != column@,
            decreases self.summary_stats.len() - i,
        {
            if self.summary_stats[i].column == *column {
                return Some(i);
            }
            i = i + 1;
        }
        None
    }

    /// The summary value of `column`, if it has one.
    pub fn stat(&self, column: &String) -> (r: Option<&serde_json::Value>)
        requires
            self.wf(),
        ensures
            match r {
                Some(v) => self.state().stats.contains_key(column@) && *v == self.state().stats[column@],
                None => !self.state().stats.contains_key(column@),
            },
    {
        proof {
            lemma_assoc_contains(field_pairs(self.summary_stats@), column@);
        }
        match self.position_of(column) {
            Some(i) => {
                proof {
                    lemma_assoc_at(field_pairs(self.summary_stats@), i as int);
                }
                Some(&self.summary_stats[i].value)
            },
            None => {
                proof {
                    assert forall|i: int| 0 <= i < self.summary_stats.len() implies field_pairs(self.summary_stats@)[i].0 != column@ by {
                        assert(self.summary_stats@[i].column@ != column@);
                    }
                }
                None
            },
        }
    }

    /// Upserts `fields` into the summary and records them on the timeline.
    fn write_stats(&mut self, fields: &Vec<StatField>, captured_at: &String)
        requires
            old(self).wf(),
        ensures
            final(self).wf(),
            final(self).key() == old(self).key(),
            final(self).state() == with_stats(old(self).state(), fields@, captured_at@),
    {
        let ghost start = self.state().stats;
        let mut j: usize = 0;
        while j < fields.len()
            invariant
                self.wf(),
                self.key() == old(self).key(),
                self.state() == (MatchState { stats: self.state().stats, ..old(self).state() }),
                j <= fields.len(),
                self.state().stats == start.union_prefer_right(stats_map(fields@.take(j as int))),
            decreases fields.len() - j,
        {
            let f = &fields[j];
            let ghost before = self.summary_stats@;
            proof {
                assert(field_pairs(fields@.take(j + 1)).drop_last() =~= field_pairs(fields@.take(j as int)));
                assert(field_pairs(fields@.take(j + 1)).last() == (f.column@, f.value));
            }
            match self.position_of(&f.column) {
                Some(i) => {
                    let column = self.summary_stats[i].column.clone();
                    self.summary_stats.set(i, StatField { column, value: f.value.clone() });
                    proof {
                        assert(field_pairs(self.summary_stats@) =~= field_pairs(before).update(
                            i as int,
                            (field_pairs(before)[i as int].0, f.value),
                        ));
                        lemma_assoc_update(field_pairs(before), i as int, f.value);
                    }
                },
                None => {
                    self.summary_stats.push(StatField { column: f.column.clone(), value: f.value.clone() });
                    proof {
                        assert(field_pairs(self.summary_stats@) =~= field_pairs(before).push((f.column@, f.value)));
                        lemma_assoc_push(field_pairs(before), (f.column@, f.value));
                        assert forall|i: int| 0 <= i < before.len() implies field_pairs(before)[i].0 != f.column@ by {
                            assert(before[i].column@ != f.column@);
                        }
                        lemma_unique_push(field_pairs(before), (f.column@, f.value));
                    }
                },
            }
            proof {
                assert(self.state().stats =~= start.union_prefer_right(stats_map(fields@.take(j + 1))));
            }
            j = j + 1;
        }
        proof {
            assert(fields@.take(j as int) =~= fields@);
        }
        let ghost tl = entry_views(self.timeline@);
        let entry = TimelineEntry::statistic(0, captured_at.clone(), stat_delta_object(fields));
        self.timeline.push(entry);
        proof {
            assert(entry_views(self.timeline@) =~= tl.push(stat_entry(fields@, captured_at@)));
        }
    }

    /// Records on the timeline a change that wrote no stats: a statistic
    /// entry with an empty delta.
    fn note_no_stats(&mut self, captured_at: &String)
        ensures
            final(self).wf() == old(self).wf(),
            final(self).key() == old(self).key(),
            final(self).state() == (MatchState {
                timeline: old(self).state().timeline.push(stat_entry(Seq::empty(), captured_at@)),
                ..old(self).state()
            }),
    {
        let none: Vec<StatField> = Vec::new();
        let ghost tl = entry_views(self.timeline@);
        let entry = TimelineEntry::statistic(0, captured_at.clone(), stat_delta_object(&none));
        self.timeline.push(entry);
        proof {
            assert(none@ =~= Seq::<StatField>::empty());
            assert(entry_views(self.timeline@) =~= tl.push(stat_entry(Seq::empty(), captured_at@)));
        }
    }

    /// Appends one entry per event, in order.
    fn write_events(&mut self, events: &Vec<GameEvent>, captured_at: &String)
        ensures
            final(self).wf() == old(self).wf(),
            final(self).key() == old(self).key(),
            final(self).state() == (MatchState {
                timeline: old(self).state().timeline + event_entries(events@, captured_at@),
                ..old(self).state()
            }),
    {
        let mut j: usize = 0;
        while j < events.len()
            invariant
                self.key() == old(self).key(),
                self.summary_stats == old(self).summary_stats,
                self.state() == (MatchState {
                    timeline: old(self).state().timeline + event_entries(events@.take(j as int), captured_at@),
                    ..old(self).state()
                }),
                j <= events.len(),
            decreases events.len() - j,
        {
            let ghost tl = entry_views(self.timeline@);
            let entry = TimelineEntry::from_event(&events[j], captured_at);
            self.timeline.push(entry);
            proof {
                assert(entry_views(self.timeline@) =~= tl.push(event_entry(events@[j as int], captured_at@)));
                assert(event_entries(events@.take(j + 1), captured_at@) =~= event_entries(
                    events@.take(j as int),
                    captured_at@,
                ).push(event_entry(events@[j as int], captured_at@)));
                assert(old(self).state().timeline + event_entries(events@.take(j + 1), captured_at@) =~= tl.push(
                    event_entry(events@[j as int], captured_at@),
                ));
            }
            j = j + 1;
        }
        proof {
            assert(events@.take(j as int) =~= events@);
        }
    }
}

pub open spec fn record_entries(s: Seq<MatchRecord>) -> Seq<((u8, Seq<char>), MatchState)> {
    s.map_values(|r: MatchRecord| (r.key(), r.state()))
}

proof fn lemma_replace_record(s: Seq<MatchRecord>, i: int, rec: MatchRecord)
    requires
        keys_unique(record_entries(s)),
        0 <= i < s.len(),
        rec.key() == s[i].key(),
    ensures
        keys_unique(record_entries(s.update(i, rec))),
        assoc_map(record_entries(s.update(i, rec))) == assoc_map(record_entries(s)).insert(rec.key(), rec.state()),
{
    let e = record_entries(s);
    assert(record_entries(s.update(i, rec)) =~= e.update(i, (e[i].0, rec.state())));
    lemma_assoc_update(e, i, rec.state());
}

proof fn lemma_push_record(s: Seq<MatchRecord>, rec: MatchRecord)
    requires
        keys_unique(record_entries(s)),
        !assoc_map(record_entries(s)).contains_key(rec.key()),
    ensures
        keys_unique(record_entries(s.push(rec))),
        assoc_map(record_entries(s.push(rec))) == assoc_map(record_entries(s)).insert(rec.key(), rec.state()),
{
    let e = record_entries(s);
    assert(record_entries(s.push(rec)) =~= e.push((rec.key(), rec.state())));
    lemma_assoc_contains(e, rec.key());
    lemma_assoc_push(e, (rec.key(), rec.state()));
    lemma_unique_push(e, (rec.key(), rec.state()));
}

/// All matches known to the daemon, with their summaries and timelines.
pub struct MatchStore {
    matches: Vec<MatchRecord>,
}

impl View for MatchStore {
    type V = Map<(u8, Seq<char>), MatchState>;

    closed spec fn view(&self) -> Map<(u8, Seq<char>), MatchState> {
        assoc_map(record_entries(self.matches@))
    }
}

impl MatchStore {
    /// At most one record per match, each well formed.
    pub closed spec fn wf(&self) -> bool {
        &&& keys_unique(record_entries(self.matches@))
        &&& forall|i: int| 0 <= i < self.matches.len() ==> #[trigger] self.matches@[i].wf()
    }

    /// An empty store.
    pub fn new() -> (r: MatchStore)
        ensures
            r.wf(),
            r@ == Map::<(u8, Seq<char>), MatchState>::empty(),
    {
        let r = MatchStore { matches: Vec::new() };
        assert(record_entries(r.matches@) =~= Seq::empty());
        r
    }

    /// The position of the record of `(subpack, external_match_id)`.
    fn position_of(&self, subpack: u8, external_match_id: &String) -> (r: Option<usize>)
        requires
            self.wf(),
        ensures
            match r {
                Some(i) => {
                    &&& i < self.matches.len()
                    &&& self.matches@[i as int].key() == (subpack, external_match_id@)
                    &&& self@.contains_key((subpack, external_match_id@))
                    &&& self@[(subpack, external_match_id@)] == self.matches@[i as int].state()
                },
                None => !self@.contains_key((subpack, external_match_id@)),
            },
    {
        let ghost k = (subpack, external_match_id@);
        let mut i: usize = 0;
        while i < self.matches.len()
            invariant
                self.wf(),
                k == (subpack, external_match_id@),
                i <= self.matches.len(),
                forall|j: int| 0 <= j < i ==> #[trigger] self.matches@[j].key() != k,
            decreases self.matches.len() - i,
        {
            if self.matches[i].subpack == subpack && self.matches[i].external_match_id == *external_match_id {
                proof {
                    lemma_assoc_at(record_entries(self.matches@), i as int);
                }
                return Some(i);
            }
            assert(self.matches@[i as int].key() != k);
            i = i + 1;
        }
        proof {
            lemma_assoc_contains(record_entries(self.matches@), k);
            assert forall|j: int| 0 <= j < self.matches.len() implies record_entries(self.matches@)[j].0 != k by {
                assert(self.matches@[j].key() != k);
            }
        }
        None
    }

    /// The record of a match, if it exists.
    pub fn get(&self, subpack: u8, external_match_id: &String) -> (r: Option<&MatchRecord>)
        requires
            self.wf(),
        ensures
            match r {
                Some(rec) => {
                    &&& rec.wf()
                    &&& rec.key() == (subpack, external_match_id@)
                    &&& self@.contains_key(rec.key())
                    &&& self@[rec.key()] == rec.state()
                },
                None => !self@.contains_key((subpack, external_match_id@)),
            },
    {
        match self.position_of(subpack, external_match_id) {
            Some(i) => Some(&self.matches[i]),
            None => None,
        }
    }

    /// Takes the record at `pos` out of the store, or makes a fresh one.
    fn take_out(&mut self, pos: Option<usize>, subpack: u8, external_match_id: String) -> (r: MatchRecord)
        requires
            old(self).wf(),
            match pos {
                Some(i) => i < old(self).matches.len() && old(self).matches@[i as int].key() == (subpack, external_match_id@),
                None => !old(self)@.contains_key((subpack, external_match_id@)),
            },
        ensures
            r.wf(),
            r.key() == (subpack, external_match_id@),
            r.state() == current_or_fresh(old(self)@, (subpack, external_match_id@)),
            match pos {
                Some(i) => final(self).matches@ == old(self).matches@.remove(i as int),
                None => *final(self) == *old(self),
            },
    {
        match pos {
            Some(i) => {
                proof {
                    lemma_assoc_at(record_entries(self.matches@), i as int);
                }
                self.matches.remove(i)
            },
            None => MatchRecord::fresh(subpack, external_match_id),
        }
    }

    /// Puts `rec` back where `take_out` took it from.
    fn put_back(&mut self, pos: Option<usize>, rec: MatchRecord, Ghost(before): Ghost<MatchStore>)
        requires
            before.wf(),
            rec.wf(),
            match pos {
                Some(i) => {
                    &&& i < before.matches.len()
                    &&& before.matches@[i as int].key() == rec.key()
                    &&& old(self).matches@ == before.matches@.remove(i as int)
                },
                None => !before@.contains_key(rec.key()) && *old(self) == before,
            },
        ensures
            final(self).wf(),
            final(self)@ == before@.insert(rec.key(), rec.state()),
    {
        let ghost r = rec;
        match pos {
            Some(i) => {
                self.matches.insert(i, rec);
                proof {
                    assert(self.matches@ =~= before.matches@.update(i as int, r));
                    lemma_replace_record(before.matches@, i as int, r);
                }
            },
            None => {
                self.matches.push(rec);
                proof {
                    lemma_push_record(before.matches@, r);
                }
            },
        }
        assert forall|j: int| 0 <= j < self.matches.len() implies #[trigger] self.matches@[j].wf() by {
            match pos {
                Some(i) => {
                    if j != i {
                        assert(self.matches@[j] == before.matches@[j]);
                    }
                },
                None => {
                    if j < before.matches.len() {
                        assert(self.matches@[j] == before.matches@[j]);
                    }
                },
            }
        }
    }

    /// Applies one message: the write pipeline. A rejected message leaves
    /// the store as it was.
    pub fn apply(&mut self, columns: &Vec<String>, msg: MatchDataMessage, captured_at: &String) -> (r: Result<(), WriteError>)
        requires
            old(self).wf(),
        ensures
            final(self).wf(),
            (final(self)@, r) == apply_spec(old(self)@, columns@, msg, captured_at@),
    {
        match msg {
            MatchDataMessage::WriteStats { subpack, external_match_id, played_at, duration_secs, result, stats } => {
                let pos = self.position_of(subpack, &external_match_id);
                let in_progress = match pos {
                    Some(i) => self.matches[i].is_in_progress,
                    None => true,
                };
                if !in_progress {
                    return Err(WriteError::MatchCompleted);
                }
                if !all_columns_declared(columns, &stats) {
                    return Err(WriteError::UnknownColumn);
                }
                let ghost before = *self;
                let mut rec = self.take_out(pos, subpack, external_match_id);
                if let Some(p) = played_at {
                    rec.played_at = Some(p);
                }
                if let Some(d) = duration_secs {
                    rec.duration_secs = Some(d);
                }
                if let Some(x) = result {
                    rec.result = Some(x);
                }
                rec.write_stats(&stats, captured_at);
                self.put_back(pos, rec, Ghost(before));
                Ok(())
            },
            MatchDataMessage::WriteEvents { subpack, external_match_id, events } => {
                let pos = self.position_of(subpack, &external_match_id);
                let in_progress = match pos {
                    Some(i) => self.matches[i].is_in_progress,
                    None => true,
                };
                if !in_progress {
                    return Err(WriteError::MatchCompleted);
                }
                if !all_events_valid(&events) {
                    return Err(WriteError::InvalidEvent);
                }
                let ghost before = *self;
                let mut rec = self.take_out(pos, subpack, external_match_id);
                rec.write_events(&events, captured_at);
                rec.note_no_stats(captured_at);
                self.put_back(pos, rec, Ghost(before));
                Ok(())
            },
            MatchDataMessage::SetComplete { subpack, external_match_id, summary_source, final_stats } => {
                let src = match SummarySource::parse(&summary_source) {
                    Some(s) => s,
                    None => return Err(WriteError::UnknownSource),
                };
                let pos = self.position_of(subpack, &external_match_id);
                let i = match pos {
                    Some(i) => i,
                    None => return Err(WriteError::UnknownMatch),
                };
                let upgrade = src == SummarySource::Api && matches!(self.matches[i].summary_source, Some(SummarySource::LiveFallback));
                if !self.matches[i].is_in_progress && !upgrade {
                    return Ok(());
                }
                if let Some(fs) = &final_stats {
                    if !all_columns_declared(columns, fs) {
                        return Err(WriteError::UnknownColumn);
                    }
                }
                let ghost before = *self;
                let mut rec = self.take_out(pos, subpack, external_match_id);
                match &final_stats {
                    Some(fs) => rec.write_stats(fs, captured_at),
                    None => rec.note_no_stats(captured_at),
                }
                rec.is_in_progress = false;
                rec.summary_source = Some(src);
                self.put_back(pos, rec, Ghost(before));
                Ok(())
            },
        }
    }


    /// Answers a timeline request from the store, without changing it.
    pub fn timeline(&self, req: &GetMatchTimelineRequest) -> (r: GetMatchTimelineResponse)
        requires
            self.wf(),
        ensures
            (r.found, entry_views(r.entries@)) == timeline_spec(self@, *req),
    {
        let pos = self.position_of(req.subpack, &req.external_match_id);
        let i = match pos {
            Some(i) => i,
            None => {
                let r = GetMatchTimelineResponse { found: false, entries: Vec::new() };
                assert(entry_views(r.entries@) =~= Seq::empty());
                return r;
            },
        };
        let tl = &self.matches[i].timeline;
        let ghost all = entry_views(tl@);
        let mut sel: Vec<TimelineEntry> = Vec::new();
        let mut j: usize = 0;
        while j < tl.len()
            invariant
                all == entry_views(tl@),
                j <= tl.len(),
                entry_views(sel@) == select(all.take(j as int), req.entry_types),
            decreases tl.len() - j,
        {
            proof {
                assert(all.take(j + 1).drop_last() =~= all.take(j as int));
                assert(all.take(j + 1).last() == tl@[j as int]@);
            }
            if type_selected(&req.entry_types, &tl[j].entry_type) {
                let ghost prev = entry_views(sel@);
                sel.push(tl[j].duplicate());
                assert(entry_views(sel@) =~= prev.push(tl@[j as int]@));
            }
            j = j + 1;
        }
        assert(all.take(j as int) =~= all);
        let start: usize = match req.limit {
            Some(n) => if (n as usize) < sel.len() {
                sel.len() - n as usize
            } else {
                0
            },
            None => 0,
        };
        let ghost chosen = entry_views(sel@);
        let mut out: Vec<TimelineEntry> = Vec::new();
        let mut k: usize = start;
        while k < sel.len()
            invariant
                chosen == entry_views(sel@),
                start <= k <= sel.len(),
                entry_views(out@) == chosen.subrange(start as int, k as int),
            decreases sel.len() - k,
        {
            let ghost prev = entry_views(out@);
            out.push(sel[k].duplicate());
            assert(entry_views(out@) =~= prev.push(sel@[k as int]@));
            assert(entry_views(out@) =~= chosen.subrange(start as int, k + 1));
            k = k + 1;
        }
        assert(chosen.subrange(0, chosen.len() as int) =~= chosen);
        GetMatchTimelineResponse { found: true, entries: out }
    }

    /// Requests for every match still marked in progress: the matches that
    /// recovery has to verify.
    pub fn stale_candidates(&self) -> (r: Vec<IsMatchInProgressRequest>)
        requires
            self.wf(),
        ensures
            forall|j: int| 0 <= j < r.len() ==> {
                &&& self@.contains_key(#[trigger] r@[j].key())
                &&& self@[r@[j].key()].in_progress
            },
            forall|k: (u8, Seq<char>)| #[trigger] self@.contains_key(k) && self@[k].in_progress ==>
                exists|j: int| 0 <= j < r.len() && r@[j].key() == k,
            forall|j1: int, j2: int| 0 <= j1 < j2 < r.len() ==> r@[j1].key() != r@[j2].key(),
    {
        let mut r: Vec<IsMatchInProgressRequest> = Vec::new();
        let ghost mut src: Seq<int> = Seq::empty();
        let mut i: usize = 0;
        while i < self.matches.len()
            invariant
                self.wf(),
                i <= self.matches.len(),
                forall|j: int| 0 <= j < r.len() ==> {
                    &&& self@.contains_key(#[trigger] r@[j].key())
                    &&& self@[r@[j].key()].in_progress
                },
                forall|x: int| 0 <= x < i && (#[trigger] self.matches@[x]).is_in_progress ==>
                    exists|j: int| 0 <= j < r.len() && r@[j].key() == self.matches@[x].key(),
                src.len() == r.len(),
                forall|j: int| 0 <= j < r.len() ==> 0 <= #[trigger] src[j] < i && r@[j].key() == record_entries(self.matches@)[src[j]].0,
                forall|j1: int, j2: int| 0 <= j1 < j2 < r.len() ==> r@[j1].key() != r@[j2].key(),
            decreases self.matches.len() - i,
        {
            let ghost old_r = r@;
            if self.matches[i].is_in_progress {
                proof {
                    lemma_assoc_at(record_entries(self.matches@), i as int);
                }
                let req = IsMatchInProgressRequest {
                    subpack: self.matches[i].subpack,
                    external_match_id: self.matches[i].external_match_id.clone(),
                };
                r.push(req);
                proof {
                    src = src.push(i as int);
                }
                assert(r@[r.len() - 1].key() == self.matches@[i as int].key());
                assert(record_entries(self.matches@)[i as int].0 == self.matches@[i as int].key());
                assert forall|j1: int, j2: int| 0 <= j1 < j2 < r.len() implies r@[j1].key() != r@[j2].key() by {
                    if j2 == r.len() - 1 {
                        assert(r@[j1] == old_r[j1]);
                        assert(src[j1] < i);
                        assert(record_entries(self.matches@)[src[j1]].0 != record_entries(self.matches@)[i as int].0);
                    } else {
                        assert(r@[j1] == old_r[j1]);
                        assert(r@[j2] == old_r[j2]);
                    }
                }
            }
            assert forall|x: int| 0 <= x < i + 1 && (#[trigger] self.matches@[x]).is_in_progress implies
                exists|j: int| 0 <= j < r.len() && r@[j].key() == self.matches@[x].key() by {
                if x < i {
                    let j = choose|j: int| 0 <= j < old_r.len() && old_r[j].key() == self.matches@[x].key();
                    assert(r@[j] == old_r[j]);
                } else {
                    assert(r@[r.len() - 1].key() == self.matches@[x].key());
                }
            }
            i = i + 1;
        }
        assert forall|k: (u8, Seq<char>)| #[trigger] self@.contains_key(k) && self@[k].in_progress implies
            exists|j: int| 0 <= j < r.len() && r@[j].key() == k by {
            lemma_assoc_contains(record_entries(self.matches@), k);
            let x = choose|x: int| 0 <= x < self.matches.len() && record_entries(self.matches@)[x].0 == k;
            lemma_assoc_at(record_entries(self.matches@), x);
            assert(self.matches@[x].is_in_progress);
        }
        r
    }

}

} // verus!
