//! What the write pipeline guarantees over runs of messages.

use vstd::prelude::*;
use crate::store::{
    all_declared, all_valid, apply_spec, declared, current_or_fresh, event_entries, stat_entry, stats_map, timeline_spec,
    MatchState,
};
use crate::json::field_pairs;
use crate::types::{GameEvent, GetMatchTimelineRequest, MatchDataMessage, StatField, SummarySource};

verus! {

/// The matches after applying `msgs` in order, each captured at `captured_at`.
pub open spec fn apply_all(
    m: Map<(u8, Seq<char>), MatchState>,
    columns: Seq<String>,
    msgs: Seq<MatchDataMessage>,
    captured_at: Seq<char>,
) -> Map<(u8, Seq<char>), MatchState>
    decreases msgs.len(),
{
    if msgs.len() == 0 {
        m
    } else {
        apply_spec(apply_all(m, columns, msgs.drop_last(), captured_at), columns, msgs.last(), captured_at).0
    }
}

/// The column-wise last-writer-wins merge of the stats of every WriteStats
/// in `msgs`.
pub open spec fn merged_stats(msgs: Seq<MatchDataMessage>) -> Map<Seq<char>, serde_json::Value>
    decreases msgs.len(),
{
    if msgs.len() == 0 {
        Map::empty()
    } else {
        match msgs.last() {
            MatchDataMessage::WriteStats { stats, .. } => merged_stats(msgs.drop_last()).union_prefer_right(
                stats_map(stats@),
            ),
            _ => merged_stats(msgs.drop_last()),
        }
    }
}

/// Whether some WriteStats or WriteEvents for `k` in the run was applied.
pub open spec fn written(
    m: Map<(u8, Seq<char>), MatchState>,
    columns: Seq<String>,
    msgs: Seq<MatchDataMessage>,
    captured_at: Seq<char>,
    k: (u8, Seq<char>),
) -> bool
    decreases msgs.len(),
{
    if msgs.len() == 0 {
        false
    } else {
        let last = msgs.last();
        written(m, columns, msgs.drop_last(), captured_at, k) || {
            &&& last.key() == k
            &&& (last is WriteStats || last is WriteEvents)
            &&& apply_spec(apply_all(m, columns, msgs.drop_last(), captured_at), columns, last, captured_at).1 is Ok
        }
    }
}

/// Stats writes accumulate: after any run of accepted WriteStats to one
/// open match, its summary is the match's earlier summary overridden,
/// column by column, by the last value written to each column, however the
/// columns were split across messages. The match stays open.
pub proof fn lemma_stats_last_writer_wins(
    m: Map<(u8, Seq<char>), MatchState>,
    columns: Seq<String>,
    msgs: Seq<MatchDataMessage>,
    captured_at: Seq<char>,
    k: (u8, Seq<char>),
)
    requires
        current_or_fresh(m, k).in_progress,
        forall|i: int| 0 <= i < msgs.len() ==> {
            &&& (#[trigger] msgs[i]).key() == k
            &&& msgs[i] matches MatchDataMessage::WriteStats { stats, .. } && all_declared(columns, stats@)
        },
    ensures
        current_or_fresh(apply_all(m, columns, msgs, captured_at), k).in_progress,
        msgs.len() > 0 ==> apply_all(m, columns, msgs, captured_at).contains_key(k),
        current_or_fresh(apply_all(m, columns, msgs, captured_at), k).stats
            == current_or_fresh(m, k).stats.union_prefer_right(merged_stats(msgs)),
    decreases msgs.len(),
{
    if msgs.len() == 0 {
        assert(current_or_fresh(m, k).stats.union_prefer_right(Map::empty()) =~= current_or_fresh(m, k).stats);
    } else {
        let init = msgs.drop_last();
        assert forall|i: int| 0 <= i < init.len() implies {
            &&& (#[trigger] init[i]).key() == k
            &&& init[i] matches MatchDataMessage::WriteStats { stats, .. } && all_declared(columns, stats@)
        } by {
            assert(init[i] == msgs[i]);
        }
        lemma_stats_last_writer_wins(m, columns, init, captured_at, k);
        let last = msgs[msgs.len() - 1];
        assert(last.key() == k);
        let base = current_or_fresh(m, k).stats;
        let prev = merged_stats(init);
        if let MatchDataMessage::WriteStats { stats, .. } = last {
            let s = stats_map(stats@);
            assert(base.union_prefer_right(prev).union_prefer_right(s) =~= base.union_prefer_right(
                prev.union_prefer_right(s),
            ));
        }
    }
}

/// Splitting the fields of one stats write over two writes, in the same
/// order, gives the same summary: the fields of `a` then `b` in one batch
/// denote the merge of `a`'s summary with `b`'s overriding it.
pub proof fn lemma_batching_irrelevant(a: Seq<StatField>, b: Seq<StatField>)
    ensures
        stats_map(a + b) == stats_map(a).union_prefer_right(stats_map(b)),
    decreases b.len(),
{
    if b.len() == 0 {
        assert(a + b =~= a);
        assert(stats_map(a).union_prefer_right(stats_map(b)) =~= stats_map(a));
    } else {
        lemma_batching_irrelevant(a, b.drop_last());
        assert((a + b).drop_last() =~= a + b.drop_last());
        assert(field_pairs(a + b).drop_last() =~= field_pairs(a + b.drop_last()));
        assert(field_pairs(b).drop_last() =~= field_pairs(b.drop_last()));
        assert(stats_map(a + b) =~= stats_map(a).union_prefer_right(stats_map(b)));
    }
}

/// The timeline records every change: an accepted message either leaves the
/// matches as they were, or changes only its own match, whose timeline grows
/// and ends in a statistic entry holding the stat fields the message wrote.
pub proof fn lemma_change_leaves_statistic_entry(
    m: Map<(u8, Seq<char>), MatchState>,
    columns: Seq<String>,
    msg: MatchDataMessage,
    captured_at: Seq<char>,
)
    ensures
        ({
            let k = msg.key();
            let (after, r) = apply_spec(m, columns, msg, captured_at);
            r is Ok && after != m ==> {
                &&& after == m.insert(k, after[k])
                &&& after[k].timeline.len() > current_or_fresh(m, k).timeline.len()
                &&& after[k].timeline.subrange(0, current_or_fresh(m, k).timeline.len() as int)
                    == current_or_fresh(m, k).timeline
                &&& after[k].timeline.last().entry_type == "statistic"@
                &&& after[k].timeline.last().entry_key == "stats"@
                &&& after[k].timeline.last().captured_at == captured_at
            }
        }),
{
    let k = msg.key();
    let (after, r) = apply_spec(m, columns, msg, captured_at);
    if r is Ok && after != m {
        let old_tl = current_or_fresh(m, k).timeline;
        let n = old_tl.len() as int;
        assert(after[k].timeline.subrange(0, n) =~= old_tl);
        assert(after =~= m.insert(k, after[k]));
    }
}

/// A WriteStats that sets no match attributes.
pub open spec fn stats_only(subpack: u8, external_match_id: String, stats: Vec<StatField>) -> MatchDataMessage {
    MatchDataMessage::WriteStats { subpack, external_match_id, played_at: None, duration_secs: None, result: None, stats }
}

/// Batching does not matter across messages either: one stats write of the
/// fields `a` then `b` leaves the same summary as a write of `a` followed by
/// a write of `b`.
pub proof fn lemma_one_write_or_two(
    m: Map<(u8, Seq<char>), MatchState>,
    columns: Seq<String>,
    subpack: u8,
    external_match_id: String,
    a: Vec<StatField>,
    b: Vec<StatField>,
    ab: Vec<StatField>,
    captured_at: Seq<char>,
)
    requires
        ab@ == a@ + b@,
        all_declared(columns, a@),
        all_declared(columns, b@),
        current_or_fresh(m, (subpack, external_match_id@)).in_progress,
    ensures
        ({
            let k = (subpack, external_match_id@);
            let wa = stats_only(subpack, external_match_id, a);
            let wb = stats_only(subpack, external_match_id, b);
            let wab = stats_only(subpack, external_match_id, ab);
            let one = apply_spec(m, columns, wab, captured_at);
            let first = apply_spec(m, columns, wa, captured_at);
            let two = apply_spec(first.0, columns, wb, captured_at);
            &&& one.1 is Ok && first.1 is Ok && two.1 is Ok
            &&& one.0[k].stats == two.0[k].stats
        }),
{
    let k = (subpack, external_match_id@);
    assert(all_declared(columns, ab@)) by {
        assert forall|j: int| 0 <= j < ab@.len() implies declared(columns, #[trigger] ab@[j].column@) by {
            if j < a@.len() {
                assert(ab@[j] == a@[j]);
            } else {
                assert(ab@[j] == b@[j - a@.len()]);
            }
        }
    }
    lemma_batching_irrelevant(a@, b@);
    let base = current_or_fresh(m, k).stats;
    assert(base.union_prefer_right(stats_map(a@)).union_prefer_right(stats_map(b@)) =~= base.union_prefer_right(
        stats_map(a@).union_prefer_right(stats_map(b@)),
    ));
}

/// WriteEvents records a batch whole and in order, or not at all: when
/// accepted, the match's timeline is its earlier timeline followed by one
/// entry per event in the order given, then the statistic entry with an
/// empty delta; when any event of the batch is invalid, nothing changes.
pub proof fn lemma_events_in_order_or_none(
    m: Map<(u8, Seq<char>), MatchState>,
    columns: Seq<String>,
    subpack: u8,
    external_match_id: String,
    events: Vec<GameEvent>,
    captured_at: Seq<char>,
)
    ensures
        ({
            let k = (subpack, external_match_id@);
            let (after, r) = apply_spec(
                m,
                columns,
                MatchDataMessage::WriteEvents { subpack, external_match_id, events },
                captured_at,
            );
            &&& !all_valid(events@) ==> after == m
            &&& r is Ok ==> after[k].timeline == (current_or_fresh(m, k).timeline + event_entries(
                events@,
                captured_at,
            )).push(stat_entry(Seq::empty(), captured_at))
            &&& r is Err ==> after == m
        }),
{
}

/// Applying the same SetComplete twice leaves the matches as applying it
/// once does.
pub proof fn lemma_set_complete_idempotent(
    m: Map<(u8, Seq<char>), MatchState>,
    columns: Seq<String>,
    msg: MatchDataMessage,
    captured_at: Seq<char>,
)
    requires
        msg is SetComplete,
    ensures
        apply_spec(apply_spec(m, columns, msg, captured_at).0, columns, msg, captured_at).0
            == apply_spec(m, columns, msg, captured_at).0,
{
}

/// Once a match is completed from the api, a live fallback SetComplete
/// changes nothing, whatever final stats it carries.
pub proof fn lemma_api_not_overridden_by_fallback(
    m: Map<(u8, Seq<char>), MatchState>,
    columns: Seq<String>,
    msg: MatchDataMessage,
    captured_at: Seq<char>,
)
    requires
        msg matches MatchDataMessage::SetComplete { summary_source, .. } && summary_source@ == "live_fallback"@,
        m.contains_key(msg.key()),
        !m[msg.key()].in_progress,
        m[msg.key()].source == Some(SummarySource::Api),
    ensures
        apply_spec(m, columns, msg, captured_at) == (m, Ok::<(), crate::store::WriteError>(())),
{
    reveal_strlit("live_fallback");
    reveal_strlit("api");
}

/// An api SetComplete on a match completed from the live fallback goes
/// through: its final stats override the summary and the source becomes api.
pub proof fn lemma_api_overrides_fallback(
    m: Map<(u8, Seq<char>), MatchState>,
    columns: Seq<String>,
    msg: MatchDataMessage,
    captured_at: Seq<char>,
)
    requires
        msg matches MatchDataMessage::SetComplete { summary_source, final_stats, .. } && summary_source@ == "api"@ && (
        final_stats matches Some(fs) && all_declared(columns, fs@)),
        m.contains_key(msg.key()),
        !m[msg.key()].in_progress,
        m[msg.key()].source == Some(SummarySource::LiveFallback),
    ensures
        apply_spec(m, columns, msg, captured_at).1 is Ok,
        msg matches MatchDataMessage::SetComplete { final_stats: Some(fs), .. } &&
            apply_spec(m, columns, msg, captured_at).0[msg.key()].stats == m[msg.key()].stats.union_prefer_right(stats_map(fs@)),
        apply_spec(m, columns, msg, captured_at).0[msg.key()].source == Some(SummarySource::Api),
        !apply_spec(m, columns, msg, captured_at).0[msg.key()].in_progress,
{
}

/// Only an accepted WriteStats or WriteEvents creates a match; nothing
/// removes one.
pub proof fn lemma_presence_step(
    m: Map<(u8, Seq<char>), MatchState>,
    columns: Seq<String>,
    msg: MatchDataMessage,
    captured_at: Seq<char>,
    k: (u8, Seq<char>),
)
    ensures
        apply_spec(m, columns, msg, captured_at).0.contains_key(k) <==> (m.contains_key(k) || {
            &&& msg.key() == k
            &&& (msg is WriteStats || msg is WriteEvents)
            &&& apply_spec(m, columns, msg, captured_at).1 is Ok
        }),
{
}

/// Starting from an empty store, a timeline request finds nothing (found is
/// false and no entries) exactly when no WriteStats or WriteEvents for that
/// match was ever accepted.
pub proof fn lemma_found_iff_written(
    columns: Seq<String>,
    msgs: Seq<MatchDataMessage>,
    captured_at: Seq<char>,
    req: GetMatchTimelineRequest,
)
    ensures
        ({
            let (found, entries) = timeline_spec(apply_all(Map::empty(), columns, msgs, captured_at), req);
            !found && entries.len() == 0
        }) <==> !written(Map::empty(), columns, msgs, captured_at, (req.subpack, req.external_match_id@)),
{
    lemma_presence_run(Map::empty(), columns, msgs, captured_at, (req.subpack, req.external_match_id@));
}

/// Over a run, a match is present at the end exactly when it was present at
/// the start or some write for it was accepted.
pub proof fn lemma_presence_run(
    m: Map<(u8, Seq<char>), MatchState>,
    columns: Seq<String>,
    msgs: Seq<MatchDataMessage>,
    captured_at: Seq<char>,
    k: (u8, Seq<char>),
)
    ensures
        apply_all(m, columns, msgs, captured_at).contains_key(k) <==> (m.contains_key(k) || written(
            m,
            columns,
            msgs,
            captured_at,
            k,
        )),
    decreases msgs.len(),
{
    if msgs.len() > 0 {
        lemma_presence_run(m, columns, msgs.drop_last(), captured_at, k);
        lemma_presence_step(apply_all(m, columns, msgs.drop_last(), captured_at), columns, msgs.last(), captured_at, k);
    }
}

} // verus!
