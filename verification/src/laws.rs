//! Properties of the node's transitions that span several steps.
use vstd::prelude::*;

use crate::node::{
    append_entries_spec, append_request_spec, append_response_spec, append_step,
    append_to_log_spec, apply_entry, apply_range, apply_spec, candidate_log_ok, candidate_spec,
    commit_all_spec, commit_ok, commit_target, count_at_least, follower_spec, initial_spec,
    leader_spec, merge_entries, next_index_for, node_wf, persistent_spec, prev_matches,
    restore_spec, step_down_spec, vote_request_spec, vote_spec, EntryView, LeaderView, NodeRole, NodeView,
    PersistentView,
};
use crate::cli::{collect_peers, parse_peers_spec, peer_entry_spec};
use crate::election::acknowledged_spec;
use crate::text::{
    decimal_spec, is_digit, lemma_decimal_digits, lemma_first_index, lemma_no_index,
    lemma_parse_decimal_u16, lemma_parse_set_command, set_command_spec, split_spec,
};

verus! {

// ------------------------------------------------------------------
// Terms and votes
// ------------------------------------------------------------------

/// A node's term never goes down when it answers a vote request or an
/// append request.
pub proof fn law_terms_never_decrease(
    v: NodeView,
    sender_id: Seq<char>,
    term: u64,
    index: usize,
    index_term: u64,
    entries: Seq<EntryView>,
    commit: usize,
)
    ensures
        vote_spec(v, sender_id, term, index, index_term).0.current_term >= v.current_term,
        append_entries_spec(v, term, index, index_term, entries, commit).0.current_term
            >= v.current_term,
{
}

/// A request from an older term is refused and leaves the node as it was.
pub proof fn law_stale_requests_refused(
    v: NodeView,
    sender_id: Seq<char>,
    term: u64,
    index: usize,
    index_term: u64,
    entries: Seq<EntryView>,
    commit: usize,
)
    requires
        term < v.current_term,
    ensures
        vote_spec(v, sender_id, term, index, index_term) == (v, false),
        append_entries_spec(v, term, index, index_term, entries, commit) == (v, false),
{
}

/// Once a node has granted its vote in a term, a vote request from
/// another candidate in that same term is refused.
pub proof fn law_one_vote_per_term(
    v: NodeView,
    first: Seq<char>,
    second: Seq<char>,
    term: u64,
    first_index: usize,
    first_index_term: u64,
    second_index: usize,
    second_index_term: u64,
)
    requires
        vote_spec(v, first, term, first_index, first_index_term).1,
        first != second,
    ensures
        !vote_spec(
            vote_spec(v, first, term, first_index, first_index_term).0,
            second,
            term,
            second_index,
            second_index_term,
        ).1,
{
}

/// Within one term a vote, once given, stays: neither a vote request nor
/// an append request that leaves the term as it is changes whom the node
/// voted for, so it refuses every other candidate of that term.
pub proof fn law_vote_kept_within_term(
    v: NodeView,
    voted: Seq<char>,
    sender_id: Seq<char>,
    other: Seq<char>,
    term: u64,
    index: usize,
    index_term: u64,
    entries: Seq<EntryView>,
    commit: usize,
)
    requires
        v.voted_for == Some(voted),
        other != voted,
    ensures
        vote_spec(v, sender_id, term, index, index_term).0.current_term == v.current_term
            ==> vote_spec(v, sender_id, term, index, index_term).0.voted_for == Some(voted),
        append_entries_spec(v, term, index, index_term, entries, commit).0.current_term
            == v.current_term ==> append_entries_spec(
            v,
            term,
            index,
            index_term,
            entries,
            commit,
        ).0.voted_for == Some(voted),
        !vote_spec(v, other, v.current_term, index, index_term).1,
{
}

/// A granted vote goes to a candidate whose log is at least as up to date
/// as the voter's, and leaves the voter in the candidate's term with its
/// vote recorded.
pub proof fn law_granted_vote_requires_up_to_date_log(
    v: NodeView,
    candidate: Seq<char>,
    term: u64,
    last_index: usize,
    last_term: u64,
)
    requires
        vote_spec(v, candidate, term, last_index, last_term).1,
    ensures
        candidate_log_ok(v.log, last_index, last_term),
        vote_spec(v, candidate, term, last_index, last_term).0.current_term == term,
        vote_spec(v, candidate, term, last_index, last_term).0.voted_for == Some(candidate),
{
}

// ------------------------------------------------------------------
// Appending entries
// ------------------------------------------------------------------

/// Placing entries after a position inside the log keeps everything up to
/// that position, and leaves each new entry's term at its place.
pub proof fn law_merge_places_entries(log: Seq<EntryView>, prev: int, entries: Seq<EntryView>)
    requires
        0 <= prev < log.len(),
    ensures
        merge_entries(log, prev, entries).len() >= prev + 1 + entries.len(),
        merge_entries(log, prev, entries).take(prev + 1) == log.take(prev + 1),
        forall|k: int|
            0 <= k < entries.len() ==> #[trigger] merge_entries(log, prev, entries)[prev + 1
                + k].term == entries[k].term,
    decreases entries.len(),
{
    if entries.len() > 0 {
        let es = entries.drop_last();
        law_merge_places_entries(log, prev, es);
        let r0 = merge_entries(log, prev, es);
        let i = prev + entries.len();
        let e = entries.last();
        let r = merge_entries(log, prev, entries);
        assert(r == append_step(r0, i, e));
        assert(r.take(prev + 1) =~= r0.take(prev + 1));
        assert forall|k: int| 0 <= k < entries.len() implies #[trigger] r[prev + 1 + k].term
            == entries[k].term by {
            if k < entries.len() - 1 {
                assert(es[k] == entries[k]);
                assert(r[prev + 1 + k] == r0[prev + 1 + k]);
            }
        }
    }
}

/// Placing entries whose terms already stand at their places changes
/// nothing.
pub proof fn lemma_merge_identity(log: Seq<EntryView>, prev: int, entries: Seq<EntryView>)
    requires
        0 <= prev,
        log.len() >= prev + 1 + entries.len(),
        forall|k: int| 0 <= k < entries.len() ==> #[trigger] log[prev + 1 + k].term == entries[k].term,
    ensures
        merge_entries(log, prev, entries) == log,
    decreases entries.len(),
{
    if entries.len() > 0 {
        let es = entries.drop_last();
        assert forall|k: int| 0 <= k < es.len() implies #[trigger] log[prev + 1 + k].term
            == es[k].term by {
            assert(es[k] == entries[k]);
            assert(log[prev + 1 + k].term == entries[k].term);
        }
        lemma_merge_identity(log, prev, es);
        let k = entries.len() - 1;
        assert(log[prev + 1 + k].term == entries[k].term);
    }
}

/// Placing entries into a log that does not reach the first new position
/// appends them all.
pub proof fn lemma_merge_appends(log: Seq<EntryView>, prev: int, entries: Seq<EntryView>)
    requires
        0 <= prev,
        log.len() <= prev + 1,
    ensures
        merge_entries(log, prev, entries) == log + entries,
    decreases entries.len(),
{
    if entries.len() > 0 {
        lemma_merge_appends(log, prev, entries.drop_last());
        assert(log + entries.drop_last() + seq![entries.last()] =~= log + entries);
    } else {
        assert(log + entries =~= log);
    }
}

/// Applying nothing leaves the store as it is.
pub proof fn lemma_apply_range_empty(
    kv: Map<Seq<char>, Seq<char>>,
    log: Seq<EntryView>,
    from: int,
    to: int,
)
    requires
        from >= to,
    ensures
        apply_range(kv, log, from, to) == kv,
{
}

/// Applying twice what is committed is applying it once.
pub proof fn law_apply_idempotent(v: NodeView)
    ensures
        apply_spec(apply_spec(v)) == apply_spec(v),
{
    let a = apply_spec(v);
    lemma_apply_range_empty(a.kv, a.log, a.last_applied as int, a.commit_index as int);
}

/// Delivering the same append request twice leaves the node as delivering
/// it once, and gets the same answer; except when the node's log is empty,
/// the previous index is 0 and there are entries, where the first delivery
/// puts the entries one place lower than the second expects.
pub proof fn law_append_entries_idempotent(
    v: NodeView,
    leader_term: u64,
    prev: usize,
    prev_term: u64,
    entries: Seq<EntryView>,
    leader_commit: usize,
)
    requires
        !(v.log.len() == 0 && prev == 0 && entries.len() > 0),
    ensures
        append_entries_spec(
            append_entries_spec(v, leader_term, prev, prev_term, entries, leader_commit).0,
            leader_term,
            prev,
            prev_term,
            entries,
            leader_commit,
        ) == append_entries_spec(v, leader_term, prev, prev_term, entries, leader_commit),
{
    let (v1, ok1) = append_entries_spec(v, leader_term, prev, prev_term, entries, leader_commit);
    if leader_term < v.current_term {
        return ;
    }
    let f = step_down_spec(v, leader_term);
    if !prev_matches(f.log, prev, prev_term) {
        assert(step_down_spec(v1, leader_term) == v1);
        return ;
    }
    let g = NodeView { log: merge_entries(f.log, prev as int, entries), ..f };
    if entries.len() > 0 {
        law_merge_places_entries(f.log, prev as int, entries);
        lemma_merge_identity(g.log, prev as int, entries);
        assert(g.log[prev as int] == g.log.take(prev + 1)[prev as int]);
        assert(f.log[prev as int] == f.log.take(prev + 1)[prev as int]);
    } else {
        assert(g.log == f.log);
    }
    assert(prev_matches(g.log, prev, prev_term));
    assert(merge_entries(g.log, prev as int, entries) == g.log);
    assert(step_down_spec(v1, leader_term) == v1);
    if leader_commit > g.commit_index {
        law_apply_idempotent(
            NodeView {
                commit_index: if (leader_commit as int) < g.log.len() {
                    leader_commit
                } else {
                    g.log.len() as usize
                },
                ..g
            },
        );
    }
}

/// A follower that holds exactly the leader's log up to the peer's next
/// index, and is in no later term than the leader, accepts the leader's
/// request to that peer and ends with the leader's log, and its reply
/// counts, for the leader, as holding the whole log; provided the next
/// index lies within the leader's log (which, being a vector's, fits the
/// machine's index range).
pub proof fn law_follower_with_prefix_catches_up(f: NodeView, m: NodeView, peer: int)
    requires
        node_wf(m),
        m.leader is Some ==> 0 <= peer < m.peers.len(),
        0 <= next_index_for(m, peer) <= m.log.len(),
        m.log.len() <= usize::MAX,
        f.log == m.log.take(next_index_for(m, peer)),
        f.current_term <= m.current_term,
    ensures
        ({
            let r = append_request_spec(m, peer);
            let (g, ok) = append_entries_spec(
                f,
                r.term,
                r.prev_log_index,
                r.prev_log_term,
                r.entries,
                r.leader_commit,
            );
            &&& ok
            &&& g.log == m.log
            &&& acknowledged_spec(r.prev_log_index, r.entries.len() as usize, g.log.len() as usize)
                == m.log.len()
        }),
{
    let next = next_index_for(m, peer);
    let r = append_request_spec(m, peer);
    let s = step_down_spec(f, r.term);
    if next > 0 {
        assert(s.log[next - 1] == m.log[next - 1]);
    }
    assert(prev_matches(s.log, r.prev_log_index, r.prev_log_term));
    lemma_merge_appends(s.log, r.prev_log_index as int, r.entries);
    assert(m.log.take(next) + m.log.skip(next) =~= m.log);
}

// ------------------------------------------------------------------
// Writes and reads
// ------------------------------------------------------------------

/// Applying a range that ends at `to` applies the entry at `to - 1` last.
pub proof fn lemma_apply_range_last(
    kv: Map<Seq<char>, Seq<char>>,
    log: Seq<EntryView>,
    from: int,
    to: int,
)
    requires
        from < to,
    ensures
        apply_range(kv, log, from, to) == apply_entry(apply_range(kv, log, from, to - 1), log, to - 1),
    decreases to - from,
{
    let kv1 = apply_entry(kv, log, from);
    assert(apply_range(kv, log, from, to) == apply_range(kv1, log, from + 1, to));
    if from + 1 < to {
        lemma_apply_range_last(kv1, log, from + 1, to);
        assert(apply_range(kv, log, from, to - 1) == apply_range(kv1, log, from + 1, to - 1));
    } else {
        assert(apply_range(kv1, log, from + 1, to) == kv1);
        assert(apply_range(kv, log, from, to - 1) == kv);
    }
}

/// A write appended by the leader and committed is what a read of its key
/// returns, provided the key holds no `=` (the command format splits at
/// the first `=`) and no applied position lies past the log.
pub proof fn law_committed_write_is_read(v: NodeView, key: Seq<char>, value: Seq<char>)
    requires
        v.role == NodeRole::Leader,
        v.last_applied <= v.log.len(),
        v.log.len() < usize::MAX,
        !key.contains('='),
    ensures
        ({
            let w = commit_all_spec(append_to_log_spec(v, set_command_spec(key, value)));
            &&& w.role == NodeRole::Leader
            &&& w.kv.contains_key(key)
            &&& w.kv[key] == value
            &&& w.last_applied == w.commit_index
            &&& w.commit_index == w.log.len()
        }),
{
    let a = append_to_log_spec(v, set_command_spec(key, value));
    let c = NodeView { commit_index: a.log.len() as usize, ..a };
    lemma_parse_set_command(key, value);
    lemma_apply_range_last(c.kv, c.log, c.last_applied as int, c.commit_index as int);
}

/// Placing entries never makes the log longer than the old log or the
/// position after the last new entry.
pub proof fn lemma_merge_len_bound(log: Seq<EntryView>, prev: int, entries: Seq<EntryView>)
    requires
        0 <= prev,
    ensures
        merge_entries(log, prev, entries).len() <= log.len() || merge_entries(
            log,
            prev,
            entries,
        ).len() <= prev + entries.len() + 1,
    decreases entries.len(),
{
    if entries.len() > 0 {
        lemma_merge_len_bound(log, prev, entries.drop_last());
    }
}

/// When the log does not reach past the last new position, the last new
/// entry ends the log.
pub proof fn lemma_merge_ends_with_last(log: Seq<EntryView>, prev: int, entries: Seq<EntryView>)
    requires
        0 <= prev,
        entries.len() > 0,
        log.len() <= prev + entries.len(),
    ensures
        merge_entries(log, prev, entries) == merge_entries(log, prev, entries.drop_last()).push(
            entries.last(),
        ),
{
    lemma_merge_len_bound(log, prev, entries.drop_last());
}

/// A follower that accepts an append request whose last entry writes
/// `value` under `key`, and whose commit index covers its whole new log,
/// reads `value` under `key` afterwards; provided the key holds no `=`,
/// the follower's log does not reach past the last new position, and it
/// had not yet applied that far.
pub proof fn law_replicated_write_is_read(
    v: NodeView,
    leader_term: u64,
    prev: usize,
    prev_term: u64,
    entries: Seq<EntryView>,
    leader_commit: usize,
    key: Seq<char>,
    value: Seq<char>,
)
    requires
        leader_term >= v.current_term,
        prev_matches(v.log, prev, prev_term),
        entries.len() > 0,
        entries.last().command == set_command_spec(key, value),
        !key.contains('='),
        v.log.len() <= prev + entries.len(),
        leader_commit > v.commit_index,
        leader_commit >= merge_entries(v.log, prev as int, entries).len(),
        v.last_applied < merge_entries(v.log, prev as int, entries).len(),
    ensures
        append_entries_spec(v, leader_term, prev, prev_term, entries, leader_commit).1,
        append_entries_spec(v, leader_term, prev, prev_term, entries, leader_commit).0.kv.contains_key(
            key,
        ),
        append_entries_spec(v, leader_term, prev, prev_term, entries, leader_commit).0.kv[key]
            == value,
{
    let f = step_down_spec(v, leader_term);
    let merged = merge_entries(f.log, prev as int, entries);
    lemma_merge_ends_with_last(f.log, prev as int, entries);
    let g = NodeView { log: merged, ..f };
    let c = NodeView { commit_index: merged.len() as usize, ..g };
    lemma_parse_set_command(key, value);
    lemma_apply_range_last(c.kv, c.log, c.last_applied as int, c.commit_index as int);
    assert(merged[merged.len() - 1] == entries.last());
}

/// Once the leader's last entry, written in its current term, is held by
/// a majority (the peer that just acknowledged it included), the leader
/// commits its whole log and reads the write back; provided the key holds
/// no `=` and the entry was neither committed nor applied before.
pub proof fn law_acknowledged_write_is_read(
    v: NodeView,
    peer: int,
    follower_log_len: usize,
    key: Seq<char>,
    value: Seq<char>,
)
    requires
        node_wf(v),
        v.leader is Some,
        0 <= peer < v.peers.len(),
        v.log.len() > 0,
        v.log.len() <= usize::MAX,
        v.log.last() == (EntryView {
            term: v.current_term,
            command: set_command_spec(key, value),
        }),
        !key.contains('='),
        count_at_least(v.leader->0.replicated.update(peer, follower_log_len), v.log.len() as int)
            + 1 >= (v.peers.len() + 1) / 2 + 1,
        v.commit_index < v.log.len(),
        v.last_applied < v.log.len(),
    ensures
        ({
            let w = append_response_spec(v, peer, true, follower_log_len);
            &&& w.commit_index == v.log.len()
            &&& w.last_applied == v.log.len()
            &&& w.kv.contains_key(key)
            &&& w.kv[key] == value
        }),
{
    let l = v.leader->0;
    let l1 = LeaderView {
        next_index: l.next_index.update(peer, follower_log_len),
        match_index: l.match_index.update(
            peer,
            if follower_log_len > 0 {
                (follower_log_len - 1) as usize
            } else {
                0usize
            },
        ),
        replicated: l.replicated.update(peer, follower_log_len),
    };
    let u = NodeView { leader: Some(l1), ..v };
    let n = v.log.len() as int;
    assert(commit_ok(u.log, u.current_term, u.peers.len(), l1.replicated, n));
    assert(commit_target(u.log, u.current_term, u.peers.len(), l1.replicated, u.commit_index as int, n)
        == n);
    let c = NodeView { commit_index: n as usize, ..u };
    lemma_parse_set_command(key, value);
    lemma_apply_range_last(c.kv, c.log, c.last_applied as int, c.commit_index as int);
}

// ------------------------------------------------------------------
// Counters and roles
// ------------------------------------------------------------------

/// The election count starts at 0 and only becoming a candidate changes
/// it, by one; every other transition keeps it.
pub proof fn law_election_count_changes_only_on_candidacy(
    v: NodeView,
    id: Seq<char>,
    peers: Seq<(Seq<char>, u16)>,
    sender_id: Seq<char>,
    term: u64,
    index: usize,
    index_term: u64,
    entries: Seq<EntryView>,
    commit: usize,
    peer: int,
    success: bool,
    command: Seq<char>,
    saved: PersistentView,
)
    requires
        v.election_count < u64::MAX,
    ensures
        initial_spec(id, peers).election_count == 0,
        candidate_spec(v).election_count == v.election_count + 1,
        follower_spec(v, term).election_count == v.election_count,
        leader_spec(v).election_count == v.election_count,
        vote_spec(v, sender_id, term, index, index_term).0.election_count == v.election_count,
        append_entries_spec(v, term, index, index_term, entries, commit).0.election_count
            == v.election_count,
        append_response_spec(v, peer, success, index).election_count == v.election_count,
        apply_spec(v).election_count == v.election_count,
        append_to_log_spec(v, command).election_count == v.election_count,
        commit_all_spec(v).election_count == v.election_count,
        restore_spec(v, saved).election_count == v.election_count,
{
}

/// A leader stays leader until it steps down: a vote request of a higher
/// term, an append request of its term or a higher one, or stepping down
/// or campaigning ends its lead; a vote request of its term or an older
/// one, an append request of an older term, a peer's answer, applying,
/// appending, committing and restoring keep it.
pub proof fn law_leadership_lasts_until_step_down(
    v: NodeView,
    sender_id: Seq<char>,
    term: u64,
    index: usize,
    index_term: u64,
    entries: Seq<EntryView>,
    commit: usize,
    peer: int,
    success: bool,
    command: Seq<char>,
    saved: PersistentView,
)
    requires
        v.role == NodeRole::Leader,
    ensures
        term <= v.current_term ==> vote_spec(v, sender_id, term, index, index_term).0.role
            == NodeRole::Leader,
        term > v.current_term ==> vote_spec(v, sender_id, term, index, index_term).0.role
            == NodeRole::Follower,
        term < v.current_term ==> append_entries_spec(
            v,
            term,
            index,
            index_term,
            entries,
            commit,
        ).0.role == NodeRole::Leader,
        term >= v.current_term ==> append_entries_spec(
            v,
            term,
            index,
            index_term,
            entries,
            commit,
        ).0.role == NodeRole::Follower,
        follower_spec(v, term).role == NodeRole::Follower,
        candidate_spec(v).role == NodeRole::Candidate,
        append_response_spec(v, peer, success, index).role == NodeRole::Leader,
        apply_spec(v).role == NodeRole::Leader,
        append_to_log_spec(v, command).role == NodeRole::Leader,
        commit_all_spec(v).role == NodeRole::Leader,
        restore_spec(v, saved).role == NodeRole::Leader,
{
}

// ------------------------------------------------------------------
// Persistence
// ------------------------------------------------------------------

/// Restoring what was saved gives back the saved term, vote and log, and
/// restoring a node's own saved state changes nothing.
pub proof fn law_restore_saved_state(v: NodeView, w: NodeView)
    ensures
        persistent_spec(restore_spec(w, persistent_spec(v))) == persistent_spec(v),
        restore_spec(v, persistent_spec(v)) == v,
{
}

/// A node restarted from a saved state rejoins as a follower that leads
/// nothing, has committed and applied nothing, and holds the saved term,
/// vote and log.
pub proof fn law_restart_rejoins_as_follower(
    id: Seq<char>,
    peers: Seq<(Seq<char>, u16)>,
    saved: PersistentView,
)
    ensures
        restore_spec(initial_spec(id, peers), saved).role == NodeRole::Follower,
        restore_spec(initial_spec(id, peers), saved).leader is None,
        restore_spec(initial_spec(id, peers), saved).commit_index == 0,
        restore_spec(initial_spec(id, peers), saved).last_applied == 0,
        persistent_spec(restore_spec(initial_spec(id, peers), saved)) == saved,
{
}

// ------------------------------------------------------------------
// Peer lists
// ------------------------------------------------------------------

/// A peer written as `host:port`.
pub open spec fn peer_text(p: (Seq<char>, u16)) -> Seq<char> {
    p.0 + seq![':'] + decimal_spec(p.1 as nat)
}

/// Peers written as a comma-separated list.
pub open spec fn join_peers(ps: Seq<(Seq<char>, u16)>) -> Seq<char>
    decreases ps.len(),
{
    if ps.len() == 0 {
        Seq::empty()
    } else if ps.len() == 1 {
        peer_text(ps[0])
    } else {
        peer_text(ps[0]) + seq![','] + join_peers(ps.drop_first())
    }
}

/// Text without `c` is one piece.
pub proof fn lemma_split_none(a: Seq<char>, c: char)
    requires
        !a.contains(c),
    ensures
        split_spec(a, c) == seq![a],
{
    assert forall|j: int| 0 <= j < a.len() implies a[j] != c by {
        if a[j] == c {
            assert(a.contains(c));
        }
    }
    lemma_no_index(a, c);
}

/// Text without `c`, then `c`, then more: the first piece, then the
/// pieces of the rest.
pub proof fn lemma_split_cons(a: Seq<char>, c: char, b: Seq<char>)
    requires
        !a.contains(c),
    ensures
        split_spec(a + seq![c] + b, c) == seq![a] + split_spec(b, c),
{
    let s = a + seq![c] + b;
    assert forall|j: int| 0 <= j < a.len() implies s[j] != c by {
        assert(s[j] == a[j]);
        if a[j] == c {
            assert(a.contains(c));
        }
    }
    assert(s[a.len() as int] == c);
    lemma_first_index(s, c, a.len() as int);
    assert(s.take(a.len() as int) =~= a);
    assert(s.skip(a.len() + 1int) =~= b);
}

/// A decimal spelling holds neither `,` nor `:`.
pub proof fn lemma_decimal_plain(n: nat)
    ensures
        !decimal_spec(n).contains(','),
        !decimal_spec(n).contains(':'),
{
    lemma_decimal_digits(n);
    let d = decimal_spec(n);
    if d.contains(',') {
        let i = choose|i: int| 0 <= i < d.len() && d[i] == ',';
        assert(is_digit(d[i]));
    }
    if d.contains(':') {
        let i = choose|i: int| 0 <= i < d.len() && d[i] == ':';
        assert(is_digit(d[i]));
    }
}

/// Whether a host can be written in a peer list: it holds no `,` or `:`.
pub open spec fn plain_host(h: Seq<char>) -> bool {
    !h.contains(',') && !h.contains(':')
}

/// One written peer reads back as itself.
pub proof fn lemma_peer_round_trip(p: (Seq<char>, u16))
    requires
        plain_host(p.0),
    ensures
        peer_entry_spec(peer_text(p)) == Some(p),
        peer_text(p).len() > 0,
        !peer_text(p).contains(','),
{
    let d = decimal_spec(p.1 as nat);
    lemma_decimal_plain(p.1 as nat);
    lemma_split_cons(p.0, ':', d);
    lemma_split_none(d, ':');
    lemma_parse_decimal_u16(p.1);
    let parts = split_spec(peer_text(p), ':');
    assert(parts =~= seq![p.0, d]);
    let t = peer_text(p);
    assert(t[p.0.len() as int] == ':');
    if t.contains(',') {
        let i = choose|i: int| 0 <= i < t.len() && t[i] == ',';
        if i < p.0.len() {
            assert(t[i] == p.0[i]);
            assert(p.0.contains(','));
        } else if i > p.0.len() {
            assert(t[i] == d[i - p.0.len() - 1]);
            assert(d.contains(','));
        }
    }
}

/// The pieces of a written peer list are the written peers.
pub proof fn lemma_split_join(ps: Seq<(Seq<char>, u16)>)
    requires
        ps.len() > 0,
        forall|i: int| 0 <= i < ps.len() ==> plain_host(#[trigger] ps[i].0),
    ensures
        split_spec(join_peers(ps), ',') == ps.map_values(|p: (Seq<char>, u16)| peer_text(p)),
    decreases ps.len(),
{
    lemma_peer_round_trip(ps[0]);
    if ps.len() == 1 {
        lemma_split_none(peer_text(ps[0]), ',');
        assert(ps.map_values(|p: (Seq<char>, u16)| peer_text(p)) =~= seq![peer_text(ps[0])]);
    } else {
        let rest = ps.drop_first();
        assert forall|i: int| 0 <= i < rest.len() implies plain_host(#[trigger] rest[i].0) by {
            assert(rest[i] == ps[i + 1]);
        }
        lemma_split_join(rest);
        lemma_split_cons(peer_text(ps[0]), ',', join_peers(rest));
        assert(ps.map_values(|p: (Seq<char>, u16)| peer_text(p)) =~= seq![peer_text(ps[0])]
            + rest.map_values(|p: (Seq<char>, u16)| peer_text(p)));
    }
}

/// Collecting written peers gives them back.
pub proof fn lemma_collect_written(ps: Seq<(Seq<char>, u16)>)
    requires
        forall|i: int| 0 <= i < ps.len() ==> plain_host(#[trigger] ps[i].0),
    ensures
        collect_peers(ps.map_values(|p: (Seq<char>, u16)| peer_text(p))) == ps,
    decreases ps.len(),
{
    let pieces = ps.map_values(|p: (Seq<char>, u16)| peer_text(p));
    if ps.len() == 0 {
        assert(ps =~= Seq::<(Seq<char>, u16)>::empty());
    } else {
        let init = ps.drop_last();
        assert forall|i: int| 0 <= i < init.len() implies plain_host(#[trigger] init[i].0) by {
            assert(init[i] == ps[i]);
        }
        lemma_collect_written(init);
        assert(pieces.drop_last() =~= init.map_values(|p: (Seq<char>, u16)| peer_text(p)));
        lemma_peer_round_trip(ps.last());
        assert(pieces.last() == peer_text(ps.last()));
        assert(init.push(ps.last()) =~= ps);
    }
}

/// A peer list written as comma-separated `host:port` pairs parses back
/// to the same peers, in order, when no host holds `,` or `:`.
pub proof fn law_peer_list_round_trip(ps: Seq<(Seq<char>, u16)>)
    requires
        forall|i: int| 0 <= i < ps.len() ==> plain_host(#[trigger] ps[i].0),
    ensures
        parse_peers_spec(join_peers(ps)) == ps,
{
    if ps.len() == 0 {
        let e = Seq::<char>::empty();
        assert(join_peers(ps) == e);
        let pieces = split_spec(e, ',');
        lemma_split_none(e, ',');
        assert(pieces == seq![e]);
        assert(pieces.drop_last() =~= Seq::<Seq<char>>::empty());
        assert(pieces.last().len() == 0);
        assert(collect_peers(pieces.drop_last()) == Seq::<(Seq<char>, u16)>::empty());
        assert(collect_peers(pieces) == Seq::<(Seq<char>, u16)>::empty());
        assert(ps =~= Seq::<(Seq<char>, u16)>::empty());
    } else {
        lemma_split_join(ps);
        lemma_collect_written(ps);
    }
}

// ------------------------------------------------------------------
// What single calls answer
// ------------------------------------------------------------------

/// An append request of the node's term or a later one makes it a
/// follower of that term whatever it was before (a candidate that lost,
/// a leader, a follower) and takes away any leader positions, whether or
/// not the request is then accepted.
pub proof fn law_accepted_term_append_makes_follower(
    v: NodeView,
    term: u64,
    prev: usize,
    prev_term: u64,
    entries: Seq<EntryView>,
    commit: usize,
)
    requires
        term >= v.current_term,
    ensures
        append_entries_spec(v, term, prev, prev_term, entries, commit).0.role
            == NodeRole::Follower,
        append_entries_spec(v, term, prev, prev_term, entries, commit).0.current_term == term,
        append_entries_spec(v, term, prev, prev_term, entries, commit).0.leader is None,
{
}

/// Whether a peer's count reaches `n`.
pub open spec fn reaches(n: int) -> spec_fn(usize) -> bool {
    |x: usize| x >= n
}

/// The number of peers' counts in `positions` that reach `n` is the
/// length of the sequence of those counts.
pub proof fn lemma_count_at_least_filter(positions: Seq<usize>, n: int)
    ensures
        count_at_least(positions, n) == positions.filter(reaches(n)).len(),
    decreases positions.len(),
{
    reveal_with_fuel(Seq::filter, 2);
    if positions.len() > 0 {
        lemma_count_at_least_filter(positions.drop_last(), n);
    }
}

/// Looking down from `n`, the commit target is either the commit index it
/// starts from or a count no larger than `n` that `commit_ok` allows.
pub proof fn lemma_commit_target_allowed(
    log: Seq<EntryView>,
    term: u64,
    n_peers: nat,
    matched: Seq<usize>,
    commit: int,
    n: int,
)
    ensures
        commit_target(log, term, n_peers, matched, commit, n) == commit || (commit < commit_target(
            log,
            term,
            n_peers,
            matched,
            commit,
            n,
        ) <= n && commit_ok(
            log,
            term,
            n_peers,
            matched,
            commit_target(log, term, n_peers, matched, commit, n),
        )),
    decreases n - commit,
{
    if n > commit && !commit_ok(log, term, n_peers, matched, n) {
        lemma_commit_target_allowed(log, term, n_peers, matched, commit, n - 1);
    }
}

/// Whenever a peer's answer raises a leader's commit index to `c`, the
/// entry at position `c - 1` is in the log, was created in the leader's
/// current term, and is held by a majority of the cluster: the peers whose
/// known count reaches `c`, with the leader itself, are more than half of
/// the peers and the leader. An entry of an older term is thus committed
/// only together with a later entry of the current term. Everything up to
/// `c` has then been applied. (The log, being a vector's, fits the machine's
/// index range.)
pub proof fn law_commit_needs_current_term_majority(
    v: NodeView,
    peer: int,
    success: bool,
    follower_log_len: usize,
)
    requires
        node_wf(v),
        v.leader is Some ==> 0 <= peer < v.peers.len(),
        v.log.len() <= usize::MAX,
    ensures
        ({
            let w = append_response_spec(v, peer, success, follower_log_len);
            let c = w.commit_index as int;
            c > v.commit_index ==> {
                &&& w.leader is Some
                &&& 0 < c <= v.log.len()
                &&& v.log[c - 1].term == v.current_term
                &&& w.leader->0.replicated.filter(reaches(c)).len() + 1 > (v.peers.len() + 1) / 2
                &&& w.last_applied >= c
            }
        }),
{
    let w = append_response_spec(v, peer, success, follower_log_len);
    let c = w.commit_index as int;
    if c > v.commit_index {
        let l = v.leader->0;
        let r = l.replicated.update(peer, follower_log_len);
        let u = NodeView {
            leader: Some(
                LeaderView {
                    next_index: l.next_index.update(peer, follower_log_len),
                    match_index: l.match_index.update(
                        peer,
                        if follower_log_len > 0 {
                            (follower_log_len - 1) as usize
                        } else {
                            0usize
                        },
                    ),
                    replicated: r,
                },
            ),
            ..v
        };
        lemma_commit_target_allowed(
            u.log,
            u.current_term,
            u.peers.len(),
            r,
            u.commit_index as int,
            u.log.len() as int,
        );
        lemma_count_at_least_filter(r, c);
    }
}

/// A vote request of the voter's term or a later one, from a candidate the
/// voter may still vote for, is granted when the candidate's log is at
/// least as up to date: the voter's log is empty, or the candidate's last
/// entry is of a later term than the voter's (whatever its index), or of
/// the same term at an index no smaller.
pub proof fn law_vote_granted_to_up_to_date_logs(
    v: NodeView,
    candidate: Seq<char>,
    term: u64,
    last_index: usize,
    last_term: u64,
)
    requires
        term >= v.current_term,
        term > v.current_term || v.voted_for is None || v.voted_for == Some(candidate),
    ensures
        v.log.len() == 0 ==> vote_spec(v, candidate, term, last_index, last_term).1,
        v.log.len() > 0 && last_term > v.log.last().term ==> vote_spec(
            v,
            candidate,
            term,
            last_index,
            last_term,
        ).1,
        v.log.len() > 0 && last_term == v.log.last().term && last_index + 1 >= v.log.len()
            ==> vote_spec(v, candidate, term, last_index, last_term).1,
{
}

/// A vote is refused to a candidate whose log is behind the voter's: its
/// last entry is of an older term than the voter's last, or of the same
/// term at a smaller index.
pub proof fn law_vote_refused_to_older_logs(
    v: NodeView,
    candidate: Seq<char>,
    term: u64,
    last_index: usize,
    last_term: u64,
)
    requires
        v.log.len() > 0,
        last_term < v.log.last().term || (last_term == v.log.last().term && last_index + 1
            < v.log.len()),
    ensures
        !vote_spec(v, candidate, term, last_index, last_term).1,
{
}

/// A candidate's vote request names it, its term, and the index and term
/// of its last log entry (both 0 for an empty log), whatever its current
/// term: so a voter whose last entry is of a later term than the
/// candidate's last entry (than 0, for an empty log) refuses it. The log,
/// being a vector's, fits the machine's index range.
pub proof fn law_vote_request_names_last_entry(v: NodeView, voter: NodeView)
    requires
        v.log.len() <= usize::MAX,
    ensures
        vote_request_spec(v).candidate_id == v.id,
        vote_request_spec(v).candidate_term == v.current_term,
        v.log.len() > 0 ==> vote_request_spec(v).last_log_index + 1 == v.log.len()
            && vote_request_spec(v).last_log_term == v.log[v.log.len() - 1].term,
        v.log.len() == 0 ==> vote_request_spec(v).last_log_index == 0
            && vote_request_spec(v).last_log_term == 0,
        voter.log.len() > 0 && (if v.log.len() == 0 {
            voter.log.last().term > 0
        } else {
            voter.log.last().term > v.log.last().term
        }) ==> !vote_spec(
            voter,
            v.id,
            v.current_term,
            vote_request_spec(v).last_log_index,
            vote_request_spec(v).last_log_term,
        ).1,
{
}

} // verus!
