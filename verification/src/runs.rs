//! Properties of whole sequences of calls on one node: each call is one of
//! the node's transitions, and a run applies them in order.
use vstd::prelude::*;

use crate::node::{
    append_entries_spec, append_response_spec, append_to_log_spec, apply_spec, candidate_spec,
    commit_all_spec, leader_spec, vote_spec, EntryView, NodeRole, NodeView,
};

verus! {

/// One call on a node, with its arguments as the model sees them.
pub enum NodeEvent {
    /// A vote request (`handle_vote_request`).
    Vote { candidate: Seq<char>, term: u64, last_index: usize, last_term: u64 },
    /// An append request (`handle_append_entries`).
    Append { term: u64, prev: usize, prev_term: u64, entries: Seq<EntryView>, commit: usize },
    /// A peer's answer to an append request (`handle_append_response`).
    Response { peer: usize, success: bool, len: usize },
    /// Starting an election (`become_candidate`).
    Campaign,
    /// Taking the lead (`become_leader`).
    Lead,
    /// Appending a command in the current term (`append_to_log`).
    Write { command: Seq<char> },
    /// Applying what is committed (`apply_committed_entries`).
    Apply,
    /// Committing the whole log, which only a leader does (`test_commit_all`).
    CommitAll,
}

/// The node after one call.
pub open spec fn step(v: NodeView, e: NodeEvent) -> NodeView {
    match e {
        NodeEvent::Vote { candidate, term, last_index, last_term } => vote_spec(
            v,
            candidate,
            term,
            last_index,
            last_term,
        ).0,
        NodeEvent::Append { term, prev, prev_term, entries, commit } => append_entries_spec(
            v,
            term,
            prev,
            prev_term,
            entries,
            commit,
        ).0,
        NodeEvent::Response { peer, success, len } => append_response_spec(
            v,
            peer as int,
            success,
            len,
        ),
        NodeEvent::Campaign => candidate_spec(v),
        NodeEvent::Lead => leader_spec(v),
        NodeEvent::Write { command } => append_to_log_spec(v, command),
        NodeEvent::Apply => apply_spec(v),
        NodeEvent::CommitAll => if v.role == NodeRole::Leader {
            commit_all_spec(v)
        } else {
            v
        },
    }
}

/// Whether a call meets what its method requires of the node: a campaign
/// needs room for one more term and one more election, an answer to a
/// leader names one of its peers, and an append request leaves the log's
/// length within the machine's index range.
pub open spec fn allowed(v: NodeView, e: NodeEvent) -> bool {
    match e {
        NodeEvent::Append { entries, .. } => v.log.len() + entries.len() < usize::MAX,
        NodeEvent::Response { peer, .. } => v.leader is Some ==> peer < v.peers.len(),
        NodeEvent::Campaign => v.current_term < u64::MAX && v.election_count < u64::MAX,
        _ => true,
    }
}

/// The node after the calls `es`, in order.
pub open spec fn run(v: NodeView, es: Seq<NodeEvent>) -> NodeView
    decreases es.len(),
{
    if es.len() == 0 {
        v
    } else {
        step(run(v, es.drop_last()), es.last())
    }
}

/// Whether every call of `es` is allowed in the state the calls before it
/// left.
pub open spec fn run_allowed(v: NodeView, es: Seq<NodeEvent>) -> bool
    decreases es.len(),
{
    if es.len() == 0 {
        true
    } else {
        run_allowed(v, es.drop_last()) && allowed(run(v, es.drop_last()), es.last())
    }
}

/// How many calls of `es` start an election.
pub open spec fn campaigns(es: Seq<NodeEvent>) -> nat
    decreases es.len(),
{
    if es.len() == 0 {
        0
    } else {
        campaigns(es.drop_last()) + if es.last() is Campaign {
            1nat
        } else {
            0nat
        }
    }
}

/// The candidate and term a call grants a vote to, if it is a vote request
/// that the node grants.
pub open spec fn granted_vote(v: NodeView, e: NodeEvent) -> Option<(Seq<char>, u64)> {
    match e {
        NodeEvent::Vote { candidate, term, last_index, last_term } => if vote_spec(
            v,
            candidate,
            term,
            last_index,
            last_term,
        ).1 {
            Some((candidate, term))
        } else {
            None
        },
        _ => None,
    }
}

/// Whether a call leaves a leader of term `t` leading: everything but a
/// vote request of a later term, an append request of its term or a later
/// one, and a campaign.
pub open spec fn keeps_lead(e: NodeEvent, t: u64) -> bool {
    match e {
        NodeEvent::Vote { term, .. } => term <= t,
        NodeEvent::Append { term, .. } => term < t,
        NodeEvent::Campaign => false,
        _ => true,
    }
}

// ------------------------------------------------------------------
// Runs split and joined
// ------------------------------------------------------------------

/// Running the first `k + 1` calls is running the first `k`, then call `k`.
pub proof fn lemma_run_take(v: NodeView, es: Seq<NodeEvent>, k: int)
    requires
        0 <= k < es.len(),
    ensures
        run(v, es.take(k + 1)) == step(run(v, es.take(k)), es[k]),
        run_allowed(v, es.take(k + 1)) == (run_allowed(v, es.take(k)) && allowed(
            run(v, es.take(k)),
            es[k],
        )),
{
    assert(es.take(k + 1).drop_last() =~= es.take(k));
}

/// Running the first `j` calls is running the first `i`, then the calls
/// from `i` to `j`; and if the first `j` are allowed, so are those from
/// `i` to `j` after the first `i`.
pub proof fn lemma_run_split(v: NodeView, es: Seq<NodeEvent>, i: int, j: int)
    requires
        0 <= i <= j <= es.len(),
    ensures
        run(v, es.take(j)) == run(run(v, es.take(i)), es.subrange(i, j)),
        run_allowed(v, es.take(j)) ==> run_allowed(v, es.take(i)) && run_allowed(
            run(v, es.take(i)),
            es.subrange(i, j),
        ),
    decreases j - i,
{
    let w = run(v, es.take(i));
    if j == i {
        assert(es.subrange(i, j) =~= Seq::<NodeEvent>::empty());
    } else {
        lemma_run_split(v, es, i, j - 1);
        lemma_run_take(v, es, j - 1);
        assert(es.subrange(i, j).drop_last() =~= es.subrange(i, j - 1));
        assert(es.subrange(i, j).last() == es[j - 1]);
    }
}

/// A whole run is the run of all its calls taken as a prefix.
pub proof fn lemma_run_whole(v: NodeView, es: Seq<NodeEvent>)
    ensures
        run(v, es.take(es.len() as int)) == run(v, es),
        run_allowed(v, es.take(es.len() as int)) == run_allowed(v, es),
{
    assert(es.take(es.len() as int) =~= es);
}

// ------------------------------------------------------------------
// One call
// ------------------------------------------------------------------

/// An allowed call never lowers the term.
pub proof fn lemma_step_term(v: NodeView, e: NodeEvent)
    requires
        allowed(v, e),
    ensures
        step(v, e).current_term >= v.current_term,
{
}

/// An allowed call that leaves the term as it is keeps the vote.
pub proof fn lemma_step_keeps_vote(v: NodeView, e: NodeEvent, c: Seq<char>)
    requires
        allowed(v, e),
        v.voted_for == Some(c),
        step(v, e).current_term == v.current_term,
    ensures
        step(v, e).voted_for == Some(c),
{
}

// ------------------------------------------------------------------
// Laws of runs
// ------------------------------------------------------------------

/// Over any run of allowed calls, the term never goes down.
pub proof fn law_run_terms_never_decrease(v: NodeView, es: Seq<NodeEvent>)
    requires
        run_allowed(v, es),
    ensures
        run(v, es).current_term >= v.current_term,
    decreases es.len(),
{
    if es.len() > 0 {
        law_run_terms_never_decrease(v, es.drop_last());
        lemma_step_term(run(v, es.drop_last()), es.last());
    }
}

/// Over any run of allowed calls, the election count grows by one for each
/// campaign and changes at no other call.
pub proof fn law_run_election_count(v: NodeView, es: Seq<NodeEvent>)
    requires
        run_allowed(v, es),
    ensures
        run(v, es).election_count == v.election_count + campaigns(es),
    decreases es.len(),
{
    if es.len() > 0 {
        law_run_election_count(v, es.drop_last());
    }
}

/// Over any run of allowed calls that ends in the term it started in, the
/// vote given in that term stays, so every other candidate of the term is
/// refused at its end.
pub proof fn law_run_vote_kept_within_term(v: NodeView, es: Seq<NodeEvent>, c: Seq<char>)
    requires
        run_allowed(v, es),
        v.voted_for == Some(c),
        run(v, es).current_term == v.current_term,
    ensures
        run(v, es).voted_for == Some(c),
        forall|other: Seq<char>, last_index: usize, last_term: u64|
            other != c ==> !(#[trigger] vote_spec(
                run(v, es),
                other,
                v.current_term,
                last_index,
                last_term,
            )).1,
    decreases es.len(),
{
    if es.len() > 0 {
        let w = run(v, es.drop_last());
        law_run_terms_never_decrease(v, es.drop_last());
        lemma_step_term(w, es.last());
        law_run_vote_kept_within_term(v, es.drop_last(), c);
        lemma_step_keeps_vote(w, es.last(), c);
    }
}

/// Over any run of allowed calls, the node grants its vote in a term to one
/// candidate only: two granted vote requests of the same term name the same
/// candidate.
pub proof fn law_run_one_vote_per_term(
    v: NodeView,
    es: Seq<NodeEvent>,
    i: int,
    j: int,
    a: Seq<char>,
    b: Seq<char>,
    t: u64,
)
    requires
        run_allowed(v, es),
        0 <= i < j < es.len(),
        granted_vote(run(v, es.take(i)), es[i]) == Some((a, t)),
        granted_vote(run(v, es.take(j)), es[j]) == Some((b, t)),
    ensures
        a == b,
{
    lemma_run_whole(v, es);
    lemma_run_split(v, es, j, es.len() as int);
    lemma_run_take(v, es, i);
    let w = run(v, es.take(i + 1));
    // the first grant leaves the node in term t, having voted for a
    assert(w.current_term == t && w.voted_for == Some(a));
    lemma_run_split(v, es, i + 1, j);
    let rest = es.subrange(i + 1, j);
    let u = run(v, es.take(j));
    assert(u == run(w, rest));
    law_run_terms_never_decrease(w, rest);
    // the second grant is of term t, so the node is still in it
    assert(u.current_term == t);
    law_run_vote_kept_within_term(w, rest, a);
    if a != b {
        assert(!vote_spec(u, b, t, es[j]->last_index, es[j]->last_term).1);
    }
}

/// A leader stays leader, in its term, through any run of calls none of
/// which ends its lead (see `keeps_lead`), and the first call that does
/// end it leaves the node no longer leading.
pub proof fn law_run_leadership_lasts_until_step_down(
    v: NodeView,
    es: Seq<NodeEvent>,
    e: NodeEvent,
)
    requires
        v.role == NodeRole::Leader,
        forall|k: int| 0 <= k < es.len() ==> keeps_lead(#[trigger] es[k], v.current_term),
    ensures
        run(v, es).role == NodeRole::Leader,
        run(v, es).current_term == v.current_term,
        !keeps_lead(e, v.current_term) ==> step(run(v, es), e).role != NodeRole::Leader,
    decreases es.len(),
{
    if es.len() > 0 {
        let init = es.drop_last();
        assert forall|k: int| 0 <= k < init.len() implies keeps_lead(
            #[trigger] init[k],
            v.current_term,
        ) by {
            assert(init[k] == es[k]);
        }
        law_run_leadership_lasts_until_step_down(v, init, es.last());
        assert(keeps_lead(es[es.len() - 1], v.current_term));
    }
}

} // verus!
