//! The decisions of the election and heartbeat loops. The loops
//! themselves wait and talk to peers; every choice they make is here.
use vstd::prelude::*;

use crate::api::{AppendRequest, VoteRequest};
use crate::node::{
    append_request_spec, append_response_spec, candidate_spec, leader_spec, peers_view,
    vote_request_spec, NodeRole, RaftNode,
};
use crate::platform::random_in_range;

verus! {

/// The votes that win an election among `n_peers` peers and oneself: more
/// than half of the cluster.
pub open spec fn majority_spec(n_peers: nat) -> nat {
    (n_peers + 1) / 2 + 1
}

/// The number of votes that wins an election among `n_peers` peers.
pub fn majority(n_peers: usize) -> (m: usize)
    requires
        n_peers < usize::MAX,
    ensures
        m == majority_spec(n_peers as nat),
{
    (n_peers + 1) / 2 + 1
}

/// Any two sets of votes that each win an election share a voter: two
/// majorities of one cluster add up to more than the cluster; and a
/// majority never exceeds the cluster.
pub proof fn law_majorities_intersect(n_peers: nat)
    ensures
        2 * majority_spec(n_peers) > n_peers + 1,
        majority_spec(n_peers) <= n_peers + 1,
{
}

/// A random election timeout, in milliseconds, of at least 300 and under 500.
pub fn election_timeout_ms() -> (ms: u64)
    ensures
        300 <= ms < 500,
{
    random_in_range(300, 500)
}

/// The count of an election in progress: the votes so far (one's own
/// included) and how many peers have answered.
pub struct VoteTally {
    votes: usize,
    needed: usize,
    answered: usize,
    peers: usize,
}

impl VoteTally {
    /// The votes counted so far.
    pub closed spec fn votes_spec(&self) -> nat {
        self.votes as nat
    }

    /// The votes that win.
    pub closed spec fn needed_spec(&self) -> nat {
        self.needed as nat
    }

    /// The peers that have answered.
    pub closed spec fn answered_spec(&self) -> nat {
        self.answered as nat
    }

    /// The peers that can answer.
    pub closed spec fn peers_spec(&self) -> nat {
        self.peers as nat
    }

    /// The tally's invariant: no more votes than answers plus one's own.
    pub closed spec fn wf(&self) -> bool {
        self.answered <= self.peers && self.votes <= self.answered + 1 && self.peers
            < usize::MAX
    }

    /// A fresh count among `n_peers` peers, holding one's own vote.
    pub fn new(n_peers: usize) -> (t: VoteTally)
        requires
            n_peers < usize::MAX,
        ensures
            t.wf(),
            t.votes_spec() == 1,
            t.needed_spec() == majority_spec(n_peers as nat),
            t.answered_spec() == 0,
            t.peers_spec() == n_peers,
    {
        VoteTally { votes: 1, needed: majority(n_peers), answered: 0, peers: n_peers }
    }

    /// The votes counted so far.
    pub fn votes(&self) -> (v: usize)
        ensures
            v == self.votes_spec(),
    {
        self.votes
    }

    /// Counts one peer's answer; the result says whether this vote won the
    /// election. Only a granted vote can win it.
    pub fn record(&mut self, granted: bool) -> (won: bool)
        requires
            old(self).wf(),
            old(self).answered_spec() < old(self).peers_spec(),
        ensures
            final(self).wf(),
            final(self).answered_spec() == old(self).answered_spec() + 1,
            final(self).votes_spec() == old(self).votes_spec() + if granted {
                1nat
            } else {
                0nat
            },
            final(self).needed_spec() == old(self).needed_spec(),
            final(self).peers_spec() == old(self).peers_spec(),
            won == (granted && final(self).votes_spec() >= final(self).needed_spec()),
    {
        self.answered = self.answered + 1;
        if granted {
            self.votes = self.votes + 1;
            self.votes >= self.needed
        } else {
            false
        }
    }
}

/// What a node sends when it starts an election: the peers to ask, the
/// request, and the term the election is for.
pub struct ElectionRound {
    pub peers: Vec<(String, u16)>,
    pub request: VoteRequest,
    pub term: u64,
}

impl RaftNode {
    /// One tick of the election loop: a node that does not lead and whose
    /// timer has run out becomes a candidate, restarts its timer and
    /// returns the round to run; otherwise nothing changes. Whether the
    /// timer ran out is read from the clock, so no clause says which of the
    /// two happens to a node that does not lead; what follows the reading is
    /// `start_election_when`, whose contract is exact.
    pub fn start_election_if_due(&mut self) -> (r: Option<ElectionRound>)
        requires
            old(self).wf(),
            old(self)@.role != NodeRole::Leader ==> old(self)@.current_term < u64::MAX
                && old(self)@.election_count < u64::MAX,
        ensures
            final(self).wf(),
            old(self)@.role == NodeRole::Leader ==> r is None,
            r is None ==> final(self)@ == old(self)@ && final(self).timer_start() == old(
                self,
            ).timer_start() && final(self).timer_restarts() == old(self).timer_restarts(),
            r is Some ==> final(self).timer_restarts() == old(self).timer_restarts() + 1,
            r matches Some(round) ==> {
                &&& final(self)@ == candidate_spec(old(self)@)
                &&& round.request@ == vote_request_spec(final(self)@)
                &&& round.term == final(self)@.current_term
                &&& peers_view(round.peers@) == final(self)@.peers
            },
    {
        if self.is_leader() {
            return None;
        }
        let timed_out = self.election_timeout_elapsed();
        self.start_election_when(timed_out)
    }

    /// The election loop's decision once the clock has been read: a node
    /// that does not lead and whose timer has run out (`timed_out`) becomes
    /// a candidate, restarts its timer and returns the round to run; in
    /// every other case it returns `None` and is left unchanged.
    pub fn start_election_when(&mut self, timed_out: bool) -> (r: Option<ElectionRound>)
        requires
            old(self).wf(),
            timed_out && old(self)@.role != NodeRole::Leader ==> old(self)@.current_term
                < u64::MAX && old(self)@.election_count < u64::MAX,
        ensures
            final(self).wf(),
            (r is Some) == (timed_out && old(self)@.role != NodeRole::Leader),
            r is None ==> final(self)@ == old(self)@ && final(self).timer_start() == old(
                self,
            ).timer_start() && final(self).timer_restarts() == old(self).timer_restarts(),
            r is Some ==> final(self).timer_restarts() == old(self).timer_restarts() + 1,
            r matches Some(round) ==> {
                &&& final(self)@ == candidate_spec(old(self)@)
                &&& round.request@ == vote_request_spec(final(self)@)
                &&& round.term == final(self)@.current_term
                &&& peers_view(round.peers@) == final(self)@.peers
            },
    {
        if timed_out && !self.is_leader() {
            self.become_candidate();
            self.reset_election_timer();
            let peers = copy_peer_list(self.get_peers());
            let request = self.get_vote_request();
            let term = self.current_term();
            Some(ElectionRound { peers, request, term })
        } else {
            None
        }
    }

    /// Counts a peer's answer to this node's campaign for `election_term`:
    /// the answer goes into `tally`, and when it wins the election the node
    /// takes the lead if it is still in that term. In every other case the
    /// node is left unchanged, so a campaign makes the node lead only once a
    /// majority of the cluster has voted for it, and only in its own term.
    pub fn count_vote(&mut self, tally: &mut VoteTally, election_term: u64, granted: bool) -> (won:
        bool)
        requires
            old(self).wf(),
            old(tally).wf(),
            old(tally).answered_spec() < old(tally).peers_spec(),
        ensures
            final(self).wf(),
            final(self).timer_start() == old(self).timer_start(),
            final(self).timer_restarts() == old(self).timer_restarts(),
            final(tally).wf(),
            final(tally).answered_spec() == old(tally).answered_spec() + 1,
            final(tally).votes_spec() == old(tally).votes_spec() + if granted {
                1nat
            } else {
                0nat
            },
            final(tally).needed_spec() == old(tally).needed_spec(),
            final(tally).peers_spec() == old(tally).peers_spec(),
            won == (granted && final(tally).votes_spec() >= final(tally).needed_spec()),
            won && old(self)@.current_term == election_term ==> final(self)@ == leader_spec(
                old(self)@,
            ),
            !(won && old(self)@.current_term == election_term) ==> final(self)@ == old(self)@,
    {
        let won = tally.record(granted);
        if won {
            self.conclude_election(election_term);
        }
        won
    }

    /// Closes a won election: the node leads if it is still in the term
    /// the election was for, and is otherwise left unchanged.
    pub fn conclude_election(&mut self, election_term: u64)
        requires
            old(self).wf(),
        ensures
            final(self).wf(),
            final(self).timer_start() == old(self).timer_start(),
            final(self).timer_restarts() == old(self).timer_restarts(),
            old(self)@.current_term == election_term ==> final(self)@ == leader_spec(old(self)@),
            old(self)@.current_term != election_term ==> final(self)@ == old(self)@,
    {
        if self.current_term() == election_term {
            self.become_leader();
        }
    }

    /// One tick of the heartbeat loop: nothing for a node that does not
    /// lead; for a leader, one append request per peer, in peer order.
    pub fn heartbeat_requests(&self) -> (r: Option<Vec<AppendRequest>>)
        requires
            self.wf(),
        ensures
            self@.role != NodeRole::Leader ==> r is None,
            self@.role == NodeRole::Leader ==> r is Some,
            r matches Some(reqs) ==> {
                &&& reqs@.len() == self@.peers.len()
                &&& forall|i: int|
                    0 <= i < reqs@.len() ==> (#[trigger] reqs@[i])@ == append_request_spec(
                        self@,
                        i,
                    )
            },
    {
        if !self.is_leader() {
            return None;
        }
        let n = self.get_peers().len();
        let mut reqs: Vec<AppendRequest> = Vec::new();
        let mut i: usize = 0;
        while i < n
            invariant
                self.wf(),
                self@.role == NodeRole::Leader,
                n == self@.peers.len(),
                i <= n,
                reqs@.len() == i,
                forall|j: int|
                    0 <= j < i ==> (#[trigger] reqs@[j])@ == append_request_spec(self@, j),
            decreases n - i,
        {
            let req = self.get_append_entries_for_peer(i);
            reqs.push(req);
            i = i + 1;
        }
        Some(reqs)
    }
}

/// How many leading entries a peer is known to share with the leader after
/// it accepted a request whose previous index was `prev` and which held
/// `sent` entries: positions up to `prev + sent` were either compared with
/// the leader's or written from the request (position 0 is never compared),
/// so the count is the peer's reported log length, but no more than
/// `prev + sent + 1`.
pub open spec fn acknowledged_spec(prev: usize, sent: usize, follower_log_len: usize) -> usize {
    if follower_log_len <= prev + sent + 1 {
        follower_log_len
    } else {
        (prev + sent + 1) as usize
    }
}

/// Computes `acknowledged_spec`.
pub fn acknowledged_len(prev: usize, sent: usize, follower_log_len: usize) -> (r: usize)
    ensures
        r == acknowledged_spec(prev, sent, follower_log_len),
{
    if follower_log_len <= prev {
        follower_log_len
    } else if follower_log_len - prev - 1 <= sent {
        follower_log_len
    } else {
        prev + sent + 1
    }
}

impl RaftNode {
    /// Records a peer's reply to an append request whose previous index
    /// was `prev` and which held `sent` entries: the peer's success counts
    /// for no more entries than the request covered (`acknowledged_spec`),
    /// then `handle_append_response` does the bookkeeping.
    pub fn handle_append_reply(
        &mut self,
        peer_idx: usize,
        prev: usize,
        sent: usize,
        success: bool,
        follower_log_len: usize,
    )
        requires
            old(self).wf(),
            old(self)@.leader is Some ==> peer_idx < old(self)@.peers.len(),
        ensures
            final(self).wf(),
            final(self).timer_start() == old(self).timer_start(),
            final(self).timer_restarts() == old(self).timer_restarts(),
            final(self)@ == append_response_spec(
                old(self)@,
                peer_idx as int,
                success,
                acknowledged_spec(prev, sent, follower_log_len),
            ),
    {
        let acknowledged = acknowledged_len(prev, sent, follower_log_len);
        self.handle_append_response(peer_idx, success, acknowledged);
    }
}

/// Copies a list of peers.
pub fn copy_peer_list(peers: &Vec<(String, u16)>) -> (r: Vec<(String, u16)>)
    ensures
        peers_view(r@) == peers_view(peers@),
{
    let mut r: Vec<(String, u16)> = Vec::new();
    let mut i: usize = 0;
    while i < peers.len()
        invariant
            i <= peers@.len(),
            peers_view(r@) =~= peers_view(peers@).take(i as int),
        decreases peers@.len() - i,
    {
        let (host, port) = &peers[i];
        let ghost before = r@;
        let h = host.clone();
        r.push((h, *port));
        assert(peers_view(r@) =~= peers_view(before).push((h@, *port)));
        assert(peers_view(peers@).take(i + 1) =~= peers_view(peers@).take(i as int).push(
            (peers@[i as int].0@, peers@[i as int].1),
        ));
        i = i + 1;
    }
    assert(peers_view(peers@).take(i as int) =~= peers_view(peers@));
    r
}

} // verus!
