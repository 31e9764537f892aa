//! What a node answers to each request it serves: votes, appends, client
//! writes and reads, and its metrics.
use vstd::prelude::*;

use crate::api::{
    AppendRequest, AppendResponse, KVReadResponse, KVWriteRequest, KVWriteResponse,
    MetricsResponse, RedirectResponse, VoteRequest, VoteResponse,
};
use crate::node::{
    append_entries_spec, append_to_log_spec, entries_view, vote_spec, NodeRole, RaftNode,
};
use crate::text::{set_command, set_command_spec};

verus! {

/// The name of a role, as its `Debug` rendering spells it.
pub open spec fn role_name_spec(role: NodeRole) -> Seq<char> {
    match role {
        NodeRole::Follower => "Follower"@,
        NodeRole::Candidate => "Candidate"@,
        NodeRole::Leader => "Leader"@,
    }
}

/// The name of a role: `Follower`, `Candidate` or `Leader`.
pub fn role_name(role: &NodeRole) -> (r: String)
    ensures
        r@ == role_name_spec(*role),
{
    match role {
        NodeRole::Follower => String::from_str("Follower"),
        NodeRole::Candidate => String::from_str("Candidate"),
        NodeRole::Leader => String::from_str("Leader"),
    }
}

/// What a node does with a client's write.
pub enum KvWriteOutcome {
    /// The node leads: the write is in its log.
    Accepted(KVWriteResponse),
    /// The node does not lead: the client is to be sent to the leader.
    NotLeader,
}

/// The answer that sends a client to the leader at `leader_url`.
pub fn redirect_response(leader_url: String) -> (r: RedirectResponse)
    ensures
        r.leader_url@ == leader_url@,
        r.message@ == "Redirecting to leader"@,
{
    RedirectResponse { leader_url, message: String::from_str("Redirecting to leader") }
}

/// The URL of the first node whose reported state is `Leader`, or the
/// first node of the cluster when none reports it.
pub fn select_leader(urls: &Vec<String>, states: &Vec<Option<String>>) -> (r: String)
    requires
        urls@.len() == states@.len(),
    ensures
        (exists|i: int|
            0 <= i < states@.len() && states@[i] is Some && states@[i]->0@ == "Leader"@) ==> exists|
            i: int,
        |
            0 <= i < states@.len() && states@[i] is Some && states@[i]->0@ == "Leader"@ && r@
                == urls@[i]@ && forall|j: int|
                0 <= j < i ==> !(states@[j] is Some && states@[j]->0@ == "Leader"@),
        !(exists|i: int|
            0 <= i < states@.len() && states@[i] is Some && states@[i]->0@ == "Leader"@) ==> r@
            == "http://localhost:8080"@,
{
    let leader = String::from_str("Leader");
    let mut i: usize = 0;
    while i < states.len()
        invariant
            urls@.len() == states@.len(),
            leader@ == "Leader"@,
            i <= states@.len(),
            forall|j: int| 0 <= j < i ==> !(states@[j] is Some && states@[j]->0@ == "Leader"@),
        decreases states@.len() - i,
    {
        match &states[i] {
            Some(state) => {
                if *state == leader {
                    return urls[i].clone();
                }
            },
            None => {},
        }
        i = i + 1;
    }
    String::from_str("http://localhost:8080")
}

impl RaftNode {
    /// Answers a vote request with the node's term after it and whether
    /// the vote is granted.
    pub fn handle_vote(&mut self, req: VoteRequest) -> (resp: VoteResponse)
        requires
            old(self).wf(),
        ensures
            final(self).wf(),
            (final(self)@, resp.vote_granted) == vote_spec(
                old(self)@,
                req.candidate_id@,
                req.candidate_term,
                req.last_log_index,
                req.last_log_term,
            ),
            resp.term == final(self)@.current_term,
    {
        let vote_granted = self.handle_vote_request(
            req.candidate_id,
            req.candidate_term,
            req.last_log_index,
            req.last_log_term,
        );
        VoteResponse { term: self.current_term(), vote_granted }
    }

    /// Answers an append request with the node's term and log length after
    /// it and whether it succeeded.
    pub fn handle_append(&mut self, req: AppendRequest) -> (resp: AppendResponse)
        requires
            old(self).wf(),
            old(self)@.log.len() + req.entries@.len() < usize::MAX,
        ensures
            final(self).wf(),
            (final(self)@, resp.success) == append_entries_spec(
                old(self)@,
                req.term,
                req.prev_log_index,
                req.prev_log_term,
                entries_view(req.entries@),
                req.leader_commit,
            ),
            resp.term == final(self)@.current_term,
            resp.log_len == final(self)@.log.len(),
            req.term < old(self)@.current_term ==> final(self).timer_start() == old(
                self,
            ).timer_start() && final(self).timer_restarts() == old(self).timer_restarts(),
            req.term >= old(self)@.current_term ==> final(self).timer_restarts() == old(
                self,
            ).timer_restarts() + 1,
    {
        let success = self.handle_append_entries(
            req.leader_id,
            req.term,
            req.prev_log_index,
            req.prev_log_term,
            req.entries,
            req.leader_commit,
        );
        AppendResponse { term: self.current_term(), success, log_len: self.log_len() }
    }

    /// Takes a client's write: a leader appends `set key=value` to its log
    /// and confirms; any other node is left unchanged and sends the client on.
    pub fn handle_kv_write(&mut self, req: KVWriteRequest) -> (r: KvWriteOutcome)
        requires
            old(self).wf(),
        ensures
            final(self).wf(),
            old(self)@.role == NodeRole::Leader ==> final(self)@ == append_to_log_spec(
                old(self)@,
                set_command_spec(req.key@, req.value@),
            ) && (r matches KvWriteOutcome::Accepted(resp) && resp.success && resp.error is None),
            old(self)@.role != NodeRole::Leader ==> final(self)@ == old(self)@ && r is NotLeader,
    {
        if !self.is_leader() {
            return KvWriteOutcome::NotLeader;
        }
        let command = set_command(req.key.as_str(), req.value.as_str());
        self.append_to_log(command);
        KvWriteOutcome::Accepted(KVWriteResponse { success: true, error: None })
    }

    /// Answers a read with the value stored under `key`, if any.
    pub fn handle_kv_read(&self, key: &str) -> (resp: KVReadResponse)
        ensures
            resp.error is None,
            match resp.value {
                Some(v) => self@.kv.contains_key(key@) && v@ == self@.kv[key@],
                None => !self@.kv.contains_key(key@),
            },
    {
        KVReadResponse { value: self.get_value(key), error: None }
    }

    /// The node's role name, term, commit index and election count.
    pub fn metrics(&self) -> (m: MetricsResponse)
        ensures
            m.state@ == role_name_spec(self@.role),
            m.term == self@.current_term,
            m.commit_index == self@.commit_index,
            m.election_count == self@.election_count,
    {
        MetricsResponse {
            state: role_name(self.role()),
            term: self.current_term(),
            commit_index: self.commit_index(),
            election_count: self.election_count(),
        }
    }
}

} // verus!
