//! The messages nodes and clients exchange, as plain values.
use vstd::prelude::*;

use crate::node::{entries_view, EntryView, LogEntry};

verus! {

/// A candidate's request for a vote (`POST /vote`).
#[derive(Debug)]
pub struct VoteRequest {
    pub candidate_id: String,
    pub candidate_term: u64,
    pub last_log_index: usize,
    pub last_log_term: u64,
}

/// The answer to a vote request.
#[derive(Debug, Clone, Copy, PartialEq, Eq, Structural)]
pub struct VoteResponse {
    pub term: u64,
    pub vote_granted: bool,
}

/// A leader's request to append entries, also its heartbeat (`POST /append`).
/// `prev_log_index` is the position of the entry just before the new ones,
/// counted from 0 (0 also when there is none: position 0 is never
/// compared), and `prev_log_term` is that entry's term, 0 when the leader
/// has no entry there. The new entries go from `prev_log_index + 1` on.
#[derive(Debug)]
pub struct AppendRequest {
    pub leader_id: String,
    pub term: u64,
    pub prev_log_index: usize,
    pub prev_log_term: u64,
    pub entries: Vec<LogEntry>,
    pub leader_commit: usize,
}

/// The answer to an append request, with the follower's log length.
#[derive(Debug, Clone, Copy, PartialEq, Eq, Structural)]
pub struct AppendResponse {
    pub term: u64,
    pub success: bool,
    pub log_len: usize,
}

/// A client's write (`POST /kv`).
#[derive(Debug)]
pub struct KVWriteRequest {
    pub key: String,
    pub value: String,
}

/// The answer to a write accepted by the leader.
#[derive(Debug)]
pub struct KVWriteResponse {
    pub success: bool,
    pub error: Option<String>,
}

/// The answer to a read (`GET /kv`).
#[derive(Debug)]
pub struct KVReadResponse {
    pub value: Option<String>,
    pub error: Option<String>,
}

/// A node's status (`GET /metrics`).
#[derive(Debug)]
pub struct MetricsResponse {
    pub state: String,
    pub term: u64,
    pub commit_index: usize,
    pub election_count: u64,
}

/// The answer of a node that does not lead to a write: where the leader is.
#[derive(Debug)]
pub struct RedirectResponse {
    pub leader_url: String,
    pub message: String,
}

/// The model of a vote request.
pub struct VoteRequestView {
    pub candidate_id: Seq<char>,
    pub candidate_term: u64,
    pub last_log_index: usize,
    pub last_log_term: u64,
}

/// The model of an append request.
pub struct AppendRequestView {
    pub leader_id: Seq<char>,
    pub term: u64,
    pub prev_log_index: usize,
    pub prev_log_term: u64,
    pub entries: Seq<EntryView>,
    pub leader_commit: usize,
}

impl View for VoteRequest {
    type V = VoteRequestView;

    open spec fn view(&self) -> VoteRequestView {
        VoteRequestView {
            candidate_id: self.candidate_id@,
            candidate_term: self.candidate_term,
            last_log_index: self.last_log_index,
            last_log_term: self.last_log_term,
        }
    }
}

impl View for AppendRequest {
    type V = AppendRequestView;

    open spec fn view(&self) -> AppendRequestView {
        AppendRequestView {
            leader_id: self.leader_id@,
            term: self.term,
            prev_log_index: self.prev_log_index,
            prev_log_term: self.prev_log_term,
            entries: entries_view(self.entries@),
            leader_commit: self.leader_commit,
        }
    }
}

} // verus!
