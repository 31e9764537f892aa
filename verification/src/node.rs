//! The state of one Raft node and every transition it takes.
//!
//! Each transition is stated twice: once as a spec function over
//! [`NodeView`], the mathematical model of a node, and once as the
//! executable method, whose `ensures` says that it computes the spec.
use vstd::hash_map::StringHashMap;
use vstd::prelude::*;

use crate::api::{AppendRequest, AppendRequestView, VoteRequest, VoteRequestView};
use crate::platform::{debug_quote, duration_as_nanos, instant_elapsed, instant_now, str_debug};
use crate::text::{decimal_spec, decimal_string, parse_set_command, parse_set_spec};

verus! {

// ------------------------------------------------------------------
// Types
// ------------------------------------------------------------------

/// The role a node plays in the cluster.
#[derive(Debug, Clone, Copy, PartialEq, Eq, Structural)]
pub enum NodeRole {
    Follower,
    Candidate,
    Leader,
}

/// What a leader tracks for each peer: the next log index to send and the
/// highest index known to be replicated there.
#[derive(Debug)]
pub struct LeaderState {
    next_index: Vec<usize>,
    match_index: Vec<usize>,
    replicated: Vec<usize>,
}

/// One entry of the replicated log.
#[derive(Debug)]
pub struct LogEntry {
    term: u64,
    command: String,
}

/// A Raft node: its identity, its persistent state (term, vote, log), its
/// volatile state (commit and apply positions, the key-value store) and,
/// while it leads, the per-peer replication positions.
pub struct RaftNode {
    id: String,
    peers: Vec<(String, u16)>,
    role: NodeRole,
    current_term: u64,
    voted_for: Option<String>,
    log: Vec<LogEntry>,
    commit_index: usize,
    last_applied: usize,
    kv_store: StringHashMap<String>,
    election_count: u64,
    last_heartbeat: std::time::Instant,
    timer_restarts: Ghost<nat>,
    leader_state: Option<LeaderState>,
}

/// The part of a node's state that survives a restart.
pub struct PersistentState {
    pub current_term: u64,
    pub voted_for: Option<String>,
    pub log: Vec<LogEntry>,
}

// ------------------------------------------------------------------
// Models
// ------------------------------------------------------------------

/// The model of a log entry.
pub struct EntryView {
    pub term: u64,
    pub command: Seq<char>,
}

/// The model of a leader's per-peer positions.
pub struct LeaderView {
    pub next_index: Seq<usize>,
    pub match_index: Seq<usize>,
    pub replicated: Seq<usize>,
}

/// The model of a node. The election timer is left out: it is a clock
/// reading.
pub struct NodeView {
    pub id: Seq<char>,
    pub peers: Seq<(Seq<char>, u16)>,
    pub role: NodeRole,
    pub current_term: u64,
    pub voted_for: Option<Seq<char>>,
    pub log: Seq<EntryView>,
    pub commit_index: usize,
    pub last_applied: usize,
    pub kv: Map<Seq<char>, Seq<char>>,
    pub election_count: u64,
    pub leader: Option<LeaderView>,
}

/// The model of a persistent state.
pub struct PersistentView {
    pub current_term: u64,
    pub voted_for: Option<Seq<char>>,
    pub log: Seq<EntryView>,
}

impl View for LogEntry {
    type V = EntryView;

    closed spec fn view(&self) -> EntryView {
        EntryView { term: self.term, command: self.command@ }
    }
}

impl View for LeaderState {
    type V = LeaderView;

    closed spec fn view(&self) -> LeaderView {
        LeaderView {
            next_index: self.next_index@,
            match_index: self.match_index@,
            replicated: self.replicated@,
        }
    }
}

/// The models of a sequence of log entries.
pub open spec fn entries_view(entries: Seq<LogEntry>) -> Seq<EntryView> {
    entries.map_values(|e: LogEntry| e@)
}

/// The model of an optional string.
pub open spec fn opt_string_view(s: Option<String>) -> Option<Seq<char>> {
    match s {
        Some(s) => Some(s@),
        None => None,
    }
}

/// The models of a list of peers.
pub open spec fn peers_view(peers: Seq<(String, u16)>) -> Seq<(Seq<char>, u16)> {
    peers.map_values(|p: (String, u16)| (p.0@, p.1))
}

impl View for RaftNode {
    type V = NodeView;

    closed spec fn view(&self) -> NodeView {
        NodeView {
            id: self.id@,
            peers: peers_view(self.peers@),
            role: self.role,
            current_term: self.current_term,
            voted_for: opt_string_view(self.voted_for),
            log: entries_view(self.log@),
            commit_index: self.commit_index,
            last_applied: self.last_applied,
            kv: self.kv_store@.map_values(|s: String| s@),
            election_count: self.election_count,
            leader: match self.leader_state {
                Some(ls) => Some(ls@),
                None => None,
            },
        }
    }
}

impl View for PersistentState {
    type V = PersistentView;

    open spec fn view(&self) -> PersistentView {
        PersistentView {
            current_term: self.current_term,
            voted_for: opt_string_view(self.voted_for),
            log: entries_view(self.log@),
        }
    }
}

/// A node's invariant: a node leads exactly when it holds leader state, and
/// a leader tracks one next index, one match index and one replicated
/// count per peer.
pub open spec fn node_wf(v: NodeView) -> bool {
    match v.leader {
        Some(l) => {
            &&& v.role == NodeRole::Leader
            &&& l.next_index.len() == v.peers.len()
            &&& l.match_index.len() == v.peers.len()
            &&& l.replicated.len() == v.peers.len()
        },
        None => v.role != NodeRole::Leader,
    }
}

// ------------------------------------------------------------------
// Transitions, as spec functions over the model
// ------------------------------------------------------------------

/// A freshly started node: a follower in term 0 with nothing logged.
pub open spec fn initial_spec(id: Seq<char>, peers: Seq<(Seq<char>, u16)>) -> NodeView {
    NodeView {
        id,
        peers,
        role: NodeRole::Follower,
        current_term: 0,
        voted_for: None,
        log: Seq::empty(),
        commit_index: 0,
        last_applied: 0,
        kv: Map::empty(),
        election_count: 0,
        leader: None,
    }
}

/// Stepping down to follower in `term`, forgetting the vote and the
/// leader positions.
pub open spec fn follower_spec(v: NodeView, term: u64) -> NodeView {
    NodeView { role: NodeRole::Follower, current_term: term, voted_for: None, leader: None, ..v }
}

/// Starting an election: the next term, a vote for oneself, one more
/// election counted, and no leader state.
pub open spec fn candidate_spec(v: NodeView) -> NodeView {
    NodeView {
        role: NodeRole::Candidate,
        current_term: (v.current_term + 1) as u64,
        voted_for: Some(v.id),
        election_count: (v.election_count + 1) as u64,
        leader: None,
        ..v
    }
}

/// Taking the lead: every peer's next index is the log's length, every
/// match index is 0.
pub open spec fn leader_spec(v: NodeView) -> NodeView {
    NodeView {
        role: NodeRole::Leader,
        leader: Some(
            LeaderView {
                next_index: Seq::new(v.peers.len(), |i: int| v.log.len() as usize),
                match_index: Seq::new(v.peers.len(), |i: int| 0usize),
                replicated: Seq::new(v.peers.len(), |i: int| 0usize),
            },
        ),
        ..v
    }
}

/// The key-value store after applying the log entry at `i`, if there is
/// one and it is a `set` command.
pub open spec fn apply_entry(kv: Map<Seq<char>, Seq<char>>, log: Seq<EntryView>, i: int) -> Map<
    Seq<char>,
    Seq<char>,
> {
    if 0 <= i < log.len() {
        match parse_set_spec(log[i].command) {
            Some(kv_pair) => kv.insert(kv_pair.0, kv_pair.1),
            None => kv,
        }
    } else {
        kv
    }
}

/// The key-value store after applying the log entries at `from..to`, in order.
pub open spec fn apply_range(
    kv: Map<Seq<char>, Seq<char>>,
    log: Seq<EntryView>,
    from: int,
    to: int,
) -> Map<Seq<char>, Seq<char>>
    decreases to - from,
{
    if from >= to {
        kv
    } else {
        apply_range(apply_entry(kv, log, from), log, from + 1, to)
    }
}

/// Applying every committed entry not yet applied.
pub open spec fn apply_spec(v: NodeView) -> NodeView {
    NodeView {
        kv: apply_range(v.kv, v.log, v.last_applied as int, v.commit_index as int),
        last_applied: if v.last_applied < v.commit_index {
            v.commit_index
        } else {
            v.last_applied
        },
        ..v
    }
}

/// Whether a candidate's log, given by its last index and term, is at least
/// as up to date as `log`.
pub open spec fn candidate_log_ok(log: Seq<EntryView>, last_index: usize, last_term: u64) -> bool {
    log.len() == 0 || last_term > log.last().term || (last_term == log.last().term && last_index
        >= log.len() - 1)
}

/// Answering a vote request: the new state and whether the vote is granted.
pub open spec fn vote_spec(
    v: NodeView,
    candidate_id: Seq<char>,
    candidate_term: u64,
    last_index: usize,
    last_term: u64,
) -> (NodeView, bool) {
    if candidate_term < v.current_term {
        (v, false)
    } else {
        let f = if candidate_term > v.current_term {
            follower_spec(v, candidate_term)
        } else {
            v
        };
        if f.voted_for is Some && f.voted_for->0 != candidate_id {
            (f, false)
        } else if !candidate_log_ok(f.log, last_index, last_term) {
            (f, false)
        } else {
            (NodeView { voted_for: Some(candidate_id), ..f }, true)
        }
    }
}

/// The log after placing `e` at position `i`: an entry already there with
/// the same term stays, one with another term is cut off with everything
/// after it, and past the end `e` is appended.
pub open spec fn append_step(log: Seq<EntryView>, i: int, e: EntryView) -> Seq<EntryView> {
    if i < log.len() {
        if log[i].term != e.term {
            log.take(i).push(e)
        } else {
            log
        }
    } else {
        log.push(e)
    }
}

/// The log after placing `entries` right after position `prev`: the first
/// new entry at position `prev + 1` (positions count from 0).
pub open spec fn merge_entries(log: Seq<EntryView>, prev: int, entries: Seq<EntryView>) -> Seq<
    EntryView,
>
    decreases entries.len(),
{
    if entries.len() == 0 {
        log
    } else {
        append_step(
            merge_entries(log, prev, entries.drop_last()),
            prev + entries.len(),
            entries.last(),
        )
    }
}

/// Whether the entry at the previous index `prev` matches: position 0 is
/// never compared; another position must exist and carry `prev_term`.
pub open spec fn prev_matches(log: Seq<EntryView>, prev: usize, prev_term: u64) -> bool {
    prev == 0 || (prev < log.len() && log[prev as int].term == prev_term)
}

/// Stepping down on a message of `term`, no older than the node's own: a
/// higher term makes it a follower of that term with no vote; the same term
/// makes it a follower that keeps the vote it gave in that term.
pub open spec fn step_down_spec(v: NodeView, term: u64) -> NodeView {
    if term > v.current_term {
        follower_spec(v, term)
    } else {
        NodeView { role: NodeRole::Follower, leader: None, ..v }
    }
}

/// Answering an append request: a request from an older term is refused;
/// otherwise the node steps down (`step_down_spec`), checks the entry at the
/// previous index (`prev_matches`), places the entries from the position
/// after it on (`merge_entries`), and commits up to the leader's commit
/// index as far as its log reaches. The result is the new state and whether
/// it succeeded.
pub open spec fn append_entries_spec(
    v: NodeView,
    leader_term: u64,
    prev: usize,
    prev_term: u64,
    entries: Seq<EntryView>,
    leader_commit: usize,
) -> (NodeView, bool) {
    if leader_term < v.current_term {
        (v, false)
    } else {
        let f = step_down_spec(v, leader_term);
        if !prev_matches(f.log, prev, prev_term) {
            (f, false)
        } else {
            let g = NodeView { log: merge_entries(f.log, prev as int, entries), ..f };
            if leader_commit > g.commit_index {
                let c = if (leader_commit as int) < g.log.len() {
                    leader_commit
                } else {
                    g.log.len() as usize
                };
                (apply_spec(NodeView { commit_index: c, ..g }), true)
            } else {
                (g, true)
            }
        }
    }
}

/// How many of `positions` reach at least `n`.
pub open spec fn count_at_least(positions: Seq<usize>, n: int) -> nat
    decreases positions.len(),
{
    if positions.len() == 0 {
        0
    } else {
        count_at_least(positions.drop_last(), n) + if positions.last() >= n {
            1nat
        } else {
            0nat
        }
    }
}

/// Whether the first `n` entries of `log` may be committed by a leader of
/// `term` among `n_peers` peers known to hold the counts of leading entries
/// in `matched`: they are in the log, the `n`-th was created in the current
/// term, and with the leader itself a majority of the cluster holds them.
pub open spec fn commit_ok(log: Seq<EntryView>, term: u64, n_peers: nat, matched: Seq<usize>, n: int) -> bool {
    &&& 0 < n <= log.len()
    &&& log[n - 1].term == term
    &&& count_at_least(matched, n) + 1 >= (n_peers + 1) / 2 + 1
}

/// The commit index a leader can reach, looking from `n` entries down to
/// its current commit index `commit`: the highest count that `commit_ok`
/// allows, else `commit`.
pub open spec fn commit_target(
    log: Seq<EntryView>,
    term: u64,
    n_peers: nat,
    matched: Seq<usize>,
    commit: int,
    n: int,
) -> int
    decreases n - commit,
{
    if n <= commit {
        commit
    } else if commit_ok(log, term, n_peers, matched, n) {
        n
    } else {
        commit_target(log, term, n_peers, matched, commit, n - 1)
    }
}

/// A leader commits as far as `commit_target` allows and applies what it
/// committed; a node that does not lead is left as it is.
pub open spec fn advance_commit_spec(v: NodeView) -> NodeView {
    match v.leader {
        Some(l) => {
            let c = commit_target(
                v.log,
                v.current_term,
                v.peers.len(),
                l.replicated,
                v.commit_index as int,
                v.log.len() as int,
            );
            if c > v.commit_index {
                apply_spec(NodeView { commit_index: c as usize, ..v })
            } else {
                v
            }
        },
        None => v,
    }
}

/// A leader's bookkeeping after a peer answered an append request: on
/// success the peer holds `follower_log_len` entries matching the leader's,
/// so that is its next index, the index of its last entry (0 at least) is
/// its match index and the count is what it is known to hold, and the
/// leader commits what a majority now holds; on failure the next index
/// steps back by one, stopping at 0. A node that does not lead is left as
/// it is.
pub open spec fn append_response_spec(
    v: NodeView,
    peer: int,
    success: bool,
    follower_log_len: usize,
) -> NodeView {
    match v.leader {
        Some(l) => if success {
            advance_commit_spec(
                NodeView {
                    leader: Some(
                        LeaderView {
                            next_index: l.next_index.update(peer, follower_log_len),
                            match_index: l.match_index.update(
                                peer,
                                if follower_log_len > 0 {
                                    (follower_log_len - 1) as usize
                                } else {
                                    0usize
                                },
                            ),
                            replicated: l.replicated.update(peer, follower_log_len),
                        },
                    ),
                    ..v
                },
            )
        } else if l.next_index[peer] > 0 {
            NodeView {
                leader: Some(
                    LeaderView {
                        next_index: l.next_index.update(peer, (l.next_index[peer] - 1) as usize),
                        ..l
                    },
                ),
                ..v
            }
        } else {
            v
        },
        None => v,
    }
}

/// Appending a command in the current term.
pub open spec fn append_to_log_spec(v: NodeView, command: Seq<char>) -> NodeView {
    NodeView { log: v.log.push(EntryView { term: v.current_term, command }), ..v }
}

/// Committing the whole log and applying it.
pub open spec fn commit_all_spec(v: NodeView) -> NodeView {
    apply_spec(NodeView { commit_index: v.log.len() as usize, ..v })
}

/// The persistent part of a node.
pub open spec fn persistent_spec(v: NodeView) -> PersistentView {
    PersistentView { current_term: v.current_term, voted_for: v.voted_for, log: v.log }
}

/// A node after taking over a persistent state read back at startup.
pub open spec fn restore_spec(v: NodeView, p: PersistentView) -> NodeView {
    NodeView { current_term: p.current_term, voted_for: p.voted_for, log: p.log, ..v }
}

/// The vote request a candidate sends: its identity and term, and the
/// index and term of its last log entry (both 0 for an empty log).
pub open spec fn vote_request_spec(v: NodeView) -> VoteRequestView {
    VoteRequestView {
        candidate_id: v.id,
        candidate_term: v.current_term,
        last_log_index: if v.log.len() == 0 {
            0
        } else {
            (v.log.len() - 1) as usize
        },
        last_log_term: if v.log.len() == 0 {
            0
        } else {
            v.log.last().term
        },
    }
}

/// The position from which a leader sends its log to `peer`: the peer's
/// next index while leading, else the log's length.
pub open spec fn next_index_for(v: NodeView, peer: int) -> int {
    match v.leader {
        Some(l) => l.next_index[peer] as int,
        None => v.log.len() as int,
    }
}

/// The append request a leader sends to `peer`: everything from the
/// peer's next index on (no further than the log's end); the previous
/// index is the one before the next (0 at the start), and its term is that
/// of the entry there, 0 when there is none.
pub open spec fn append_request_spec(v: NodeView, peer: int) -> AppendRequestView {
    let next = next_index_for(v, peer);
    let prev = if next > 0 {
        next - 1
    } else {
        0
    };
    let start = if next < v.log.len() {
        next
    } else {
        v.log.len() as int
    };
    AppendRequestView {
        leader_id: v.id,
        term: v.current_term,
        prev_log_index: prev as usize,
        prev_log_term: if prev < v.log.len() {
            v.log[prev].term
        } else {
            0
        },
        entries: v.log.skip(start),
        leader_commit: v.commit_index,
    }
}

/// The `Debug` rendering of one log entry.
pub open spec fn entry_debug(e: EntryView) -> Seq<char> {
    "LogEntry { term: "@ + decimal_spec(e.term as nat) + ", command: "@ + str_debug(e.command)
        + " }"@
}

/// The entries' renderings, each but the first preceded by `, `.
pub open spec fn entries_debug(es: Seq<EntryView>) -> Seq<char>
    decreases es.len(),
{
    if es.len() == 0 {
        Seq::empty()
    } else if es.len() == 1 {
        entry_debug(es[0])
    } else {
        entry_debug(es[0]) + ", "@ + entries_debug(es.drop_first())
    }
}

/// The renderings of further entries, after a first one.
pub open spec fn tail_debug(es: Seq<EntryView>) -> Seq<char> {
    if es.len() == 0 {
        Seq::empty()
    } else {
        ", "@ + entries_debug(es)
    }
}

/// A rendering of entries is the first one's, then the rest's.
pub proof fn lemma_entries_debug_first(es: Seq<EntryView>)
    requires
        es.len() > 0,
    ensures
        entries_debug(es) == entry_debug(es[0]) + tail_debug(es.drop_first()),
{
    if es.len() == 1 {
        assert(entry_debug(es[0]) + Seq::<char>::empty() =~= entry_debug(es[0]));
    } else {
        assert(entry_debug(es[0]) + ", "@ + entries_debug(es.drop_first()) =~= entry_debug(es[0])
            + (", "@ + entries_debug(es.drop_first())));
    }
}

/// The `Debug` rendering of a log.
pub open spec fn log_debug_spec(log: Seq<EntryView>) -> Seq<char> {
    "["@ + entries_debug(log) + "]"@
}

// ------------------------------------------------------------------
// Executable code
// ------------------------------------------------------------------

/// Whether an elapsed time, in nanoseconds, exceeds the election timeout
/// of 400 ms.
pub fn timeout_exceeded(elapsed_nanos: u128) -> (r: bool)
    ensures
        r == (elapsed_nanos > 400_000_000),
{
    elapsed_nanos > 400_000_000
}

impl LogEntry {
    /// An entry of `term` holding `command`.
    pub fn new(term: u64, command: String) -> (e: LogEntry)
        ensures
            e@ == (EntryView { term, command: command@ }),
    {
        LogEntry { term, command }
    }

    /// The term the entry was created in.
    pub fn term(&self) -> (t: u64)
        ensures
            t == self@.term,
    {
        self.term
    }

    /// The command the entry carries.
    pub fn command(&self) -> (c: &String)
        ensures
            c@ == self@.command,
    {
        &self.command
    }

    /// A copy of the entry.
    pub fn duplicate(&self) -> (e: LogEntry)
        ensures
            e@ == self@,
    {
        LogEntry { term: self.term, command: self.command.clone() }
    }
}

/// Copies the entries of a list from position `from` on.
pub fn copy_entries(entries: &Vec<LogEntry>, from: usize) -> (r: Vec<LogEntry>)
    requires
        from <= entries@.len(),
    ensures
        entries_view(r@) == entries_view(entries@).skip(from as int),
{
    let mut r: Vec<LogEntry> = Vec::new();
    let mut i: usize = from;
    while i < entries.len()
        invariant
            from <= i <= entries@.len(),
            entries_view(r@) =~= entries_view(entries@).subrange(from as int, i as int),
        decreases entries@.len() - i,
    {
        let e = entries[i].duplicate();
        let ghost before = r@;
        r.push(e);
        assert(entries_view(r@) =~= entries_view(before).push(e@));
        assert(entries_view(entries@).subrange(from as int, i + 1) =~= entries_view(
            entries@,
        ).subrange(from as int, i as int).push(entries@[i as int]@));
        i = i + 1;
    }
    assert(entries_view(entries@).subrange(from as int, i as int) =~= entries_view(
        entries@,
    ).skip(from as int));
    r
}

/// Copies an optional string.
fn copy_opt_string(s: &Option<String>) -> (r: Option<String>)
    ensures
        opt_string_view(r) == opt_string_view(*s),
{
    match s {
        Some(s) => Some(s.clone()),
        None => None,
    }
}

/// How many of `matched` reach at least `n`.
fn count_reaching(matched: &Vec<usize>, n: usize) -> (c: usize)
    ensures
        c == count_at_least(matched@, n as int),
{
    let mut c: usize = 0;
    let mut j: usize = 0;
    while j < matched.len()
        invariant
            j <= matched@.len(),
            c <= j,
            c == count_at_least(matched@.take(j as int), n as int),
        decreases matched@.len() - j,
    {
        assert(matched@.take(j + 1).drop_last() =~= matched@.take(j as int));
        if matched[j] >= n {
            c = c + 1;
        }
        j = j + 1;
    }
    assert(matched@.take(j as int) =~= matched@);
    c
}

/// The commit index a leader of `term` can reach; see `commit_target`.
fn compute_commit_target(
    log: &Vec<LogEntry>,
    term: u64,
    n_peers: usize,
    matched: &Vec<usize>,
    commit: usize,
) -> (r: usize)
    ensures
        r == commit_target(
            entries_view(log@),
            term,
            n_peers as nat,
            matched@,
            commit as int,
            log@.len() as int,
        ),
{
    let ghost lv = entries_view(log@);
    let half = n_peers / 2 + n_peers % 2;
    let mut n = log.len();
    while n > commit
        invariant
            lv == entries_view(log@),
            n <= log@.len(),
            half == (n_peers as nat + 1) / 2,
            commit_target(lv, term, n_peers as nat, matched@, commit as int, log@.len() as int)
                == commit_target(lv, term, n_peers as nat, matched@, commit as int, n as int),
        decreases n,
    {
        assert(lv[n - 1] == log@[n - 1]@);
        if log[n - 1].term == term && count_reaching(matched, n) >= half {
            return n;
        }
        n = n - 1;
    }
    commit
}

impl RaftNode {
    /// The node's invariant.
    pub open spec fn wf(&self) -> bool {
        node_wf(self@)
    }

    /// The clock reading the election timer runs from.
    pub closed spec fn timer_start(&self) -> std::time::Instant {
        self.last_heartbeat
    }

    /// How many times the election timer has been restarted.
    pub closed spec fn timer_restarts(&self) -> nat {
        self.timer_restarts@
    }

    /// A fresh node with identity `id` and the given peers: a follower in
    /// term 0 with an empty log and store.
    pub fn new(id: String, peers: Vec<(String, u16)>) -> (node: RaftNode)
        ensures
            node@ == initial_spec(id@, peers_view(peers@)),
            node.wf(),
            node.timer_restarts() == 0,
    {
        let node = RaftNode {
            id,
            peers,
            role: NodeRole::Follower,
            current_term: 0,
            voted_for: None,
            log: Vec::new(),
            commit_index: 0,
            last_applied: 0,
            kv_store: StringHashMap::new(),
            election_count: 0,
            last_heartbeat: instant_now(),
            timer_restarts: Ghost(0),
            leader_state: None,
        };
        assert(node@.kv =~= Map::<Seq<char>, Seq<char>>::empty());
        assert(node@.log =~= Seq::<EntryView>::empty());
        node
    }

    /// The node's identity.
    pub fn id(&self) -> (r: &String)
        ensures
            r@ == self@.id,
    {
        &self.id
    }

    /// The node's role.
    pub fn role(&self) -> (r: &NodeRole)
        ensures
            *r == self@.role,
    {
        &self.role
    }

    /// Whether the node leads.
    pub fn is_leader(&self) -> (r: bool)
        ensures
            r == (self@.role == NodeRole::Leader),
    {
        match self.role {
            NodeRole::Leader => true,
            _ => false,
        }
    }

    /// The node's peers.
    pub fn get_peers(&self) -> (r: &Vec<(String, u16)>)
        ensures
            peers_view(r@) == self@.peers,
    {
        &self.peers
    }

    /// The node's current term.
    pub fn current_term(&self) -> (r: u64)
        ensures
            r == self@.current_term,
    {
        self.current_term
    }

    /// The highest log position known to be committed.
    pub fn commit_index(&self) -> (r: usize)
        ensures
            r == self@.commit_index,
    {
        self.commit_index
    }

    /// How many elections the node has started.
    pub fn election_count(&self) -> (r: u64)
        ensures
            r == self@.election_count,
    {
        self.election_count
    }

    /// The value stored under `key`, if any.
    pub fn get_value(&self, key: &str) -> (r: Option<String>)
        ensures
            match r {
                Some(v) => self@.kv.contains_key(key@) && v@ == self@.kv[key@],
                None => !self@.kv.contains_key(key@),
            },
    {
        match self.kv_store.get(key) {
            Some(v) => Some(v.clone()),
            None => None,
        }
    }

    /// The number of entries in the log.
    pub fn log_len(&self) -> (r: usize)
        ensures
            r == self@.log.len(),
    {
        self.log.len()
    }

    /// The number of log positions applied to the store.
    pub fn last_applied(&self) -> (r: usize)
        ensures
            r == self@.last_applied,
    {
        self.last_applied
    }
}


impl RaftNode {
    /// The log as `Debug` renders it:
    /// `[LogEntry { term: 1, command: "set a=1" }, ...]`.
    pub fn log_debug(&self) -> (r: String)
        ensures
            r@ == log_debug_spec(self@.log),
    {
        let mut r = String::from_str("[");
        let mut i: usize = 0;
        assert(self@.log.skip(0) =~= self@.log);
        while i < self.log.len()
            invariant
                i <= self.log@.len(),
                i == 0 ==> r@ == "["@,
                i > 0 ==> r@ + tail_debug(self@.log.skip(i as int)) + "]"@ == log_debug_spec(
                    self@.log,
                ),
            decreases self.log@.len() - i,
        {
            let ghost rest = self@.log.skip(i as int);
            let ghost r0 = r@;
            assert(rest[0] == self.log@[i as int]@);
            assert(rest.drop_first() =~= self@.log.skip(i + 1));
            proof {
                lemma_entries_debug_first(rest);
            }
            if i > 0 {
                r.append(", ");
            }
            let ghost sep = r@;
            r.append("LogEntry { term: ");
            r.append(decimal_string(self.log[i].term).as_str());
            r.append(", command: ");
            r.append(debug_quote(self.log[i].command.as_str()).as_str());
            r.append(" }");
            assert(r@ =~= sep + entry_debug(rest[0]));
            proof {
                if i == 0 {
                    assert(self@.log.skip(0) =~= self@.log);
                    assert(r@ + tail_debug(rest.drop_first()) + "]"@ =~= "["@ + entries_debug(rest)
                        + "]"@);
                } else {
                    assert(r@ + tail_debug(rest.drop_first()) + "]"@ =~= r0 + tail_debug(rest)
                        + "]"@);
                }
            }
            i = i + 1;
        }
        assert(self@.log.skip(i as int) =~= Seq::<EntryView>::empty());
        r.append("]");
        proof {
            if i == 0 {
                assert(self@.log =~= Seq::<EntryView>::empty());
                assert(r@ =~= log_debug_spec(self@.log));
            } else {
                assert(r@ =~= log_debug_spec(self@.log));
            }
        }
        r
    }

    /// Restarts the election timer from the current clock reading, which it
    /// returns; the model is unchanged. Nothing is stated of the reading
    /// itself: it is the clock's.
    pub fn reset_election_timer(&mut self) -> (now: std::time::Instant)
        ensures
            final(self)@ == old(self)@,
            final(self).timer_start() == now,
            final(self).timer_restarts() == old(self).timer_restarts() + 1,
    {
        let now = instant_now();
        self.last_heartbeat = now;
        self.timer_restarts = Ghost(self.timer_restarts@ + 1);
        now
    }

    /// Whether more than 400 ms have passed since the timer was last
    /// restarted. The answer depends on the clock: no clause fixes it; the
    /// comparison itself is `timeout_exceeded`.
    pub fn election_timeout_elapsed(&self) -> bool {
        let d = instant_elapsed(&self.last_heartbeat);
        let nanos = duration_as_nanos(&d);
        timeout_exceeded(nanos)
    }

    /// The vote request this node sends as a candidate.
    pub fn get_vote_request(&self) -> (r: VoteRequest)
        ensures
            r@ == vote_request_spec(self@),
    {
        let n = self.log.len();
        let (last_log_index, last_log_term) = if n == 0 {
            (0, 0)
        } else {
            (n - 1, self.log[n - 1].term)
        };
        VoteRequest {
            candidate_id: self.id.clone(),
            candidate_term: self.current_term,
            last_log_index,
            last_log_term,
        }
    }

    /// Starts an election: the next term, a vote for itself, one more
    /// election counted. The counters must not be at their maximum.
    pub fn become_candidate(&mut self)
        requires
            old(self).wf(),
            old(self)@.current_term < u64::MAX,
            old(self)@.election_count < u64::MAX,
        ensures
            final(self).wf(),
            final(self).timer_start() == old(self).timer_start(),
            final(self).timer_restarts() == old(self).timer_restarts(),
            final(self)@ == candidate_spec(old(self)@),
    {
        self.role = NodeRole::Candidate;
        self.current_term = self.current_term + 1;
        self.voted_for = Some(self.id.clone());
        self.election_count = self.election_count + 1;
        self.leader_state = None;
    }

    /// Takes the lead, sending every peer the log from its end on.
    pub fn become_leader(&mut self)
        requires
            old(self).wf(),
        ensures
            final(self).wf(),
            final(self).timer_start() == old(self).timer_start(),
            final(self).timer_restarts() == old(self).timer_restarts(),
            final(self)@ == leader_spec(old(self)@),
    {
        let n = self.peers.len();
        let len = self.log.len();
        let mut next_index: Vec<usize> = Vec::new();
        let mut match_index: Vec<usize> = Vec::new();
        let mut replicated: Vec<usize> = Vec::new();
        let mut i: usize = 0;
        while i < n
            invariant
                n == self.peers@.len(),
                i <= n,
                next_index@ =~= Seq::new(i as nat, |j: int| len),
                match_index@ =~= Seq::new(i as nat, |j: int| 0usize),
                replicated@ =~= Seq::new(i as nat, |j: int| 0usize),
            decreases n - i,
        {
            next_index.push(len);
            match_index.push(0);
            replicated.push(0);
            i = i + 1;
        }
        self.role = NodeRole::Leader;
        self.leader_state = Some(LeaderState { next_index, match_index, replicated });
    }

    /// Takes the lead at once; the same as `become_leader`.
    pub fn force_become_leader(&mut self)
        requires
            old(self).wf(),
        ensures
            final(self).wf(),
            final(self).timer_start() == old(self).timer_start(),
            final(self).timer_restarts() == old(self).timer_restarts(),
            final(self)@ == leader_spec(old(self)@),
    {
        self.become_leader();
    }

    /// Steps down to follower in `new_term`, forgetting the vote.
    pub fn become_follower(&mut self, new_term: u64)
        requires
            old(self).wf(),
        ensures
            final(self).wf(),
            final(self).timer_start() == old(self).timer_start(),
            final(self).timer_restarts() == old(self).timer_restarts(),
            final(self)@ == follower_spec(old(self)@, new_term),
    {
        self.role = NodeRole::Follower;
        self.current_term = new_term;
        self.voted_for = None;
        self.leader_state = None;
    }

    /// Answers a vote request; see `vote_spec`.
    pub fn handle_vote_request(
        &mut self,
        candidate_id: String,
        candidate_term: u64,
        candidate_last_log_index: usize,
        candidate_last_log_term: u64,
    ) -> (granted: bool)
        requires
            old(self).wf(),
        ensures
            final(self).wf(),
            final(self).timer_start() == old(self).timer_start(),
            final(self).timer_restarts() == old(self).timer_restarts(),
            (final(self)@, granted) == vote_spec(
                old(self)@,
                candidate_id@,
                candidate_term,
                candidate_last_log_index,
                candidate_last_log_term,
            ),
    {
        if candidate_term < self.current_term {
            return false;
        }
        if candidate_term > self.current_term {
            self.become_follower(candidate_term);
        }
        let already_voted_other = match &self.voted_for {
            Some(voted_id) => !(*voted_id == candidate_id),
            None => false,
        };
        if already_voted_other {
            return false;
        }
        let n = self.log.len();
        if n > 0 {
            let last_term = self.log[n - 1].term;
            assert(self@.log.last() == self.log@[n - 1]@);
            if candidate_last_log_term < last_term || (candidate_last_log_term == last_term
                && candidate_last_log_index < n - 1) {
                return false;
            }
        }
        self.voted_for = Some(candidate_id);
        true
    }

    /// Applies every committed entry not yet applied, in log order.
    pub fn apply_committed_entries(&mut self)
        requires
            old(self).wf(),
        ensures
            final(self).wf(),
            final(self).timer_start() == old(self).timer_start(),
            final(self).timer_restarts() == old(self).timer_restarts(),
            final(self)@ == apply_spec(old(self)@),
    {
        let ghost v0 = self@;
        let ghost target: usize = if v0.last_applied < v0.commit_index {
            v0.commit_index
        } else {
            v0.last_applied
        };
        while self.last_applied < self.commit_index
            invariant
                self.wf(),
                self.timer_start() == old(self).timer_start(),
                self.timer_restarts() == old(self).timer_restarts(),
                self@ == (NodeView { kv: self@.kv, last_applied: self@.last_applied, ..v0 }),
                target == (if v0.last_applied < v0.commit_index {
                    v0.commit_index
                } else {
                    v0.last_applied
                }),
                v0.last_applied <= self@.last_applied <= target,
                apply_range(self@.kv, v0.log, self@.last_applied as int, v0.commit_index as int)
                    == apply_range(
                    v0.kv,
                    v0.log,
                    v0.last_applied as int,
                    v0.commit_index as int,
                ),
            decreases self.commit_index - self.last_applied,
        {
            let ghost kv_before = self@.kv;
            let i = self.last_applied;
            if i < self.log.len() {
                assert(v0.log[i as int] == self.log@[i as int]@);
                match parse_set_command(self.log[i].command.as_str()) {
                    Some((key, value)) => {
                        let ghost k = key@;
                        let ghost val = value@;
                        self.kv_store.insert(key, value);
                        assert(self@.kv =~= kv_before.insert(k, val));
                    },
                    None => {},
                }
            }
            assert(self@.kv == apply_entry(kv_before, v0.log, i as int));
            self.last_applied = i + 1;
        }
    }

    /// Answers an append request; see `append_entries_spec`. Unless the
    /// request is from an older term, the election timer restarts. The log
    /// and the entries together must fit the machine's index range.
    pub fn handle_append_entries(
        &mut self,
        _leader_id: String,
        leader_term: u64,
        prev_log_idx: usize,
        prev_log_term: u64,
        entries: Vec<LogEntry>,
        leader_commit_index: usize,
    ) -> (success: bool)
        requires
            old(self).wf(),
            old(self)@.log.len() + entries@.len() < usize::MAX,
        ensures
            final(self).wf(),
            leader_term < old(self)@.current_term ==> final(self).timer_start() == old(
                self,
            ).timer_start() && final(self).timer_restarts() == old(self).timer_restarts(),
            leader_term >= old(self)@.current_term ==> final(self).timer_restarts() == old(
                self,
            ).timer_restarts() + 1,
            (final(self)@, success) == append_entries_spec(
                old(self)@,
                leader_term,
                prev_log_idx,
                prev_log_term,
                entries_view(entries@),
                leader_commit_index,
            ),
    {
        if leader_term < self.current_term {
            return false;
        }
        if leader_term > self.current_term {
            self.become_follower(leader_term);
        } else {
            self.role = NodeRole::Follower;
            self.leader_state = None;
        }
        self.reset_election_timer();
        if prev_log_idx > 0 {
            if prev_log_idx < self.log.len() {
                if self.log[prev_log_idx].term != prev_log_term {
                    return false;
                }
            } else {
                return false;
            }
        }
        let ghost f = self@;
        let ghost restarts = self.timer_restarts@;
        let ghost ev = entries_view(entries@);
        let mut idx: usize = 0;
        while idx < entries.len()
            invariant
                self.wf(),
                f.log.len() + ev.len() < usize::MAX,
                ev == entries_view(entries@),
                prev_log_idx == 0 || prev_log_idx < f.log.len(),
                idx <= entries@.len(),
                self.timer_restarts@ == restarts,
                self@ == (NodeView {
                    log: merge_entries(f.log, prev_log_idx as int, ev.take(idx as int)),
                    ..f
                }),
            decreases entries@.len() - idx,
        {
            let log_index = prev_log_idx + idx + 1;
            let entry = entries[idx].duplicate();
            let ghost before = self@.log;
            if log_index < self.log.len() {
                if self.log[log_index].term != entry.term {
                    self.log.truncate(log_index);
                    self.log.push(entry);
                    assert(self@.log =~= before.take(log_index as int).push(ev[idx as int]));
                }
            } else {
                self.log.push(entry);
                assert(self@.log =~= before.push(ev[idx as int]));
            }
            assert(ev.take(idx + 1).drop_last() =~= ev.take(idx as int));
            idx = idx + 1;
        }
        assert(ev.take(idx as int) =~= ev);
        if leader_commit_index > self.commit_index {
            let len = self.log.len();
            self.commit_index = if leader_commit_index < len {
                leader_commit_index
            } else {
                len
            };
            self.apply_committed_entries();
        }
        true
    }

    /// Records a peer's answer to an append request, while leading: on
    /// success the peer's next index and known count become its log length
    /// and its match index the index of its last entry (0 at least), and the
    /// leader commits and applies what a majority now holds (see
    /// `advance_commit_spec`); on failure the next index steps back by one,
    /// stopping at 0.
    pub fn handle_append_response(&mut self, peer_idx: usize, success: bool, follower_log_len: usize)
        requires
            old(self).wf(),
            old(self)@.leader is Some ==> peer_idx < old(self)@.peers.len(),
        ensures
            final(self).wf(),
            final(self).timer_start() == old(self).timer_start(),
            final(self).timer_restarts() == old(self).timer_restarts(),
            final(self)@ == append_response_spec(
                old(self)@,
                peer_idx as int,
                success,
                follower_log_len,
            ),
    {
        if let Some(mut ls) = self.leader_state.take() {
            if success {
                let matched = if follower_log_len > 0 {
                    follower_log_len - 1
                } else {
                    0
                };
                ls.match_index.set(peer_idx, matched);
                ls.next_index.set(peer_idx, follower_log_len);
                ls.replicated.set(peer_idx, follower_log_len);
                self.leader_state = Some(ls);
                self.advance_commit_index();
            } else {
                let next = ls.next_index[peer_idx];
                if next > 0 {
                    ls.next_index.set(peer_idx, next - 1);
                }
                self.leader_state = Some(ls);
            }
        }
    }

    /// Commits as far as a majority of peers hold entries of the current
    /// term, and applies what was committed; see `advance_commit_spec`.
    fn advance_commit_index(&mut self)
        requires
            old(self).wf(),
        ensures
            final(self).wf(),
            final(self).timer_start() == old(self).timer_start(),
            final(self).timer_restarts() == old(self).timer_restarts(),
            final(self)@ == advance_commit_spec(old(self)@),
    {
        let target = match &self.leader_state {
            Some(ls) => compute_commit_target(
                &self.log,
                self.current_term,
                self.peers.len(),
                &ls.replicated,
                self.commit_index,
            ),
            None => {
                return;
            },
        };
        if target > self.commit_index {
            self.commit_index = target;
            self.apply_committed_entries();
        }
    }

    /// The append request this node sends to the peer at `peer_idx`; see
    /// `append_request_spec`.
    pub fn get_append_entries_for_peer(&self, peer_idx: usize) -> (r: AppendRequest)
        requires
            self.wf(),
            self@.leader is Some ==> peer_idx < self@.peers.len(),
        ensures
            r@ == append_request_spec(self@, peer_idx as int),
    {
        let len = self.log.len();
        let next_idx = match &self.leader_state {
            Some(ls) => ls.next_index[peer_idx],
            None => len,
        };
        let prev_log_index = if next_idx > 0 {
            next_idx - 1
        } else {
            0
        };
        let prev_log_term = if prev_log_index < len {
            self.log[prev_log_index].term
        } else {
            0
        };
        let start = if next_idx < len {
            next_idx
        } else {
            len
        };
        let entries = copy_entries(&self.log, start);
        AppendRequest {
            leader_id: self.id.clone(),
            term: self.current_term,
            prev_log_index,
            prev_log_term,
            entries,
            leader_commit: self.commit_index,
        }
    }

    /// Appends `command` to the log in the current term.
    pub fn append_to_log(&mut self, command: String)
        requires
            old(self).wf(),
        ensures
            final(self).wf(),
            final(self).timer_start() == old(self).timer_start(),
            final(self).timer_restarts() == old(self).timer_restarts(),
            final(self)@ == append_to_log_spec(old(self)@, command@),
    {
        let entry = LogEntry { term: self.current_term, command };
        let ghost before = self@.log;
        self.log.push(entry);
        assert(self@.log =~= before.push(entry@));
    }

    /// Commits and applies the whole log, which only a leader may do; any
    /// other node is refused and left unchanged.
    pub fn test_commit_all(&mut self) -> (r: Result<usize, String>)
        requires
            old(self).wf(),
        ensures
            final(self).wf(),
            final(self).timer_start() == old(self).timer_start(),
            final(self).timer_restarts() == old(self).timer_restarts(),
            old(self)@.role != NodeRole::Leader ==> final(self)@ == old(self)@ && r is Err && r->Err_0@
                == "Only leaders can commit entries"@,
            old(self)@.role == NodeRole::Leader ==> final(self)@ == commit_all_spec(old(self)@)
                && r == Ok::<usize, String>(old(self)@.log.len() as usize),
    {
        if !self.is_leader() {
            return Err(String::from_str("Only leaders can commit entries"));
        }
        self.commit_index = self.log.len();
        self.apply_committed_entries();
        Ok(self.commit_index)
    }

    /// The part of the state to keep across restarts.
    pub fn persistent_state(&self) -> (p: PersistentState)
        ensures
            p@ == persistent_spec(self@),
    {
        let log = copy_entries(&self.log, 0);
        assert(entries_view(self.log@).skip(0) =~= entries_view(self.log@));
        PersistentState {
            current_term: self.current_term,
            voted_for: copy_opt_string(&self.voted_for),
            log,
        }
    }

    /// Takes over a persistent state read back at startup.
    pub fn restore_persistent_state(&mut self, state: PersistentState)
        requires
            old(self).wf(),
        ensures
            final(self).wf(),
            final(self).timer_start() == old(self).timer_start(),
            final(self).timer_restarts() == old(self).timer_restarts(),
            final(self)@ == restore_spec(old(self)@, state@),
    {
        self.current_term = state.current_term;
        self.voted_for = state.voted_for;
        self.log = state.log;
    }
}

} // verus!
