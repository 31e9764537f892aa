use raftlike::node::{timeout_exceeded, LogEntry, NodeRole, PersistentState, RaftNode};
use raftlike::text::set_command;

fn peers(n: usize) -> Vec<(String, u16)> {
    (0..n).map(|i| ("localhost".to_string(), 9000 + i as u16)).collect()
}

fn entry(term: u64, command: &str) -> LogEntry {
    LogEntry::new(term, command.to_string())
}

fn leader_after_log(commands: &[&str]) -> RaftNode {
    let mut node = RaftNode::new("L".to_string(), peers(2));
    for c in commands {
        node.append_to_log(c.to_string());
    }
    node.become_candidate();
    node.become_leader();
    node
}

fn leader_with_log(commands: &[&str]) -> RaftNode {
    let mut node = RaftNode::new("L".to_string(), peers(2));
    node.become_candidate();
    node.become_leader();
    for c in commands {
        node.append_to_log(c.to_string());
    }
    node
}

#[test]
fn new_node_starts_as_follower_in_term_zero() {
    let node = RaftNode::new("A".to_string(), peers(2));
    assert_eq!(node.id(), "A");
    assert_eq!(*node.role(), NodeRole::Follower);
    assert!(!node.is_leader());
    assert_eq!(node.current_term(), 0);
    assert_eq!(node.commit_index(), 0);
    assert_eq!(node.last_applied(), 0);
    assert_eq!(node.log_len(), 0);
    assert_eq!(node.election_count(), 0);
    assert_eq!(node.get_peers().len(), 2);
    assert_eq!(node.get_value("x"), None);
}

#[test]
fn become_candidate_advances_term_and_votes_for_itself() {
    let mut node = RaftNode::new("A".to_string(), peers(2));
    node.become_candidate();
    assert_eq!(*node.role(), NodeRole::Candidate);
    assert_eq!(node.current_term(), 1);
    assert_eq!(node.election_count(), 1);
    let req = node.get_vote_request();
    assert_eq!(req.candidate_id, "A");
    assert_eq!(req.candidate_term, 1);
    assert_eq!(req.last_log_index, 0);
    assert_eq!(req.last_log_term, 0);
    // having voted for itself, it refuses another candidate of the same term
    assert!(!node.handle_vote_request("B".to_string(), 1, 0, 0));
    assert!(node.handle_vote_request("A".to_string(), 1, 0, 0));
}

#[test]
fn vote_request_reports_last_entry() {
    let node = leader_with_log(&["set a=1", "set b=2"]);
    let req = node.get_vote_request();
    assert_eq!(req.last_log_index, 1);
    assert_eq!(req.last_log_term, 1);
    assert_eq!(req.candidate_term, 1);
}

#[test]
fn stale_vote_request_is_refused() {
    let mut node = RaftNode::new("A".to_string(), peers(2));
    node.become_candidate();
    node.become_candidate();
    assert_eq!(node.current_term(), 2);
    assert!(!node.handle_vote_request("B".to_string(), 1, 10, 10));
    assert_eq!(node.current_term(), 2);
}

#[test]
fn only_one_vote_per_term() {
    let mut node = RaftNode::new("A".to_string(), peers(2));
    assert!(node.handle_vote_request("B".to_string(), 3, 0, 0));
    assert_eq!(node.current_term(), 3);
    assert!(!node.handle_vote_request("C".to_string(), 3, 0, 0));
    // the same candidate may ask again
    assert!(node.handle_vote_request("B".to_string(), 3, 0, 0));
    // a higher term frees the vote
    assert!(node.handle_vote_request("C".to_string(), 4, 0, 0));
    assert_eq!(node.current_term(), 4);
}

#[test]
fn vote_refused_to_candidate_with_older_log() {
    let mut node = leader_with_log(&["set a=1", "set b=2"]);
    // higher term, but last log term 0 < 1
    assert!(!node.handle_vote_request("B".to_string(), 5, 5, 0));
    // it stepped down to the candidate's term anyway
    assert_eq!(node.current_term(), 5);
    assert_eq!(*node.role(), NodeRole::Follower);
    // same last term, shorter log
    assert!(!node.handle_vote_request("B".to_string(), 5, 0, 1));
    // same last term, as long
    assert!(node.handle_vote_request("B".to_string(), 5, 1, 1));
}

#[test]
fn append_entries_stale_leader_refused() {
    let mut node = RaftNode::new("A".to_string(), peers(2));
    node.become_candidate();
    node.become_candidate();
    let before = node.current_term();
    assert!(!node.handle_append_entries("L".to_string(), 1, 0, 0, vec![], 0));
    assert_eq!(node.current_term(), before);
    assert_eq!(*node.role(), NodeRole::Candidate);
}

#[test]
fn append_entries_appends_and_applies() {
    let mut node = RaftNode::new("A".to_string(), peers(2));
    node.append_to_log("set seed=0".to_string());
    // the previous entry is at position 0; the new ones follow it
    let ok = node.handle_append_entries(
        "L".to_string(),
        2,
        0,
        0,
        vec![entry(2, "set x=1"), entry(2, "set y=2")],
        3,
    );
    assert!(ok);
    assert_eq!(node.current_term(), 2);
    assert_eq!(*node.role(), NodeRole::Follower);
    assert_eq!(node.log_len(), 3);
    assert_eq!(node.commit_index(), 3);
    assert_eq!(node.last_applied(), 3);
    assert_eq!(node.get_value("seed"), Some("0".to_string()));
    assert_eq!(node.get_value("x"), Some("1".to_string()));
    assert_eq!(node.get_value("y"), Some("2".to_string()));
}

#[test]
fn append_entries_at_previous_index_zero_keeps_position_zero() {
    let mut node = RaftNode::new("A".to_string(), peers(2));
    node.append_to_log("set seed=0".to_string());
    // previous index 0: the new entry goes to position 1, position 0 stays
    assert!(node.handle_append_entries("L".to_string(), 2, 0, 0, vec![entry(2, "set x=1")], 2));
    assert_eq!(node.log_len(), 2);
    assert_eq!(node.get_value("x"), Some("1".to_string()));
    assert_eq!(node.get_value("seed"), Some("0".to_string()));
}

#[test]
fn append_entries_replaces_conflict_at_position_one() {
    let mut node = RaftNode::new("A".to_string(), peers(2));
    node.append_to_log("set a=1".to_string());
    node.append_to_log("set b=2".to_string());
    // position 1 holds term 0; the new entry of term 2 replaces it
    assert!(node.handle_append_entries("L".to_string(), 2, 0, 0, vec![entry(2, "set x=1")], 2));
    assert_eq!(node.log_len(), 2);
    assert_eq!(node.get_value("a"), Some("1".to_string()));
    assert_eq!(node.get_value("x"), Some("1".to_string()));
    assert_eq!(node.get_value("b"), None);
}

#[test]
fn append_entries_commit_capped_by_log_length() {
    let mut node = RaftNode::new("A".to_string(), peers(2));
    node.append_to_log("set seed=0".to_string());
    assert!(node.handle_append_entries("L".to_string(), 1, 0, 0, vec![entry(1, "set x=1")], 100));
    assert_eq!(node.commit_index(), 2);
}

#[test]
fn append_entries_prev_mismatch_refused() {
    let mut node = RaftNode::new("A".to_string(), peers(2));
    node.append_to_log("set a=1".to_string());
    node.append_to_log("set b=2".to_string());
    // the log has no entry at position 5, nor at position 2
    assert!(!node.handle_append_entries("L".to_string(), 1, 5, 0, vec![entry(1, "set c=3")], 0));
    assert!(!node.handle_append_entries("L".to_string(), 1, 2, 0, vec![entry(1, "set c=3")], 0));
    // the entry at position 1 has term 0, not 7
    assert!(!node.handle_append_entries("L".to_string(), 1, 1, 7, vec![entry(1, "set c=3")], 0));
    assert_eq!(node.log_len(), 2);
    // matching previous entry
    assert!(node.handle_append_entries("L".to_string(), 1, 1, 0, vec![entry(1, "set c=3")], 0));
    assert_eq!(node.log_len(), 3);
}

#[test]
fn append_entries_conflict_truncates() {
    let mut node = RaftNode::new("A".to_string(), peers(2));
    node.append_to_log("set a=1".to_string());
    node.append_to_log("set b=2".to_string());
    node.append_to_log("set c=3".to_string());
    node.append_to_log("set d=4".to_string());
    // after position 1: position 2 holds term 0, the new entry of term 3
    // replaces it and what follows
    assert!(node.handle_append_entries("L".to_string(), 3, 1, 0, vec![entry(3, "set z=9")], 0));
    assert_eq!(node.log_len(), 3);
    assert!(node.handle_append_entries("L".to_string(), 3, 2, 3, vec![], 3));
    assert_eq!(node.get_value("z"), Some("9".to_string()));
    assert_eq!(node.get_value("b"), Some("2".to_string()));
    assert_eq!(node.get_value("c"), None);
    assert_eq!(node.get_value("d"), None);
}

#[test]
fn append_entries_same_term_entry_kept() {
    let mut node = RaftNode::new("A".to_string(), peers(2));
    node.append_to_log("set a=1".to_string());
    node.append_to_log("set b=2".to_string());
    // same term 0 at position 1: kept as it is
    assert!(node.handle_append_entries("L".to_string(), 0, 0, 0, vec![entry(0, "set q=7")], 2));
    assert_eq!(node.log_len(), 2);
    assert_eq!(node.get_value("b"), Some("2".to_string()));
    assert_eq!(node.get_value("q"), None);
}

#[test]
fn append_entries_twice_is_idempotent() {
    let mut node = RaftNode::new("A".to_string(), peers(2));
    node.append_to_log("set a=1".to_string());
    let entries = || vec![entry(2, "set x=1"), entry(2, "set y=2")];
    assert!(node.handle_append_entries("L".to_string(), 2, 0, 0, entries(), 2));
    assert_eq!(node.log_len(), 3);
    let (len, commit, applied) = (node.log_len(), node.commit_index(), node.last_applied());
    assert!(node.handle_append_entries("L".to_string(), 2, 0, 0, entries(), 2));
    assert_eq!((node.log_len(), node.commit_index(), node.last_applied()), (len, commit, applied));
    assert_eq!(node.get_value("x"), Some("1".to_string()));
}

#[test]
fn append_entries_on_empty_log_twice_repeats_the_entry() {
    let mut node = RaftNode::new("A".to_string(), peers(2));
    // an empty log has no position 1: the entry is pushed at position 0
    assert!(node.handle_append_entries("L".to_string(), 1, 0, 0, vec![entry(1, "set x=1")], 0));
    assert_eq!(node.log_len(), 1);
    // the second time it goes to position 1, after the first copy
    assert!(node.handle_append_entries("L".to_string(), 1, 0, 0, vec![entry(1, "set x=1")], 0));
    assert_eq!(node.log_len(), 2);
}

#[test]
fn same_term_append_keeps_vote() {
    let mut node = RaftNode::new("A".to_string(), peers(2));
    assert!(node.handle_vote_request("B".to_string(), 1, 0, 0));
    assert!(node.handle_append_entries("B".to_string(), 1, 0, 0, vec![], 0));
    assert!(!node.handle_vote_request("C".to_string(), 1, 0, 0));
    assert!(node.handle_vote_request("B".to_string(), 1, 0, 0));
    // a higher term frees the vote
    assert!(node.handle_append_entries("D".to_string(), 2, 0, 0, vec![], 0));
    assert!(node.handle_vote_request("C".to_string(), 2, 0, 0));
}

#[test]
fn append_entries_restarts_timer_unless_stale() {
    let mut node = RaftNode::new("A".to_string(), peers(2));
    let start = std::time::Instant::now();
    while start.elapsed() <= std::time::Duration::from_millis(450) {}
    assert!(node.election_timeout_elapsed());
    node.become_candidate();
    node.become_candidate();
    // stale: the timer keeps running
    assert!(!node.handle_append_entries("L".to_string(), 1, 0, 0, vec![], 0));
    assert!(node.election_timeout_elapsed());
    // current leader: the timer restarts
    assert!(node.handle_append_entries("L".to_string(), 2, 0, 0, vec![], 0));
    assert!(!node.election_timeout_elapsed());
}

#[test]
fn become_leader_sets_peer_positions() {
    let node = leader_after_log(&["set a=1", "set b=2"]);
    assert!(node.is_leader());
    let req = node.get_append_entries_for_peer(0);
    assert_eq!(req.leader_id, "L");
    assert_eq!(req.term, 1);
    // next index 2: the previous entry is at position 1, of term 0
    assert_eq!(req.prev_log_index, 1);
    assert_eq!(req.prev_log_term, 0);
    assert_eq!(req.entries.len(), 0);
    assert_eq!(req.leader_commit, 0);
    // a leader elected with an empty log sends all later entries
    let node = leader_with_log(&["set a=1", "set b=2"]);
    let req = node.get_append_entries_for_peer(1);
    assert_eq!(req.prev_log_index, 0);
    assert_eq!(req.prev_log_term, 1);
    assert_eq!(req.entries.len(), 2);
    assert_eq!(req.entries[1].term(), 1);
}

#[test]
fn become_leader_right_after_election_sends_nothing() {
    let mut node = RaftNode::new("L".to_string(), peers(3));
    node.append_to_log("set a=1".to_string());
    node.become_candidate();
    node.force_become_leader();
    let req = node.get_append_entries_for_peer(2);
    assert_eq!(req.prev_log_index, 0);
    assert_eq!(req.prev_log_term, 0);
    assert_eq!(req.entries.len(), 0);
}

#[test]
fn append_response_moves_next_index() {
    let mut node = RaftNode::new("L".to_string(), peers(2));
    node.append_to_log("set a=1".to_string());
    node.become_candidate();
    node.append_to_log("set b=2".to_string());
    node.append_to_log("set c=3".to_string());
    node.become_leader();
    // next index 3: nothing to send
    assert_eq!(node.get_append_entries_for_peer(1).entries.len(), 0);
    node.handle_append_response(1, false, 0);
    let req = node.get_append_entries_for_peer(1);
    // the previous entry is at position 1, of term 1
    assert_eq!(req.prev_log_index, 1);
    assert_eq!(req.prev_log_term, 1);
    assert_eq!(req.entries.len(), 1);
    assert_eq!(req.entries[0].command(), "set c=3");
    node.handle_append_response(1, true, 1);
    let req = node.get_append_entries_for_peer(1);
    assert_eq!(req.prev_log_index, 0);
    assert_eq!(req.prev_log_term, 0);
    assert_eq!(req.entries.len(), 2);
    // peer 0 untouched
    assert_eq!(node.get_append_entries_for_peer(0).entries.len(), 0);
    // next index never goes below 0
    node.handle_append_response(1, true, 0);
    node.handle_append_response(1, false, 0);
    assert_eq!(node.get_append_entries_for_peer(1).entries.len(), 3);
}

#[test]
fn follower_with_leader_prefix_accepts_and_matches() {
    let mut leader = RaftNode::new("L".to_string(), peers(1));
    leader.append_to_log("set a=1".to_string());
    leader.become_candidate();
    leader.append_to_log("set b=2".to_string());
    leader.append_to_log("set c=3".to_string());
    leader.become_leader();
    leader.handle_append_response(0, false, 0);
    let req = leader.get_append_entries_for_peer(0);
    // the follower holds the two entries the request assumes
    let mut follower = RaftNode::new("F".to_string(), peers(1));
    follower.append_to_log("set a=1".to_string());
    follower.become_candidate();
    follower.append_to_log("set b=2".to_string());
    assert!(follower.handle_append_entries(
        req.leader_id,
        req.term,
        req.prev_log_index,
        req.prev_log_term,
        req.entries,
        req.leader_commit,
    ));
    assert_eq!(follower.log_len(), 3);
    assert_eq!(follower.log_debug(), leader.log_debug());
}

#[test]
fn majority_acknowledgement_commits_and_applies() {
    let mut leader = RaftNode::new("L".to_string(), peers(2));
    leader.become_candidate();
    leader.become_leader();
    leader.append_to_log(set_command("x", "1"));
    assert_eq!(leader.commit_index(), 0);
    // a failure commits nothing
    leader.handle_append_response(0, false, 1);
    assert_eq!(leader.commit_index(), 0);
    // one peer of two, with the leader, is a majority of three
    leader.handle_append_response(0, true, 1);
    assert_eq!(leader.commit_index(), 1);
    assert_eq!(leader.last_applied(), 1);
    assert_eq!(leader.get_value("x"), Some("1".to_string()));
    let req = leader.get_append_entries_for_peer(1);
    assert_eq!(req.leader_commit, 1);
}

#[test]
fn minority_acknowledgement_does_not_commit() {
    let mut leader = RaftNode::new("L".to_string(), peers(4));
    leader.become_candidate();
    leader.become_leader();
    leader.append_to_log(set_command("x", "1"));
    leader.handle_append_response(0, true, 1);
    assert_eq!(leader.commit_index(), 0);
    leader.handle_append_response(3, true, 1);
    assert_eq!(leader.commit_index(), 1);
    assert_eq!(leader.get_value("x"), Some("1".to_string()));
}

#[test]
fn entries_of_older_terms_wait_for_current_term_entry() {
    let mut leader = RaftNode::new("L".to_string(), peers(2));
    leader.append_to_log(set_command("old", "1"));
    leader.become_candidate();
    leader.become_leader();
    // the only entry is of term 0, older than the leader's term 1
    leader.handle_append_response(0, true, 1);
    assert_eq!(leader.commit_index(), 0);
    leader.append_to_log(set_command("new", "2"));
    leader.handle_append_response(0, true, 2);
    assert_eq!(leader.commit_index(), 2);
    assert_eq!(leader.get_value("old"), Some("1".to_string()));
    assert_eq!(leader.get_value("new"), Some("2".to_string()));
}

#[test]
fn append_response_ignored_by_follower() {
    let mut node = RaftNode::new("A".to_string(), peers(1));
    node.handle_append_response(7, false, 3);
    let req = node.get_append_entries_for_peer(7);
    assert_eq!(req.entries.len(), 0);
    assert_eq!(req.prev_log_index, 0);
}

#[test]
fn committed_write_is_read_back() {
    let mut node = leader_with_log(&[]);
    node.append_to_log(set_command("message", "hello world"));
    assert_eq!(node.get_value("message"), None);
    assert_eq!(node.test_commit_all(), Ok(1));
    assert_eq!(node.get_value("message"), Some("hello world".to_string()));
    assert_eq!(node.last_applied(), 1);
    // the later write wins
    node.append_to_log(set_command("message", "bye"));
    assert_eq!(node.test_commit_all(), Ok(2));
    assert_eq!(node.get_value("message"), Some("bye".to_string()));
}

#[test]
fn commit_all_refused_to_follower() {
    let mut node = RaftNode::new("A".to_string(), peers(2));
    node.append_to_log("set a=1".to_string());
    assert_eq!(node.test_commit_all(), Err("Only leaders can commit entries".to_string()));
    assert_eq!(node.commit_index(), 0);
    assert_eq!(node.get_value("a"), None);
}

#[test]
fn apply_skips_commands_that_are_not_writes() {
    let mut node = leader_with_log(&["get a", "set b", "set c=1=2", "set =e", "SET d=1"]);
    assert_eq!(node.test_commit_all(), Ok(5));
    assert_eq!(node.get_value("b"), None);
    assert_eq!(node.get_value("c"), Some("1=2".to_string()));
    assert_eq!(node.get_value(""), Some("e".to_string()));
    assert_eq!(node.get_value("d"), None);
    // applying again changes nothing
    node.apply_committed_entries();
    assert_eq!(node.last_applied(), 5);
}

#[test]
fn persistent_state_round_trip() {
    let mut node = RaftNode::new("A".to_string(), peers(2));
    node.become_candidate();
    node.append_to_log("set a=1".to_string());
    let saved = node.persistent_state();
    assert_eq!(saved.current_term, 1);
    assert_eq!(saved.voted_for, Some("A".to_string()));
    assert_eq!(saved.log.len(), 1);

    let mut fresh = RaftNode::new("A".to_string(), peers(2));
    fresh.restore_persistent_state(saved);
    assert_eq!(fresh.current_term(), 1);
    assert_eq!(fresh.log_len(), 1);
    assert!(!fresh.handle_vote_request("B".to_string(), 1, 5, 5));

    let restored = PersistentState { current_term: 7, voted_for: None, log: vec![] };
    fresh.restore_persistent_state(restored);
    assert_eq!(fresh.current_term(), 7);
    assert_eq!(fresh.log_len(), 0);
}

#[test]
fn log_entry_accessors() {
    let e = LogEntry::new(4, "set k=v".to_string());
    assert_eq!(e.term(), 4);
    assert_eq!(e.command(), "set k=v");
    let d = e.duplicate();
    assert_eq!(d.term(), 4);
    assert_eq!(d.command(), "set k=v");
}

#[test]
fn log_debug_renders_entries() {
    let node = leader_with_log(&["set a=1"]);
    assert_eq!(node.log_debug(), "[LogEntry { term: 1, command: \"set a=1\" }]");
}

#[test]
fn election_timeout_threshold() {
    assert!(!timeout_exceeded(0));
    assert!(!timeout_exceeded(400_000_000));
    assert!(timeout_exceeded(400_000_001));
}

#[test]
fn fresh_timer_has_not_run_out() {
    let mut node = RaftNode::new("A".to_string(), peers(2));
    assert!(!node.election_timeout_elapsed());
    node.reset_election_timer();
    assert!(!node.election_timeout_elapsed());
}

#[test]
fn become_follower_clears_leadership() {
    let mut node = leader_with_log(&["set a=1"]);
    node.become_follower(9);
    assert_eq!(*node.role(), NodeRole::Follower);
    assert_eq!(node.current_term(), 9);
    assert!(node.handle_vote_request("X".to_string(), 9, 0, 1));
}

#[test]
fn log_debug_of_empty_and_escaped_logs() {
    let node = RaftNode::new("A".to_string(), peers(1));
    assert_eq!(node.log_debug(), "[]");
    let node = leader_with_log(&["set q=\"x\"", "line\nbreak"]);
    let expected = format!(
        "[LogEntry {{ term: 1, command: {:?} }}, LogEntry {{ term: 1, command: {:?} }}]",
        "set q=\"x\"", "line\nbreak"
    );
    assert_eq!(node.log_debug(), expected);
}

#[test]
fn follower_reads_replicated_write() {
    // a follower with one entry receives the leader's write and its commit
    let mut follower = RaftNode::new("F".to_string(), peers(2));
    follower.append_to_log("set a=1".to_string());
    let write = LogEntry::new(1, set_command("x", "1"));
    assert!(follower.handle_append_entries("L".to_string(), 1, 0, 0, vec![write], 2));
    assert_eq!(follower.get_value("x"), Some("1".to_string()));
    assert_eq!(follower.get_value("a"), Some("1".to_string()));
}

#[test]
fn next_index_past_the_log_sends_nothing() {
    let mut node = RaftNode::new("L".to_string(), vec![("h".to_string(), 1)]);
    node.append_to_log("a".to_string());
    node.become_leader();
    node.handle_append_response(0, true, 10);
    let req = node.get_append_entries_for_peer(0);
    assert_eq!(req.prev_log_index, 9);
    assert_eq!(req.prev_log_term, 0);
    assert!(req.entries.is_empty());
}

#[test]
fn node_without_leader_state_sends_from_its_log_end() {
    let mut node = RaftNode::new("A".to_string(), peers(1));
    node.append_to_log("a".to_string());
    let req = node.get_append_entries_for_peer(5);
    assert_eq!(req.prev_log_index, 0);
    assert_eq!(req.prev_log_term, 0);
    assert!(req.entries.is_empty());
    assert_eq!(req.term, 0);
}

#[test]
fn success_sets_match_index_to_last_position() {
    let mut node = RaftNode::new("L".to_string(), peers(1));
    node.become_candidate();
    node.become_leader();
    node.append_to_log("set a=1".to_string());
    node.append_to_log("set b=2".to_string());
    node.handle_append_response(0, true, 2);
    // next index 2: the previous entry is at position 1
    let req = node.get_append_entries_for_peer(0);
    assert_eq!(req.prev_log_index, 1);
    assert_eq!(req.prev_log_term, 1);
    assert!(req.entries.is_empty());
    assert_eq!(node.commit_index(), 2);
}

#[test]
fn append_reply_counts_only_what_the_request_covered() {
    let mut leader = RaftNode::new("L".to_string(), peers(2));
    leader.become_candidate();
    leader.become_leader();
    leader.append_to_log(set_command("x", "1"));
    leader.append_to_log(set_command("y", "2"));
    // a heartbeat with previous index 0 and nothing in it reaches one
    // entry; the rest of the peer's longer log does not count
    leader.handle_append_reply(0, 0, 0, true, 5);
    assert_eq!(leader.commit_index(), 1);
    let req = leader.get_append_entries_for_peer(0);
    assert_eq!(req.prev_log_index, 0);
    assert_eq!(req.entries.len(), 1);
    // the request with that one entry covers both
    leader.handle_append_reply(0, 0, 1, true, 5);
    assert_eq!(leader.commit_index(), 2);
    assert_eq!(leader.get_value("y"), Some("2".to_string()));
    // a refusal steps the next index back
    leader.handle_append_reply(1, 1, 1, false, 0);
    assert_eq!(leader.get_append_entries_for_peer(1).prev_log_index, 0);
}

#[test]
fn election_count_grows_only_with_campaigns() {
    let mut node = RaftNode::new("A".to_string(), peers(2));
    node.become_candidate();
    assert!(node.handle_vote_request("B".to_string(), 5, 0, 0));
    assert!(node.handle_append_entries("B".to_string(), 5, 0, 0, vec![], 0));
    node.become_candidate();
    node.become_leader();
    node.append_to_log("set a=1".to_string());
    node.handle_append_response(0, true, 1);
    assert_eq!(node.election_count(), 2);
    assert_eq!(node.current_term(), 6);
}

#[test]
fn leader_keeps_lead_until_a_later_term() {
    let mut node = leader_with_log(&["set a=1"]);
    assert!(!node.handle_vote_request("B".to_string(), 1, 9, 9));
    assert!(!node.handle_vote_request("B".to_string(), 0, 9, 9));
    assert!(!node.handle_append_entries("B".to_string(), 0, 0, 0, vec![], 0));
    node.handle_append_response(1, false, 0);
    node.append_to_log("set b=2".to_string());
    node.apply_committed_entries();
    assert!(node.is_leader());
    assert_eq!(node.current_term(), 1);
    // an append request of its own term ends the lead
    assert!(node.handle_append_entries("B".to_string(), 1, 0, 0, vec![], 0));
    assert!(!node.is_leader());
    assert_eq!(*node.role(), NodeRole::Follower);
}

#[test]
fn votes_of_one_term_go_to_one_candidate_across_calls() {
    let mut node = RaftNode::new("A".to_string(), peers(2));
    assert!(node.handle_vote_request("B".to_string(), 2, 0, 0));
    assert!(node.handle_append_entries("B".to_string(), 2, 0, 0, vec![entry(2, "set x=1")], 0));
    node.apply_committed_entries();
    assert!(!node.handle_vote_request("C".to_string(), 2, 5, 5));
    assert!(node.handle_vote_request("B".to_string(), 2, 5, 5));
    assert!(node.handle_vote_request("C".to_string(), 3, 5, 5));
}

#[test]
fn commit_index_is_kept_when_a_conflict_shortens_the_log() {
    let mut node = RaftNode::new("A".to_string(), peers(2));
    for c in ["set a=1", "set b=2", "set c=3", "set d=4"] {
        node.append_to_log(c.to_string());
    }
    assert!(node.handle_append_entries("L".to_string(), 1, 0, 0, vec![], 3));
    assert_eq!((node.commit_index(), node.last_applied()), (3, 3));
    // position 1 conflicts: the log is cut to two entries, the commit
    // index stays where it was
    assert!(node.handle_append_entries("L".to_string(), 1, 0, 0, vec![entry(1, "set z=9")], 2));
    assert_eq!(node.log_len(), 2);
    assert_eq!(node.commit_index(), 3);
    // a later commit index is capped by the shorter log, below what was
    // already applied
    assert!(node.handle_append_entries("L".to_string(), 1, 0, 0, vec![], 4));
    assert_eq!(node.commit_index(), 2);
    assert_eq!(node.last_applied(), 3);
}
