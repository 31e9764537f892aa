use raftlike::api::{AppendRequest, KVWriteRequest, VoteRequest};
use raftlike::election::{acknowledged_len, election_timeout_ms, majority, VoteTally};
use raftlike::node::{LogEntry, NodeRole, RaftNode};
use raftlike::server::{redirect_response, role_name, select_leader, KvWriteOutcome};

fn node(id: &str, n_peers: usize) -> RaftNode {
    let peers = (0..n_peers).map(|i| ("localhost".to_string(), 9000 + i as u16)).collect();
    RaftNode::new(id.to_string(), peers)
}

#[test]
fn vote_endpoint_answers_with_term() {
    let mut n = node("A", 2);
    let resp = n.handle_vote(VoteRequest {
        candidate_id: "B".to_string(),
        candidate_term: 4,
        last_log_index: 0,
        last_log_term: 0,
    });
    assert!(resp.vote_granted);
    assert_eq!(resp.term, 4);
    let resp = n.handle_vote(VoteRequest {
        candidate_id: "C".to_string(),
        candidate_term: 4,
        last_log_index: 0,
        last_log_term: 0,
    });
    assert!(!resp.vote_granted);
    assert_eq!(resp.term, 4);
}

#[test]
fn append_endpoint_reports_log_length() {
    let mut n = node("A", 2);
    n.append_to_log("set a=1".to_string());
    let resp = n.handle_append(AppendRequest {
        leader_id: "L".to_string(),
        term: 2,
        prev_log_index: 0,
        prev_log_term: 0,
        entries: vec![LogEntry::new(2, "set b=2".to_string())],
        leader_commit: 2,
    });
    assert!(resp.success);
    assert_eq!(resp.term, 2);
    assert_eq!(resp.log_len, 2);
    assert_eq!(n.get_value("b"), Some("2".to_string()));
}

#[test]
fn kv_write_on_follower_redirects() {
    let mut n = node("A", 2);
    let out = n.handle_kv_write(KVWriteRequest { key: "k".to_string(), value: "v".to_string() });
    assert!(matches!(out, KvWriteOutcome::NotLeader));
    assert_eq!(n.log_len(), 0);
}

#[test]
fn kv_write_on_leader_appends_command() {
    let mut n = node("A", 2);
    n.become_candidate();
    n.become_leader();
    let out = n.handle_kv_write(KVWriteRequest { key: "k".to_string(), value: "v".to_string() });
    match out {
        KvWriteOutcome::Accepted(resp) => {
            assert!(resp.success);
            assert_eq!(resp.error, None);
        }
        KvWriteOutcome::NotLeader => panic!("leader refused a write"),
    }
    assert_eq!(n.log_len(), 1);
    assert_eq!(n.test_commit_all(), Ok(1));
    let read = n.handle_kv_read("k");
    assert_eq!(read.value, Some("v".to_string()));
    assert_eq!(read.error, None);
    assert_eq!(n.handle_kv_read("missing").value, None);
}

#[test]
fn metrics_report_role_and_counters() {
    let mut n = node("A", 2);
    let m = n.metrics();
    assert_eq!(m.state, "Follower");
    assert_eq!((m.term, m.commit_index, m.election_count), (0, 0, 0));
    n.become_candidate();
    assert_eq!(n.metrics().state, "Candidate");
    n.become_leader();
    let m = n.metrics();
    assert_eq!(m.state, "Leader");
    assert_eq!((m.term, m.election_count), (1, 1));
}

#[test]
fn role_names_match_debug() {
    for role in [NodeRole::Follower, NodeRole::Candidate, NodeRole::Leader] {
        assert_eq!(role_name(&role), format!("{:?}", role));
    }
}

#[test]
fn select_leader_picks_first_leader() {
    let urls: Vec<String> = vec!["u0".into(), "u1".into(), "u2".into()];
    let states = vec![Some("Follower".to_string()), None, Some("Leader".to_string())];
    assert_eq!(select_leader(&urls, &states), "u2");
    let states = vec![Some("Leader".to_string()), None, Some("Leader".to_string())];
    assert_eq!(select_leader(&urls, &states), "u0");
    let states = vec![None, Some("Candidate".to_string()), None];
    assert_eq!(select_leader(&urls, &states), "http://localhost:8080");
}

#[test]
fn redirect_names_leader() {
    let r = redirect_response("http://localhost:8081".to_string());
    assert_eq!(r.leader_url, "http://localhost:8081");
    assert_eq!(r.message, "Redirecting to leader");
}

#[test]
fn majority_of_cluster() {
    assert_eq!(majority(0), 1);
    assert_eq!(majority(1), 2);
    assert_eq!(majority(2), 2);
    assert_eq!(majority(3), 3);
    assert_eq!(majority(4), 3);
    for n in 0..50usize {
        assert!(2 * majority(n) > n + 1);
    }
}

#[test]
fn tally_wins_on_majority() {
    let mut t = VoteTally::new(2);
    assert_eq!(t.votes(), 1);
    assert!(!t.record(false));
    assert!(t.record(true));
    assert_eq!(t.votes(), 2);

    let mut t = VoteTally::new(4);
    assert!(!t.record(true));
    assert!(!t.record(false));
    assert!(t.record(true));
    assert_eq!(t.votes(), 3);
}

#[test]
fn election_timeout_in_range_and_random() {
    let draws: Vec<u64> = (0..64).map(|_| election_timeout_ms()).collect();
    assert!(draws.iter().all(|ms| (300..500).contains(ms)));
    assert!(draws.iter().any(|ms| *ms != draws[0]));
}

#[test]
fn leader_does_not_start_election() {
    let mut n = node("A", 2);
    n.become_candidate();
    n.become_leader();
    assert!(n.start_election_if_due().is_none());
    assert_eq!(n.current_term(), 1);
}

#[test]
fn fresh_follower_waits_for_timeout() {
    let mut n = node("A", 2);
    assert!(n.start_election_if_due().is_none());
    assert_eq!(*n.role(), NodeRole::Follower);
}

#[test]
fn expired_timer_starts_election() {
    let mut n = node("A", 2);
    let start = std::time::Instant::now();
    while start.elapsed() <= std::time::Duration::from_millis(450) {}
    let round = n.start_election_if_due().expect("timer ran out");
    assert_eq!(round.term, 1);
    assert_eq!(round.peers.len(), 2);
    assert_eq!(round.request.candidate_id, "A");
    assert_eq!(round.request.candidate_term, 1);
    assert_eq!(*n.role(), NodeRole::Candidate);
    // the timer was restarted
    assert!(n.start_election_if_due().is_none());
}

#[test]
fn election_concluded_only_in_its_term() {
    let mut n = node("A", 2);
    n.become_candidate();
    n.conclude_election(0);
    assert_eq!(*n.role(), NodeRole::Candidate);
    n.conclude_election(1);
    assert!(n.is_leader());
}

#[test]
fn heartbeat_only_from_leader() {
    let mut n = node("A", 3);
    assert!(n.heartbeat_requests().is_none());
    n.append_to_log("set a=1".to_string());
    n.become_candidate();
    n.become_leader();
    let reqs = n.heartbeat_requests().expect("leader sends heartbeats");
    assert_eq!(reqs.len(), 3);
    for r in &reqs {
        assert_eq!(r.term, 1);
        assert_eq!(r.prev_log_index, 0);
        assert!(r.entries.is_empty());
    }
}

#[test]
fn election_decision_after_clock_reading() {
    let mut n = node("A", 2);
    assert!(n.start_election_when(false).is_none());
    assert_eq!(n.current_term(), 0);
    let round = n.start_election_when(true).expect("timed-out follower starts an election");
    assert_eq!(round.term, 1);
    assert_eq!(round.request.candidate_term, 1);
    assert_eq!(round.peers.len(), 2);
    assert_eq!(*n.role(), NodeRole::Candidate);
    assert_eq!(n.election_count(), 1);
    n.become_leader();
    assert!(n.start_election_when(true).is_none());
    assert_eq!(n.current_term(), 1);
}

#[test]
fn counted_votes_make_leader_only_on_majority_in_term() {
    let mut n = node("A", 4);
    n.become_candidate();
    let term = n.current_term();
    let mut tally = VoteTally::new(4);
    assert!(!n.count_vote(&mut tally, term, true));
    assert!(!n.is_leader());
    assert!(!n.count_vote(&mut tally, term, false));
    assert!(n.count_vote(&mut tally, term, true));
    assert!(n.is_leader());

    // a campaign of an older term wins the count but not the lead
    let mut m = node("B", 2);
    m.become_candidate();
    m.become_candidate();
    let mut tally = VoteTally::new(2);
    assert!(m.count_vote(&mut tally, 1, true));
    assert!(!m.is_leader());
    assert_eq!(*m.role(), NodeRole::Candidate);
}

#[test]
fn acknowledged_length_bounded_by_request() {
    // previous index 2 and three entries reach position 5: six entries
    assert_eq!(acknowledged_len(2, 3, 4), 4);
    assert_eq!(acknowledged_len(2, 3, 6), 6);
    assert_eq!(acknowledged_len(2, 3, 9), 6);
    assert_eq!(acknowledged_len(2, 0, 1), 1);
    assert_eq!(acknowledged_len(2, 0, 7), 3);
    assert_eq!(acknowledged_len(0, 0, 0), 0);
    assert_eq!(acknowledged_len(0, 0, 4), 1);
    assert_eq!(acknowledged_len(usize::MAX, 0, usize::MAX), usize::MAX);
}
