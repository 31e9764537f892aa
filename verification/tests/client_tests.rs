use raftlike::client::{
    contains_text, get_output, kill_outcome, kv_read_url, kv_url, metrics_url, node_index, node_letter,
    node_port, node_urls, put_step, redirect_notice, restart_plan, set_confirmation,
    status_report, GetReply, PutReply, PutStep, StatusFields, StatusReply,
};

#[test]
fn cluster_nodes() {
    assert_eq!(
        node_urls(),
        vec!["http://localhost:8080", "http://localhost:8081", "http://localhost:8082"]
    );
    assert_eq!(node_letter(0), "A");
    assert_eq!(node_letter(2), "C");
    assert_eq!(node_port(1), 8081);
}

#[test]
fn node_names_in_either_case() {
    assert_eq!(node_index("A"), Some(0));
    assert_eq!(node_index("b"), Some(1));
    assert_eq!(node_index("C"), Some(2));
    assert_eq!(node_index("D"), None);
    assert_eq!(node_index("AA"), None);
    assert_eq!(node_index(""), None);
}

#[test]
fn restart_plans() {
    let plan = restart_plan("a").expect("A is a node");
    assert_eq!(plan.id, "A");
    assert_eq!(plan.port, 8080);
    assert_eq!(plan.peers, "localhost:8081,localhost:8082");
    assert_eq!(plan.log_file, "./logs/node_a.log");
    let plan = restart_plan("C").expect("C is a node");
    assert_eq!(plan.peers, "localhost:8080,localhost:8081");
    assert_eq!(plan.log_file, "./logs/node_c.log");
    assert!(restart_plan("x").is_none());
}

#[test]
fn urls() {
    assert_eq!(kv_url("http://h:1"), "http://h:1/kv");
    assert_eq!(kv_read_url("http://h:1", "k"), "http://h:1/kv?key=k");
    assert_eq!(metrics_url("http://h:1"), "http://h:1/metrics");
}

#[test]
fn contains_text_finds_substrings() {
    assert!(contains_text("Error: Not the leader here", "Not the leader"));
    assert!(!contains_text("Not the lead", "Not the leader"));
    assert!(contains_text("abc", ""));
    assert!(contains_text("", ""));
    assert!(!contains_text("", "a"));
    assert!(contains_text("aab", "ab"));
}

#[test]
fn put_steps() {
    assert!(matches!(put_step(PutReply::Unreachable), PutStep::TryNext));
    assert!(matches!(put_step(PutReply::Accepted { confirmed: true }), PutStep::Done));
    assert!(matches!(put_step(PutReply::Accepted { confirmed: false }), PutStep::TryNext));
    match put_step(PutReply::Redirect { leader_url: Some("L".to_string()) }) {
        PutStep::FollowRedirect(u) => assert_eq!(u, "L"),
        _ => panic!("redirect not followed"),
    }
    assert!(matches!(put_step(PutReply::Redirect { leader_url: None }), PutStep::TryNext));
    assert!(matches!(
        put_step(PutReply::Refused { body: "Not the leader".to_string() }),
        PutStep::TryNext
    ));
    match put_step(PutReply::Refused { body: "boom".to_string() }) {
        PutStep::Fail(b) => assert_eq!(b, "boom"),
        _ => panic!("failure not reported"),
    }
}

#[test]
fn put_messages() {
    assert_eq!(set_confirmation("k", "v"), "✓ Set k=v");
    assert_eq!(redirect_notice("http://x"), "✓ Redirecting to leader: http://x");
}

#[test]
fn get_outputs() {
    assert_eq!(get_output(GetReply::Unreachable), None);
    assert_eq!(get_output(GetReply::NoValue), None);
    assert_eq!(get_output(GetReply::Null), Some("(key not found)".to_string()));
    assert_eq!(get_output(GetReply::Text("hi".to_string())), Some("hi".to_string()));
    assert_eq!(get_output(GetReply::Other), Some(String::new()));
}

#[test]
fn status_blocks() {
    assert_eq!(
        status_report("B", "http://localhost:8081", StatusReply::Unreachable),
        "Node B (http://localhost:8081) - Not responding\n\n"
    );
    assert_eq!(status_report("B", "u", StatusReply::Unparsed), "");
    let leader = StatusFields {
        state: Some("Leader".to_string()),
        term: Some(3),
        commit_index: Some(12),
        election_count: Some(2),
    };
    assert_eq!(
        status_report("A", "http://localhost:8080", StatusReply::Metrics(leader)),
        "Node A (http://localhost:8080) ★\n  State: Leader\n  Term: 3\n  Commit Index: 12\n  Elections: 2\n\n"
    );
    let partial = StatusFields { state: None, term: None, commit_index: Some(1), election_count: None };
    assert_eq!(
        status_report("C", "u", StatusReply::Metrics(partial)),
        "Node C (u)\n  State: Unknown\n  Term: 0\n  Commit Index: 1\n  Elections: 0\n\n"
    );
}

#[test]
fn restart_peer_lists_parse_to_the_other_nodes() {
    for (name, others) in [("A", [8081u16, 8082]), ("B", [8080, 8082]), ("C", [8080, 8081])] {
        let plan = restart_plan(name).expect("a node");
        let args = raftlike::cli::Args { id: plan.id, port: plan.port, peers: plan.peers };
        assert_eq!(
            args.parse_peers(),
            vec![("localhost".to_string(), others[0]), ("localhost".to_string(), others[1])]
        );
    }
}

#[test]
fn kill_outcome_depends_on_found_process() {
    assert_eq!(
        kill_outcome("B", 8081, "4242"),
        (true, "✓ Killed Node B (port 8081)".to_string())
    );
    assert_eq!(kill_outcome("C", 8082, ""), (false, "✗ Node C not running".to_string()));
}
