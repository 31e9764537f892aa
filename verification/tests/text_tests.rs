use raftlike::cli::{parse_peer, Args};
use raftlike::text::{
    decimal_string, find_char, parse_set_command, parse_u16, set_command, split_on, split_once,
};

fn args(peers: &str) -> Args {
    Args { id: "A".to_string(), port: 8080, peers: peers.to_string() }
}

#[test]
fn parse_peers_reads_host_port_pairs() {
    let peers = args("localhost:5001,localhost:5002").parse_peers();
    assert_eq!(
        peers,
        vec![("localhost".to_string(), 5001), ("localhost".to_string(), 5002)]
    );
}

#[test]
fn parse_peers_skips_malformed_pieces() {
    let peers = args("a:1,,b:x,c:2:3,d:+7,:9,e,f:70000,g:").parse_peers();
    assert_eq!(
        peers,
        vec![("a".to_string(), 1), ("d".to_string(), 7), ("".to_string(), 9)]
    );
}

#[test]
fn parse_peers_of_empty_list() {
    assert!(args("").parse_peers().is_empty());
    assert!(args(",,").parse_peers().is_empty());
}

#[test]
fn parse_peer_single_piece() {
    assert_eq!(parse_peer("127.0.0.1:8081"), Some(("127.0.0.1".to_string(), 8081)));
    assert_eq!(parse_peer("127.0.0.1"), None);
    assert_eq!(parse_peer("h:-1"), None);
}

#[test]
fn parse_u16_matches_std() {
    for s in [
        "0", "80", "+80", "+", "", "65535", "65536", "0065535", "-1", "8a", " 8", "99999999999",
        "+0", "++1", "٣",
    ] {
        assert_eq!(parse_u16(s), s.parse::<u16>().ok(), "input {:?}", s);
    }
}

#[test]
fn decimal_string_matches_to_string() {
    for n in [0u64, 7, 10, 99, 100, 8080, 1234567890, u64::MAX] {
        assert_eq!(decimal_string(n), n.to_string());
    }
}

#[test]
fn split_on_keeps_empty_pieces() {
    assert_eq!(split_on("a,,b", ','), vec!["a", "", "b"]);
    assert_eq!(split_on("", ','), vec![""]);
    assert_eq!(split_on(",", ','), vec!["", ""]);
    assert_eq!(split_on("héllo:wörld", ':'), vec!["héllo", "wörld"]);
}

#[test]
fn split_once_at_first_occurrence() {
    assert_eq!(split_once("k=v=w", '='), Some(("k".to_string(), "v=w".to_string())));
    assert_eq!(split_once("kv", '='), None);
    assert_eq!(find_char("abc=", '='), Some(3));
    assert_eq!(find_char("abc", '='), None);
}

#[test]
fn set_command_round_trip() {
    let cmd = set_command("message", "hello world");
    assert_eq!(cmd, "set message=hello world");
    assert_eq!(
        parse_set_command(&cmd),
        Some(("message".to_string(), "hello world".to_string()))
    );
    // a key holding '=' is cut at its first '='
    assert_eq!(
        parse_set_command(&set_command("a=b", "c")),
        Some(("a".to_string(), "b=c".to_string()))
    );
    assert_eq!(parse_set_command("set"), None);
    assert_eq!(parse_set_command("put a=b"), None);
    assert_eq!(parse_set_command("set ab"), None);
}

#[test]
fn joined_peer_list_parses_back() {
    let peers = vec![
        ("127.0.0.1".to_string(), 5001u16),
        ("localhost".to_string(), 0u16),
        ("".to_string(), 65535u16),
    ];
    let joined = peers
        .iter()
        .map(|(h, p)| format!("{}:{}", h, p))
        .collect::<Vec<_>>()
        .join(",");
    assert_eq!(args(&joined).parse_peers(), peers);
}
