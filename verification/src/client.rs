//! The decisions and the output of the cluster's command-line client: which
//! node to try next, what to print, how to restart a node.
use vstd::prelude::*;

use crate::text::{decimal_spec, decimal_string, strings_view};

verus! {

// ------------------------------------------------------------------
// The cluster's nodes
// ------------------------------------------------------------------

/// The base URLs of the cluster's three nodes, A, B and C.
pub open spec fn node_urls_spec() -> Seq<Seq<char>> {
    seq!["http://localhost:8080"@, "http://localhost:8081"@, "http://localhost:8082"@]
}

/// The base URLs of the cluster's nodes.
pub fn node_urls() -> (r: Vec<String>)
    ensures
        strings_view(r@) == node_urls_spec(),
{
    let mut r: Vec<String> = Vec::new();
    r.push(String::from_str("http://localhost:8080"));
    r.push(String::from_str("http://localhost:8081"));
    r.push(String::from_str("http://localhost:8082"));
    assert(strings_view(r@) =~= node_urls_spec());
    r
}

/// The letter naming the node at position `i`.
pub open spec fn node_letter_spec(i: int) -> Seq<char> {
    if i == 0 {
        "A"@
    } else if i == 1 {
        "B"@
    } else {
        "C"@
    }
}

/// The letter naming the node at position `i`.
pub fn node_letter(i: usize) -> (r: String)
    requires
        i < 3,
    ensures
        r@ == node_letter_spec(i as int),
{
    if i == 0 {
        String::from_str("A")
    } else if i == 1 {
        String::from_str("B")
    } else {
        String::from_str("C")
    }
}

/// The node a name on the command line picks: `A`, `B` or `C`, in either
/// case.
pub open spec fn node_index_spec(name: Seq<char>) -> Option<int> {
    if name == "A"@ || name == "a"@ {
        Some(0)
    } else if name == "B"@ || name == "b"@ {
        Some(1)
    } else if name == "C"@ || name == "c"@ {
        Some(2)
    } else {
        None
    }
}

/// The nodes are named by the capital letters from `A` on, in position
/// order: the node at position `i` (0, 1 or 2) is named by the `i`-th of
/// them, a name on the command line picks that node exactly when it is
/// that letter in capital or small case, and the letter the node goes by
/// (in a restart plan, a status line, a kill notice) is the capital form
/// of the name given.
pub proof fn law_node_names(i: int, name: Seq<char>)
    requires
        0 <= i < 3,
    ensures
        node_letter_spec(i).len() == 1,
        node_letter_spec(i)[0] as int == 'A' as int + i,
        node_index_spec(name) == Some(i) <==> (name.len() == 1 && (name[0] as int == 'A' as int + i
            || name[0] as int == 'a' as int + i)),
        node_index_spec(name) == Some(i) ==> (name[0] == node_letter_spec(i)[0] || name[0] as int
            == node_letter_spec(i)[0] as int + 32),
        node_index_spec(node_letter_spec(i)) == Some(i),
{
    reveal_strlit("A");
    reveal_strlit("B");
    reveal_strlit("C");
    reveal_strlit("a");
    reveal_strlit("b");
    reveal_strlit("c");
    if name.len() == 1 {
        if name[0] == 'A' {
            assert(name =~= "A"@);
        } else if name[0] == 'B' {
            assert(name =~= "B"@);
        } else if name[0] == 'C' {
            assert(name =~= "C"@);
        } else if name[0] == 'a' {
            assert(name =~= "a"@);
        } else if name[0] == 'b' {
            assert(name =~= "b"@);
        } else if name[0] == 'c' {
            assert(name =~= "c"@);
        }
    }
}

/// The node a name on the command line picks.
pub fn node_index(name: &str) -> (r: Option<usize>)
    ensures
        match r {
            Some(i) => node_index_spec(name@) == Some(i as int),
            None => node_index_spec(name@) is None,
        },
{
    let n = String::from_str(name);
    if n == String::from_str("A") || n == String::from_str("a") {
        Some(0)
    } else if n == String::from_str("B") || n == String::from_str("b") {
        Some(1)
    } else if n == String::from_str("C") || n == String::from_str("c") {
        Some(2)
    } else {
        None
    }
}

/// The port of the node at position `i`: 8080, 8081 or 8082.
pub fn node_port(i: usize) -> (p: u16)
    requires
        i < 3,
    ensures
        p == 8080 + i,
{
    8080 + i as u16
}

/// How to restart a node: its identity, port and peers, and the file its
/// output goes to.
pub struct RestartPlan {
    pub id: String,
    pub port: u16,
    pub peers: String,
    pub log_file: String,
}

/// The peers of the node at position `i`: the two others, in order.
pub open spec fn restart_peers_spec(i: int) -> Seq<char> {
    if i == 0 {
        "localhost:8081,localhost:8082"@
    } else if i == 1 {
        "localhost:8080,localhost:8082"@
    } else {
        "localhost:8080,localhost:8081"@
    }
}

/// The output file of the node at position `i`.
pub open spec fn log_file_spec(i: int) -> Seq<char> {
    if i == 0 {
        "./logs/node_a.log"@
    } else if i == 1 {
        "./logs/node_b.log"@
    } else {
        "./logs/node_c.log"@
    }
}

/// The plan to restart the node a name picks, if it picks one.
pub fn restart_plan(name: &str) -> (r: Option<RestartPlan>)
    ensures
        match node_index_spec(name@) {
            Some(i) => r matches Some(plan) && plan.id@ == node_letter_spec(i) && plan.port == 8080
                + i && plan.peers@ == restart_peers_spec(i) && plan.log_file@ == log_file_spec(i),
            None => r is None,
        },
{
    match node_index(name) {
        Some(i) => {
            let peers = if i == 0 {
                String::from_str("localhost:8081,localhost:8082")
            } else if i == 1 {
                String::from_str("localhost:8080,localhost:8082")
            } else {
                String::from_str("localhost:8080,localhost:8081")
            };
            let log_file = if i == 0 {
                String::from_str("./logs/node_a.log")
            } else if i == 1 {
                String::from_str("./logs/node_b.log")
            } else {
                String::from_str("./logs/node_c.log")
            };
            Some(RestartPlan { id: node_letter(i), port: node_port(i), peers, log_file })
        },
        None => None,
    }
}

// ------------------------------------------------------------------
// URLs
// ------------------------------------------------------------------

/// The write endpoint of the node at `base`.
pub fn kv_url(base: &str) -> (r: String)
    ensures
        r@ == base@ + "/kv"@,
{
    let mut r = String::from_str(base);
    r.append("/kv");
    r
}

/// The read endpoint for `key` of the node at `base`.
pub fn kv_read_url(base: &str, key: &str) -> (r: String)
    ensures
        r@ == base@ + "/kv?key="@ + key@,
{
    let mut r = String::from_str(base);
    r.append("/kv?key=");
    r.append(key);
    r
}

/// The metrics endpoint of the node at `base`.
pub fn metrics_url(base: &str) -> (r: String)
    ensures
        r@ == base@ + "/metrics"@,
{
    let mut r = String::from_str(base);
    r.append("/metrics");
    r
}

// ------------------------------------------------------------------
// Text search
// ------------------------------------------------------------------

/// The `len` characters of `s` from position `i` on.
pub open spec fn window(s: Seq<char>, i: int, len: int) -> Seq<char> {
    s.subrange(i, i + len)
}

/// Whether `needle` occurs in `haystack`.
pub open spec fn contains_spec(haystack: Seq<char>, needle: Seq<char>) -> bool {
    exists|i: int|
        0 <= i && i + needle.len() <= haystack.len() && #[trigger] window(
            haystack,
            i,
            needle.len() as int,
        ) == needle
}

/// Whether `needle` occurs in `haystack`, as `str::contains` tells.
pub fn contains_text(haystack: &str, needle: &str) -> (r: bool)
    ensures
        r == contains_spec(haystack@, needle@),
{
    let n = haystack.unicode_len();
    let m = needle.unicode_len();
    if m > n {
        return false;
    }
    let target = String::from_str(needle);
    let last = n - m;
    let mut i: usize = 0;
    loop
        invariant
            n == haystack@.len(),
            m == needle@.len(),
            m <= n,
            last == n - m,
            i <= last,
            target@ == needle@,
            forall|j: int| 0 <= j < i ==> #[trigger] window(haystack@, j, m as int) != needle@,
        decreases last - i,
    {
        let piece = String::from_str(haystack.substring_char(i, i + m));
        assert(piece@ == window(haystack@, i as int, m as int));
        if piece == target {
            return true;
        }
        if i == last {
            return false;
        }
        i = i + 1;
    }
}

// ------------------------------------------------------------------
// Writing a key
// ------------------------------------------------------------------

/// What came back from a node asked to take a write.
pub enum PutReply {
    /// The node could not be reached.
    Unreachable,
    /// A success status; `confirmed` when the body's `success` field is `true`.
    Accepted { confirmed: bool },
    /// A redirect (307); the body's `leader_url` field, if it is a string.
    Redirect { leader_url: Option<String> },
    /// Any other status, with the body's text.
    Refused { body: String },
}

/// What the client does next with a write.
pub enum PutStep {
    /// The write is confirmed.
    Done,
    /// Try the next node.
    TryNext,
    /// Send the write to the leader at this URL.
    FollowRedirect(String),
    /// Give up, reporting this body.
    Fail(String),
}

/// The next step after a node's reply: a confirmed write is done; a
/// redirect that names the leader is followed; a refusal that says the
/// node does not lead, an unconfirmed success, a redirect without a leader
/// and an unreachable node move on to the next node; any other refusal
/// ends the write with its body.
pub fn put_step(reply: PutReply) -> (s: PutStep)
    ensures
        match reply {
            PutReply::Unreachable => s is TryNext,
            PutReply::Accepted { confirmed } => if confirmed {
                s is Done
            } else {
                s is TryNext
            },
            PutReply::Redirect { leader_url } => match leader_url {
                Some(url) => s matches PutStep::FollowRedirect(u) && u@ == url@,
                None => s is TryNext,
            },
            PutReply::Refused { body } => if contains_spec(body@, "Not the leader"@) {
                s is TryNext
            } else {
                s matches PutStep::Fail(b) && b@ == body@
            },
        },
{
    match reply {
        PutReply::Unreachable => PutStep::TryNext,
        PutReply::Accepted { confirmed } => if confirmed {
            PutStep::Done
        } else {
            PutStep::TryNext
        },
        PutReply::Redirect { leader_url } => match leader_url {
            Some(url) => PutStep::FollowRedirect(url),
            None => PutStep::TryNext,
        },
        PutReply::Refused { body } => if contains_text(body.as_str(), "Not the leader") {
            PutStep::TryNext
        } else {
            PutStep::Fail(body)
        },
    }
}

/// The line confirming a write.
pub fn set_confirmation(key: &str, value: &str) -> (r: String)
    ensures
        r@ == "✓ Set "@ + key@ + "="@ + value@,
{
    let mut r = String::from_str("✓ Set ");
    r.append(key);
    r.append("=");
    r.append(value);
    r
}

/// The line announcing a redirect to the leader.
pub fn redirect_notice(leader: &str) -> (r: String)
    ensures
        r@ == "✓ Redirecting to leader: "@ + leader@,
{
    let mut r = String::from_str("✓ Redirecting to leader: ");
    r.append(leader);
    r
}

/// The outcome of stopping the node named `letter` on `port`, given the
/// process id found listening there (trimmed, empty when none): whether
/// to kill that process, and the line to print.
pub fn kill_outcome(letter: &str, port: u16, pid: &str) -> (r: (bool, String))
    ensures
        r.0 == (pid@.len() > 0),
        r.0 ==> r.1@ == "✓ Killed Node "@ + letter@ + " (port "@ + decimal_spec(port as nat)
            + ")"@,
        !r.0 ==> r.1@ == "✗ Node "@ + letter@ + " not running"@,
{
    if !pid.is_empty() {
        let mut line = String::from_str("✓ Killed Node ");
        line.append(letter);
        line.append(" (port ");
        let digits = decimal_string(port as u64);
        line.append(digits.as_str());
        line.append(")");
        (true, line)
    } else {
        let mut line = String::from_str("✗ Node ");
        line.append(letter);
        line.append(" not running");
        (false, line)
    }
}

// ------------------------------------------------------------------
// Reading a key
// ------------------------------------------------------------------

/// What came back from a node asked for a key.
pub enum GetReply {
    /// The node could not be reached.
    Unreachable,
    /// The body was not JSON, or had no `value` field.
    NoValue,
    /// The `value` field was `null`.
    Null,
    /// The `value` field was a string.
    Text(String),
    /// The `value` field was something else.
    Other,
}

/// The line to print for a reply, or `None` to try the next node: the
/// value's text, `(key not found)` for `null`, an empty line for a value
/// that is not a string.
pub fn get_output(reply: GetReply) -> (r: Option<String>)
    ensures
        match reply {
            GetReply::Unreachable => r is None,
            GetReply::NoValue => r is None,
            GetReply::Null => r matches Some(line) && line@ == "(key not found)"@,
            GetReply::Text(s) => r matches Some(line) && line@ == s@,
            GetReply::Other => r matches Some(line) && line@ == Seq::<char>::empty(),
        },
{
    match reply {
        GetReply::Unreachable => None,
        GetReply::NoValue => None,
        GetReply::Null => Some(String::from_str("(key not found)")),
        GetReply::Text(s) => Some(s),
        GetReply::Other => Some(String::new()),
    }
}

// ------------------------------------------------------------------
// Cluster status
// ------------------------------------------------------------------

/// The fields of a node's metrics, each present when the JSON held it with
/// the expected type.
pub struct StatusFields {
    pub state: Option<String>,
    pub term: Option<u64>,
    pub commit_index: Option<u64>,
    pub election_count: Option<u64>,
}

/// What came back from a node asked for its metrics.
pub enum StatusReply {
    /// The node could not be reached.
    Unreachable,
    /// The body was not JSON.
    Unparsed,
    /// The metrics.
    Metrics(StatusFields),
}

/// An optional count, 0 when absent.
pub open spec fn count_or_zero(n: Option<u64>) -> nat {
    match n {
        Some(n) => n as nat,
        None => 0,
    }
}

/// The state a node reported, `Unknown` when absent.
pub open spec fn state_or_unknown(s: Option<String>) -> Seq<char> {
    match s {
        Some(s) => s@,
        None => "Unknown"@,
    }
}

/// The block of lines printed for a node in the cluster status.
pub open spec fn status_report_spec(letter: Seq<char>, url: Seq<char>, reply: StatusReply) -> Seq<
    char,
> {
    match reply {
        StatusReply::Unreachable => "Node "@ + letter + " ("@ + url + ") - Not responding\n\n"@,
        StatusReply::Unparsed => Seq::empty(),
        StatusReply::Metrics(f) => {
            let state = state_or_unknown(f.state);
            "Node "@ + letter + " ("@ + url + ")"@ + (if state == "Leader"@ {
                " ★"@
            } else {
                Seq::empty()
            }) + "\n  State: "@ + state + "\n  Term: "@ + decimal_spec(count_or_zero(f.term))
                + "\n  Commit Index: "@ + decimal_spec(count_or_zero(f.commit_index))
                + "\n  Elections: "@ + decimal_spec(count_or_zero(f.election_count)) + "\n\n"@
        },
    }
}

/// The block of lines printed for a node in the cluster status.
pub fn status_report(letter: &str, url: &str, reply: StatusReply) -> (r: String)
    ensures
        r@ == status_report_spec(letter@, url@, reply),
{
    let ghost g = reply;
    match reply {
        StatusReply::Unreachable => {
            let mut r = String::from_str("Node ");
            r.append(letter);
            r.append(" (");
            r.append(url);
            r.append(") - Not responding\n\n");
            r
        },
        StatusReply::Unparsed => String::new(),
        StatusReply::Metrics(f) => {
            let ghost fs = f;
            let state = match f.state {
                Some(s) => s,
                None => String::from_str("Unknown"),
            };
            let term = match f.term {
                Some(t) => t,
                None => 0,
            };
            let commit = match f.commit_index {
                Some(c) => c,
                None => 0,
            };
            let elections = match f.election_count {
                Some(e) => e,
                None => 0,
            };
            let mut r = String::from_str("Node ");
            r.append(letter);
            r.append(" (");
            r.append(url);
            r.append(")");
            if state == String::from_str("Leader") {
                r.append(" ★");
            } else {
                assert(r@ + Seq::<char>::empty() =~= r@);
            }
            r.append("\n  State: ");
            r.append(state.as_str());
            r.append("\n  Term: ");
            r.append(decimal_string(term).as_str());
            r.append("\n  Commit Index: ");
            r.append(decimal_string(commit).as_str());
            r.append("\n  Elections: ");
            r.append(decimal_string(elections).as_str());
            r.append("\n\n");
            r
        },
    }
}

} // verus!
