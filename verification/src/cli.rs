//! The node's command-line arguments and the parsing of its peer list.
use vstd::prelude::*;

use crate::node::peers_view;
use crate::text::{parse_u16, parse_u16_spec, split_on, split_spec, strings_view};

verus! {

/// The arguments a node starts with: its identity, its port, and its peers
/// as comma-separated `host:port` pairs.
#[derive(Debug)]
pub struct Args {
    pub id: String,
    pub port: u16,
    pub peers: String,
}

/// The peer a `host:port` piece names: exactly one `:`, and a port that
/// parses as a 16-bit number.
pub open spec fn peer_entry_spec(piece: Seq<char>) -> Option<(Seq<char>, u16)> {
    let parts = split_spec(piece, ':');
    if parts.len() == 2 {
        match parse_u16_spec(parts[1]) {
            Some(port) => Some((parts[0], port)),
            None => None,
        }
    } else {
        None
    }
}

/// The peers named by a list of pieces, in order: empty pieces and pieces
/// that name no peer are skipped.
pub open spec fn collect_peers(pieces: Seq<Seq<char>>) -> Seq<(Seq<char>, u16)>
    decreases pieces.len(),
{
    if pieces.len() == 0 {
        Seq::empty()
    } else {
        let rest = collect_peers(pieces.drop_last());
        let piece = pieces.last();
        if piece.len() > 0 {
            match peer_entry_spec(piece) {
                Some(peer) => rest.push(peer),
                None => rest,
            }
        } else {
            rest
        }
    }
}

/// The peers named by a comma-separated list.
pub open spec fn parse_peers_spec(peers: Seq<char>) -> Seq<(Seq<char>, u16)> {
    collect_peers(split_spec(peers, ','))
}

/// Reads the peer named by one `host:port` piece.
pub fn parse_peer(piece: &str) -> (r: Option<(String, u16)>)
    ensures
        match r {
            Some(peer) => peer_entry_spec(piece@) == Some((peer.0@, peer.1)),
            None => peer_entry_spec(piece@) is None,
        },
{
    let parts = split_on(piece, ':');
    proof {
        assert(strings_view(parts@).len() == parts@.len());
    }
    if parts.len() == 2 {
        assert(strings_view(parts@)[1] == parts@[1]@);
        assert(strings_view(parts@)[0] == parts@[0]@);
        match parse_u16(parts[1].as_str()) {
            Some(port) => Some((parts[0].clone(), port)),
            None => None,
        }
    } else {
        None
    }
}

impl Args {
    /// The peers named by the `peers` argument; see `parse_peers_spec`.
    pub fn parse_peers(&self) -> (r: Vec<(String, u16)>)
        ensures
            peers_view(r@) == parse_peers_spec(self.peers@),
    {
        let pieces = split_on(self.peers.as_str(), ',');
        let ghost pv = strings_view(pieces@);
        let mut peers: Vec<(String, u16)> = Vec::new();
        let mut i: usize = 0;
        while i < pieces.len()
            invariant
                pv == strings_view(pieces@),
                pv == split_spec(self.peers@, ','),
                i <= pieces@.len(),
                peers_view(peers@) == collect_peers(pv.take(i as int)),
            decreases pieces@.len() - i,
        {
            let piece = pieces[i].as_str();
            assert(pv[i as int] == piece@);
            assert(pv.take(i + 1).drop_last() =~= pv.take(i as int));
            assert(pv.take(i + 1).last() == piece@);
            if piece.unicode_len() > 0 {
                match parse_peer(piece) {
                    Some(peer) => {
                        let ghost before = peers@;
                        let ghost pv_peer = (peer.0@, peer.1);
                        peers.push(peer);
                        assert(peers_view(peers@) =~= peers_view(before).push(pv_peer));
                    },
                    None => {},
                }
            }
            i = i + 1;
        }
        assert(pv.take(i as int) =~= pv);
        peers
    }
}

} // verus!
