//! Picking the DNS question out of a multiaddr-style address: the first
//! `dns4` or `dns6` component immediately followed by a `tcp` port decides
//! the host and port to resolve, and a `p2p` component carrying a valid peer
//! id is kept to re-append after resolution. The resolution itself is
//! blocking I/O and lives with the driver around the library.

use vstd::prelude::*;

use crate::peer_id::{valid_peer_id_bytes, PeerId};

verus! {

/// One component of an address, as far as this library reads it.
#[derive(Clone, Debug)]
pub enum Proto {
    /// A host name to resolve to an IPv4 address.
    Dns4(String),
    /// A host name to resolve to an IPv6 address.
    Dns6(String),
    /// A TCP port.
    Tcp(u16),
    /// A peer id in multihash bytes.
    P2p(Vec<u8>),
    /// Any other component; it cannot take part in resolution.
    Other,
}

/// Scan from `i` for a `dns4`/`dns6` host directly followed by a `tcp`
/// port. A lone host at the end of the address fails; a host followed by
/// anything else is skipped together with its follower, and the scan goes
/// on behind them.
pub open spec fn find_dns_tcp(parts: Seq<Proto>, i: int) -> Option<(Seq<char>, u16)>
    decreases parts.len() - i, 1int,
{
    if i < 0 || i >= parts.len() {
        None
    } else {
        match parts[i] {
            Proto::Dns4(d) => dns_pair(parts, i, d@),
            Proto::Dns6(d) => dns_pair(parts, i, d@),
            _ => find_dns_tcp(parts, i + 1),
        }
    }
}

/// The component after a host at `i`: a port completes the pair, the end of
/// the address fails, and anything else sends the scan on past both.
pub open spec fn dns_pair(parts: Seq<Proto>, i: int, host: Seq<char>) -> Option<(Seq<char>, u16)>
    decreases parts.len() - i, 0int,
{
    if i < 0 || i + 1 >= parts.len() {
        None
    } else {
        match parts[i + 1] {
            Proto::Tcp(port) => Some((host, port)),
            _ => find_dns_tcp(parts, i + 2),
        }
    }
}

/// The first `p2p` component carrying a well-formed peer id, scanning from
/// `i`; components with malformed ids are passed over.
pub open spec fn spec_extract_peer_id(parts: Seq<Proto>, i: int) -> Option<Seq<u8>>
    decreases parts.len() - i,
{
    if i < 0 || i >= parts.len() {
        None
    } else {
        match parts[i] {
            Proto::P2p(h) => if valid_peer_id_bytes(h@) {
                Some(h@)
            } else {
                spec_extract_peer_id(parts, i + 1)
            },
            _ => spec_extract_peer_id(parts, i + 1),
        }
    }
}

/// The first well-formed peer id an address carries, if any.
pub fn extract_peer_id(parts: &Vec<Proto>) -> (r: Option<PeerId>)
    ensures
        (spec_extract_peer_id(parts@, 0) matches Some(b) ==> (r matches Some(p) && p@ == b)),
        (spec_extract_peer_id(parts@, 0) is None ==> r is None),
{
    let n = parts.len();
    let mut i: usize = 0;
    while i < n
        invariant
            i <= n,
            n == parts@.len(),
            spec_extract_peer_id(parts@, 0) == spec_extract_peer_id(parts@, i as int),
        decreases n - i,
    {
        match &parts[i] {
            Proto::P2p(h) => {
                match PeerId::from_bytes(h.clone()) {
                    Ok(p) => {
                        return Some(p);
                    },
                    Err(_) => {},
                }
            },
            _ => {},
        }
        i = i + 1;
    }
    None
}

/// The question a DNS-bearing address asks: the host to resolve, the port to
/// attach, and the peer id to re-append to the resolved address.
#[derive(Clone, Debug)]
pub struct DNSResolver {
    /// The host name to resolve.
    pub domain: String,
    /// The TCP port of the resolved address.
    pub port: u16,
    /// The peer id the original address carried, if any.
    pub peer_id: Option<PeerId>,
}

impl DNSResolver {
    /// Read the DNS question out of an address: succeeds exactly when some
    /// `dns4`/`dns6` host is directly followed by a `tcp` port.
    pub fn new(parts: &Vec<Proto>) -> (r: Result<DNSResolver, ()>)
        ensures
            (find_dns_tcp(parts@, 0) matches Some(q) ==> (r matches Ok(res) && res.domain@ == q.0
                && res.port == q.1)),
            (find_dns_tcp(parts@, 0) is None ==> r is Err),
            (r matches Ok(res) ==> {
                &&& (spec_extract_peer_id(parts@, 0) matches Some(b) ==> (res.peer_id matches Some(p)
                    && p@ == b))
                &&& (spec_extract_peer_id(parts@, 0) is None ==> res.peer_id is None)
            }),
    {
        let n = parts.len();
        let mut i: usize = 0;
        while i < n
            invariant
                i <= n,
                n == parts@.len(),
                find_dns_tcp(parts@, 0) == find_dns_tcp(parts@, i as int),
            decreases n - i,
        {
            match &parts[i] {
                Proto::Dns4(d) | Proto::Dns6(d) => {
                    assert(find_dns_tcp(parts@, i as int) == dns_pair(parts@, i as int, d@));
                    if i + 1 >= n {
                        assert(dns_pair(parts@, i as int, d@) is None);
                        return Err(());
                    }
                    match &parts[i + 1] {
                        Proto::Tcp(port) => {
                            assert(dns_pair(parts@, i as int, d@) == Some((d@, *port)));
                            return Ok(
                                DNSResolver {
                                    domain: d.clone(),
                                    port: *port,
                                    peer_id: extract_peer_id(parts),
                                },
                            );
                        },
                        _ => {
                            assert(dns_pair(parts@, i as int, d@) == find_dns_tcp(
                                parts@,
                                i as int + 2,
                            ));
                            i = i + 2;
                        },
                    }
                },
                _ => {
                    i = i + 1;
                },
            }
        }
        Err(())
    }
}

} // verus!
