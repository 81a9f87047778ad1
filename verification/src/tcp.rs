//! The TCP relay of an endpoint: its peers, what is probed, and the mode in which
//! it copies.

use vstd::prelude::*;

use crate::endpoint::{Endpoint, RemoteAddr};
use crate::handshake::{MODE_CLIENT, MODE_PLAIN, MODE_SERVER};
use crate::pool::{lemma_place_of, place_of, PoolConfig, Token};
use crate::probe::ProbeConfig;
use crate::text::same_text;

verus! {

/// The most remote addresses that an endpoint can have beside its first one: a
/// token has one byte.
pub const MAX_EXTRA: usize = 255;

/// Whether `peers` is the peer table of these addresses: the first address goes by
/// token zero, and the further ones by the tokens from one on, in order.
pub open spec fn is_peer_table(
    peers: Seq<(Token, RemoteAddr)>,
    raddr: RemoteAddr,
    extra: Seq<RemoteAddr>,
) -> bool {
    &&& peers.len() == extra.len() + 1
    &&& peers[0] == (Token(0), raddr)
    &&& forall|i: int|
        0 <= i < extra.len() ==> #[trigger] peers[i + 1] == (Token((i + 1) as u8), extra[i])
}

/// Builds the peer table of an endpoint.
pub fn peer_table(raddr: &RemoteAddr, extra: &Vec<RemoteAddr>) -> (peers: Vec<
    (Token, RemoteAddr),
>)
    requires
        extra@.len() <= MAX_EXTRA,
    ensures
        is_peer_table(peers@, *raddr, extra@),
{
    let mut peers: Vec<(Token, RemoteAddr)> = Vec::new();
    peers.push((Token(0), raddr.clone()));
    for i in 0..extra.len()
        invariant
            extra@.len() <= MAX_EXTRA,
            is_peer_table(peers@, *raddr, extra@.take(i as int)),
    {
        let number: u8 = i as u8 + 1;
        peers.push((Token(number), extra[i].clone()));
        assert(is_peer_table(peers@, *raddr, extra@.take(i as int + 1))) by {
            let front = extra@.take(i as int + 1);
            assert forall|j: int| 0 <= j < front.len() implies #[trigger] peers@[j + 1] == (
                Token((j + 1) as u8),
                front[j],
            ) by {
                if j < i {
                    assert(front[j] == extra@.take(i as int)[j]);
                }
            }
        }
    }
    assert(extra@.take(extra@.len() as int) =~= extra@);
    peers
}

/// What is probed for a peer.
#[derive(Debug)]
pub struct ProbeTarget {
    pub token: Token,
    /// The address that is probed.
    pub addr: RemoteAddr,
    /// The address that connections are forwarded to.
    pub forward: RemoteAddr,
    /// Whether the address that is probed was configured by itself.
    pub overridden: bool,
}

/// The probe of the peer at place `i`: at the target that is configured for this
/// place, or else at the peer's own address.
pub open spec fn target_at(
    peers: Seq<(Token, RemoteAddr)>,
    targets: Seq<RemoteAddr>,
    i: int,
) -> ProbeTarget {
    ProbeTarget {
        token: peers[i].0,
        addr: if i < targets.len() {
            targets[i]
        } else {
            peers[i].1
        },
        forward: peers[i].1,
        overridden: i < targets.len(),
    }
}

/// Tells what is probed for each peer.
pub fn probe_targets(peers: &Vec<(Token, RemoteAddr)>, targets: &Vec<RemoteAddr>) -> (list: Vec<
    ProbeTarget,
>)
    ensures
        list@ == Seq::new(peers@.len(), |i: int| target_at(peers@, targets@, i)),
{
    let mut list: Vec<ProbeTarget> = Vec::new();
    for i in 0..peers.len()
        invariant
            list@ == Seq::new(i as nat, |j: int| target_at(peers@, targets@, j)),
    {
        let overridden: bool = i < targets.len();
        let addr: RemoteAddr = if overridden { targets[i].clone() } else { peers[i].1.clone() };
        list.push(
            ProbeTarget { token: peers[i].0, addr, forward: peers[i].1.clone(), overridden },
        );
        assert(list@ =~= Seq::new((i + 1) as nat, |j: int| target_at(peers@, targets@, j)));
    }
    list
}

/// The mode that the name `obfs` stands for.
pub open spec fn mode_of(obfs: Seq<char>) -> u8 {
    if obfs == "client"@ {
        MODE_CLIENT
    } else if obfs == "server"@ {
        MODE_SERVER
    } else {
        MODE_PLAIN
    }
}

/// Tells the mode that the name `obfs` stands for: `client` and `server` name the
/// two obfuscating modes, and every other name none.
pub fn obfs_mode(obfs: &str) -> (mode: u8)
    ensures
        mode == mode_of(obfs@),
{
    if same_text(obfs, "client") {
        MODE_CLIENT
    } else if same_text(obfs, "server") {
        MODE_SERVER
    } else {
        MODE_PLAIN
    }
}

/// The pool that is created for a configuration: none where there is no room for a
/// connection in it.
pub open spec fn pool_of(config: Option<PoolConfig>) -> Option<PoolConfig> {
    match config {
        Some(c) if c.pool_size > 0 => Some(c),
        _ => None,
    }
}

/// How an endpoint is relayed.
#[derive(Debug)]
pub struct TcpPlan {
    /// The peers and their addresses.
    pub peers: Vec<(Token, RemoteAddr)>,
    /// How and what to probe, where probing is configured.
    pub probes: Option<(ProbeConfig, Vec<ProbeTarget>)>,
    /// How to pool connections, where pooling is configured with room for any.
    pub pool: Option<PoolConfig>,
    /// The mode in which connections are relayed.
    pub mode: u8,
}

/// Plans the relay of an endpoint.
pub fn run_tcp(endpoint: &Endpoint) -> (plan: TcpPlan)
    requires
        endpoint.extra_raddrs@.len() <= MAX_EXTRA,
    ensures
        is_peer_table(plan.peers@, endpoint.raddr, endpoint.extra_raddrs@),
        match plan.probes {
            Some((config, list)) => {
                &&& endpoint.conn_opts.probe_config == Some(config)
                &&& list@ == Seq::new(
                    plan.peers@.len(),
                    |i: int|
                        target_at(plan.peers@, endpoint.conn_opts.probe_targets@, i),
                )
            },
            None => endpoint.conn_opts.probe_config is None,
        },
        plan.pool == pool_of(endpoint.conn_opts.pool_config),
        plan.mode == mode_of(endpoint.conn_opts.obfs@),
{
    let peers: Vec<(Token, RemoteAddr)> = peer_table(&endpoint.raddr, &endpoint.extra_raddrs);
    let probes: Option<(ProbeConfig, Vec<ProbeTarget>)> = match &endpoint.conn_opts.probe_config {
        Some(config) => Some((*config, probe_targets(&peers, &endpoint.conn_opts.probe_targets))),
        None => None,
    };
    let pool: Option<PoolConfig> = match endpoint.conn_opts.pool_config {
        Some(config) => if config.pool_size > 0 {
            Some(config)
        } else {
            None
        },
        None => None,
    };
    TcpPlan {
        peers,
        probes,
        pool,
        mode: obfs_mode(endpoint.conn_opts.obfs.as_str()),
    }
}

/// What follows where no connection could be accepted.
#[derive(Debug, Clone, Copy, PartialEq, Eq, Structural)]
pub enum AcceptAction {
    /// Accept the next one.
    Retry,
    /// Stop listening.
    Stop,
}

/// Tells what follows where no connection could be accepted: one that its other
/// side has aborted is passed over, and any other error ends the listening.
pub fn accept_failed(connection_aborted: bool) -> (action: AcceptAction)
    ensures
        action == (if connection_aborted {
            AcceptAction::Retry
        } else {
            AcceptAction::Stop
        }),
{
    if connection_aborted {
        AcceptAction::Retry
    } else {
        AcceptAction::Stop
    }
}

// ---------------------------------------------------------------------------
// Laws
// ---------------------------------------------------------------------------

/// In a peer table no two peers go by the same token: the token with the number
/// `i` is found at place `i`, so what is dialled for it is the `i`-th address.
pub proof fn token_leads_to_its_address(
    peers: Seq<(Token, RemoteAddr)>,
    raddr: RemoteAddr,
    extra: Seq<RemoteAddr>,
    i: int,
)
    requires
        extra.len() <= MAX_EXTRA,
        is_peer_table(peers, raddr, extra),
        0 <= i <= extra.len(),
    ensures
        peers[i].0 == Token(i as u8),
        place_of(peers, Token(i as u8)) == i,
        peers[place_of(peers, Token(i as u8))].1 == if i == 0 {
            raddr
        } else {
            extra[i - 1]
        },
{
    assert forall|j: int| 0 <= j < peers.len() implies (#[trigger] peers[j]).0 == Token(
        j as u8,
    ) by {
        if j > 0 {
            assert(peers[(j - 1) + 1] == (Token(((j - 1) + 1) as u8), extra[j - 1]));
        }
    }
    let token = Token(i as u8);
    lemma_place_of(peers, token);
    let place = place_of(peers, token);
    assert(peers[i].0 == token);
    assert(place <= i);
    assert(peers[place].0 == Token(place as u8));
    if i > 0 {
        assert(peers[(i - 1) + 1] == (Token(((i - 1) + 1) as u8), extra[i - 1]));
    }
}

/// Without configured targets every peer is probed at its own address, and a
/// configured one changes only the probe of the peer at its place.
pub proof fn targets_override_by_place(
    peers: Seq<(Token, RemoteAddr)>,
    targets: Seq<RemoteAddr>,
    i: int,
)
    requires
        0 <= i < peers.len(),
    ensures
        targets.len() == 0 ==> target_at(peers, targets, i).addr == peers[i].1,
        i < targets.len() ==> target_at(peers, targets, i).addr == targets[i],
        i >= targets.len() ==> target_at(peers, targets, i).addr == peers[i].1,
        target_at(peers, targets, i).forward == peers[i].1,
{
}

/// A peer table holds the first address and every further one, each once and nothing
/// else.
pub proof fn peer_table_holds_every_address(
    peers: Seq<(Token, RemoteAddr)>,
    raddr: RemoteAddr,
    extra: Seq<RemoteAddr>,
)
    requires
        is_peer_table(peers, raddr, extra),
    ensures
        peers.map_values(|peer: (Token, RemoteAddr)| peer.1) == seq![raddr] + extra,
{
    let addrs = peers.map_values(|peer: (Token, RemoteAddr)| peer.1);
    assert forall|i: int| 0 <= i < peers.len() implies addrs[i] == (seq![raddr] + extra)[i] by {
        if i > 0 {
            assert(peers[(i - 1) + 1] == (Token(((i - 1) + 1) as u8), extra[i - 1]));
        }
    }
    assert(addrs =~= seq![raddr] + extra);
}

/// A probe goes by the token of its peer, and tells whether its target was configured.
pub proof fn probe_tells_peer_and_override(
    peers: Seq<(Token, RemoteAddr)>,
    targets: Seq<RemoteAddr>,
    i: int,
)
    requires
        0 <= i < peers.len(),
    ensures
        target_at(peers, targets, i).token == peers[i].0,
        target_at(peers, targets, i).overridden <==> targets.len() > i,
{
}

/// Two names alone stand for obfuscating modes, letter by letter.
pub proof fn two_names_stand_for_modes(name: Seq<char>)
    ensures
        mode_of(name) == 1 <==> name == seq!['c', 'l', 'i', 'e', 'n', 't'],
        mode_of(name) == 2 <==> name == seq!['s', 'e', 'r', 'v', 'e', 'r'],
        mode_of(name) <= 2,
{
    reveal_strlit("client");
    reveal_strlit("server");
    assert("client"@ =~= seq!['c', 'l', 'i', 'e', 'n', 't']);
    assert("server"@ =~= seq!['s', 'e', 'r', 'v', 'e', 'r']);
    assert("client"@[0] != "server"@[0]);
}

/// A configured pool is created as it is configured where there is room for a connection
/// in it, and not at all otherwise.
pub proof fn pool_is_created_where_there_is_room(config: PoolConfig)
    ensures
        config.pool_size >= 1 ==> pool_of(Some(config)) == Some(config),
        config.pool_size == 0 ==> pool_of(Some(config)) is None,
        pool_of(None) is None,
{
}

} // verus!
