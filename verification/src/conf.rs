//! The configuration of an endpoint, and the endpoint that it describes.

use vstd::prelude::*;
use vstd::string::{StrSliceExecFns, StringExecFns};
use vstd::utf8::is_ascii_chars;

use crate::endpoint::{
    BalancerConf, BindOpts, ConnectOpts, Endpoint, HealthCheckConfig, MixClientConf, MixServerConf,
    RemoteAddr, RemoteAddrView, SocketAddr, TlsClientConf, TlsServerConf, WsConf,
};
use crate::handshake::{MODE_CLIENT, MODE_PLAIN, MODE_SERVER};
use crate::pool::PoolConfig;
use crate::probe::ProbeConfig;
use crate::tcp::{mode_of, pool_of};
use crate::text::{
    ascii_lower, chars_of, decimal, decimal_reads_back, first_split_undoes_joining, is_digit,
    last_place, last_split_undoes_joining, lowercase, number, parse_number, pieces, split_all,
    split_at_first, split_at_last, split_first, split_last, to_lower, trim, trimmed,
};

verus! {

/// The network options of an endpoint.
#[derive(Debug, Clone)]
pub struct NetInfo {
    pub bind_opts: BindOpts,
    pub conn_opts: ConnectOpts,
    pub no_tcp: bool,
    pub use_udp: bool,
    pub max_fails: Option<u32>,
    pub fail_timeout: Option<u32>,
    pub max_latency: Option<u32>,
    pub probe_interval_secs: Option<u64>,
    pub probe_unhealthy_interval_secs: Option<u64>,
    pub probe_timeout_ms: Option<u64>,
    /// The most idle connections that are kept per peer; without it, or with zero,
    /// connections are not pooled.
    pub pool_size: Option<usize>,
    pub pool_min_idle: Option<usize>,
}

/// The configuration of an endpoint.
#[derive(Debug, Clone)]
pub struct EndpointConf {
    pub listen: String,
    pub remote: String,
    pub extra_remotes: Vec<String>,
    /// The obfuscation mode by name, in any case.
    pub obfs: Option<String>,
    /// Per-peer probe targets, parallel to `[remote] + extra_remotes`.
    ///
    /// Override the address the active health probe connects to for each peer.
    /// Useful when the forwarding address is a local tunnel client port and the
    /// real reachability check should target the remote tunnel server directly.
    ///
    /// Example:
    /// ```toml
    /// remote        = "127.0.0.1:10001"
    /// extra_remotes = ["127.0.0.1:10002"]
    /// probe_targets = ["real-server1.example.com:443",
    ///                  "real-server2.example.com:443"]
    /// ```
    pub probe_targets: Vec<String>,
    pub balance: Option<String>,
    pub through: Option<String>,
    pub interface: Option<String>,
    pub listen_interface: Option<String>,
    pub listen_transport: Option<String>,
    pub remote_transport: Option<String>,
    pub network: NetInfo,
}

/// An endpoint and what is relayed there.
#[derive(Debug, Clone)]
pub struct EndpointInfo {
    pub no_tcp: bool,
    pub use_udp: bool,
    pub endpoint: Endpoint,
}

// ---------------------------------------------------------------------------
// Remote addresses
// ---------------------------------------------------------------------------

/// The host and the port that `text` names: what stands before its last colon, and
/// the number up to 65535 that stands behind it.
pub open spec fn host_and_port(text: Seq<char>) -> Option<(Seq<char>, u16)> {
    match split_at_last(text, ':') {
        Some((host, port)) => match number(port, 65535) {
            Some(n) => Some((host, n as u16)),
            None => None,
        },
        None => None,
    }
}

/// Splits a text into a host and a port.
pub fn split_host_port(text: &str) -> (parts: Option<(String, u16)>)
    ensures
        parts is Some <==> host_and_port(text@) is Some,
        parts matches Some(p) ==> (p.0@, p.1) == host_and_port(text@)->0,
{
    match split_last(text, ':') {
        Some((host, port)) => match parse_number(port, 65535) {
            Some(n) => Some((host.to_owned(), n as u16)),
            None => None,
        },
        None => None,
    }
}

/// The remote address that `remote` names, where `parsed` is the socket address
/// that it writes, if it writes one.
pub open spec fn remote_of(remote: Seq<char>, parsed: Option<SocketAddr>) -> RemoteAddrView {
    match parsed {
        Some(addr) => RemoteAddrView::SocketAddr(addr@),
        None => {
            let (host, port) = host_and_port(remote)->0;
            RemoteAddrView::DomainName(host, port)
        },
    }
}

/// Whether `remote` names a remote address: it writes a socket address, or a host
/// and a port.
pub open spec fn names_remote(remote: Seq<char>, parsed: Option<SocketAddr>) -> bool {
    parsed is Some || host_and_port(remote) is Some
}

/// Whether all of `remotes` name remote addresses.
pub open spec fn all_name_remotes(
    remotes: Seq<String>,
    parsed: Seq<Option<SocketAddr>>,
) -> bool {
    &&& parsed.len() == remotes.len()
    &&& forall|i: int|
        0 <= i < remotes.len() ==> names_remote((#[trigger] remotes[i])@, parsed[i])
}

/// Whether `addrs` are the remote addresses that `remotes` name.
pub open spec fn are_remotes_of(
    addrs: Seq<RemoteAddr>,
    remotes: Seq<String>,
    parsed: Seq<Option<SocketAddr>>,
) -> bool {
    &&& addrs.len() == remotes.len()
    &&& forall|i: int|
        0 <= i < remotes.len() ==> (#[trigger] addrs[i])@ == remote_of(remotes[i]@, parsed[i])
}

// ---------------------------------------------------------------------------
// The balancer
// ---------------------------------------------------------------------------

/// The health check that the options describe, if they do.
pub open spec fn health_of(
    max_fails: Option<u32>,
    fail_timeout: Option<u32>,
    max_latency: Option<u32>,
) -> Option<HealthCheckConfig> {
    match (max_fails, fail_timeout) {
        (Some(fails), Some(secs)) => Some(
            HealthCheckConfig {
                max_fails: fails,
                fail_timeout_secs: secs,
                max_latency_ms: max_latency,
            },
        ),
        _ => None,
    }
}

/// The weights that the pieces of a list write: numbers up to 255 with white space
/// around them. Pieces that write none are passed over.
pub open spec fn weights_in(list: Seq<Seq<char>>) -> Seq<u8>
    decreases list.len(),
{
    if list.len() == 0 {
        Seq::empty()
    } else {
        let front = weights_in(list.drop_last());
        match number(trimmed(list.last()), 255) {
            Some(n) => front.push(n as u8),
            None => front,
        }
    }
}

/// The name of the strategy in `balance`: what stands before the first colon, or
/// all of it where there is none.
pub open spec fn strategy_in(balance: Seq<char>) -> Seq<char> {
    match split_at_first(balance, ':') {
        Some((strategy, _)) => trimmed(strategy),
        None => trimmed(balance),
    }
}

/// The list of weights in `balance`: what stands behind the first colon.
pub open spec fn weight_list_in(balance: Seq<char>) -> Seq<char> {
    match split_at_first(balance, ':') {
        Some((_, weights)) => trimmed(weights),
        None => Seq::empty(),
    }
}

/// Whether `conf` is the balancer that `balance` describes; without a description
/// it is the default one, which takes no health check.
pub open spec fn is_balancer(
    conf: Option<BalancerConf>,
    balance: Option<String>,
    health: Option<HealthCheckConfig>,
) -> bool {
    match balance {
        Some(text) => {
            &&& conf matches Some(c)
            &&& c.strategy@ == strategy_in(text@)
            &&& c.weights@ == weights_in(pieces(weight_list_in(text@), ','))
            &&& c.health == health
        },
        None => conf is None,
    }
}

/// Reads the weights in a list.
fn read_weights(list: &str) -> (weights: Vec<u8>)
    ensures
        weights@ == weights_in(pieces(list@, ',')),
{
    let parts: Vec<&str> = split_all(list, ',');
    let ghost texts = pieces(list@, ',');
    let mut weights: Vec<u8> = Vec::new();
    for i in 0..parts.len()
        invariant
            parts@.len() == texts.len(),
            forall|j: int| 0 <= j < parts@.len() ==> (#[trigger] parts@[j])@ == texts[j],
            weights@ == weights_in(texts.take(i as int)),
    {
        proof {
            let longer = texts.take(i as int + 1);
            assert(longer.drop_last() =~= texts.take(i as int));
            assert(longer.last() == parts@[i as int]@);
        }
        if let Some(n) = parse_number(trim(parts[i]), 255) {
            weights.push(n as u8);
        }
    }
    assert(texts.take(texts.len() as int) =~= texts);
    weights
}

// ---------------------------------------------------------------------------
// Building
// ---------------------------------------------------------------------------

/// What is read off the texts of a configuration outside of this library: socket
/// addresses, which the standard library parses and resolves, and transports.
#[derive(Debug, Clone)]
pub struct Lookups {
    /// The first address that `listen` resolves to.
    pub local: SocketAddr,
    /// The socket address that `remote` writes, if it writes one.
    pub remote: Option<SocketAddr>,
    /// The same of each of `extra_remotes`.
    pub extra_remotes: Vec<Option<SocketAddr>>,
    /// The same of each of `probe_targets`.
    pub probe_targets: Vec<Option<SocketAddr>>,
    /// The first address that `through` resolves to, if it resolves.
    pub through: Option<SocketAddr>,
    /// The IP address that [`EndpointConf::through_ip`] writes, with port zero, if
    /// it writes one.
    pub through_ip: Option<SocketAddr>,
    pub listen_ws: Option<WsConf>,
    pub listen_tls: Option<TlsServerConf>,
    pub remote_ws: Option<WsConf>,
    pub remote_tls: Option<TlsClientConf>,
}

/// `text` without square brackets.
pub open spec fn without_brackets(text: Seq<char>) -> Seq<char> {
    text.filter(|c: char| c != '[' && c != ']')
}

/// The arguments of a command line that describe an endpoint.
#[derive(Debug, Clone)]
pub struct CmdArgs {
    pub local: Option<String>,
    pub remote: Option<String>,
    pub through: Option<String>,
    pub interface: Option<String>,
    pub listen_interface: Option<String>,
    pub listen_transport: Option<String>,
    pub remote_transport: Option<String>,
}

impl EndpointConf {
    /// The remote address that `remote` names, where `parsed` is the socket address
    /// that it writes, if it writes one. Otherwise it has to name a host and a port;
    /// [`split_host_port`] tells whether it does.
    pub fn build_remote_x(remote: &str, parsed: Option<SocketAddr>) -> (addr: RemoteAddr)
        requires
            names_remote(remote@, parsed),
        ensures
            addr@ == remote_of(remote@, parsed),
    {
        match parsed {
            Some(addr) => RemoteAddr::SocketAddr(addr),
            None => {
                let (host, port) = split_host_port(remote).unwrap();
                RemoteAddr::DomainName(host, port)
            },
        }
    }

    /// The remote addresses that `remotes` name.
    fn build_remotes(remotes: &Vec<String>, parsed: &Vec<Option<SocketAddr>>) -> (addrs: Vec<
        RemoteAddr,
    >)
        requires
            all_name_remotes(remotes@, parsed@),
        ensures
            are_remotes_of(addrs@, remotes@, parsed@),
    {
        let mut addrs: Vec<RemoteAddr> = Vec::new();
        for i in 0..remotes.len()
            invariant
                all_name_remotes(remotes@, parsed@),
                addrs@.len() == i,
                forall|j: int|
                    0 <= j < i ==> (#[trigger] addrs@[j])@ == remote_of(remotes@[j]@, parsed@[j]),
        {
            assert(names_remote(remotes@[i as int]@, parsed@[i as int]));
            let known: Option<SocketAddr> = match &parsed[i] {
                Some(addr) => Some(addr.clone()),
                None => None,
            };
            addrs.push(Self::build_remote_x(remotes[i].as_str(), known));
        }
        addrs
    }

    /// The first remote address.
    pub fn build_remote(&self, parsed: Option<SocketAddr>) -> (addr: RemoteAddr)
        requires
            names_remote(self.remote@, parsed),
        ensures
            addr@ == remote_of(self.remote@, parsed),
    {
        Self::build_remote_x(self.remote.as_str(), parsed)
    }

    /// The text in which an IP address is looked for where `through` does not
    /// resolve: `through` without square brackets.
    pub fn through_ip(&self) -> (text: Option<String>)
        ensures
            text is Some <==> self.through is Some,
            text matches Some(t) ==> t@ == without_brackets(self.through->0@),
    {
        match &self.through {
            Some(through) => {
                let chars: Vec<char> = chars_of(through.as_str());
                let mut text: String = String::new();
                let ghost pred = |c: char| c != '[' && c != ']';
                for i in 0..chars.len()
                    invariant
                        pred == (|c: char| c != '[' && c != ']'),
                        chars@ == through@,
                        text@ == chars@.take(i as int).filter(pred),
                {
                    proof {
                        let longer = chars@.take(i as int + 1);
                        assert(longer.drop_last() =~= chars@.take(i as int));
                        assert(longer.last() == chars@[i as int]);
                        reveal(Seq::filter);
                    }
                    if chars[i] != '[' && chars[i] != ']' {
                        let ghost before = text@;
                        text.append(through.as_str().substring_char(i, i + 1));
                        assert(text@ =~= before.push(chars@[i as int]));
                    }
                }
                assert(chars@.take(chars@.len() as int) =~= chars@);
                Some(text)
            },
            None => None,
        }
    }

    /// The address that connections are sent through, if one is configured: what
    /// `through` resolves to, or else the IP address that it writes.
    pub fn build_send_through(
        &self,
        resolved: Option<SocketAddr>,
        ip: Option<SocketAddr>,
    ) -> (addr: Option<SocketAddr>)
        ensures
            addr == self.send_through(resolved, ip),
    {
        match &self.through {
            Some(_) => match resolved {
                Some(addr) => Some(addr),
                None => ip,
            },
            None => None,
        }
    }

    /// The address that connections are sent through.
    pub open spec fn send_through(
        self,
        resolved: Option<SocketAddr>,
        ip: Option<SocketAddr>,
    ) -> Option<SocketAddr> {
        if self.through is None {
            None
        } else if resolved is Some {
            resolved
        } else {
            ip
        }
    }

    /// The balancer; `None` for the default one.
    pub fn build_balancer(
        &self,
        max_fails: Option<u32>,
        fail_timeout: Option<u32>,
        max_latency: Option<u32>,
    ) -> (conf: Option<BalancerConf>)
        ensures
            is_balancer(conf, self.balance, health_of(max_fails, fail_timeout, max_latency)),
    {
        let health: Option<HealthCheckConfig> = match (max_fails, fail_timeout) {
            (Some(fails), Some(secs)) => Some(
                HealthCheckConfig {
                    max_fails: fails,
                    fail_timeout_secs: secs,
                    max_latency_ms: max_latency,
                },
            ),
            _ => None,
        };
        match &self.balance {
            Some(balance) => {
                let (strategy, list): (&str, &str) = match split_first(balance.as_str(), ':') {
                    Some((strategy, list)) => (strategy, trim(list)),
                    None => (balance.as_str(), ""),
                };
                proof {
                    reveal_strlit("");
                    assert(""@ =~= Seq::<char>::empty());
                }
                let weights: Vec<u8> = read_weights(list);
                Some(BalancerConf { strategy: trim(strategy).to_owned(), weights, health })
            },
            None => None,
        }
    }

    /// The transport, given the options that are read off the two transport texts;
    /// `None` where there are no options at all.
    pub fn build_transport(
        &self,
        listen_ws: Option<WsConf>,
        listen_tls: Option<TlsServerConf>,
        remote_ws: Option<WsConf>,
        remote_tls: Option<TlsClientConf>,
    ) -> (transport: Option<(MixServerConf, MixClientConf)>)
        ensures
            transport == self.transport(listen_ws, listen_tls, remote_ws, remote_tls),
    {
        let listens: bool = self.listen_transport.is_some();
        let connects: bool = self.remote_transport.is_some();
        let server: MixServerConf = MixServerConf {
            ws: if listens { listen_ws } else { None },
            tls: if listens { listen_tls } else { None },
        };
        let client: MixClientConf = MixClientConf {
            ws: if connects { remote_ws } else { None },
            tls: if connects { remote_tls } else { None },
        };
        if server.ws.is_none() && server.tls.is_none() && client.ws.is_none()
            && client.tls.is_none() {
            None
        } else {
            Some((server, client))
        }
    }

    /// The transport. The options of a side count only where its text is given.
    pub open spec fn transport(
        self,
        listen_ws: Option<WsConf>,
        listen_tls: Option<TlsServerConf>,
        remote_ws: Option<WsConf>,
        remote_tls: Option<TlsClientConf>,
    ) -> Option<(MixServerConf, MixClientConf)> {
        let server = if self.listen_transport is Some {
            MixServerConf { ws: listen_ws, tls: listen_tls }
        } else {
            MixServerConf { ws: None, tls: None }
        };
        let client = if self.remote_transport is Some {
            MixClientConf { ws: remote_ws, tls: remote_tls }
        } else {
            MixClientConf { ws: None, tls: None }
        };
        if server.ws is None && server.tls is None && client.ws is None && client.tls is None {
            None
        } else {
            Some((server, client))
        }
    }

    /// The probe configuration that the network options describe: it takes an
    /// interval, and has defaults for the rest. A peer that is unhealthy is probed
    /// twice as often, but not more often than every three seconds.
    pub open spec fn probe_config(network: NetInfo) -> Option<ProbeConfig> {
        match network.probe_interval_secs {
            Some(interval) => Some(
                ProbeConfig {
                    probe_interval_secs: interval,
                    probe_unhealthy_interval_secs: match network.probe_unhealthy_interval_secs {
                        Some(secs) => secs,
                        None => if interval / 2 < 3 {
                            3
                        } else {
                            interval / 2
                        },
                    },
                    probe_timeout_ms: match network.probe_timeout_ms {
                        Some(ms) => ms,
                        None => 3000,
                    },
                    probe_max_fails: match network.max_fails {
                        Some(n) => n,
                        None => 2,
                    },
                },
            ),
            None => None,
        }
    }

    /// The probe configuration.
    fn build_probe_config(network: &NetInfo) -> (config: Option<ProbeConfig>)
        ensures
            config == Self::probe_config(*network),
    {
        match network.probe_interval_secs {
            Some(interval) => {
                let half: u64 = interval / 2;
                let unhealthy: u64 = match network.probe_unhealthy_interval_secs {
                    Some(secs) => secs,
                    None => if half < 3 {
                        3
                    } else {
                        half
                    },
                };
                Some(
                    ProbeConfig {
                        probe_interval_secs: interval,
                        probe_unhealthy_interval_secs: unhealthy,
                        probe_timeout_ms: network.probe_timeout_ms.unwrap_or(3000),
                        probe_max_fails: network.max_fails.unwrap_or(2),
                    },
                )
            },
            None => None,
        }
    }

    /// The pool configuration that the network options describe: it takes a size
    /// that leaves room for a connection, and has defaults for the rest.
    pub open spec fn pool_config(network: NetInfo) -> Option<PoolConfig> {
        match network.pool_size {
            Some(size) if size > 0 => Some(
                PoolConfig {
                    pool_size: size,
                    pool_min_idle: match network.pool_min_idle {
                        Some(n) => n,
                        None => 2,
                    },
                    pool_connect_timeout_ms: 3000,
                    pool_idle_timeout_secs: 30,
                },
            ),
            _ => None,
        }
    }

    /// The pool configuration.
    fn build_pool_config(network: &NetInfo) -> (config: Option<PoolConfig>)
        ensures
            config == Self::pool_config(*network),
    {
        match network.pool_size {
            Some(size) => if size > 0 {
                let mut config: PoolConfig = PoolConfig::default();
                config.pool_size = size;
                if let Some(n) = network.pool_min_idle {
                    config.pool_min_idle = n;
                }
                Some(config)
            } else {
                None
            },
            None => None,
        }
    }

    /// The name of the obfuscation mode as it is given; empty for none.
    pub open spec fn obfs_given(self) -> Seq<char> {
        match self.obfs {
            Some(name) => name@,
            None => Seq::empty(),
        }
    }

    /// Whether what was read off the texts of this configuration is enough to build
    /// the endpoint: every text that should name a remote address does.
    pub open spec fn buildable(self, lookups: Lookups) -> bool {
        &&& names_remote(self.remote@, lookups.remote)
        &&& all_name_remotes(self.extra_remotes@, lookups.extra_remotes@)
        &&& all_name_remotes(self.probe_targets@, lookups.probe_targets@)
    }

    /// Whether `opts` are the options of the connecting side.
    pub open spec fn is_connect_side(self, opts: ConnectOpts, lookups: Lookups) -> bool {
        let given = self.network.conn_opts;
        &&& opts.send_mptcp == given.send_mptcp
        &&& opts.connect_timeout == given.connect_timeout
        &&& opts.associate_timeout == given.associate_timeout
        &&& opts.tcp_keepalive == given.tcp_keepalive
        &&& opts.tcp_keepalive_probe == given.tcp_keepalive_probe
        &&& opts.proxy_opts == given.proxy_opts
        &&& is_balancer(
            opts.balancer,
            self.balance,
            health_of(
                self.network.max_fails,
                self.network.fail_timeout,
                self.network.max_latency,
            ),
        )
        &&& opts.transport == self.transport(
            lookups.listen_ws,
            lookups.listen_tls,
            lookups.remote_ws,
            lookups.remote_tls,
        )
        &&& opts.bind_address == self.send_through(lookups.through, lookups.through_ip)
        &&& opts.bind_interface == self.interface
        &&& opts.obfs@ == lowercase(self.obfs_given())
        &&& is_ascii_chars(self.obfs_given()) ==> opts.obfs@ == self.obfs_given().map_values(
            |c: char| ascii_lower(c),
        )
        &&& opts.probe_config == Self::probe_config(self.network)
        &&& are_remotes_of(
            opts.probe_targets@,
            self.probe_targets@,
            lookups.probe_targets@,
        )
        &&& opts.pool_config == Self::pool_config(self.network)
    }

    /// Builds the endpoint.
    pub fn build(self, lookups: Lookups) -> (info: EndpointInfo)
        requires
            self.buildable(lookups),
        ensures
            info.no_tcp == self.network.no_tcp,
            info.use_udp == self.network.use_udp,
            info.endpoint.laddr == lookups.local,
            info.endpoint.raddr@ == remote_of(self.remote@, lookups.remote),
            are_remotes_of(
                info.endpoint.extra_raddrs@,
                self.extra_remotes@,
                lookups.extra_remotes@,
            ),
            info.endpoint.bind_opts == (BindOpts {
                bind_interface: self.listen_interface,
                ..self.network.bind_opts
            }),
            self.is_connect_side(info.endpoint.conn_opts, lookups),
    {
        let raddr: RemoteAddr = self.build_remote(lookups.remote);
        let extra_raddrs: Vec<RemoteAddr> = Self::build_remotes(
            &self.extra_remotes,
            &lookups.extra_remotes,
        );
        let balancer: Option<BalancerConf> = self.build_balancer(
            self.network.max_fails,
            self.network.fail_timeout,
            self.network.max_latency,
        );
        let transport: Option<(MixServerConf, MixClientConf)> = self.build_transport(
            lookups.listen_ws,
            lookups.listen_tls,
            lookups.remote_ws,
            lookups.remote_tls,
        );
        let bind_address: Option<SocketAddr> = self.build_send_through(
            lookups.through,
            lookups.through_ip,
        );
        proof {
            reveal_strlit("");
            assert(""@ =~= Seq::<char>::empty());
        }
        let obfs: String = match &self.obfs {
            Some(name) => to_lower(name.as_str()),
            None => to_lower(""),
        };
        let probe_config: Option<ProbeConfig> = Self::build_probe_config(&self.network);
        let probe_targets: Vec<RemoteAddr> = Self::build_remotes(
            &self.probe_targets,
            &lookups.probe_targets,
        );
        let pool_config: Option<PoolConfig> = Self::build_pool_config(&self.network);
        let network: NetInfo = self.network;
        let given: ConnectOpts = network.conn_opts;
        let conn_opts: ConnectOpts = ConnectOpts {
            send_mptcp: given.send_mptcp,
            connect_timeout: given.connect_timeout,
            associate_timeout: given.associate_timeout,
            tcp_keepalive: given.tcp_keepalive,
            tcp_keepalive_probe: given.tcp_keepalive_probe,
            bind_address,
            bind_interface: self.interface,
            obfs,
            proxy_opts: given.proxy_opts,
            transport,
            balancer,
            probe_config,
            probe_targets,
            pool_config,
        };
        let bind_opts: BindOpts = BindOpts {
            ipv6_only: network.bind_opts.ipv6_only,
            accept_mptcp: network.bind_opts.accept_mptcp,
            bind_interface: self.listen_interface,
        };
        EndpointInfo {
            no_tcp: network.no_tcp,
            use_udp: network.use_udp,
            endpoint: Endpoint {
                laddr: lookups.local,
                raddr,
                bind_opts,
                conn_opts,
                extra_raddrs,
            },
        }
    }

    /// The configuration that a command line describes. Where to listen and what to
    /// connect to have to be given; what a command line cannot give is left out.
    pub fn from_cmd_args(args: CmdArgs, network: NetInfo) -> (conf: Self)
        requires
            args.local is Some,
            args.remote is Some,
        ensures
            conf.listen == args.local->0,
            conf.remote == args.remote->0,
            conf.through == args.through,
            conf.interface == args.interface,
            conf.listen_interface == args.listen_interface,
            conf.listen_transport == args.listen_transport,
            conf.remote_transport == args.remote_transport,
            conf.network == network,
            conf.extra_remotes@.len() == 0,
            conf.balance is None,
            conf.obfs is None,
            conf.probe_targets@.len() == 0,
    {
        EndpointConf {
            listen: args.local.unwrap(),
            remote: args.remote.unwrap(),
            through: args.through,
            interface: args.interface,
            listen_interface: args.listen_interface,
            listen_transport: args.listen_transport,
            remote_transport: args.remote_transport,
            network,
            extra_remotes: Vec::new(),
            balance: None,
            obfs: None,
            probe_targets: Vec::new(),
        }
    }

    /// A configuration always describes an endpoint.
    pub fn is_empty(&self) -> (empty: bool)
        ensures
            !empty,
    {
        false
    }
}

// ---------------------------------------------------------------------------
// Laws
// ---------------------------------------------------------------------------

/// Whether `text` is `word`, but for the case of ASCII letters.
pub open spec fn same_but_case(text: Seq<char>, word: Seq<char>) -> bool {
    is_ascii_chars(text) && text.map_values(|c: char| ascii_lower(c)) == word
}

/// The obfuscation mode can be named in any case: an endpoint built with it
/// relays in the mode of its lower-case name.
pub proof fn mode_name_ignores_case(conf: EndpointConf, opts: ConnectOpts, lookups: Lookups)
    requires
        conf.is_connect_side(opts, lookups),
    ensures
        same_but_case(conf.obfs_given(), "client"@) ==> mode_of(opts.obfs@) == MODE_CLIENT,
        same_but_case(conf.obfs_given(), "server"@) ==> mode_of(opts.obfs@) == MODE_SERVER,
{
    reveal_strlit("client");
    reveal_strlit("server");
    assert("client"@[0] != "server"@[0]);
}

/// Without a configured mode an endpoint relays plainly.
pub proof fn no_mode_name_is_plain(conf: EndpointConf, opts: ConnectOpts, lookups: Lookups)
    requires
        conf.is_connect_side(opts, lookups),
        conf.obfs is None,
    ensures
        opts.obfs@.len() == 0,
        mode_of(opts.obfs@) == MODE_PLAIN,
{
    reveal_strlit("client");
    reveal_strlit("server");
    assert(is_ascii_chars(conf.obfs_given()));
}

/// The pool is optional: connections are pooled exactly where the configuration gives
/// a size above zero, and then with that size.
pub proof fn pooled_iff_size_is_given(conf: EndpointConf, opts: ConnectOpts, lookups: Lookups)
    requires
        conf.is_connect_side(opts, lookups),
    ensures
        pool_of(opts.pool_config) is Some <==> (conf.network.pool_size matches Some(size) && size
            > 0),
        pool_of(opts.pool_config) matches Some(config) ==> conf.network.pool_size == Some(
            config.pool_size,
        ),
{
}

/// A host and a port, written with a colon between them, are read as they were
/// written, whatever the host holds.
pub proof fn host_and_port_round_trip(host: Seq<char>, port: u16)
    ensures
        host_and_port(RemoteAddrView::DomainName(host, port).text()) == Some((host, port)),
{
    reveal_strlit(":");
    let digits = decimal(port as nat);
    let text = RemoteAddrView::DomainName(host, port).text();
    decimal_reads_back(port as nat);
    assert(text =~= host.push(':') + digits);
    lemma_last_place_before_digits(host, digits);
    assert(text.take(host.len() as int) =~= host);
    assert(text.skip(host.len() as int + 1) =~= digits);
}

/// A colon is the last one where digits alone follow it.
proof fn lemma_last_place_before_digits(host: Seq<char>, digits: Seq<char>)
    requires
        forall|i: int| 0 <= i < digits.len() ==> is_digit(#[trigger] digits[i]),
    ensures
        last_place(host.push(':') + digits, ':') == host.len(),
    decreases digits.len(),
{
    let text = host.push(':') + digits;
    if digits.len() == 0 {
        assert(text =~= host.push(':'));
    } else {
        assert(is_digit(digits.last()));
        assert(text.drop_last() =~= host.push(':') + digits.drop_last());
        lemma_last_place_before_digits(host, digits.drop_last());
    }
}

/// A host and a port are told apart at the last colon: what stands before it is the
/// host, whatever it holds, and what stands behind it has to be a number that fits a
/// port. Without a colon there is neither.
pub proof fn last_colon_parts_host_and_port(host: Seq<char>, port: Seq<char>)
    requires
        !port.contains(':'),
    ensures
        host_and_port(port) is None,
        match number(port, 0xffff) {
            Some(n) => host_and_port(host.push(':') + port) == Some((host, n as u16)),
            None => host_and_port(host.push(':') + port) is None,
        },
{
    last_split_undoes_joining(host, ':', port);
}

/// A remote address is the socket address that its text writes, where it writes one, and
/// otherwise the host and the port that the text names; a text that does neither names
/// no remote address.
pub proof fn remote_is_address_or_host_and_port(
    remote: Seq<char>,
    parsed: Option<SocketAddr>,
    host: Seq<char>,
    port: u16,
)
    ensures
        parsed matches Some(addr) ==> names_remote(remote, parsed) && remote_of(remote, parsed)
            == RemoteAddrView::SocketAddr(addr.text@),
        parsed is None && host_and_port(remote) == Some((host, port)) ==> names_remote(
            remote,
            parsed,
        ) && remote_of(remote, parsed) == RemoteAddrView::DomainName(host, port),
        parsed is None && host_and_port(remote) is None ==> !names_remote(remote, parsed),
{
}

/// The remote addresses of a list are those of its texts, one for each, in order; and
/// such a list names remote addresses unless one of its texts does not.
pub proof fn remotes_are_named_one_by_one(
    addrs: Seq<RemoteAddr>,
    remotes: Seq<String>,
    parsed: Seq<Option<SocketAddr>>,
    i: int,
)
    requires
        0 <= i < remotes.len(),
    ensures
        are_remotes_of(addrs, remotes, parsed) ==> addrs.len() == remotes.len() && addrs[i]@
            == remote_of(remotes[i]@, parsed[i]),
        all_name_remotes(remotes, parsed) ==> names_remote(remotes[i]@, parsed[i]),
        !all_name_remotes(remotes, parsed) ==> parsed.len() != remotes.len() || (exists|j: int|
            0 <= j < remotes.len() && !names_remote((#[trigger] remotes[j])@, parsed[j])),
{
}

/// No texts stand for no addresses.
pub proof fn no_texts_name_no_remotes(addrs: Seq<RemoteAddr>, parsed: Seq<Option<SocketAddr>>)
    ensures
        are_remotes_of(addrs, Seq::empty(), parsed) <==> addrs.len() == 0,
{
}

/// Everything that has a remote address to name, and names one, is enough to build.
pub proof fn named_remotes_suffice(conf: EndpointConf, lookups: Lookups)
    requires
        names_remote(conf.remote@, lookups.remote),
        lookups.extra_remotes@.len() == conf.extra_remotes@.len(),
        lookups.probe_targets@.len() == conf.probe_targets@.len(),
        forall|i: int|
            0 <= i < conf.extra_remotes@.len() ==> names_remote(
                (#[trigger] conf.extra_remotes@[i])@,
                lookups.extra_remotes@[i],
            ),
        forall|i: int|
            0 <= i < conf.probe_targets@.len() ==> names_remote(
                (#[trigger] conf.probe_targets@[i])@,
                lookups.probe_targets@[i],
            ),
    ensures
        conf.buildable(lookups),
{
}

/// A health check takes a number of failures and a timeout, and holds them as given;
/// without either there is none.
pub proof fn health_check_takes_failures_and_timeout(fails: u32, secs: u32, latency: Option<u32>)
    ensures
        health_of(Some(fails), Some(secs), latency) matches Some(health) && health.max_fails
            == fails && health.fail_timeout_secs == secs && health.max_latency_ms == latency,
        health_of(None, Some(secs), latency) is None,
        health_of(Some(fails), None, latency) is None,
        health_of(None, None, latency) is None,
{
}

/// Weights are read piece by piece, in order: a piece that is a number up to 255, with
/// white space around it, gives that weight, and any other piece gives none.
pub proof fn weights_are_read_piece_by_piece(
    list: Seq<Seq<char>>,
    more: Seq<Seq<char>>,
    piece: Seq<char>,
)
    ensures
        weights_in(Seq::<Seq<char>>::empty()) == Seq::<u8>::empty(),
        weights_in(list + more) == weights_in(list) + weights_in(more),
        match number(trimmed(piece), 0xff) {
            Some(n) => weights_in(seq![piece]) == seq![n as u8],
            None => weights_in(seq![piece]) == Seq::<u8>::empty(),
        },
    decreases more.len(),
{
    reveal_with_fuel(weights_in, 2);
    assert(seq![piece].drop_last() =~= Seq::<Seq<char>>::empty());
    assert(weights_in(seq![piece]) =~= (match number(trimmed(piece), 0xff) {
        Some(n) => seq![n as u8],
        None => Seq::<u8>::empty(),
    }));
    if more.len() == 0 {
        assert(list + more =~= list);
        assert(weights_in(list) + weights_in(more) =~= weights_in(list));
    } else {
        weights_are_read_piece_by_piece(list, more.drop_last(), piece);
        assert((list + more).drop_last() =~= list + more.drop_last());
        assert((list + more).last() == more.last());
        assert(weights_in(list + more) =~= weights_in(list) + weights_in(more));
    }
}

/// A balancer is described by the name of a strategy and, behind a colon, weights with
/// commas between them; white space around the name and the list does not count. The
/// health check is taken over. Without a colon there are no weights, and without a
/// description there is no balancer but the default one.
pub proof fn balancer_is_strategy_and_weights(
    conf: Option<BalancerConf>,
    balance: String,
    health: Option<HealthCheckConfig>,
    strategy: Seq<char>,
    list: Seq<char>,
)
    requires
        !strategy.contains(':'),
        is_balancer(conf, Some(balance), health),
    ensures
        balance@ == strategy.push(':') + list ==> conf is Some && conf->0.strategy@ == trimmed(
            strategy,
        ) && conf->0.weights@ == weights_in(pieces(trimmed(list), ',')) && conf->0.health == health,
        balance@ == strategy ==> conf is Some && conf->0.strategy@ == trimmed(strategy)
            && conf->0.weights@.len() == 0 && conf->0.health == health,
        is_balancer(conf, None, health) <==> conf is None,
{
    first_split_undoes_joining(strategy, ':', list);
    if balance@ == strategy {
        let none = Seq::<char>::empty();
        crate::text::pieces_stand_between_separators(none, ',', none);
        assert(pieces(none, ',') == seq![none]);
        reveal_with_fuel(weights_in, 2);
        assert(seq![none].drop_last() =~= Seq::<Seq<char>>::empty());
        crate::text::numbers_are_digits_within_the_limit(none, 255);
        assert(trimmed(none) == none);
    }
}

/// Square brackets are left out wherever they stand, and every other character stays in
/// its order.
pub proof fn only_brackets_are_left_out(x: Seq<char>, y: Seq<char>, c: char)
    ensures
        without_brackets(x + y) == without_brackets(x) + without_brackets(y),
        c == '[' || c == ']' ==> without_brackets(seq![c]) == Seq::<char>::empty(),
        c != '[' && c != ']' ==> without_brackets(seq![c]) == seq![c],
        without_brackets(Seq::<char>::empty()) == Seq::<char>::empty(),
{
    let pred = |c: char| c != '[' && c != ']';
    Seq::filter_distributes_over_add(x, y, pred);
    reveal(Seq::filter);
    reveal_with_fuel(Seq::filter, 2);
    assert(seq![c].drop_last() =~= Seq::<char>::empty());
    assert(without_brackets(seq![c]) =~= if c == '[' || c == ']' {
        Seq::<char>::empty()
    } else {
        seq![c]
    });
}

/// Connections are sent through an address only where one is configured: through what
/// it resolves to, if it does, and else through the IP address, if there is one.
pub proof fn resolved_address_comes_first(
    conf: EndpointConf,
    addr: SocketAddr,
    resolved: Option<SocketAddr>,
    ip: Option<SocketAddr>,
)
    ensures
        conf.through is None ==> conf.send_through(resolved, ip) is None,
        conf.through is Some ==> conf.send_through(Some(addr), ip) == Some(addr),
        conf.through is Some ==> conf.send_through(None, ip) == ip,
{
}

/// Every option that was read off a transport text reaches its side, the listening or
/// the connecting one, and none reaches a side whose text is not given. There is no
/// transport exactly where no given text has any option.
pub proof fn every_transport_option_reaches_its_side(
    conf: EndpointConf,
    listen_ws: Option<WsConf>,
    listen_tls: Option<TlsServerConf>,
    remote_ws: Option<WsConf>,
    remote_tls: Option<TlsClientConf>,
)
    ensures
        ({
            let transport = conf.transport(listen_ws, listen_tls, remote_ws, remote_tls);
            let listens = conf.listen_transport is Some && (listen_ws is Some || listen_tls is Some);
            let connects = conf.remote_transport is Some && (remote_ws is Some
                || remote_tls is Some);
            let (server, client) = transport->0;
            &&& transport is None <==> !listens && !connects
            &&& listens ==> server.ws == listen_ws && server.tls == listen_tls
            &&& connects ==> client.ws == remote_ws && client.tls == remote_tls
            &&& !listens && connects ==> server.ws is None && server.tls is None
            &&& listens && !connects ==> client.ws is None && client.tls is None
        }),
{
}

/// Peers are probed exactly where an interval is given. Each value that is given is taken
/// over; the others have their defaults: 3000 milliseconds, two failures, and for peers
/// that are unhealthy half the interval, rounded down, but not less than three seconds.
pub proof fn probe_options_are_taken_over(network: NetInfo)
    ensures
        EndpointConf::probe_config(network) is None <==> network.probe_interval_secs is None,
        EndpointConf::probe_config(network) matches Some(config) ==> {
            let interval = config.probe_interval_secs;
            let unhealthy = config.probe_unhealthy_interval_secs;
            &&& network.probe_interval_secs == Some(interval)
            &&& network.probe_unhealthy_interval_secs matches Some(secs) ==> unhealthy == secs
            &&& network.probe_unhealthy_interval_secs is None ==> unhealthy >= 3 && (unhealthy == 3
                || 2 * unhealthy <= interval) && interval < 2 * unhealthy + 2
            &&& network.probe_timeout_ms matches Some(ms) ==> config.probe_timeout_ms == ms
            &&& network.probe_timeout_ms is None ==> config.probe_timeout_ms == 3000
            &&& network.max_fails matches Some(n) ==> config.probe_max_fails == n
            &&& network.max_fails is None ==> config.probe_max_fails == 2
        },
{
}

/// A pool that is configured has the size and the minimum that are given; the other
/// values have their defaults.
pub proof fn pool_options_are_taken_over(network: NetInfo)
    ensures
        EndpointConf::pool_config(network) matches Some(config) ==> {
            &&& network.pool_size == Some(config.pool_size)
            &&& config.pool_size >= 1
            &&& network.pool_min_idle matches Some(n) ==> config.pool_min_idle == n
            &&& network.pool_min_idle is None ==> config.pool_min_idle == 2
            &&& config.pool_connect_timeout_ms == 3000
            &&& config.pool_idle_timeout_secs == 30
        },
        network.pool_size matches Some(size) ==> (size >= 1 ==> EndpointConf::pool_config(
            network,
        ) is Some),
{
}

/// The options of the connecting side take over every network option, and what the
/// configuration says of the interface, of the address that connections are sent
/// through, of the transport, of the obfuscation mode, of probing and of pooling.
pub proof fn connect_side_takes_over_every_option(
    conf: EndpointConf,
    opts: ConnectOpts,
    lookups: Lookups,
)
    requires
        conf.is_connect_side(opts, lookups),
    ensures
        opts.send_mptcp == conf.network.conn_opts.send_mptcp,
        opts.connect_timeout == conf.network.conn_opts.connect_timeout,
        opts.associate_timeout == conf.network.conn_opts.associate_timeout,
        opts.tcp_keepalive == conf.network.conn_opts.tcp_keepalive,
        opts.tcp_keepalive_probe == conf.network.conn_opts.tcp_keepalive_probe,
        opts.proxy_opts == conf.network.conn_opts.proxy_opts,
        opts.bind_interface == conf.interface,
        opts.bind_address == conf.send_through(lookups.through, lookups.through_ip),
        opts.transport == conf.transport(
            lookups.listen_ws,
            lookups.listen_tls,
            lookups.remote_ws,
            lookups.remote_tls,
        ),
        is_balancer(
            opts.balancer,
            conf.balance,
            health_of(
                conf.network.max_fails,
                conf.network.fail_timeout,
                conf.network.max_latency,
            ),
        ),
        opts.probe_config == EndpointConf::probe_config(conf.network),
        opts.pool_config == EndpointConf::pool_config(conf.network),
        are_remotes_of(opts.probe_targets@, conf.probe_targets@, lookups.probe_targets@),
        conf.obfs matches Some(name) ==> opts.obfs@ == lowercase(name@),
{
}

} // verus!
