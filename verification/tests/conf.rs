use bytehub::conf::{split_host_port, CmdArgs, EndpointConf, Lookups, NetInfo};
use bytehub::endpoint::{
    BindOpts, ConnectOpts, HealthCheckConfig, RemoteAddr, SocketAddr, TlsClientConf, WsConf,
};
use bytehub::handshake::{MODE_CLIENT, MODE_PLAIN, MODE_SERVER};
use bytehub::pool::PoolConfig;
use bytehub::tcp::run_tcp;

fn addr(text: &str) -> SocketAddr {
    SocketAddr { text: text.to_string() }
}

fn network() -> NetInfo {
    NetInfo {
        bind_opts: BindOpts::default(),
        conn_opts: ConnectOpts::default(),
        no_tcp: false,
        use_udp: false,
        max_fails: None,
        fail_timeout: None,
        max_latency: None,
        probe_interval_secs: None,
        probe_unhealthy_interval_secs: None,
        probe_timeout_ms: None,
        pool_size: None,
        pool_min_idle: None,
    }
}

fn conf() -> EndpointConf {
    let args = CmdArgs {
        local: Some("0.0.0.0:9000".to_string()),
        remote: Some("192.168.233.2:9000".to_string()),
        through: None,
        interface: None,
        listen_interface: None,
        listen_transport: None,
        remote_transport: None,
    };
    EndpointConf::from_cmd_args(args, network())
}

fn lookups() -> Lookups {
    Lookups {
        local: addr("0.0.0.0:9000"),
        remote: Some(addr("192.168.233.2:9000")),
        extra_remotes: Vec::new(),
        probe_targets: Vec::new(),
        through: None,
        through_ip: None,
        listen_ws: None,
        listen_tls: None,
        remote_ws: None,
        remote_tls: None,
    }
}

fn weights(balance: &str) -> (String, Vec<u8>) {
    let conf = EndpointConf { balance: Some(balance.to_string()), ..conf() };
    let balancer = conf.build_balancer(None, None, None).unwrap();
    (balancer.strategy, balancer.weights)
}

#[test]
fn hosts_and_ports() {
    assert_eq!(split_host_port("example.com:443"), Some(("example.com".to_string(), 443)));
    assert_eq!(split_host_port("::1:80"), Some(("::1".to_string(), 80)));
    assert_eq!(split_host_port(":0"), Some(("".to_string(), 0)));
    assert_eq!(split_host_port("h:+65535"), Some(("h".to_string(), 65535)));
    assert_eq!(split_host_port("h:65536"), None);
    assert_eq!(split_host_port("h:"), None);
    assert_eq!(split_host_port("8080"), None);
    assert_eq!(split_host_port("h: 80"), None);
    assert_eq!(split_host_port(""), None);
}

#[test]
fn host_and_port_round_trip() {
    for (host, port) in [("example.com", 443u16), ("", 0), ("a:b", 65535), ("ü", 10)] {
        let text = RemoteAddr::DomainName(host.to_string(), port).to_text();
        assert_eq!(split_host_port(&text), Some((host.to_string(), port)));
    }
}

#[test]
fn remote_addresses() {
    assert_eq!(
        EndpointConf::build_remote_x("10.0.0.1:80", Some(addr("10.0.0.1:80"))),
        RemoteAddr::SocketAddr(addr("10.0.0.1:80"))
    );
    assert_eq!(
        EndpointConf::build_remote_x("example.com:80", None),
        RemoteAddr::DomainName("example.com".to_string(), 80)
    );
    assert_eq!(
        conf().build_remote(Some(addr("192.168.233.2:9000"))),
        RemoteAddr::SocketAddr(addr("192.168.233.2:9000"))
    );
}

#[test]
fn command_line() {
    let conf = conf();
    assert_eq!((conf.listen.as_str(), conf.remote.as_str()), ("0.0.0.0:9000", "192.168.233.2:9000"));
    assert!(conf.extra_remotes.is_empty() && conf.probe_targets.is_empty());
    assert!(conf.balance.is_none() && conf.obfs.is_none());
    assert!(!conf.is_empty());
}

#[test]
fn sending_through() {
    let some = EndpointConf { through: Some("[::1]".to_string()), ..conf() };
    assert_eq!(some.through_ip(), Some("::1".to_string()));
    assert_eq!(conf().through_ip(), None);
    let (resolved, ip) = (addr("1.2.3.4:0"), addr("[::1]:0"));
    let build = |r: bool, i: bool| {
        some.build_send_through(r.then_some(resolved.clone()), i.then_some(ip.clone()))
    };
    assert_eq!(build(true, true), Some(resolved.clone()));
    assert_eq!(build(true, false), Some(resolved.clone()));
    assert_eq!(build(false, true), Some(ip.clone()));
    assert_eq!(build(false, false), None);
    assert_eq!(conf().build_send_through(Some(resolved.clone()), Some(ip.clone())), None);
}

#[test]
fn balancers() {
    assert_eq!(weights("roundrobin: 4, 2 ,1"), ("roundrobin".to_string(), vec![4, 2, 1]));
    assert_eq!(weights(" iphash "), ("iphash".to_string(), vec![]));
    assert_eq!(weights("off:"), ("off".to_string(), vec![]));
    assert_eq!(weights("a:1:2,3"), ("a".to_string(), vec![3]));
    assert_eq!(weights("a:1,,x,256,-1,+7,\u{3000}255 "), ("a".to_string(), vec![1, 7, 255]));
    assert!(conf().build_balancer(Some(1), Some(2), Some(3)).is_none());
}

#[test]
fn health_check_takes_two_values() {
    let conf = EndpointConf { balance: Some("off".to_string()), ..conf() };
    let health = |fails, timeout, latency| {
        conf.build_balancer(fails, timeout, latency).unwrap().health
    };
    assert_eq!(
        health(Some(3), Some(60), None),
        Some(HealthCheckConfig { max_fails: 3, fail_timeout_secs: 60, max_latency_ms: None })
    );
    assert_eq!(
        health(Some(3), Some(60), Some(500)),
        Some(HealthCheckConfig { max_fails: 3, fail_timeout_secs: 60, max_latency_ms: Some(500) })
    );
    assert_eq!(health(Some(3), None, Some(500)), None);
    assert_eq!(health(None, Some(60), Some(500)), None);
}

#[test]
fn transports() {
    let ws = WsConf { host: "h".to_string(), path: "/p".to_string() };
    let tls = TlsClientConf {
        sni: "s".to_string(),
        alpn: Vec::new(),
        insecure: false,
        early_data: false,
    };
    let none = conf();
    assert!(none.build_transport(Some(ws.clone()), None, Some(ws.clone()), None).is_none());
    let listens = EndpointConf { listen_transport: Some("ws".to_string()), ..conf() };
    let (server, client) =
        listens.build_transport(Some(ws.clone()), None, None, Some(tls.clone())).unwrap();
    assert_eq!(server.ws, Some(ws.clone()));
    assert_eq!((server.tls, client.ws, client.tls), (None, None, None));
    let connects = EndpointConf { remote_transport: Some("tls".to_string()), ..conf() };
    assert!(connects.build_transport(Some(ws), None, None, None).is_none());
    let (_, client) = connects.build_transport(None, None, None, Some(tls.clone())).unwrap();
    assert_eq!(client.tls, Some(tls));
}

#[test]
fn minimal_endpoint() {
    let info = conf().build(lookups());
    assert_eq!((info.no_tcp, info.use_udp), (false, false));
    assert_eq!(info.endpoint.laddr, addr("0.0.0.0:9000"));
    assert_eq!(info.endpoint.raddr, RemoteAddr::SocketAddr(addr("192.168.233.2:9000")));
    assert!(info.endpoint.extra_raddrs.is_empty());
    let opts = info.endpoint.conn_opts;
    assert_eq!(opts.obfs, "");
    assert!(opts.probe_config.is_none() && opts.probe_targets.is_empty());
    assert!(opts.balancer.is_none() && opts.transport.is_none() && opts.bind_address.is_none());
    assert_eq!(opts.pool_config, None);
}

#[test]
fn full_endpoint() {
    let conf = EndpointConf {
        remote: "127.0.0.1:10001".to_string(),
        extra_remotes: vec!["127.0.0.1:10002".to_string(), "far.example.com:7".to_string()],
        probe_targets: vec!["real-server1.example.com:443".to_string()],
        balance: Some("roundrobin:1,2,3".to_string()),
        through: Some("10.0.0.9:0".to_string()),
        interface: Some("eth0".to_string()),
        listen_interface: Some("eth1".to_string()),
        network: NetInfo {
            bind_opts: BindOpts { ipv6_only: true, accept_mptcp: true, bind_interface: None },
            conn_opts: ConnectOpts { connect_timeout: 5, tcp_keepalive: 15, ..ConnectOpts::default() },
            no_tcp: true,
            use_udp: true,
            max_fails: Some(4),
            fail_timeout: Some(30),
            probe_interval_secs: Some(20),
            probe_timeout_ms: Some(1500),
            pool_size: Some(12),
            pool_min_idle: Some(6),
            ..network()
        },
        ..conf()
    };
    let info = conf.build(Lookups {
        remote: Some(addr("127.0.0.1:10001")),
        extra_remotes: vec![Some(addr("127.0.0.1:10002")), None],
        probe_targets: vec![None],
        through: Some(addr("10.0.0.9:0")),
        ..lookups()
    });
    assert_eq!((info.no_tcp, info.use_udp), (true, true));
    let endpoint = info.endpoint;
    assert_eq!(
        endpoint.extra_raddrs,
        vec![
            RemoteAddr::SocketAddr(addr("127.0.0.1:10002")),
            RemoteAddr::DomainName("far.example.com".to_string(), 7),
        ]
    );
    let bind = endpoint.bind_opts;
    assert_eq!((bind.ipv6_only, bind.accept_mptcp), (true, true));
    assert_eq!(bind.bind_interface.as_deref(), Some("eth1"));
    let opts = endpoint.conn_opts;
    assert_eq!((opts.connect_timeout, opts.tcp_keepalive), (5, 15));
    assert_eq!(opts.bind_interface.as_deref(), Some("eth0"));
    assert_eq!(opts.bind_address, Some(addr("10.0.0.9:0")));
    assert_eq!(
        opts.probe_targets,
        vec![RemoteAddr::DomainName("real-server1.example.com".to_string(), 443)]
    );
    let probe = opts.probe_config.unwrap();
    assert_eq!((probe.probe_interval_secs, probe.probe_unhealthy_interval_secs), (20, 10));
    assert_eq!((probe.probe_timeout_ms, probe.probe_max_fails), (1500, 4));
    let pool = opts.pool_config.unwrap();
    assert_eq!((pool.pool_size, pool.pool_min_idle), (12, 6));
    let balancer = opts.balancer.unwrap();
    assert_eq!(balancer.weights, vec![1, 2, 3]);
    assert_eq!(balancer.health.unwrap().max_fails, 4);
}

#[test]
fn probe_defaults() {
    let unhealthy = |interval: u64, given: Option<u64>| {
        let network = NetInfo {
            probe_interval_secs: Some(interval),
            probe_unhealthy_interval_secs: given,
            ..network()
        };
        let conf = EndpointConf { network, ..conf() };
        let probe = conf.build(lookups()).endpoint.conn_opts.probe_config.unwrap();
        assert_eq!((probe.probe_timeout_ms, probe.probe_max_fails), (3000, 2));
        probe.probe_unhealthy_interval_secs
    };
    assert_eq!(unhealthy(30, None), 15);
    assert_eq!(unhealthy(7, None), 3);
    assert_eq!(unhealthy(0, None), 3);
    assert_eq!(unhealthy(30, Some(1)), 1);
}

#[test]
fn pool_is_optional() {
    let built = |pool_size: Option<usize>, pool_min_idle: Option<usize>| {
        let network = NetInfo { pool_size, pool_min_idle, ..network() };
        let endpoint = EndpointConf { network, ..conf() }.build(lookups()).endpoint;
        assert_eq!(run_tcp(&endpoint).pool, endpoint.conn_opts.pool_config);
        endpoint.conn_opts.pool_config
    };
    assert_eq!(built(None, None), None);
    assert_eq!(built(None, Some(4)), None);
    assert_eq!(built(Some(0), Some(4)), None);
    assert_eq!(built(Some(8), None), Some(PoolConfig::default()));
    let given = PoolConfig { pool_size: 1, pool_min_idle: 4, ..PoolConfig::default() };
    assert_eq!(built(Some(1), Some(4)), Some(given));
}

#[test]
fn mode_name_in_any_case() {
    let built = |name: Option<&str>| {
        let conf = EndpointConf { obfs: name.map(str::to_string), ..conf() };
        let endpoint = conf.build(lookups()).endpoint;
        let mode: u8 = run_tcp(&endpoint).mode;
        (endpoint.conn_opts.obfs, mode)
    };
    assert_eq!(built(Some("CLIENT")), ("client".to_string(), MODE_CLIENT));
    assert_eq!(built(Some("SerVer")), ("server".to_string(), MODE_SERVER));
    assert_eq!(built(Some("ÄÖ-[Z]")), ("äö-[z]".to_string(), MODE_PLAIN));
    assert_eq!(built(None), ("".to_string(), MODE_PLAIN));
}
