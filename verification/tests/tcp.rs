use bytehub::endpoint::{BindOpts, ConnectOpts, Endpoint, RemoteAddr, SocketAddr};
use bytehub::handshake::{MODE_CLIENT, MODE_PLAIN, MODE_SERVER};
use bytehub::pool::{PoolConfig, RemotePool, Token};
use bytehub::probe::ProbeConfig;
use bytehub::tcp::{
    accept_failed, obfs_mode, peer_table, probe_targets, run_tcp, AcceptAction, MAX_EXTRA,
};

fn host(name: &str, port: u16) -> RemoteAddr {
    RemoteAddr::DomainName(name.to_string(), port)
}

fn endpoint(conn_opts: ConnectOpts) -> Endpoint {
    Endpoint {
        laddr: SocketAddr { text: "0.0.0.0:9000".to_string() },
        raddr: host("127.0.0.1", 10001),
        bind_opts: BindOpts::default(),
        conn_opts,
        extra_raddrs: vec![host("127.0.0.1", 10002), host("c", 3)],
    }
}

#[test]
fn tokens_number_the_peers() {
    let extra = vec![host("b", 2), host("c", 3)];
    let peers = peer_table(&host("a", 1), &extra);
    assert_eq!(
        peers,
        vec![(Token(0), host("a", 1)), (Token(1), host("b", 2)), (Token(2), host("c", 3))]
    );
    assert_eq!(peer_table(&host("a", 1), &Vec::new()), vec![(Token(0), host("a", 1))]);
}

#[test]
fn every_token_leads_to_its_address() {
    let extra: Vec<RemoteAddr> = (1..=255).map(|port| host("x", port)).collect();
    assert_eq!(extra.len(), MAX_EXTRA);
    let peers = peer_table(&host("first", 9), &extra);
    let pool: RemotePool<u32> = RemotePool::new(PoolConfig::default(), peers);
    let dial = |n: u8| pool.connect_new(Token(n), ConnectOpts::default()).unwrap().0;
    assert_eq!(dial(0), host("first", 9));
    for n in 1u8..=255 {
        assert_eq!(dial(n), host("x", n as u16));
    }
}

#[test]
fn targets_override_by_place() {
    let peers = peer_table(&host("a", 1), &vec![host("b", 2)]);
    let list = probe_targets(&peers, &vec![host("real", 443)]);
    assert_eq!(list.len(), 2);
    assert_eq!((list[0].token, list[0].overridden), (Token(0), true));
    assert_eq!((&list[0].addr, &list[0].forward), (&host("real", 443), &host("a", 1)));
    assert_eq!((list[1].token, list[1].overridden), (Token(1), false));
    assert_eq!((&list[1].addr, &list[1].forward), (&host("b", 2), &host("b", 2)));
    let list = probe_targets(&peers, &Vec::new());
    assert!(list.iter().all(|t| t.addr == t.forward && !t.overridden));
    // Targets beyond the peers are not probed.
    let many = vec![host("r", 1), host("s", 2), host("t", 3)];
    assert_eq!(probe_targets(&peers, &many).len(), 2);
}

#[test]
fn modes_by_name() {
    assert_eq!(obfs_mode("client"), MODE_CLIENT);
    assert_eq!(obfs_mode("server"), MODE_SERVER);
    assert_eq!(obfs_mode(""), MODE_PLAIN);
    assert_eq!(obfs_mode("Client"), MODE_PLAIN);
    assert_eq!(obfs_mode("clients"), MODE_PLAIN);
    assert_eq!((MODE_PLAIN, MODE_CLIENT, MODE_SERVER), (0, 1, 2));
}

#[test]
fn plan_of_a_bare_endpoint() {
    let plan = run_tcp(&endpoint(ConnectOpts::default()));
    assert_eq!(plan.peers.len(), 3);
    assert!(plan.probes.is_none());
    assert!(plan.pool.is_none());
    assert_eq!(plan.mode, MODE_PLAIN);
}

#[test]
fn plan_with_probes_and_pool() {
    let probe = ProbeConfig { probe_max_fails: 9, ..ProbeConfig::default() };
    let pool = PoolConfig { pool_min_idle: 5, ..PoolConfig::default() };
    let plan = run_tcp(&endpoint(ConnectOpts {
        obfs: "server".to_string(),
        probe_config: Some(probe),
        probe_targets: vec![host("real-server1.example.com", 443)],
        pool_config: Some(pool),
        ..ConnectOpts::default()
    }));
    let (config, targets) = plan.probes.unwrap();
    assert_eq!(config, probe);
    assert_eq!(targets.len(), 3);
    assert_eq!(targets[0].addr, host("real-server1.example.com", 443));
    assert_eq!(targets[1].addr, host("127.0.0.1", 10002));
    assert_eq!(plan.pool, Some(pool));
    assert_eq!(plan.mode, MODE_SERVER);
}

#[test]
fn no_pool_without_room() {
    let none = PoolConfig { pool_size: 0, ..PoolConfig::default() };
    let one = PoolConfig { pool_size: 1, ..PoolConfig::default() };
    let plan = |pool| {
        run_tcp(&endpoint(ConnectOpts { pool_config: Some(pool), ..ConnectOpts::default() }))
    };
    assert_eq!(plan(none).pool, None);
    assert_eq!(plan(one).pool, Some(one));
}

#[test]
fn only_an_aborted_connection_is_passed_over() {
    assert_eq!(accept_failed(true), AcceptAction::Retry);
    assert_eq!(accept_failed(false), AcceptAction::Stop);
}
