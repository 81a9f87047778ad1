use bytehub::endpoint::{ConnectOpts, RemoteAddr, SocketAddr};
use bytehub::pool::{
    is_conn_alive, Acquired, PeerPool, PoolConfig, PoolError, RemotePool, Token, TryRead, Warmup,
    WarmupAction, WarmupEvent,
};
use bytehub::timeout::timeout_secs;

const SEC: u128 = 1_000_000_000;

fn host(name: &str) -> RemoteAddr {
    RemoteAddr::DomainName(name.to_string(), 80)
}

fn config(pool_size: usize, pool_min_idle: usize) -> PoolConfig {
    PoolConfig { pool_size, pool_min_idle, ..PoolConfig::default() }
}

fn two_peers(pool_size: usize, pool_min_idle: usize) -> RemotePool<u32> {
    let peers = vec![(Token(0), host("zero")), (Token(1), host("one"))];
    RemotePool::new(config(pool_size, pool_min_idle), peers)
}

fn all_alive(_: &u32) -> bool {
    true
}

fn idle_or_host(acquired: Result<Acquired<u32>, PoolError>) -> Result<u32, RemoteAddr> {
    match acquired.unwrap() {
        Acquired::Idle(stream) => Ok(stream),
        Acquired::Connect(addr, _) => Err(addr),
    }
}

#[test]
fn default_configuration() {
    let config = PoolConfig::default();
    assert_eq!(config.pool_size, 8);
    assert_eq!(config.pool_min_idle, 2);
    assert_eq!(config.pool_connect_timeout_ms, 3000);
    assert_eq!(config.pool_idle_timeout_secs, 30);
}

#[test]
fn alive_only_where_a_read_would_block() {
    assert!(is_conn_alive(TryRead::WouldBlock));
    assert!(!is_conn_alive(TryRead::Read(0)));
    assert!(!is_conn_alive(TryRead::Read(1)));
    assert!(!is_conn_alive(TryRead::Failed));
}

#[test]
fn last_in_first_out() {
    let mut pool: PeerPool<u32> = PeerPool::new();
    pool.push(1, 3, 0);
    pool.push(2, 3, 0);
    pool.push(3, 3, 0);
    pool.push(4, 3, 0);
    assert_eq!(pool.len(), 3);
    assert_eq!(pool.pop_healthy(SEC, &|| 0, &all_alive), Some(3));
    assert_eq!(pool.pop_healthy(SEC, &|| 0, &all_alive), Some(2));
    assert_eq!(pool.len(), 1);
}

#[test]
fn unfit_connections_are_dropped_on_the_way() {
    let mut pool: PeerPool<u32> = PeerPool::new();
    pool.push(1, 8, 90 * SEC);
    pool.push(2, 8, 95 * SEC);
    pool.push(3, 8, 60 * SEC);
    pool.push(4, 8, 99 * SEC);
    // The last one is dead and the one before it too old.
    let found = pool.pop_healthy(30 * SEC, &|| 100 * SEC, &|s: &u32| *s != 4);
    assert_eq!(found, Some(2));
    assert_eq!(pool.len(), 1);
    assert_eq!(pool.pop_healthy(30 * SEC, &|| 100 * SEC, &|_: &u32| false), None);
    assert_eq!(pool.len(), 0);
}

#[test]
fn idle_timeout_is_still_fit_at_its_end() {
    let mut pool: PeerPool<u32> = PeerPool::new();
    pool.push(1, 8, 5);
    assert_eq!(pool.pop_healthy(10, &|| 15, &all_alive), Some(1));
    pool.push(1, 8, 5);
    assert_eq!(pool.pop_healthy(10, &|| 16, &all_alive), None);
    pool.push(1, 8, 5);
    assert_eq!(pool.pop_healthy(0, &|| 4, &all_alive), Some(1));
}

#[test]
fn returned_connection_is_handed_out_again() {
    let mut pool = two_peers(8, 2);
    let opts = ConnectOpts::default();
    pool.return_conn(Token(1), 7, true, "", 10, &all_alive);
    assert_eq!((pool.count_idle(Token(0)), pool.count_idle(Token(1))), (0, 1));
    assert_eq!(
        idle_or_host(pool.acquire(Token(0), opts.clone(), &|| 10, &all_alive)),
        Err(host("zero"))
    );
    assert_eq!(idle_or_host(pool.acquire(Token(1), opts.clone(), &|| 10, &all_alive)), Ok(7));
    assert_eq!(
        idle_or_host(pool.acquire(Token(1), opts, &|| 10, &all_alive)),
        Err(host("one"))
    );
}

#[test]
fn idle_connections_expire_after_the_configured_seconds() {
    let mut pool = two_peers(8, 2);
    pool.return_conn(Token(0), 7, true, "", 0, &all_alive);
    pool.return_conn(Token(0), 8, true, "", 0, &all_alive);
    let opts = ConnectOpts::default();
    assert_eq!(idle_or_host(pool.acquire(Token(0), opts.clone(), &|| 30 * SEC, &all_alive)), Ok(8));
    assert_eq!(
        idle_or_host(pool.acquire(Token(0), opts, &|| 30 * SEC + 1, &all_alive)),
        Err(host("zero"))
    );
    assert_eq!(pool.count_idle(Token(0)), 0);
}

#[test]
fn connections_that_cannot_be_reused_are_discarded() {
    let mut pool = two_peers(1, 0);
    pool.return_conn(Token(0), 1, false, "", 0, &all_alive);
    pool.return_conn(Token(0), 2, true, "client", 0, &all_alive);
    pool.return_conn(Token(0), 3, true, "", 0, &|_: &u32| false);
    pool.return_conn(Token(9), 4, true, "", 0, &all_alive);
    assert_eq!(pool.count_idle(Token(0)), 0);
    assert_eq!(pool.count_idle(Token(9)), 0);
    pool.return_conn(Token(0), 5, true, "", 0, &all_alive);
    pool.return_conn(Token(0), 6, true, "", 0, &all_alive);
    assert_eq!(pool.count_idle(Token(0)), 1);
}

#[test]
fn unknown_token() {
    let mut pool = two_peers(8, 2);
    let opts = ConnectOpts::default();
    assert_eq!(pool.connect_new(Token(2), opts.clone()).err(), Some(PoolError::UnknownToken(Token(2))));
    assert_eq!(
        pool.acquire(Token(2), opts, &|| 0, &all_alive).err(),
        Some(PoolError::UnknownToken(Token(2)))
    );
}

#[test]
fn new_connection_takes_the_timeout_of_the_pool() {
    let addr = RemoteAddr::SocketAddr(SocketAddr { text: "10.0.0.1:80".to_string() });
    let slow = PoolConfig { pool_connect_timeout_ms: 3001, ..PoolConfig::default() };
    // The first of two peers with one token counts.
    let peers = vec![(Token(5), addr.clone()), (Token(5), host("other"))];
    let pool: RemotePool<u32> = RemotePool::new(slow, peers);
    let given = ConnectOpts { connect_timeout: 99, tcp_keepalive: 7, ..ConnectOpts::default() };
    let (found, opts) = pool.connect_new(Token(5), given).unwrap();
    assert_eq!(found, addr);
    assert_eq!((opts.connect_timeout, opts.tcp_keepalive), (4, 7));
}

#[test]
fn timeouts_are_rounded_up() {
    assert_eq!(timeout_secs(0), 1);
    assert_eq!(timeout_secs(1), 1);
    assert_eq!(timeout_secs(1000), 1);
    assert_eq!(timeout_secs(1001), 2);
    assert_eq!(timeout_secs(3000), 3);
    assert_eq!(timeout_secs(u64::MAX - 999), 18446744073709551);
}

#[test]
fn warmup_fills_every_peer_to_the_minimum() {
    let mut pool = two_peers(8, 2);
    pool.return_conn(Token(1), 100, true, "", 0, &all_alive);
    let (mut warmup, action) = pool.spawn_warmup_task();
    assert_eq!(action, WarmupAction::Sleep(15));
    assert_eq!(warmup.next(&mut pool, WarmupEvent::Woke), WarmupAction::Dial(Token(0)));
    assert_eq!(warmup, Warmup::Filling(0, 2));
    assert_eq!(warmup.next(&mut pool, WarmupEvent::Dialled(1, 0)), WarmupAction::Dial(Token(0)));
    assert_eq!(warmup.next(&mut pool, WarmupEvent::Dialled(2, 0)), WarmupAction::Dial(Token(1)));
    assert_eq!(warmup, Warmup::Filling(1, 1));
    assert_eq!(warmup.next(&mut pool, WarmupEvent::Dialled(3, 0)), WarmupAction::Sleep(15));
    assert_eq!(warmup, Warmup::Asleep);
    assert_eq!((pool.count_idle(Token(0)), pool.count_idle(Token(1))), (2, 2));
    assert_eq!(warmup.next(&mut pool, WarmupEvent::Woke), WarmupAction::Sleep(15));
    assert_eq!(warmup.next(&mut pool, WarmupEvent::Cancelled), WarmupAction::Exit);
}

#[test]
fn warmup_passes_over_a_peer_that_cannot_be_reached() {
    let mut pool = two_peers(8, 3);
    let (mut warmup, _) = pool.spawn_warmup_task();
    warmup.next(&mut pool, WarmupEvent::Woke);
    warmup.next(&mut pool, WarmupEvent::Dialled(1, 0));
    assert_eq!(warmup.next(&mut pool, WarmupEvent::DialFailed), WarmupAction::Dial(Token(1)));
    assert_eq!(warmup, Warmup::Filling(1, 3));
    assert_eq!(warmup.next(&mut pool, WarmupEvent::DialFailed), WarmupAction::Sleep(15));
    assert_eq!((pool.count_idle(Token(0)), pool.count_idle(Token(1))), (1, 0));
    assert_eq!(warmup.next(&mut pool, WarmupEvent::Woke), WarmupAction::Dial(Token(0)));
    assert_eq!(warmup, Warmup::Filling(0, 2));
}

#[test]
fn warmup_puts_new_connections_on_top() {
    let mut pool = two_peers(8, 3);
    pool.return_conn(Token(0), 100, true, "", 0, &all_alive);
    pool.return_conn(Token(1), 200, true, "", 0, &all_alive);
    let (mut warmup, _) = pool.spawn_warmup_task();
    warmup.next(&mut pool, WarmupEvent::Woke);
    warmup.next(&mut pool, WarmupEvent::Dialled(1, 0));
    assert_eq!(warmup.next(&mut pool, WarmupEvent::Dialled(2, 0)), WarmupAction::Dial(Token(1)));
    let opts = ConnectOpts::default();
    for expected in [2u32, 1, 100] {
        let found = idle_or_host(pool.acquire(Token(0), opts.clone(), &|| 0, &all_alive));
        assert_eq!(found, Ok(expected));
    }
    assert_eq!(idle_or_host(pool.acquire(Token(1), opts, &|| 0, &all_alive)), Ok(200));
}

#[test]
fn warmup_stops_at_the_size_of_the_pool() {
    let peers = vec![(Token(0), host("zero"))];
    let mut pool: RemotePool<u32> = RemotePool::new(config(1, 2), peers);
    let (mut warmup, _) = pool.spawn_warmup_task();
    warmup.next(&mut pool, WarmupEvent::Woke);
    warmup.next(&mut pool, WarmupEvent::Dialled(1, 0));
    assert_eq!(warmup.next(&mut pool, WarmupEvent::Dialled(2, 0)), WarmupAction::Sleep(15));
    assert_eq!(pool.count_idle(Token(0)), 1);
}

#[test]
fn warmup_interval_is_half_the_idle_timeout() {
    for (timeout, secs) in [(0u64, 0u64), (4, 2), (9, 4), (10, 5), (30, 15), (61, 30)] {
        let config = PoolConfig { pool_idle_timeout_secs: timeout, ..PoolConfig::default() };
        let pool: RemotePool<u32> = RemotePool::new(config, Vec::new());
        assert_eq!(pool.spawn_warmup_task().1, WarmupAction::Sleep(secs));
    }
}
