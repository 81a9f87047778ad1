//! Pre-warmed connection pool for remote peers.
//!
//! For each peer a sub-pool of idle connections is maintained. When a new relay
//! request arrives, [`RemotePool::acquire`] pops a ready connection instead of
//! spending a round trip on a handshake. After the relay finishes, the caller may
//! hand the connection back with [`RemotePool::return_conn`] so it can be reused.
//!
//! The pool does not look into a connection: of what type it is, and whether it
//! is still alive, is up to the caller. Moments are readings of a clock that does
//! not go back, in nanoseconds.

use std::collections::HashMap;

use vstd::prelude::*;

use crate::endpoint::{ConnectOpts, RemoteAddr};
use crate::timeout::{fits, timeout_secs, whole_secs};

verus! {

// ---------------------------------------------------------------------------
// Configuration
// ---------------------------------------------------------------------------

/// Pool configuration.
#[derive(Debug, Clone, Copy, PartialEq, Eq, Structural)]
pub struct PoolConfig {
    /// Maximum number of idle connections kept per peer.
    pub pool_size: usize,
    /// Minimum idle connections the warmup task tries to maintain.
    pub pool_min_idle: usize,
    /// TCP connect timeout used by the warmup / acquire path (milliseconds).
    pub pool_connect_timeout_ms: u64,
    /// Discard idle connections older than this many seconds.
    pub pool_idle_timeout_secs: u64,
}

impl Default for PoolConfig {
    fn default() -> (config: Self)
        ensures
            config == (PoolConfig {
                pool_size: 8,
                pool_min_idle: 2,
                pool_connect_timeout_ms: 3000,
                pool_idle_timeout_secs: 30,
            }),
    {
        PoolConfig {
            pool_size: 8,
            pool_min_idle: 2,
            pool_connect_timeout_ms: 3000,
            pool_idle_timeout_secs: 30,
        }
    }
}

/// The number by which a peer is known.
#[derive(Debug, Clone, Copy, PartialEq, Eq, Structural)]
pub struct Token(pub u8);

// ---------------------------------------------------------------------------
// Per-peer sub-pool
// ---------------------------------------------------------------------------

/// A connection that waits for its use, and the moment at which it was put by.
pub struct IdleConn<S> {
    pub stream: S,
    pub created_at: u128,
}

/// How much time lies between `then` and `now`; none where the clock reads less.
pub open spec fn elapsed(then: u128, now: u128) -> int {
    if now > then {
        now - then
    } else {
        0
    }
}

/// Whether a look at `conn` can find it fit for use: it has not waited for more
/// than `timeout`, and it is alive.
pub open spec fn may_pass<S, C: Fn() -> u128, A: Fn(&S) -> bool>(
    conn: IdleConn<S>,
    timeout: u128,
    clock: C,
    alive: A,
) -> bool {
    exists|now: u128| #[trigger]
        call_ensures(clock, (), now) && elapsed(conn.created_at, now) <= timeout && call_ensures(
            alive,
            (&conn.stream,),
            true,
        )
}

/// Whether a look at `conn` can find it unfit for use: it has waited for more
/// than `timeout`, or it is not alive.
pub open spec fn may_drop<S, C: Fn() -> u128, A: Fn(&S) -> bool>(
    conn: IdleConn<S>,
    timeout: u128,
    clock: C,
    alive: A,
) -> bool {
    exists|now: u128| #[trigger]
        call_ensures(clock, (), now) && (elapsed(conn.created_at, now) > timeout || call_ensures(
            alive,
            (&conn.stream,),
            false,
        ))
}

/// Whether `found` and `after` can come of looking for a connection in `before`:
/// it is the last one that passes, and it and all that came after it, which did
/// not pass, are gone.
pub open spec fn popped<S, C: Fn() -> u128, A: Fn(&S) -> bool>(
    before: Seq<IdleConn<S>>,
    after: Seq<IdleConn<S>>,
    found: Option<S>,
    timeout: u128,
    clock: C,
    alive: A,
) -> bool {
    &&& after.len() <= before.len()
    &&& after == before.take(after.len() as int)
    &&& match found {
        Some(stream) => {
            &&& after.len() < before.len()
            &&& stream == before[after.len() as int].stream
            &&& may_pass(before[after.len() as int], timeout, clock, alive)
            &&& forall|i: int|
                after.len() < i < before.len() ==> may_drop(
                    #[trigger] before[i],
                    timeout,
                    clock,
                    alive,
                )
        },
        None => {
            &&& after.len() == 0
            &&& forall|i: int|
                0 <= i < before.len() ==> may_drop(#[trigger] before[i], timeout, clock, alive)
        },
    }
}

/// The connections `idle` and one more, unless there are `max_size` already.
pub open spec fn pushed<S>(
    idle: Seq<IdleConn<S>>,
    stream: S,
    now: u128,
    max_size: usize,
) -> Seq<IdleConn<S>> {
    if idle.len() < max_size {
        idle.push(IdleConn { stream, created_at: now })
    } else {
        idle
    }
}

/// The idle connections of one peer.
pub struct PeerPool<S> {
    idle: Vec<IdleConn<S>>,
}

impl<S> View for PeerPool<S> {
    type V = Seq<IdleConn<S>>;

    closed spec fn view(&self) -> Seq<IdleConn<S>> {
        self.idle@
    }
}

impl<S> PeerPool<S> {
    /// A sub-pool without connections.
    pub fn new() -> (pool: Self)
        ensures
            pool@ == Seq::<IdleConn<S>>::empty(),
    {
        PeerPool { idle: Vec::new() }
    }

    /// Pops the most recently added connection that is still alive and within the
    /// idle timeout. Those found unfit on the way are dropped.
    pub fn pop_healthy<C: Fn() -> u128, A: Fn(&S) -> bool>(
        &mut self,
        idle_timeout: u128,
        clock: &C,
        alive: &A,
    ) -> (found: Option<S>)
        requires
            call_requires(*clock, ()),
            forall|s: &S| call_requires(*alive, (s,)),
        ensures
            popped(old(self)@, final(self)@, found, idle_timeout, *clock, *alive),
    {
        let ghost before = self.idle@;
        assert(before.take(before.len() as int) =~= before);
        loop
            invariant
                before == old(self)@,
                self.idle@.len() <= before.len(),
                self.idle@ == before.take(self.idle@.len() as int),
                call_requires(*clock, ()),
                forall|s: &S| call_requires(*alive, (s,)),
                forall|i: int|
                    self.idle@.len() <= i < before.len() ==> may_drop(
                        #[trigger] before[i],
                        idle_timeout,
                        *clock,
                        *alive,
                    ),
            decreases self.idle@.len(),
        {
            match self.idle.pop() {
                None => {
                    return None;
                },
                Some(conn) => {
                    let ghost at = self.idle@.len() as int;
                    assert(conn == before[at]);
                    assert(self.idle@ =~= before.take(at));
                    let now: u128 = clock();
                    let waited: u128 = now.saturating_sub(conn.created_at);
                    assert(waited == elapsed(conn.created_at, now));
                    if waited > idle_timeout {
                        assert(may_drop(before[at], idle_timeout, *clock, *alive));
                        continue;
                    }
                    if alive(&conn.stream) {
                        assert(may_pass(before[at], idle_timeout, *clock, *alive));
                        return Some(conn.stream);
                    }
                    assert(may_drop(before[at], idle_timeout, *clock, *alive));
                },
            }
        }
    }

    /// Puts a connection by, unless there are `max_size` already.
    pub fn push(&mut self, stream: S, max_size: usize, now: u128)
        ensures
            final(self)@ == pushed(old(self)@, stream, now, max_size),
    {
        if self.idle.len() < max_size {
            self.idle.push(IdleConn { stream, created_at: now });
        }
    }

    /// How many connections there are.
    pub fn len(&self) -> (n: usize)
        ensures
            n == self@.len(),
    {
        self.idle.len()
    }
}

/// What an attempt to read from an idle connection, without waiting, came to.
#[derive(Debug, Clone, Copy, PartialEq, Eq, Structural)]
pub enum TryRead {
    /// There is nothing to read yet.
    WouldBlock,
    /// So many bytes were read; none at the end of the stream.
    Read(usize),
    /// Another error.
    Failed,
}

/// Whether an idle connection is alive, by an attempt to read from it.
///
/// It is alive only where there is nothing to read yet: the other side has not
/// closed it, nothing unexpected waits in it, and there is no error.
pub fn is_conn_alive(attempt: TryRead) -> (alive: bool)
    ensures
        alive == (attempt is WouldBlock),
{
    match attempt {
        TryRead::WouldBlock => true,
        _ => false,
    }
}

// ---------------------------------------------------------------------------
// RemotePool, the public interface
// ---------------------------------------------------------------------------

/// Why no connection can be had.
#[derive(Debug, Clone, Copy, PartialEq, Eq, Structural)]
pub enum PoolError {
    /// No peer goes by this token.
    UnknownToken(Token),
}

/// What a request for a connection comes to.
pub enum Acquired<S> {
    /// An idle connection.
    Idle(S),
    /// There is none: connect to this address with these options.
    Connect(RemoteAddr, ConnectOpts),
}

/// Manages a connection pool for every peer in the endpoint.
pub struct RemotePool<S> {
    pools: HashMap<u8, PeerPool<S>>,
    config: PoolConfig,
    peer_addrs: Vec<(Token, RemoteAddr)>,
}

/// The place of the first peer that goes by `token`, or the number of peers if
/// there is none.
pub open spec fn place_of(peers: Seq<(Token, RemoteAddr)>, token: Token) -> int
    decreases peers.len(),
{
    if peers.len() == 0 || peers.first().0 == token {
        0
    } else {
        1 + place_of(peers.drop_first(), token)
    }
}

/// Whether a peer goes by `token`.
pub open spec fn known(peers: Seq<(Token, RemoteAddr)>, token: Token) -> bool {
    exists|i: int| 0 <= i < peers.len() && (#[trigger] peers[i]).0 == token
}

/// A place is that of a peer exactly where a peer goes by the token.
pub proof fn lemma_place_of(peers: Seq<(Token, RemoteAddr)>, token: Token)
    ensures
        0 <= place_of(peers, token) <= peers.len(),
        known(peers, token) <==> place_of(peers, token) < peers.len(),
        place_of(peers, token) < peers.len() ==> peers[place_of(peers, token)].0 == token,
        forall|i: int| 0 <= i < place_of(peers, token) ==> (#[trigger] peers[i]).0 != token,
    decreases peers.len(),
{
    if peers.len() > 0 && peers.first().0 != token {
        let rest = peers.drop_first();
        lemma_place_of(rest, token);
        assert forall|i: int| 0 <= i < place_of(peers, token) implies (#[trigger] peers[i]).0
            != token by {
            if i > 0 {
                assert(peers[i] == rest[i - 1]);
            }
        }
        if known(peers, token) {
            let i = choose|i: int| 0 <= i < peers.len() && (#[trigger] peers[i]).0 == token;
            assert(rest[i - 1].0 == token);
        }
        if place_of(peers, token) < peers.len() {
            assert(peers[place_of(peers, token)] == rest[place_of(rest, token)]);
        }
    } else if peers.len() > 0 {
        assert(peers[0].0 == token);
    }
}

impl<S> RemotePool<S> {
    /// The idle connections of the peers, by the numbers of their tokens.
    pub closed spec fn idle(self) -> Map<u8, Seq<IdleConn<S>>> {
        self.pools@.map_values(|pool: PeerPool<S>| pool@)
    }

    /// The configuration.
    pub closed spec fn config(self) -> PoolConfig {
        self.config
    }

    /// The peers and their addresses.
    pub closed spec fn peers(self) -> Seq<(Token, RemoteAddr)> {
        self.peer_addrs@
    }

    /// Every peer has a sub-pool, there are no others, and none of them is larger
    /// than the configuration allows.
    pub open spec fn wf(self) -> bool {
        &&& forall|n: u8| #[trigger]
            self.idle().contains_key(n) <==> known(self.peers(), Token(n))
        &&& forall|n: u8| #[trigger]
            self.idle().contains_key(n) ==> self.idle()[n].len() <= self.config().pool_size
    }

    /// This pool with other idle connections is `next`.
    pub open spec fn becomes(self, idle: Map<u8, Seq<IdleConn<S>>>, next: Self) -> bool {
        &&& next.idle() == idle
        &&& next.config() == self.config()
        &&& next.peers() == self.peers()
    }

    /// The idle timeout, in nanoseconds.
    pub open spec fn idle_timeout(self) -> u128 {
        (self.config().pool_idle_timeout_secs * 1_000_000_000) as u128
    }

    /// The idle connections after `stream` is put by for `token` at the moment
    /// `now`.
    pub open spec fn with_conn(self, token: Token, stream: S, now: u128) -> Map<
        u8,
        Seq<IdleConn<S>>,
    > {
        if self.idle().contains_key(token.0) {
            self.idle().insert(
                token.0,
                pushed(self.idle()[token.0], stream, now, self.config().pool_size),
            )
        } else {
            self.idle()
        }
    }

    /// Builds a pool and registers all known peers.
    pub fn new(config: PoolConfig, peer_addrs: Vec<(Token, RemoteAddr)>) -> (pool: Self)
        ensures
            pool.wf(),
            pool.config() == config,
            pool.peers() == peer_addrs@,
            forall|n: u8| #[trigger]
                pool.idle().contains_key(n) ==> pool.idle()[n].len() == 0,
    {
        broadcast use vstd::std_specs::hash::group_hash_axioms;

        let mut pools: HashMap<u8, PeerPool<S>> = HashMap::new();
        for i in 0..peer_addrs.len()
            invariant
                forall|n: u8| #[trigger]
                    pools@.contains_key(n) <==> known(peer_addrs@.take(i as int), Token(n)),
                forall|n: u8| #[trigger] pools@.contains_key(n) ==> pools@[n]@.len() == 0,
        {
            let token: Token = peer_addrs[i].0;
            let ghost before = pools@;
            pools.insert(token.0, PeerPool::new());
            proof {
                let shorter = peer_addrs@.take(i as int);
                let longer = peer_addrs@.take(i as int + 1);
                assert forall|n: u8| #[trigger]
                    pools@.contains_key(n) <==> known(longer, Token(n)) by {
                    if pools@.contains_key(n) {
                        if n == token.0 {
                            assert(longer[i as int].0 == Token(n));
                        } else {
                            assert(before.contains_key(n));
                            let j = choose|j: int|
                                0 <= j < shorter.len() && (#[trigger] shorter[j]).0 == Token(n);
                            assert(longer[j].0 == Token(n));
                        }
                    }
                    if known(longer, Token(n)) {
                        let j = choose|j: int|
                            0 <= j < longer.len() && (#[trigger] longer[j]).0 == Token(n);
                        if j < i {
                            assert(shorter[j].0 == Token(n));
                            assert(before.contains_key(n));
                        }
                    }
                }
            }
        }
        assert(peer_addrs@.take(peer_addrs@.len() as int) =~= peer_addrs@);
        RemotePool { pools, config, peer_addrs }
    }

    /// How many idle connections a peer has; none where it is not known.
    pub open spec fn idle_len(self, token: Token) -> nat {
        if self.idle().contains_key(token.0) {
            self.idle()[token.0].len()
        } else {
            0
        }
    }

    /// Counts the idle connections of a peer.
    pub fn count_idle(&self, token: Token) -> (n: usize)
        ensures
            n == self.idle_len(token),
    {
        broadcast use vstd::std_specs::hash::group_hash_axioms;

        match self.pools.get(&token.0) {
            Some(pool) => pool.len(),
            None => 0,
        }
    }

    /// Takes an idle connection of a peer that is fit for use, if there is one.
    fn take_idle<C: Fn() -> u128, A: Fn(&S) -> bool>(
        &mut self,
        token: Token,
        clock: &C,
        alive: &A,
    ) -> (found: Option<S>)
        requires
            old(self).wf(),
            call_requires(*clock, ()),
            forall|s: &S| call_requires(*alive, (s,)),
        ensures
            final(self).wf(),
            old(self).took_idle(*final(self), token, found, *clock, *alive),
    {
        broadcast use vstd::std_specs::hash::group_hash_axioms;

        let ghost before = *self;
        let timeout: u128 = self.config.pool_idle_timeout_secs as u128 * 1_000_000_000;
        match self.pools.remove(&token.0) {
            Some(mut pool) => {
                let ghost had = pool@;
                let found: Option<S> = pool.pop_healthy(timeout, clock, alive);
                let ghost left = pool@;
                self.pools.insert(token.0, pool);
                proof {
                    assert(had == before.idle()[token.0]);
                    assert(self.idle() =~= before.idle().insert(token.0, left));
                    assert(popped(
                        before.idle()[token.0],
                        left,
                        found,
                        before.idle_timeout(),
                        *clock,
                        *alive,
                    ));
                    assert(before.becomes(before.idle().insert(token.0, left), *self));
                    assert(before.idle().contains_key(token.0));
                    assert forall|n: u8| #[trigger]
                        self.idle().contains_key(n) implies known(self.peers(), Token(n))
                        && self.idle()[n].len() <= self.config().pool_size by {
                        assert(before.idle().contains_key(n));
                    }
                    assert forall|n: u8| known(self.peers(), Token(n)) implies #[trigger]
                        self.idle().contains_key(n) by {
                        assert(before.idle().contains_key(n));
                    }
                }
                found
            },
            None => {
                assert(!before.idle().contains_key(token.0));
                assert(self.idle() =~= before.idle());
                None
            },
        }
    }

    /// Whether `found` and `next` can come of looking for an idle connection of
    /// `token`: only that sub-pool changes.
    pub open spec fn took_idle<C: Fn() -> u128, A: Fn(&S) -> bool>(
        self,
        next: Self,
        token: Token,
        found: Option<S>,
        clock: C,
        alive: A,
    ) -> bool {
        if self.idle().contains_key(token.0) {
            exists|after: Seq<IdleConn<S>>|
                {
                    &&& #[trigger] popped(
                        self.idle()[token.0],
                        after,
                        found,
                        self.idle_timeout(),
                        clock,
                        alive,
                    )
                    &&& self.becomes(self.idle().insert(token.0, after), next)
                }
        } else {
            found is None && self.becomes(self.idle(), next)
        }
    }

    /// What a new connection to the peer of `token` takes: the address of the
    /// first peer that goes by it, and the options, with the connect timeout of
    /// the pool in place of theirs.
    pub fn connect_new(&self, token: Token, conn_opts: ConnectOpts) -> (dial: Result<
        (RemoteAddr, ConnectOpts),
        PoolError,
    >)
        requires
            fits(self.config().pool_connect_timeout_ms),
        ensures
            match dial {
                Ok((addr, opts)) => {
                    &&& known(self.peers(), token)
                    &&& addr == self.peers()[place_of(self.peers(), token)].1
                    &&& opts == (ConnectOpts {
                        connect_timeout: whole_secs(
                            self.config().pool_connect_timeout_ms as int,
                        ) as usize,
                        ..conn_opts
                    })
                },
                Err(e) => !known(self.peers(), token) && e == PoolError::UnknownToken(token),
            },
    {
        let mut i: usize = 0;
        while i < self.peer_addrs.len()
            invariant
                i <= self.peer_addrs@.len(),
                fits(self.config().pool_connect_timeout_ms),
                forall|j: int| 0 <= j < i ==> (#[trigger] self.peer_addrs@[j]).0 != token,
            decreases self.peer_addrs@.len() - i,
        {
            if self.peer_addrs[i].0.0 == token.0 {
                proof {
                    lemma_place_of(self.peers(), token);
                    assert(self.peers()[i as int].0 == token);
                }
                let mut patched: ConnectOpts = conn_opts;
                patched.connect_timeout = timeout_secs(self.config.pool_connect_timeout_ms);
                return Ok((self.peer_addrs[i].1.clone(), patched));
            }
            i = i + 1;
        }
        Err(PoolError::UnknownToken(token))
    }

    /// Acquires a connection for `token`.
    ///
    /// 1. Tries to pop a healthy idle connection from the sub-pool.
    /// 2. If there is none, tells what a new connection takes.
    pub fn acquire<C: Fn() -> u128, A: Fn(&S) -> bool>(
        &mut self,
        token: Token,
        conn_opts: ConnectOpts,
        clock: &C,
        alive: &A,
    ) -> (acquired: Result<Acquired<S>, PoolError>)
        requires
            old(self).wf(),
            fits(old(self).config().pool_connect_timeout_ms),
            call_requires(*clock, ()),
            forall|s: &S| call_requires(*alive, (s,)),
        ensures
            final(self).wf(),
            match acquired {
                Ok(Acquired::Idle(stream)) => old(self).took_idle(
                    *final(self),
                    token,
                    Some(stream),
                    *clock,
                    *alive,
                ),
                Ok(Acquired::Connect(addr, opts)) => {
                    &&& old(self).took_idle(*final(self), token, None, *clock, *alive)
                    &&& known(old(self).peers(), token)
                    &&& addr == old(self).peers()[place_of(old(self).peers(), token)].1
                    &&& opts == (ConnectOpts {
                        connect_timeout: whole_secs(
                            old(self).config().pool_connect_timeout_ms as int,
                        ) as usize,
                        ..conn_opts
                    })
                },
                Err(e) => {
                    &&& !known(old(self).peers(), token)
                    &&& e == PoolError::UnknownToken(token)
                    &&& old(self).becomes(old(self).idle(), *final(self))
                },
            },
            acquired is Err <==> !known(old(self).peers(), token),
    {
        proof {
            assert(self.idle().contains_key(token.0) <==> known(self.peers(), Token(token.0)));
            assert(Token(token.0) == token);
        }
        match self.take_idle(token, clock, alive) {
            Some(stream) => Ok(Acquired::Idle(stream)),
            None => match self.connect_new(token, conn_opts) {
                Ok((addr, opts)) => Ok(Acquired::Connect(addr, opts)),
                Err(e) => Err(e),
            },
        }
    }

    /// Puts a connection by for `token`; drops it where the peer is not known or
    /// its sub-pool is full.
    fn put_by(&mut self, token: Token, stream: S, now: u128)
        requires
            old(self).wf(),
        ensures
            final(self).wf(),
            old(self).becomes(old(self).with_conn(token, stream, now), *final(self)),
    {
        broadcast use vstd::std_specs::hash::group_hash_axioms;

        let ghost before = *self;
        match self.pools.remove(&token.0) {
            Some(mut pool) => {
                let ghost had = pool@;
                pool.push(stream, self.config.pool_size, now);
                let ghost has = pool@;
                self.pools.insert(token.0, pool);
                proof {
                    assert(had == before.idle()[token.0]);
                    assert(self.idle() =~= before.idle().insert(token.0, has));
                    assert(before.idle().contains_key(token.0));
                    assert forall|n: u8| #[trigger]
                        self.idle().contains_key(n) implies known(self.peers(), Token(n))
                        && self.idle()[n].len() <= self.config().pool_size by {
                        assert(before.idle().contains_key(n));
                    }
                    assert forall|n: u8| known(self.peers(), Token(n)) implies #[trigger]
                        self.idle().contains_key(n) by {
                        assert(before.idle().contains_key(n));
                    }
                }
            },
            None => {
                assert(!before.idle().contains_key(token.0));
                assert(self.idle() =~= before.idle());
            },
        }
    }

    /// Returns a finished connection to the pool.
    ///
    /// The connection is **discarded** (not pooled) when:
    /// - `relay_ok` is false: relay error, connection state unknown
    /// - `obfs` is not empty: the obfuscation handshake leaves the stream in a state
    ///   that cannot be reused for a fresh relay
    /// - the connection is no longer alive
    /// - the peer is not known, or its sub-pool is full
    pub fn return_conn<A: Fn(&S) -> bool>(
        &mut self,
        token: Token,
        stream: S,
        relay_ok: bool,
        obfs: &str,
        now: u128,
        alive: &A,
    )
        requires
            old(self).wf(),
            forall|s: &S| call_requires(*alive, (s,)),
        ensures
            final(self).wf(),
            if relay_ok && obfs@.len() == 0 {
                ||| call_ensures(*alive, (&stream,), true) && old(self).becomes(
                    old(self).with_conn(token, stream, now),
                    *final(self),
                )
                ||| call_ensures(*alive, (&stream,), false) && old(self).becomes(
                    old(self).idle(),
                    *final(self),
                )
            } else {
                old(self).becomes(old(self).idle(), *final(self))
            },
    {
        if !relay_ok {
            return ;
        }
        if !obfs.is_empty() {
            return ;
        }
        if !alive(&stream) {
            return ;
        }
        self.put_by(token, stream, now);
    }
}

// ---------------------------------------------------------------------------
// Warming up
// ---------------------------------------------------------------------------

/// What the caller has to do to keep the pool warm.
#[derive(Debug, Clone, Copy, PartialEq, Eq, Structural)]
pub enum WarmupAction {
    /// Wait for so many seconds, or until the task is cancelled.
    Sleep(u64),
    /// Make a **brand-new** connection to the peer of this token, never an idle one
    /// of the pool.
    Dial(Token),
    /// Stop.
    Exit,
}

/// What came of the last action.
pub enum WarmupEvent<S> {
    /// The wait is over.
    Woke,
    /// The task is cancelled.
    Cancelled,
    /// The connection is made; the clock reads so much.
    Dialled(S, u128),
    /// The connection could not be made.
    DialFailed,
}

/// How far the warming up has come.
#[derive(Debug, Clone, Copy, PartialEq, Eq, Structural)]
pub enum Warmup {
    /// It waits for the next round.
    Asleep,
    /// The sub-pool of the peer at this place is being filled, with so many more
    /// connections to make.
    Filling(usize, usize),
}

impl<S> RemotePool<S> {
    /// How many connections the peer at a place lacks.
    pub open spec fn lacks(self, place: int) -> nat {
        let have = self.idle_len(self.peers()[place].0);
        if have < self.config().pool_min_idle {
            (self.config().pool_min_idle - have) as nat
        } else {
            0
        }
    }

    /// The first place from `from` on of a peer that lacks connections, or the
    /// number of peers if there is none.
    pub open spec fn next_lacking(self, from: int) -> int
        decreases self.peers().len() - from,
    {
        if from >= self.peers().len() {
            self.peers().len() as int
        } else if self.lacks(from) > 0 {
            from
        } else {
            self.next_lacking(from + 1)
        }
    }

    /// How many seconds lie between two rounds: half the idle timeout.
    pub open spec fn warmup_interval(self) -> u64 {
        self.config().pool_idle_timeout_secs / 2
    }

    /// How the warming up goes on where the peers from `from` on are still to be
    /// seen to.
    pub open spec fn go_on(self, from: int) -> (Warmup, WarmupAction) {
        let place = self.next_lacking(from);
        if place < self.peers().len() {
            (
                Warmup::Filling(place as usize, self.lacks(place) as usize),
                WarmupAction::Dial(self.peers()[place].0),
            )
        } else {
            (Warmup::Asleep, WarmupAction::Sleep(self.warmup_interval()))
        }
    }

    /// Tells how many seconds lie between two rounds.
    fn interval(&self) -> (secs: u64)
        ensures
            secs == self.warmup_interval(),
    {
        self.config.pool_idle_timeout_secs / 2
    }

    /// Looks for the next peer that lacks connections.
    fn seek(&self, from: usize) -> (step: (Warmup, WarmupAction))
        requires
            from <= self.peers().len(),
        ensures
            step == self.go_on(from as int),
            step.0 matches Warmup::Filling(place, left) ==> from <= place < self.peers().len()
                && left > 0,
    {
        let mut place: usize = from;
        while place < self.peer_addrs.len()
            invariant
                from <= place <= self.peer_addrs@.len(),
                self.next_lacking(from as int) == self.next_lacking(place as int),
            decreases self.peer_addrs@.len() - place,
        {
            let token: Token = self.peer_addrs[place].0;
            let have: usize = self.count_idle(token);
            let left: usize = self.config.pool_min_idle.saturating_sub(have);
            assert(left == self.lacks(place as int));
            if left > 0 {
                return (Warmup::Filling(place, left), WarmupAction::Dial(token));
            }
            place = place + 1;
        }
        (Warmup::Asleep, WarmupAction::Sleep(self.interval()))
    }

    /// Begins to keep the pool warm: the first round comes after one interval.
    pub fn spawn_warmup_task(&self) -> (start: (Warmup, WarmupAction))
        ensures
            start == (Warmup::Asleep, WarmupAction::Sleep(self.warmup_interval())),
    {
        (Warmup::Asleep, WarmupAction::Sleep(self.interval()))
    }
}

impl Warmup {
    /// Whether `event` is what the warming up of `pool` waits for.
    pub open spec fn awaits<S>(self, pool: RemotePool<S>, event: WarmupEvent<S>) -> bool {
        match self {
            Warmup::Asleep => event is Woke || event is Cancelled,
            Warmup::Filling(place, left) => {
                &&& place < pool.peers().len()
                &&& left > 0
                &&& event is Dialled || event is DialFailed
            },
        }
    }

    /// Takes in what came of the last action and tells what to do next. In a round,
    /// each peer in turn gets as many new connections as it lacks, and a peer that
    /// cannot be reached is left until the next round.
    pub fn next<S>(&mut self, pool: &mut RemotePool<S>, event: WarmupEvent<S>) -> (action:
        WarmupAction)
        requires
            old(pool).wf(),
            old(self).awaits(*old(pool), event),
        ensures
            final(pool).wf(),
            match event {
                WarmupEvent::Woke => {
                    &&& old(pool).becomes(old(pool).idle(), *final(pool))
                    &&& (*final(self), action) == final(pool).go_on(0)
                },
                WarmupEvent::Cancelled => {
                    &&& old(pool).becomes(old(pool).idle(), *final(pool))
                    &&& *final(self) == *old(self)
                    &&& action is Exit
                },
                WarmupEvent::Dialled(stream, now) => {
                    let place = old(self)->Filling_0;
                    let left = old(self)->Filling_1;
                    let token = old(pool).peers()[place as int].0;
                    &&& old(pool).becomes(old(pool).with_conn(token, stream, now), *final(pool))
                    &&& if left > 1 {
                        *final(self) == Warmup::Filling(place, (left - 1) as usize) && action
                            == WarmupAction::Dial(token)
                    } else {
                        (*final(self), action) == final(pool).go_on(place + 1)
                    }
                },
                WarmupEvent::DialFailed => {
                    &&& old(pool).becomes(old(pool).idle(), *final(pool))
                    &&& (*final(self), action) == final(pool).go_on(old(self)->Filling_0 + 1)
                },
            },
            *final(self) matches Warmup::Filling(place, left) ==> {
                &&& place < final(pool).peers().len()
                &&& left > 0
                &&& *old(self) matches Warmup::Filling(place0, left0) ==> place > place0 || (place
                    == place0 && left < left0)
            },
    {
        match event {
            WarmupEvent::Woke => {
                let (state, action) = pool.seek(0);
                *self = state;
                action
            },
            WarmupEvent::Cancelled => WarmupAction::Exit,
            WarmupEvent::Dialled(stream, now) => {
                let (place, left): (usize, usize) = match *self {
                    Warmup::Filling(place, left) => (place, left),
                    Warmup::Asleep => (0, 0),
                };
                let token: Token = pool.peer_addrs[place].0;
                pool.put_by(token, stream, now);
                if left > 1 {
                    *self = Warmup::Filling(place, left - 1);
                    WarmupAction::Dial(token)
                } else {
                    assert(place < pool.peer_addrs.len());
                    let (state, action) = pool.seek(place + 1);
                    *self = state;
                    action
                }
            },
            WarmupEvent::DialFailed => {
                let place: usize = match *self {
                    Warmup::Filling(place, _) => place,
                    Warmup::Asleep => 0,
                };
                assert(place < pool.peer_addrs.len());
                let (state, action) = pool.seek(place + 1);
                *self = state;
                action
            },
        }
    }
}

// ---------------------------------------------------------------------------
// Laws
// ---------------------------------------------------------------------------

/// The connection that was put by last is the first to be handed out: where there
/// was room for it, and a look at it cannot find it unfit, the next request gets it
/// and leaves the others as they were.
pub proof fn last_in_first_out<S, C: Fn() -> u128, A: Fn(&S) -> bool>(
    idle: Seq<IdleConn<S>>,
    stream: S,
    put_at: u128,
    max_size: usize,
    after: Seq<IdleConn<S>>,
    found: Option<S>,
    timeout: u128,
    clock: C,
    alive: A,
)
    requires
        idle.len() < max_size,
        !may_drop(IdleConn { stream, created_at: put_at }, timeout, clock, alive),
        popped(pushed(idle, stream, put_at, max_size), after, found, timeout, clock, alive),
    ensures
        found == Some(stream),
        after == idle,
{
    let before = pushed(idle, stream, put_at, max_size);
    let last = before.len() - 1;
    assert(before[last] == IdleConn { stream, created_at: put_at });
    if found is None || after.len() < last {
        assert(may_drop(before[last], timeout, clock, alive));
    }
    assert(before.take(idle.len() as int) =~= idle);
}

/// A request is never given a connection that a look at it cannot find fit: one
/// that has waited too long at every reading of the clock, or is not alive.
pub proof fn unfit_is_never_handed_out<S, C: Fn() -> u128, A: Fn(&S) -> bool>(
    before: Seq<IdleConn<S>>,
    after: Seq<IdleConn<S>>,
    found: Option<S>,
    timeout: u128,
    clock: C,
    alive: A,
)
    requires
        popped(before, after, found, timeout, clock, alive),
    ensures
        found matches Some(stream) ==> exists|i: int|
            0 <= i < before.len() && (#[trigger] before[i]).stream == stream && may_pass(
                before[i],
                timeout,
                clock,
                alive,
            ),
{
    if found is Some {
        assert(may_pass(before[after.len() as int], timeout, clock, alive));
    }
}

/// Whether `pools` is how a pool stands after each of a row of connections is put by
/// for `token`, and nothing else happens to it.
pub open spec fn put_by_in_turn<S>(
    pools: Seq<RemotePool<S>>,
    token: Token,
    conns: Seq<IdleConn<S>>,
) -> bool {
    &&& pools.len() == conns.len() + 1
    &&& forall|i: int|
        0 <= i < conns.len() ==> pools[i].becomes(
            pools[i].with_conn(token, (#[trigger] conns[i]).stream, conns[i].created_at),
            pools[i + 1],
        )
}

/// A round that makes all the connections that a peer lacks puts them on top of
/// those that the peer had, in order, up to the configured minimum, or as far as
/// there is room; it leaves the connections of the other peers as they were.
pub proof fn round_fills_to_minimum<S>(
    pools: Seq<RemotePool<S>>,
    conns: Seq<IdleConn<S>>,
    place: int,
)
    requires
        pools.len() > 0,
        pools[0].wf(),
        0 <= place < pools[0].peers().len(),
        put_by_in_turn(pools, pools[0].peers()[place].0, conns),
        0 < conns.len() == pools[0].lacks(place),
    ensures
        ({
            let token = pools[0].peers()[place].0;
            let config = pools[0].config();
            let had = pools[0].idle()[token.0];
            let has = pools.last().idle()[token.0];
            &&& has.len() == if config.pool_min_idle < config.pool_size {
                config.pool_min_idle
            } else {
                config.pool_size
            }
            &&& had.is_prefix_of(has)
            &&& has == had + conns.take(has.len() - had.len())
            &&& pools.last().idle().dom() == pools[0].idle().dom()
            &&& forall|n: u8|
                n != token.0 ==> #[trigger] pools.last().idle()[n] == pools[0].idle()[n]
        }),
{
    let token = pools[0].peers()[place].0;
    assert(Token(token.0) == token);
    assert(known(pools[0].peers(), token));
    assert(pools[0].idle().contains_key(token.0));
    lemma_put_by_in_turn(pools, token, conns, conns.len() as int);
    assert(pools.last() == pools[conns.len() as int]);
    let had = pools[0].idle()[token.0];
    let has = pools.last().idle()[token.0];
    assert(has.take(had.len() as int) =~= had);
    assert(pools.last().idle().dom() =~= pools[0].idle().dom());
}

/// How a pool stands after the first `n` of a row of connections are put by.
proof fn lemma_put_by_in_turn<S>(
    pools: Seq<RemotePool<S>>,
    token: Token,
    conns: Seq<IdleConn<S>>,
    n: int,
)
    requires
        put_by_in_turn(pools, token, conns),
        pools[0].idle().contains_key(token.0),
        pools[0].idle()[token.0].len() <= pools[0].config().pool_size,
        0 <= n <= conns.len(),
    ensures
        pools[n].config() == pools[0].config(),
        ({
            let had = pools[0].idle()[token.0];
            let room = pools[0].config().pool_size - had.len();
            pools[n].idle() == pools[0].idle().insert(
                token.0,
                had + conns.take(
                    if n < room {
                        n
                    } else {
                        room
                    },
                ),
            )
        }),
    decreases n,
{
    let had = pools[0].idle()[token.0];
    let room = pools[0].config().pool_size - had.len();
    if n > 0 {
        lemma_put_by_in_turn(pools, token, conns, n - 1);
        let conn = conns[n - 1];
        assert(pools[n - 1].becomes(
            pools[n - 1].with_conn(token, conn.stream, conn.created_at),
            pools[n - 1 + 1],
        ));
        if n <= room {
            assert((had + conns.take(n - 1)).push(conn) =~= had + conns.take(n));
        }
        assert(pools[n].idle() =~= pools[0].idle().insert(
            token.0,
            had + conns.take(
                if n < room {
                    n
                } else {
                    room
                },
            ),
        ));
    } else {
        assert(had + conns.take(0) =~= had);
        assert(pools[0].idle() =~= pools[0].idle().insert(token.0, had + conns.take(0)));
    }
}

// ---------------------------------------------------------------------------
// What the operations of a pool do
// ---------------------------------------------------------------------------

/// What a request for an idle connection comes to. The connection that is handed out
/// was alive, and at some reading of the clock no more time had passed since it was put
/// by than the timeout allows; it and those above it are gone and those below it stay.
/// Each one above it, and every one where none is handed out, was not alive or had
/// waited for longer than the timeout at some reading of the clock.
pub proof fn request_gets_last_fit_connection<S, C: Fn() -> u128, A: Fn(&S) -> bool>(
    before: Seq<IdleConn<S>>,
    after: Seq<IdleConn<S>>,
    found: Option<S>,
    timeout: u128,
    clock: C,
    alive: A,
)
    requires
        popped(before, after, found, timeout, clock, alive),
    ensures
        found is Some <==> after.len() < before.len() && (exists|now: u128| #[trigger]
            call_ensures(clock, (), now) && now - before[after.len() as int].created_at <= timeout
                && call_ensures(alive, (&before[after.len() as int].stream,), true)) && found
            == Some(before[after.len() as int].stream),
        found is None ==> after.len() == 0,
        after.len() <= before.len(),
        forall|i: int| 0 <= i < after.len() ==> #[trigger] after[i] == before[i],
        forall|i: int|
            after.len() + (if found is Some {
                1int
            } else {
                0int
            }) <= i < before.len() ==> unfit_when_seen(#[trigger] before[i], timeout, clock, alive),
{
    if found is Some {
        let at = after.len() as int;
        let conn = before[at];
        assert(may_pass(conn, timeout, clock, alive));
        let now = choose|now: u128| #[trigger]
            call_ensures(clock, (), now) && elapsed(conn.created_at, now) <= timeout
                && call_ensures(alive, (&conn.stream,), true);
        assert(call_ensures(clock, (), now) && now - conn.created_at <= timeout);
    }
    assert forall|i: int|
        after.len() + (if found is Some {
            1int
        } else {
            0int
        }) <= i < before.len() implies unfit_when_seen(#[trigger] before[i], timeout, clock, alive) by {
        assert(may_drop(before[i], timeout, clock, alive));
        let now = choose|now: u128| #[trigger]
            call_ensures(clock, (), now) && (elapsed(before[i].created_at, now) > timeout
                || call_ensures(alive, (&before[i].stream,), false));
        assert(call_ensures(clock, (), now));
    }
}

/// Whether a connection was not alive, or had waited for longer than the timeout at some
/// reading of the clock.
pub open spec fn unfit_when_seen<S, C: Fn() -> u128, A: Fn(&S) -> bool>(
    conn: IdleConn<S>,
    timeout: u128,
    clock: C,
    alive: A,
) -> bool {
    ||| call_ensures(alive, (&conn.stream,), false)
    ||| exists|now: u128| #[trigger]
        call_ensures(clock, (), now) && now > conn.created_at + timeout
}

/// A connection that was put by where there was room is what the next request gets, and
/// the others stay, as long as the clock reads no more than the timeout past that moment
/// and the connection is alive.
pub proof fn fit_connection_is_handed_out_again<S, C: Fn() -> u128, A: Fn(&S) -> bool>(
    idle: Seq<IdleConn<S>>,
    stream: S,
    put_at: u128,
    max_size: usize,
    after: Seq<IdleConn<S>>,
    found: Option<S>,
    timeout: u128,
    clock: C,
    alive: A,
)
    requires
        idle.len() < max_size,
        forall|now: u128| #[trigger] call_ensures(clock, (), now) ==> now <= put_at + timeout,
        !call_ensures(alive, (&stream,), false),
        popped(pushed(idle, stream, put_at, max_size), after, found, timeout, clock, alive),
    ensures
        found == Some(stream),
        after == idle,
{
    last_in_first_out(idle, stream, put_at, max_size, after, found, timeout, clock, alive);
}

/// Putting a connection by leaves those that are there and adds it on top, with the
/// moment; where there are as many as allowed it adds nothing.
pub proof fn put_by_adds_on_top_within_the_limit<S>(
    idle: Seq<IdleConn<S>>,
    stream: S,
    now: u128,
    max_size: usize,
)
    ensures
        idle.len() >= max_size ==> pushed(idle, stream, now, max_size) == idle,
        idle.len() < max_size ==> {
            let has = pushed(idle, stream, now, max_size);
            &&& has.len() == idle.len() + 1
            &&& has.drop_last() == idle
            &&& has.last().stream == stream
            &&& has.last().created_at == now
        },
{
    assert(idle.push(IdleConn { stream, created_at: now }).drop_last() =~= idle);
}

/// The peer of a token is the first one with that token, and a token is known exactly
/// where some peer has it.
pub proof fn peer_is_first_with_the_token(peers: Seq<(Token, RemoteAddr)>, token: Token, i: int)
    requires
        0 <= i < peers.len(),
        peers[i].0 == token,
        forall|j: int| 0 <= j < i ==> (#[trigger] peers[j]).0 != token,
    ensures
        known(peers, token),
        place_of(peers, token) == i,
{
    lemma_place_of(peers, token);
}

/// A token that no peer has is not known.
pub proof fn other_tokens_are_unknown(peers: Seq<(Token, RemoteAddr)>, token: Token)
    requires
        forall|j: int| 0 <= j < peers.len() ==> (#[trigger] peers[j]).0 != token,
    ensures
        !known(peers, token),
{
}

/// A pool that is well formed holds, for each peer and for nothing else, a row of idle
/// connections that is no longer than the configuration allows.
pub proof fn pool_stays_within_its_size<S>(pool: RemotePool<S>, n: u8)
    requires
        pool.wf(),
    ensures
        (exists|i: int| 0 <= i < pool.peers().len() && (#[trigger] pool.peers()[i]).0 == Token(n))
            <==> pool.idle().contains_key(n),
        pool.idle().contains_key(n) ==> pool.idle_len(Token(n)) == pool.idle()[n].len()
            <= pool.config().pool_size,
        !pool.idle().contains_key(n) ==> pool.idle_len(Token(n)) == 0,
{
    if exists|i: int| 0 <= i < pool.peers().len() && (#[trigger] pool.peers()[i]).0 == Token(n) {
        assert(known(pool.peers(), Token(n)));
    }
}

/// A change of the idle connections changes neither the configuration nor the peers, and
/// what is idle after it is what was asked for.
pub proof fn change_of_idle_connections_is_all<S>(
    pool: RemotePool<S>,
    idle: Map<u8, Seq<IdleConn<S>>>,
    next: RemotePool<S>,
)
    ensures
        pool.becomes(idle, next) <==> next.idle() == idle && next.config() == pool.config()
            && next.peers() == pool.peers(),
{
}

/// A connection that is put by for a token lies on top of that peer's connections where
/// there is room, and changes nothing else; for an unknown token it changes nothing.
pub proof fn put_by_changes_one_peer<S>(
    pool: RemotePool<S>,
    token: Token,
    stream: S,
    now: u128,
    other: u8,
)
    ensures
        ({
            let has = pool.with_conn(token, stream, now);
            &&& has.dom() == pool.idle().dom()
            &&& other != token.0 && has.contains_key(other) ==> has[other] == pool.idle()[other]
            &&& has.contains_key(token.0) && pool.idle()[token.0].len()
                >= pool.config().pool_size ==> has[token.0] == pool.idle()[token.0]
            &&& has.contains_key(token.0) && pool.idle()[token.0].len() < pool.config().pool_size
                ==> has[token.0] == pool.idle()[token.0] + seq![
                IdleConn { stream, created_at: now },
            ]
        }),
{
    let has = pool.with_conn(token, stream, now);
    assert(has.dom() =~= pool.idle().dom());
    if pool.idle().contains_key(token.0) {
        assert(pool.idle()[token.0].push(IdleConn { stream, created_at: now })
            =~= pool.idle()[token.0] + seq![IdleConn { stream, created_at: now }]);
    }
}

/// A request for a token leaves the connections of every other peer, and of its own it
/// hands out the last one that is fit, by the idle timeout of the configuration in
/// nanoseconds; for an unknown token there is nothing.
pub proof fn request_touches_one_peer<S, C: Fn() -> u128, A: Fn(&S) -> bool>(
    pool: RemotePool<S>,
    next: RemotePool<S>,
    token: Token,
    found: Option<S>,
    clock: C,
    alive: A,
    timeout: u128,
    other: u8,
)
    requires
        pool.took_idle(next, token, found, clock, alive),
        timeout == pool.config().pool_idle_timeout_secs * 1_000_000_000,
    ensures
        next.config() == pool.config(),
        next.peers() == pool.peers(),
        next.idle().dom() == pool.idle().dom(),
        other != token.0 && pool.idle().contains_key(other) ==> next.idle()[other]
            == pool.idle()[other],
        pool.idle().contains_key(token.0) ==> popped(
            pool.idle()[token.0],
            next.idle()[token.0],
            found,
            timeout,
            clock,
            alive,
        ),
        !pool.idle().contains_key(token.0) ==> found is None,
{
    assert(pool.idle_timeout() == timeout);
    assert(next.idle().dom() =~= pool.idle().dom());
}

/// What a peer has and what it lacks make up the minimum, unless it has more already.
pub proof fn lack_makes_up_the_minimum<S>(pool: RemotePool<S>, place: int)
    ensures
        ({
            let have = pool.idle_len(pool.peers()[place].0);
            let minimum = pool.config().pool_min_idle;
            &&& have < minimum ==> have + pool.lacks(place) == minimum
            &&& have >= minimum ==> pool.lacks(place) == 0
        }),
{
}

/// The place at which a round goes on is the least one from `from` on whose peer lacks
/// connections; there is none exactly where no peer from there on lacks any.
pub proof fn no_lacking_peer_is_passed_over<S>(pool: RemotePool<S>, from: int)
    requires
        0 <= from <= pool.peers().len(),
    ensures
        from <= pool.next_lacking(from) <= pool.peers().len(),
        forall|p: int| from <= p < pool.next_lacking(from) ==> #[trigger] pool.lacks(p) == 0,
        pool.next_lacking(from) < pool.peers().len() ==> pool.lacks(pool.next_lacking(from)) > 0,
    decreases pool.peers().len() - from,
{
    if from < pool.peers().len() && pool.lacks(from) == 0 {
        no_lacking_peer_is_passed_over(pool, from + 1);
    }
}

/// How a round goes on: with the first peer that still lacks connections, as many as it
/// lacks; it goes to sleep only where no peer is left that lacks any, and then for half
/// the idle timeout, rounded down.
pub proof fn round_dials_until_no_peer_lacks<S>(pool: RemotePool<S>, from: int)
    requires
        0 <= from <= pool.peers().len() <= usize::MAX,
    ensures
        match pool.go_on(from) {
            (Warmup::Filling(place, left), WarmupAction::Dial(token)) => {
                &&& from <= place < pool.peers().len()
                &&& token == pool.peers()[place as int].0
                &&& left == pool.lacks(place as int) > 0
                &&& forall|p: int| from <= p < place ==> #[trigger] pool.lacks(p) == 0
            },
            (Warmup::Asleep, WarmupAction::Sleep(secs)) => {
                &&& forall|p: int|
                    from <= p < pool.peers().len() ==> #[trigger] pool.lacks(p) == 0
                &&& 2 * secs <= pool.config().pool_idle_timeout_secs < 2 * secs + 2
            },
            _ => false,
        },
        pool.warmup_interval() * 2 <= pool.config().pool_idle_timeout_secs
            < pool.warmup_interval() * 2 + 2,
{
    no_lacking_peer_is_passed_over(pool, from);
}

/// The warming up waits for every outcome of what it asked for: it can be woken or
/// cancelled while it sleeps, and a connection can be made or not while it dials.
pub proof fn warmup_awaits_every_outcome<S>(
    pool: RemotePool<S>,
    place: usize,
    left: usize,
    stream: S,
    now: u128,
)
    ensures
        Warmup::Asleep.awaits(pool, WarmupEvent::Woke),
        Warmup::Asleep.awaits(pool, WarmupEvent::Cancelled),
        place < pool.peers().len() && left > 0 ==> Warmup::Filling(place, left).awaits(
            pool,
            WarmupEvent::Dialled(stream, now),
        ) && Warmup::Filling(place, left).awaits(pool, WarmupEvent::DialFailed),
{
}

} // verus!
