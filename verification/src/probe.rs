//! Active health probe: a TCP ping per peer, again and again.
//!
//! Each peer is pinged on its own by a lightweight TCP connect. After so many
//! failures in a row the peer is reported as unhealthy, and at the first success
//! after that as healthy again. The caller sleeps and connects; what is decided
//! here is when, and what to report.
//!
//! This goes on beside the counting of failures at connect time; either one can
//! find a peer unhealthy.

use vstd::prelude::*;

use crate::endpoint::SocketAddr;
use crate::timeout::{fits, timeout_secs, whole_secs};

verus! {

/// Configuration for the active probe loop.
#[derive(Debug, Clone, Copy, PartialEq, Eq, Structural)]
pub struct ProbeConfig {
    /// Probe interval for **healthy** nodes (seconds).
    pub probe_interval_secs: u64,
    /// Probe interval for **unhealthy** nodes (seconds).
    /// Usually shorter so recovery is detected quickly.
    pub probe_unhealthy_interval_secs: u64,
    /// TCP connect timeout for each probe attempt (milliseconds).
    pub probe_timeout_ms: u64,
    /// Number of **consecutive** probe failures after which a peer is reported as
    /// unhealthy.
    pub probe_max_fails: u32,
}

impl Default for ProbeConfig {
    fn default() -> (config: Self)
        ensures
            config == (ProbeConfig {
                probe_interval_secs: 10,
                probe_unhealthy_interval_secs: 5,
                probe_timeout_ms: 3000,
                probe_max_fails: 2,
            }),
    {
        ProbeConfig {
            probe_interval_secs: 10,
            probe_unhealthy_interval_secs: 5,
            probe_timeout_ms: 3000,
            probe_max_fails: 2,
        }
    }
}

/// What the probes of a peer have come to so far.
#[derive(Debug, Clone, Copy, PartialEq, Eq, Structural)]
pub struct ProbeState {
    /// How many probes have failed in a row.
    pub consecutive_fails: u32,
    /// Whether the peer is reported as unhealthy.
    pub marked_unhealthy: bool,
}

/// What is reported of a peer.
#[derive(Debug, Clone, Copy, PartialEq, Eq, Structural)]
pub enum HealthReport {
    /// The peer has become unhealthy.
    Failure,
    /// The peer has become healthy again.
    Success,
}

/// What the caller has to do.
#[derive(Debug, Clone, Copy, PartialEq, Eq, Structural)]
pub enum ProbeAction {
    /// Wait for so many seconds, or until the loop is cancelled.
    Sleep(u64),
    /// Resolve the address and connect to it, for so many seconds at most.
    Connect(usize),
    /// Stop.
    Exit,
}

/// What came of the last action.
#[derive(Debug, Clone, Copy, PartialEq, Eq, Structural)]
pub enum ProbeEvent {
    /// The wait is over.
    Woke,
    /// The loop is cancelled.
    Cancelled,
    /// The probe ended: it succeeded, or else failed.
    Probed(bool),
}

impl ProbeState {
    /// Nothing has been probed yet.
    pub open spec fn fresh() -> Self {
        ProbeState { consecutive_fails: 0, marked_unhealthy: false }
    }

    /// The state after one more probe.
    pub open spec fn after_probe(self, max_fails: u32, ok: bool) -> Self {
        if ok {
            ProbeState { consecutive_fails: 0, marked_unhealthy: false }
        } else {
            let fails = self.consecutive_fails + 1;
            ProbeState {
                consecutive_fails: fails as u32,
                marked_unhealthy: self.marked_unhealthy || fails >= max_fails,
            }
        }
    }

    /// What is reported where the state changes to `next`: only that the mark
    /// changes.
    pub open spec fn report(self, next: Self) -> Option<HealthReport> {
        if !self.marked_unhealthy && next.marked_unhealthy {
            Some(HealthReport::Failure)
        } else if self.marked_unhealthy && !next.marked_unhealthy {
            Some(HealthReport::Success)
        } else {
            None
        }
    }

    /// How long to wait for the next probe: a peer that is marked is probed at
    /// another interval.
    pub open spec fn interval(self, config: ProbeConfig) -> u64 {
        if self.marked_unhealthy {
            config.probe_unhealthy_interval_secs
        } else {
            config.probe_interval_secs
        }
    }

    /// The state in which nothing has been probed yet.
    pub fn new() -> (state: Self)
        ensures
            state == Self::fresh(),
    {
        ProbeState { consecutive_fails: 0, marked_unhealthy: false }
    }

    /// Takes in one more probe and tells what to report.
    pub fn probed(&mut self, max_fails: u32, ok: bool) -> (report: Option<HealthReport>)
        requires
            !ok ==> old(self).consecutive_fails < u32::MAX,
        ensures
            *final(self) == old(self).after_probe(max_fails, ok),
            report == old(self).report(*final(self)),
    {
        if ok {
            self.consecutive_fails = 0;
            if self.marked_unhealthy {
                self.marked_unhealthy = false;
                return Some(HealthReport::Success);
            }
        } else {
            self.consecutive_fails = self.consecutive_fails + 1;
            if self.consecutive_fails >= max_fails && !self.marked_unhealthy {
                self.marked_unhealthy = true;
                return Some(HealthReport::Failure);
            }
        }
        None
    }
}

/// Which of the addresses that a peer resolves to is probed: the first one, or
/// `None` where there is none, which makes the probe fail.
pub fn probe_addr(addrs: &Vec<SocketAddr>) -> (addr: Option<SocketAddr>)
    ensures
        addr is Some <==> addrs@.len() > 0,
        addr matches Some(a) ==> a == addrs@[0],
{
    if addrs.len() > 0 {
        Some(addrs[0].clone())
    } else {
        None
    }
}

/// The probing of one peer.
#[derive(Debug, Clone, Copy, PartialEq, Eq, Structural)]
pub struct ProbeLoop {
    pub config: ProbeConfig,
    pub state: ProbeState,
}

/// Begins to probe a peer: the first probe comes after one interval.
///
/// The timeout of a probe has to be one that can be told in seconds.
pub fn spawn_probe_loop(config: ProbeConfig) -> (start: (ProbeLoop, ProbeAction))
    requires
        fits(config.probe_timeout_ms),
    ensures
        start.0 == (ProbeLoop { config, state: ProbeState::fresh() }),
        start.1 == ProbeAction::Sleep(config.probe_interval_secs),
{
    let probing: ProbeLoop = ProbeLoop { config, state: ProbeState::new() };
    (probing, ProbeAction::Sleep(config.probe_interval_secs))
}

impl ProbeLoop {
    /// Whether the loop can take in `event`: failures are counted up to the
    /// largest `u32`.
    pub open spec fn takes(self, event: ProbeEvent) -> bool {
        event == ProbeEvent::Probed(false) ==> self.state.consecutive_fails < u32::MAX
    }

    /// Takes in what came of the last action; tells what to report of the peer, if
    /// anything, and what to do next.
    pub fn next(&mut self, event: ProbeEvent) -> (step: (Option<HealthReport>, ProbeAction))
        requires
            fits(old(self).config.probe_timeout_ms),
            old(self).takes(event),
        ensures
            final(self).config == old(self).config,
            match event {
                ProbeEvent::Woke => {
                    &&& final(self).state == old(self).state
                    &&& step.0 is None
                    &&& step.1 matches ProbeAction::Connect(secs)
                    &&& secs == whole_secs(old(self).config.probe_timeout_ms as int)
                },
                ProbeEvent::Cancelled => {
                    &&& final(self).state == old(self).state
                    &&& step.0 is None
                    &&& step.1 is Exit
                },
                ProbeEvent::Probed(ok) => {
                    &&& final(self).state == old(self).state.after_probe(
                        old(self).config.probe_max_fails,
                        ok,
                    )
                    &&& step.0 == old(self).state.report(final(self).state)
                    &&& step.1 == ProbeAction::Sleep(final(self).state.interval(final(self).config))
                },
            },
    {
        match event {
            ProbeEvent::Woke => {
                let secs: usize = timeout_secs(self.config.probe_timeout_ms);
                (None, ProbeAction::Connect(secs))
            },
            ProbeEvent::Cancelled => (None, ProbeAction::Exit),
            ProbeEvent::Probed(ok) => {
                let report: Option<HealthReport> = self.state.probed(
                    self.config.probe_max_fails,
                    ok,
                );
                let interval: u64 = if self.state.marked_unhealthy {
                    self.config.probe_unhealthy_interval_secs
                } else {
                    self.config.probe_interval_secs
                };
                (report, ProbeAction::Sleep(interval))
            },
        }
    }
}

// ---------------------------------------------------------------------------
// Laws
// ---------------------------------------------------------------------------

/// The state after a row of probes, each of which succeeded or failed.
pub open spec fn after_probes(max_fails: u32, probes: Seq<bool>) -> ProbeState
    decreases probes.len(),
{
    if probes.len() == 0 {
        ProbeState::fresh()
    } else {
        after_probes(max_fails, probes.drop_last()).after_probe(max_fails, probes.last())
    }
}

/// How many failures stand at the end of a row of probes.
pub open spec fn fails_at_end(probes: Seq<bool>) -> nat
    decreases probes.len(),
{
    if probes.len() == 0 || probes.last() {
        0
    } else {
        fails_at_end(probes.drop_last()) + 1
    }
}

/// How often `what` is reported during a row of probes.
pub open spec fn reports(max_fails: u32, probes: Seq<bool>, what: HealthReport) -> nat
    decreases probes.len(),
{
    if probes.len() == 0 {
        0
    } else {
        let before = after_probes(max_fails, probes.drop_last());
        let now = after_probes(max_fails, probes);
        reports(max_fails, probes.drop_last(), what) + if before.report(now) == Some(what) {
            1nat
        } else {
            0nat
        }
    }
}

/// A peer is marked unhealthy exactly where its last probes have failed, at least
/// one of them and at least as many as the configuration asks for.
pub proof fn marked_iff_enough_fails_in_a_row(max_fails: u32, probes: Seq<bool>)
    requires
        probes.len() <= u32::MAX,
    ensures
        after_probes(max_fails, probes).consecutive_fails == fails_at_end(probes),
        after_probes(max_fails, probes).marked_unhealthy <==> fails_at_end(probes) >= 1
            && fails_at_end(probes) >= max_fails,
        fails_at_end(probes) <= probes.len(),
    decreases probes.len(),
{
    if probes.len() > 0 {
        marked_iff_enough_fails_in_a_row(max_fails, probes.drop_last());
    }
}

/// Failure and success are reported in turn, failure first: there is one report
/// of failure more than of success while the peer is marked, and as many of
/// either while it is not.
pub proof fn reports_alternate(max_fails: u32, probes: Seq<bool>)
    ensures
        reports(max_fails, probes, HealthReport::Failure) == reports(
            max_fails,
            probes,
            HealthReport::Success,
        ) + if after_probes(max_fails, probes).marked_unhealthy {
            1nat
        } else {
            0nat
        },
    decreases probes.len(),
{
    if probes.len() > 0 {
        reports_alternate(max_fails, probes.drop_last());
    }
}

/// After a row of probes the loop sleeps for the unhealthy interval where the last
/// probes have failed, at least one of them and at least as many as the configuration
/// asks for, and for the healthy interval otherwise.
pub proof fn interval_follows_fails_in_a_row(config: ProbeConfig, probes: Seq<bool>)
    requires
        probes.len() <= u32::MAX,
    ensures
        fails_at_end(probes) >= 1 && fails_at_end(probes) >= config.probe_max_fails
            ==> after_probes(config.probe_max_fails, probes).interval(config)
            == config.probe_unhealthy_interval_secs,
        fails_at_end(probes) < 1 || fails_at_end(probes) < config.probe_max_fails
            ==> after_probes(config.probe_max_fails, probes).interval(config)
            == config.probe_interval_secs,
{
    marked_iff_enough_fails_in_a_row(config.probe_max_fails, probes);
}

/// How many failures stand at the end: a success at the end leaves none, and failures
/// behind it count one each, whatever came before.
pub proof fn failures_are_counted_from_the_last_success(probes: Seq<bool>, failures: nat)
    ensures
        fails_at_end(Seq::new(failures, |i: int| false)) == failures,
        fails_at_end(probes.push(true) + Seq::new(failures, |i: int| false)) == failures,
    decreases failures,
{
    let row = Seq::new(failures, |i: int| false);
    let whole = probes.push(true) + row;
    if failures > 0 {
        failures_are_counted_from_the_last_success(probes, (failures - 1) as nat);
        let shorter = Seq::new((failures - 1) as nat, |i: int| false);
        assert(row.drop_last() =~= shorter);
        assert(whole.drop_last() =~= probes.push(true) + shorter);
        assert(!row.last() && !whole.last());
    } else {
        assert(whole =~= probes.push(true));
    }
}

/// What one probe does to any state: a success clears the count and the mark; a failure
/// counts one more, and marks the peer once enough are counted. Something is reported
/// where the mark changes, and never otherwise.
pub proof fn one_probe_counts_marks_and_reports(state: ProbeState, max_fails: u32)
    requires
        state.consecutive_fails < u32::MAX,
    ensures
        state.after_probe(max_fails, true).consecutive_fails == 0,
        !state.after_probe(max_fails, true).marked_unhealthy,
        state.after_probe(max_fails, false).consecutive_fails == state.consecutive_fails + 1,
        state.marked_unhealthy ==> state.after_probe(max_fails, false).marked_unhealthy,
        !state.marked_unhealthy ==> (state.after_probe(max_fails, false).marked_unhealthy
            <==> state.consecutive_fails + 1 >= max_fails),
        forall|next: ProbeState|
            #![trigger state.report(next)]
            {
                &&& state.report(next) == Some(HealthReport::Failure) <==> next.marked_unhealthy
                    && !state.marked_unhealthy
                &&& state.report(next) == Some(HealthReport::Success) <==> !next.marked_unhealthy
                    && state.marked_unhealthy
            },
        ProbeState::fresh().consecutive_fails == 0,
        !ProbeState::fresh().marked_unhealthy,
{
}

/// The loop takes every event in every state, but for a failure past the last one that
/// can be counted.
pub proof fn loop_takes_every_event(probing: ProbeLoop, event: ProbeEvent)
    requires
        event != ProbeEvent::Probed(false) || probing.state.consecutive_fails < 0xffff_ffff,
    ensures
        probing.takes(event),
{
}

} // verus!
