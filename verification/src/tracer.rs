//! What a trace is told, and what it reports.

use crate::addr::IpAddress;
use crate::engine::{initial, inv, TraceEngine};
use crate::ident::{base_of, identifier_space};
use vstd::prelude::*;

verus! {

/// The probe family of a trace. TCP is reserved: identifiers are laid out for
/// it, and no TCP probe is built.
#[derive(Copy, Clone, Debug, PartialEq, Eq, Structural)]
pub enum PingMode {
    UDP,
    TCP,
    ICMP,
}

/// One observed answer: who sent it, and how many microseconds after the
/// receive phase of its round began.
#[derive(Clone, Copy, Debug, PartialEq, Eq, Structural)]
pub struct Ping {
    pub ip: IpAddress,
    pub latency: u64,
}

/// The observed hops of one round: slot `h - 1` holds the answer for hop `h`,
/// or nothing while none has come.
pub type Iteration = Vec<Option<Ping>>;

/// What observers are shown: every round so far, the newest last.
#[derive(Clone, Debug, PartialEq, Eq)]
pub struct TraceState {
    pub iterations: Vec<Iteration>,
}

impl View for TraceState {
    type V = Seq<Seq<Option<Ping>>>;

    open spec fn view(&self) -> Seq<Seq<Option<Ping>>> {
        self.iterations@.map_values(|round: Iteration| round@)
    }
}

/// The most hops a trace may be told to probe.
pub const MAX_HOPS_LIMIT: usize = 100;

/// The configuration of one trace. Timeouts are in microseconds.
#[derive(Clone, Copy, Debug, PartialEq, Eq, Structural)]
pub struct TraceOpts {
    pub mode: PingMode,
    pub rx_timeout: u64,
    pub tx_timeout: u64,
    pub attempts: usize,
    pub target: IpAddress,
    pub max_hops: usize,
}

/// Why a configuration starts no trace.
#[derive(Clone, Copy, Debug, PartialEq, Eq, Structural)]
pub enum ConfigError {
    /// `max_hops` is zero.
    ZeroMaxHops,
    /// `max_hops` is above `MAX_HOPS_LIMIT`.
    TooManyHops,
    /// `attempts` is zero.
    ZeroAttempts,
    /// The round would need more identifiers than the 16-bit field of the
    /// mode can tell apart.
    TooManyProbes,
}

impl TraceOpts {
    /// Whether a trace can run on this configuration: between one and
    /// `MAX_HOPS_LIMIT` hops, at least one attempt, and an identifier for
    /// every probe of a round.
    pub open spec fn valid(self) -> bool {
        &&& 1 <= self.max_hops <= MAX_HOPS_LIMIT
        &&& 1 <= self.attempts
        &&& self.max_hops * self.attempts <= identifier_space(self.mode)
    }

    /// What is wrong with this configuration, the first fault in the order of
    /// `ConfigError`, or nothing.
    pub open spec fn fault(self) -> Option<ConfigError> {
        if self.max_hops == 0 {
            Some(ConfigError::ZeroMaxHops)
        } else if self.max_hops > MAX_HOPS_LIMIT {
            Some(ConfigError::TooManyHops)
        } else if self.attempts == 0 {
            Some(ConfigError::ZeroAttempts)
        } else if self.max_hops * self.attempts > identifier_space(self.mode) {
            Some(ConfigError::TooManyProbes)
        } else {
            None
        }
    }

    /// A configuration is valid exactly when it has no fault.
    pub proof fn lemma_valid_iff_no_fault(self)
        ensures
            self.valid() <==> self.fault() is None,
    {
    }

    /// Checks the configuration.
    pub fn validate(&self) -> (checked: Result<(), ConfigError>)
        ensures
            checked is Ok <==> self.valid(),
            checked matches Err(e) ==> self.fault() == Some(e),
    {
        if self.max_hops == 0 {
            return Err(ConfigError::ZeroMaxHops);
        }
        if self.max_hops > MAX_HOPS_LIMIT {
            return Err(ConfigError::TooManyHops);
        }
        if self.attempts == 0 {
            return Err(ConfigError::ZeroAttempts);
        }
        let space: usize = 0x10000 - base_of(self.mode) as usize;
        if self.attempts > space / self.max_hops {
            proof {
                vstd::arithmetic::div_mod::lemma_fundamental_div_mod(
                    space as int,
                    self.max_hops as int,
                );
                vstd::arithmetic::mul::lemma_mul_inequality(
                    space as int / self.max_hops as int + 1,
                    self.attempts as int,
                    self.max_hops as int,
                );
                vstd::arithmetic::mul::lemma_mul_is_distributive_add_other_way(
                    self.max_hops as int,
                    space as int / self.max_hops as int,
                    1,
                );
                vstd::arithmetic::mul::lemma_mul_is_commutative(
                    self.max_hops as int,
                    self.attempts as int,
                );
            }
            return Err(ConfigError::TooManyProbes);
        }
        proof {
            vstd::arithmetic::div_mod::lemma_fundamental_div_mod(space as int, self.max_hops as int);
            vstd::arithmetic::mul::lemma_mul_inequality(
                self.attempts as int,
                space as int / self.max_hops as int,
                self.max_hops as int,
            );
            vstd::arithmetic::mul::lemma_mul_is_commutative(
                self.max_hops as int,
                self.attempts as int,
            );
            vstd::arithmetic::mul::lemma_mul_is_commutative(
                self.max_hops as int,
                space as int / self.max_hops as int,
            );
        }
        Ok(())
    }
}

/// The configuration a trace has where none is given: one UDP attempt per
/// hop towards `1.1.1.1`, at most 30 hops, three seconds to listen and one to
/// send.
pub open spec fn default_opts() -> TraceOpts {
    TraceOpts {
        target: IpAddress::V4(0x0101_0101),
        mode: PingMode::UDP,
        max_hops: 30,
        rx_timeout: 3_000_000,
        tx_timeout: 1_000_000,
        attempts: 1,
    }
}

impl Default for TraceOpts {
    /// One UDP attempt per hop towards `1.1.1.1`, at most 30 hops, three
    /// seconds to listen and one to send.
    fn default() -> (opts: Self)
        ensures
            opts == default_opts(),
            opts.valid(),
    {
        TraceOpts {
            target: IpAddress::V4(0x0101_0101),
            mode: PingMode::UDP,
            max_hops: 30,
            rx_timeout: 3_000_000,
            tx_timeout: 1_000_000,
            attempts: 1,
        }
    }
}

/// The lifecycle of traces: idle, or running one. Whoever holds it starts the
/// task that runs the engine it is handed, and aborts that task when told to
/// stop.
#[derive(Debug)]
pub struct TraceHandler {
    tracing: bool,
    opts: TraceOpts,
}

impl TraceHandler {
    /// Whether a trace is running.
    pub closed spec fn tracing(&self) -> bool {
        self.tracing
    }

    /// The configuration of the trace that runs, or ran last; the default
    /// before any has run.
    pub closed spec fn options(&self) -> TraceOpts {
        self.opts
    }

    /// A handler with no trace running, on the default configuration.
    pub fn new() -> (handler: Self)
        ensures
            !handler.tracing(),
            handler.options() == default_opts(),
    {
        TraceHandler { tracing: false, opts: TraceOpts::default() }
    }

    /// Starts a trace on `opts`. While a trace is running nothing happens and
    /// nothing is handed out. Else a valid configuration makes the handler
    /// run, and the engine of the new trace is handed out; a configuration
    /// with a fault is refused and starts nothing.
    pub fn begin_trace(&mut self, opts: TraceOpts) -> (begun: Result<Option<TraceEngine>, ConfigError>)
        ensures
            old(self).tracing() ==> (begun matches Ok(None)) && *final(self) == *old(self),
            !old(self).tracing() && !opts.valid() ==> (begun matches Err(e) && opts.fault() == Some(
                e,
            )) && *final(self) == *old(self),
            !old(self).tracing() && opts.valid() ==> (begun matches Ok(Some(engine)) && engine@
                == initial(opts, false) && inv(engine@)),
            !old(self).tracing() && opts.valid() ==> final(self).tracing(),
            !old(self).tracing() && opts.valid() ==> final(self).options() == opts,
    {
        if self.tracing {
            return Ok(None);
        }
        match TraceEngine::new(opts) {
            Ok(engine) => {
                self.tracing = true;
                self.opts = opts;
                Ok(Some(engine))
            },
            Err(e) => Err(e),
        }
    }

    /// Stops the trace, if one is running, and says whether one was: if so,
    /// its task is to be aborted, and its engine told of the cancellation.
    pub fn stop_trace(&mut self) -> (was_tracing: bool)
        ensures
            was_tracing == old(self).tracing(),
            !final(self).tracing(),
            final(self).options() == old(self).options(),
    {
        let was_tracing = self.tracing;
        self.tracing = false;
        was_tracing
    }

    /// Whether a trace is running.
    pub fn is_tracing(&self) -> (tracing: bool)
        ensures
            tracing == self.tracing(),
    {
        self.tracing
    }

    /// The configuration of the trace that runs, or ran last.
    pub fn opts(&self) -> (opts: TraceOpts)
        ensures
            opts == self.options(),
    {
        self.opts
    }
}

} // verus!
