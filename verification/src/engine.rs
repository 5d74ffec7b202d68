//! The decisions of a trace, as a machine that is told what happened and
//! answers what to do next. Whoever runs it performs the actions: storing
//! the snapshot and notifying, sending probes, waiting on the socket,
//! sleeping.

use crate::ident::raw_identifier;
use crate::packet::{parse_reply, spec_parse_reply, ParseResult};
use crate::tracer::{ConfigError, Iteration, Ping, TraceOpts, TraceState};
use vstd::prelude::*;

verus! {

/// Hops probed in the first round of a trace whose window adapts.
pub const INITIAL_WINDOW: usize = 6;

/// Hops by which an adapting window grows from one round to the next.
pub const WINDOW_STEP: usize = 5;

/// How long one wait for a datagram may last, in microseconds.
pub const RECEIVE_DEADLINE: u64 = 100_000;

/// How long a trace rests after a round that reached the target, in
/// microseconds.
pub const TERMINAL_PAUSE: u64 = 2_000_000;

/// Where a trace stands.
#[derive(Clone, Copy, Debug, PartialEq, Eq, Structural)]
pub enum Phase {
    /// Made, and not begun.
    Idle,
    /// A new round stands in the snapshot, which is being published.
    Opening,
    /// The probes of the round are being sent.
    Sending,
    /// Answers are being awaited.
    Receiving,
    /// The round is over; its snapshot is being published.
    Closing,
    /// Resting before the next round.
    Pausing,
    /// Over, for good.
    Stopped,
}

/// What happened since the last action.
#[derive(Clone, Debug, PartialEq, Eq)]
pub enum Event {
    /// The trace was started.
    Begin,
    /// The snapshot was stored and the observers notified.
    Published,
    /// Every probe of the round was handed on and the receiving socket is open.
    ProbesSent,
    /// A datagram arrived, `elapsed` microseconds into the receive phase.
    Datagram { bytes: Vec<u8>, elapsed: u64 },
    /// A wait ended without a datagram, `elapsed` microseconds into the
    /// receive phase.
    Quiet { elapsed: u64 },
    /// The rest is over.
    Woke,
    /// The trace was told to stop.
    Cancelled,
    /// A socket could not be opened.
    SocketFailed,
}

/// What to do next.
#[derive(Clone, Copy, Debug, PartialEq, Eq, Structural)]
pub enum Action {
    /// Store the snapshot, then notify the observers.
    Publish,
    /// Send every probe of the hops from one to `hops`, then open the socket
    /// that receives.
    SendProbes { hops: usize },
    /// Wait for one datagram, for at most `deadline` microseconds.
    Receive { deadline: u64 },
    /// Rest for `duration` microseconds.
    Sleep { duration: u64 },
    /// Do nothing more.
    Halt,
}

/// A trace as the contracts speak of it.
pub struct EngineModel {
    /// The configuration.
    pub opts: TraceOpts,
    /// Whether the window of probed hops adapts from round to round.
    pub adaptive: bool,
    /// Where the trace stands.
    pub phase: Phase,
    /// Every round so far, the current one last.
    pub rounds: Seq<Seq<Option<Ping>>>,
    /// Hops probed in the current round.
    pub window: nat,
    /// By identifier, whether a probe of the current round was answered.
    pub answered: Seq<bool>,
    /// The hop at which the target answered in the current round.
    pub terminal_hop: Option<nat>,
}

/// Hops probed in the first round.
pub open spec fn first_window(opts: TraceOpts, adaptive: bool) -> nat {
    if adaptive && INITIAL_WINDOW < opts.max_hops {
        INITIAL_WINDOW as nat
    } else {
        opts.max_hops as nat
    }
}

/// Hops probed in the round after the current one. A window that does not
/// adapt spans all hops. One that adapts shrinks to the hop at which the
/// target answered; where it did not answer, the window grows by
/// `WINDOW_STEP`, up to `max_hops`.
pub open spec fn next_window(m: EngineModel) -> nat {
    if !m.adaptive {
        m.opts.max_hops as nat
    } else {
        match m.terminal_hop {
            Some(t) => t,
            None => if m.window + WINDOW_STEP < m.opts.max_hops {
                m.window + WINDOW_STEP as nat
            } else {
                m.opts.max_hops as nat
            },
        }
    }
}

/// The last hop that the current round still waits for: the hop at which the
/// target answered, or the whole window.
pub open spec fn horizon(m: EngineModel) -> nat {
    match m.terminal_hop {
        Some(t) => t,
        None => m.window,
    }
}

/// What holds of every trace:
///
/// - the configuration is valid, and the window lies within `max_hops`;
/// - there is a round from the moment the trace has begun;
/// - no round has more slots than `max_hops`, the current one none past the
///   horizon;
/// - an answer from the target stands in the last slot of the current round,
///   at the hop recorded as terminal.
pub open spec fn inv(m: EngineModel) -> bool {
    &&& m.opts.valid()
    &&& 1 <= m.window <= m.opts.max_hops
    &&& m.answered.len() == m.window * m.opts.attempts
    &&& m.phase == Phase::Idle ==> m.rounds.len() == 0
    &&& m.phase != Phase::Idle && m.phase != Phase::Stopped ==> m.rounds.len() > 0
    &&& forall|i: int| 0 <= i < m.rounds.len() ==> (#[trigger] m.rounds[i]).len() <= m.opts.max_hops
    &&& m.terminal_hop matches Some(t) ==> 1 <= t <= m.window
    &&& m.rounds.len() > 0 ==> {
        &&& m.rounds.last().len() <= horizon(m)
        &&& m.terminal_hop is Some ==> m.rounds.last().len() == horizon(m)
        &&& forall|i: int|
            0 <= i < m.rounds.last().len() ==> ((#[trigger] m.rounds.last()[i]) matches Some(ping)
                && ping.ip == m.opts.target ==> m.terminal_hop == Some((i + 1) as nat))
    }
}

/// A trace about to begin.
pub open spec fn initial(opts: TraceOpts, adaptive: bool) -> EngineModel {
    EngineModel {
        opts,
        adaptive,
        phase: Phase::Idle,
        rounds: Seq::empty(),
        window: first_window(opts, adaptive),
        answered: Seq::new(first_window(opts, adaptive) * opts.attempts as nat, |i: int| false),
        terminal_hop: None,
    }
}

/// The trace with a new, empty round of `window` hops, about to publish it.
pub open spec fn open_round(m: EngineModel, window: nat) -> EngineModel {
    EngineModel {
        phase: Phase::Opening,
        rounds: m.rounds.push(Seq::empty()),
        window,
        answered: Seq::new(window * m.opts.attempts as nat, |i: int| false),
        terminal_hop: None,
        ..m
    }
}

/// The trace, over.
pub open spec fn halted(m: EngineModel) -> EngineModel {
    EngineModel { phase: Phase::Stopped, ..m }
}

/// `round` with empty slots added until it has `len` of them.
pub open spec fn padded(round: Seq<Option<Ping>>, len: nat) -> Seq<Option<Ping>> {
    if round.len() >= len {
        round
    } else {
        round + Seq::new((len - round.len()) as nat, |i: int| None::<Ping>)
    }
}

/// `round` without the slots past the first `len`.
pub open spec fn cut(round: Seq<Option<Ping>>, len: nat) -> Seq<Option<Ping>> {
    if round.len() <= len {
        round
    } else {
        round.take(len as int)
    }
}

/// Whether an answer is taken into the current round. It is not when it
/// names no probe of the round, names a hop past the one at which the target
/// has answered, or answers a probe that was answered before.
pub open spec fn accepted(m: EngineModel, hop: usize, attempt: usize) -> bool {
    &&& 1 <= hop <= m.window
    &&& attempt < m.opts.attempts
    &&& m.terminal_hop matches Some(t) ==> hop <= t
    &&& !m.answered[raw_identifier(m.opts.attempts as nat, hop as nat, attempt as nat) as int]
}

/// The trace after one parsed datagram, `elapsed` microseconds into the
/// receive phase. An accepted answer fills the slot of its hop, over what
/// another attempt may have put there. One that comes from the target, or
/// that the parser found to end the path, makes its hop the terminal hop and
/// its slot the last.
pub open spec fn record(m: EngineModel, reply: ParseResult, elapsed: u64) -> EngineModel {
    match reply {
        Some((source, hop, attempt, terminal)) => if accepted(m, hop, attempt) {
            let ends = terminal || source == m.opts.target;
            let kept = if ends {
                cut(m.rounds.last(), hop as nat)
            } else {
                m.rounds.last()
            };
            let slots = padded(kept, hop as nat).update(
                hop - 1,
                Some(Ping { ip: source, latency: elapsed }),
            );
            EngineModel {
                rounds: m.rounds.drop_last().push(slots),
                answered: m.answered.update(
                    raw_identifier(m.opts.attempts as nat, hop as nat, attempt as nat) as int,
                    true,
                ),
                terminal_hop: if ends {
                    Some(hop as nat)
                } else {
                    m.terminal_hop
                },
                ..m
            }
        } else {
            m
        },
        None => m,
    }
}

/// Whether the first `n` slots of `round` exist and are filled.
pub open spec fn filled_through(round: Seq<Option<Ping>>, n: nat) -> bool {
    &&& round.len() >= n
    &&& forall|i: int| 0 <= i < n ==> (#[trigger] round[i]) is Some
}

/// Whether the receive phase is over: the time is up, or every hop up to the
/// horizon has an answer.
pub open spec fn round_complete(m: EngineModel, elapsed: u64) -> bool {
    elapsed > m.opts.rx_timeout || filled_through(m.rounds.last(), horizon(m))
}

/// After the receive phase has looked at what came: close the round, or wait
/// again.
pub open spec fn settle(m: EngineModel, elapsed: u64) -> (EngineModel, Action) {
    if round_complete(m, elapsed) {
        (EngineModel { phase: Phase::Closing, ..m }, Action::Publish)
    } else {
        (m, Action::Receive { deadline: RECEIVE_DEADLINE })
    }
}

/// The trace after `event`, and what to do next.
///
/// A stopped trace stays as it is and halts. Cancellation and a socket that
/// cannot be opened stop the trace in every phase. Else each phase waits for
/// one kind of event, and any other stops the trace:
///
/// - `Idle`, on `Begin`: opens the first round and publishes it;
/// - `Opening`, on `Published`: sends the probes of the window;
/// - `Sending`, on `ProbesSent`: receives;
/// - `Receiving`, on `Datagram` or `Quiet`: records what the datagram says,
///   then publishes the round if it is complete, else receives again;
/// - `Closing`, on `Published`: rests if the target answered, else opens the
///   next round and publishes it;
/// - `Pausing`, on `Woke`: opens the next round and publishes it.
pub open spec fn step_model(m: EngineModel, event: Event) -> (EngineModel, Action) {
    if m.phase == Phase::Stopped {
        (m, Action::Halt)
    } else {
        match event {
            Event::Cancelled => (halted(m), Action::Halt),
            Event::SocketFailed => (halted(m), Action::Halt),
            Event::Begin => if m.phase == Phase::Idle {
                (open_round(m, m.window), Action::Publish)
            } else {
                (halted(m), Action::Halt)
            },
            Event::Published => if m.phase == Phase::Opening {
                (
                    EngineModel { phase: Phase::Sending, ..m },
                    Action::SendProbes { hops: m.window as usize },
                )
            } else if m.phase == Phase::Closing {
                if m.terminal_hop is Some {
                    (
                        EngineModel { phase: Phase::Pausing, ..m },
                        Action::Sleep { duration: TERMINAL_PAUSE },
                    )
                } else {
                    (open_round(m, next_window(m)), Action::Publish)
                }
            } else {
                (halted(m), Action::Halt)
            },
            Event::ProbesSent => if m.phase == Phase::Sending {
                (
                    EngineModel { phase: Phase::Receiving, ..m },
                    Action::Receive { deadline: RECEIVE_DEADLINE },
                )
            } else {
                (halted(m), Action::Halt)
            },
            Event::Datagram { bytes, elapsed } => if m.phase == Phase::Receiving {
                settle(record(m, spec_parse_reply(bytes@, m.opts), elapsed), elapsed)
            } else {
                (halted(m), Action::Halt)
            },
            Event::Quiet { elapsed } => if m.phase == Phase::Receiving {
                settle(m, elapsed)
            } else {
                (halted(m), Action::Halt)
            },
            Event::Woke => if m.phase == Phase::Pausing {
                (open_round(m, next_window(m)), Action::Publish)
            } else {
                (halted(m), Action::Halt)
            },
        }
    }
}

/// A round's framing keeps what `inv` says of a trace.
proof fn lemma_open_round_keeps_inv(m: EngineModel, window: nat)
    requires
        inv(m),
        1 <= window <= m.opts.max_hops,
    ensures
        inv(open_round(m, window)),
{
    let after = open_round(m, window);
    assert forall|i: int| 0 <= i < after.rounds.len() implies (#[trigger] after.rounds[i]).len()
        <= m.opts.max_hops by {
        if i < m.rounds.len() {
            assert(after.rounds[i] == m.rounds[i]);
        }
    }
}

/// The hop and attempt of an accepted answer name an identifier of the round.
proof fn lemma_accepted_identifier(m: EngineModel, hop: usize, attempt: usize)
    requires
        inv(m),
        1 <= hop <= m.window,
        attempt < m.opts.attempts,
    ensures
        m.opts.attempts * (hop - 1) >= 0,
        raw_identifier(m.opts.attempts as nat, hop as nat, attempt as nat) == m.opts.attempts * (
        hop - 1) + attempt,
        m.opts.attempts * (hop - 1) + attempt < m.answered.len(),
        m.answered.len() <= 0x10000,
{
    let a = m.opts.attempts as int;
    let w = m.window as int;
    let h = hop as int;
    let x = m.opts.max_hops as int;
    assert(a * (h - 1) >= 0 && a * (h - 1) + a <= w * a && w * a <= x * a) by (nonlinear_arith)
        requires
            1 <= h <= w <= x,
            a >= 1,
    ;
}

/// Recording an answer keeps what `inv` says of a trace.
pub proof fn lemma_record_keeps_inv(m: EngineModel, reply: ParseResult, elapsed: u64)
    requires
        inv(m),
        m.rounds.len() > 0,
    ensures
        inv(record(m, reply, elapsed)),
        record(m, reply, elapsed).phase == m.phase,
        record(m, reply, elapsed).rounds.len() == m.rounds.len(),
        record(m, reply, elapsed).rounds.drop_last() == m.rounds.drop_last(),
{
    let after = record(m, reply, elapsed);
    if let Some((source, hop, attempt, terminal)) = reply {
        if accepted(m, hop, attempt) {
            lemma_accepted_identifier(m, hop, attempt);
            let ends = terminal || source == m.opts.target;
            let slots = after.rounds.last();
            assert(after.rounds.drop_last() =~= m.rounds.drop_last());
            assert forall|i: int| 0 <= i < after.rounds.len() implies (
            #[trigger] after.rounds[i]).len() <= m.opts.max_hops by {
                if i < m.rounds.len() - 1 {
                    assert(after.rounds[i] == m.rounds[i]);
                }
            }
            assert forall|i: int| 0 <= i < slots.len() implies ((#[trigger] slots[i]) matches Some(
                ping,
            ) && ping.ip == m.opts.target ==> after.terminal_hop == Some((i + 1) as nat)) by {
                if i != hop - 1 {
                    assert(slots[i] == None::<Ping> || (i < m.rounds.last().len() && slots[i]
                        == m.rounds.last()[i]));
                }
            }
        } else {
            assert(after.rounds.drop_last() =~= m.rounds.drop_last());
        }
    } else {
        assert(after.rounds.drop_last() =~= m.rounds.drop_last());
    }
}

/// Every step keeps what `inv` says of a trace.
pub proof fn law_step_keeps_inv(m: EngineModel, event: Event)
    requires
        inv(m),
    ensures
        inv(step_model(m, event).0),
{
    if m.phase != Phase::Stopped {
        match event {
            Event::Begin => {
                if m.phase == Phase::Idle {
                    lemma_open_round_keeps_inv(m, m.window);
                }
            },
            Event::Published => {
                if m.phase == Phase::Closing && m.terminal_hop is None {
                    lemma_open_round_keeps_inv(m, next_window(m));
                }
            },
            Event::Datagram { bytes, elapsed } => {
                if m.phase == Phase::Receiving {
                    lemma_record_keeps_inv(m, spec_parse_reply(bytes@, m.opts), elapsed);
                }
            },
            Event::Woke => {
                if m.phase == Phase::Pausing {
                    lemma_open_round_keeps_inv(m, next_window(m));
                }
            },
            _ => {},
        }
    }
}

/// Rounds are only ever added, one at a time, and a round that is no longer
/// the last is never touched again: what was published of the rounds
/// before stays as it was published.
pub proof fn law_rounds_are_append_only(m: EngineModel, event: Event)
    requires
        inv(m),
    ensures
        ({
            let after = step_model(m, event).0;
            &&& after.rounds.len() == m.rounds.len() || after.rounds.len() == m.rounds.len() + 1
            &&& after.rounds.len() == m.rounds.len() + 1 ==> after.rounds.drop_last() == m.rounds
                && after.rounds.last().len() == 0
            &&& after.rounds.len() == m.rounds.len() ==> after.rounds.drop_last()
                == m.rounds.drop_last()
        }),
{
    let after = step_model(m, event).0;
    if m.phase != Phase::Stopped {
        match event {
            Event::Datagram { bytes, elapsed } => {
                if m.phase == Phase::Receiving {
                    lemma_record_keeps_inv(m, spec_parse_reply(bytes@, m.opts), elapsed);
                }
            },
            _ => {},
        }
    }
    if after.rounds.len() == m.rounds.len() + 1 {
        assert(after.rounds.drop_last() =~= m.rounds);
    }
}

/// Once told to stop, a trace publishes nothing more: cancellation halts it
/// in whatever phase it is, with its rounds as they were, and a stopped trace
/// answers every event by halting, unchanged.
pub proof fn law_cancellation_is_final(m: EngineModel, event: Event)
    ensures
        step_model(m, Event::Cancelled).0.phase == Phase::Stopped,
        step_model(m, Event::Cancelled).0.rounds == m.rounds,
        step_model(m, Event::Cancelled).1 == Action::Halt,
        m.phase == Phase::Stopped ==> step_model(m, event) == (m, Action::Halt),
{
}

/// A slot once filled stays filled for as long as its round is the current
/// one, unless the target answers at an earlier hop and the slots past that
/// hop are dropped.
pub proof fn law_filled_slots_stay(m: EngineModel, reply: ParseResult, elapsed: u64, i: int)
    requires
        inv(m),
        m.rounds.len() > 0,
        0 <= i < m.rounds.last().len(),
        m.rounds.last()[i] is Some,
    ensures
        ({
            let after = record(m, reply, elapsed);
            i < after.rounds.last().len() ==> after.rounds.last()[i] is Some
        }),
{
}

/// No round ever holds more slots than `max_hops`: a trace of one hop fills at
/// most one slot in each round.
pub proof fn law_rounds_fit_max_hops(m: EngineModel, i: int)
    requires
        inv(m),
        0 <= i < m.rounds.len(),
    ensures
        m.rounds[i].len() <= m.opts.max_hops,
        m.opts.max_hops == 1 ==> m.rounds[i].len() <= 1,
{
}

/// With a window that adapts and no answer from the target, the window of
/// the next round is the smaller of `max_hops` and the current window plus
/// `WINDOW_STEP`; once it is `max_hops` it stays there.
pub proof fn law_window_grows_to_max_hops(m: EngineModel)
    requires
        inv(m),
        m.adaptive,
        m.terminal_hop is None,
    ensures
        next_window(m) == if m.window + WINDOW_STEP < m.opts.max_hops {
            m.window + WINDOW_STEP
        } else {
            m.opts.max_hops as int
        },
        m.window <= next_window(m) <= m.opts.max_hops,
        m.window == m.opts.max_hops ==> next_window(m) == m.opts.max_hops,
{
}

/// The engine of one trace.
pub struct TraceEngine {
    opts: TraceOpts,
    adaptive: bool,
    phase: Phase,
    rounds: Vec<Iteration>,
    window: usize,
    answered: Vec<bool>,
    terminal_hop: Option<usize>,
}

impl View for TraceEngine {
    type V = EngineModel;

    closed spec fn view(&self) -> EngineModel {
        EngineModel {
            opts: self.opts,
            adaptive: self.adaptive,
            phase: self.phase,
            rounds: self.rounds@.map_values(|round: Iteration| round@),
            window: self.window as nat,
            answered: self.answered@,
            terminal_hop: match self.terminal_hop {
                Some(t) => Some(t as nat),
                None => None,
            },
        }
    }
}

/// `len` flags, none set.
fn unanswered(len: usize) -> (flags: Vec<bool>)
    ensures
        flags@ == Seq::new(len as nat, |i: int| false),
{
    let mut flags: Vec<bool> = Vec::new();
    let mut n: usize = 0;
    while n < len
        invariant
            n <= len,
            flags@ == Seq::new(n as nat, |i: int| false),
        decreases len - n,
    {
        flags.push(false);
        n = n + 1;
    }
    flags
}

/// Whether the first `n` slots of `round` exist and are filled.
fn all_filled(round: &Iteration, n: usize) -> (filled: bool)
    ensures
        filled == filled_through(round@, n as nat),
{
    if round.len() < n {
        return false;
    }
    let mut i: usize = 0;
    while i < n
        invariant
            i <= n <= round@.len(),
            forall|k: int| 0 <= k < i ==> (#[trigger] round@[k]) is Some,
        decreases n - i,
    {
        if round[i].is_none() {
            return false;
        }
        i = i + 1;
    }
    true
}

/// A copy of `round`.
fn copy_round(round: &Iteration) -> (copy: Iteration)
    ensures
        copy@ == round@,
{
    let mut copy: Iteration = Vec::new();
    let mut i: usize = 0;
    while i < round.len()
        invariant
            i <= round@.len(),
            copy@ == round@.take(i as int),
        decreases round@.len() - i,
    {
        copy.push(round[i]);
        assert(round@.take(i + 1) == round@.take(i as int).push(round@[i as int]));
        i = i + 1;
    }
    assert(round@.take(round@.len() as int) == round@);
    copy
}

impl TraceEngine {
    /// The engine of a trace on `opts`, about to begin, that probes all
    /// `max_hops` hops in every round; or what is wrong with `opts`.
    pub fn new(opts: TraceOpts) -> (made: Result<TraceEngine, ConfigError>)
        ensures
            made is Ok <==> opts.valid(),
            made matches Err(e) ==> opts.fault() == Some(e),
            made matches Ok(engine) ==> engine@ == initial(opts, false) && inv(engine@),
    {
        TraceEngine::make(opts, false)
    }

    /// The engine of a trace on `opts`, about to begin, whose window of
    /// probed hops adapts: `INITIAL_WINDOW` hops at first, then as
    /// `next_window` says; or what is wrong with `opts`.
    pub fn with_adaptive_window(opts: TraceOpts) -> (made: Result<TraceEngine, ConfigError>)
        ensures
            made is Ok <==> opts.valid(),
            made matches Err(e) ==> opts.fault() == Some(e),
            made matches Ok(engine) ==> engine@ == initial(opts, true) && inv(engine@),
    {
        TraceEngine::make(opts, true)
    }

    fn make(opts: TraceOpts, adaptive: bool) -> (made: Result<TraceEngine, ConfigError>)
        ensures
            made is Ok <==> opts.valid(),
            made matches Err(e) ==> opts.fault() == Some(e),
            made matches Ok(engine) ==> engine@ == initial(opts, adaptive) && inv(engine@),
    {
        match opts.validate() {
            Ok(()) => {},
            Err(e) => {
                return Err(e);
            },
        }
        let window: usize = if adaptive && INITIAL_WINDOW < opts.max_hops {
            INITIAL_WINDOW
        } else {
            opts.max_hops
        };
        proof {
            let a = opts.attempts as int;
            let w = window as int;
            let x = opts.max_hops as int;
            assert(0 <= w * a <= x * a) by (nonlinear_arith)
                requires
                    1 <= w <= x,
                    a >= 1,
            ;
        }
        let engine = TraceEngine {
            opts,
            adaptive,
            phase: Phase::Idle,
            rounds: Vec::new(),
            window,
            answered: unanswered(window * opts.attempts),
            terminal_hop: None,
        };
        assert(engine@.rounds =~= Seq::empty());
        Ok(engine)
    }

    /// The configuration of the trace.
    pub fn opts(&self) -> (opts: TraceOpts)
        ensures
            opts == self@.opts,
    {
        self.opts
    }

    /// Where the trace stands.
    pub fn phase(&self) -> (phase: Phase)
        ensures
            phase == self@.phase,
    {
        self.phase
    }

    /// Hops probed in the current round.
    pub fn window(&self) -> (window: usize)
        ensures
            window == self@.window,
    {
        self.window
    }

    /// The hop at which the target answered in the current round.
    pub fn terminal_hop(&self) -> (hop: Option<usize>)
        ensures
            hop is Some <==> self@.terminal_hop is Some,
            hop matches Some(t) ==> self@.terminal_hop == Some(t as nat),
    {
        self.terminal_hop
    }

    /// What there is to publish: a copy of every round so far.
    pub fn snapshot(&self) -> (state: TraceState)
        ensures
            state@ == self@.rounds,
    {
        let mut iterations: Vec<Iteration> = Vec::new();
        let mut i: usize = 0;
        while i < self.rounds.len()
            invariant
                i <= self.rounds@.len(),
                iterations@.len() == i,
                forall|k: int| 0 <= k < i ==> (#[trigger] iterations@[k])@ == self.rounds@[k]@,
            decreases self.rounds@.len() - i,
        {
            iterations.push(copy_round(&self.rounds[i]));
            i = i + 1;
        }
        let state = TraceState { iterations };
        assert(state@ =~= self@.rounds);
        state
    }

    /// Hops to probe in the round after the current one.
    fn following_window(&self) -> (window: usize)
        requires
            inv(self@),
        ensures
            window == next_window(self@),
            1 <= window <= self.opts.max_hops,
    {
        if !self.adaptive {
            self.opts.max_hops
        } else {
            match self.terminal_hop {
                Some(t) => t,
                None => if self.window + WINDOW_STEP < self.opts.max_hops {
                    self.window + WINDOW_STEP
                } else {
                    self.opts.max_hops
                },
            }
        }
    }

    /// Opens a round of `window` hops.
    fn begin_round(&mut self, window: usize)
        requires
            inv(old(self)@),
            1 <= window <= old(self).opts.max_hops,
        ensures
            final(self)@ == open_round(old(self)@, window as nat),
            inv(final(self)@),
    {
        proof {
            lemma_open_round_keeps_inv(self@, window as nat);
            let a = self.opts.attempts as int;
            let w = window as int;
            let x = self.opts.max_hops as int;
            assert(0 <= w * a <= x * a) by (nonlinear_arith)
                requires
                    1 <= w <= x,
                    a >= 1,
            ;
        }
        self.phase = Phase::Opening;
        self.rounds.push(Vec::new());
        self.window = window;
        self.answered = unanswered(window * self.opts.attempts);
        self.terminal_hop = None;
        assert(self@.rounds =~= old(self)@.rounds.push(Seq::empty()));
    }

    /// Takes one parsed datagram into the current round.
    fn take_reply(&mut self, reply: ParseResult, elapsed: u64)
        requires
            inv(old(self)@),
            old(self)@.rounds.len() > 0,
        ensures
            final(self)@ == record(old(self)@, reply, elapsed),
            inv(final(self)@),
    {
        proof {
            lemma_record_keeps_inv(self@, reply, elapsed);
        }
        let (source, hop, attempt, terminal) = match reply {
            Some(named) => named,
            None => {
                return ;
            },
        };
        if hop < 1 || hop > self.window || attempt >= self.opts.attempts {
            return ;
        }
        match self.terminal_hop {
            Some(t) => {
                if hop > t {
                    return ;
                }
            },
            None => {},
        }
        proof {
            lemma_accepted_identifier(self@, hop, attempt);
        }
        let id: usize = self.opts.attempts * (hop - 1) + attempt;
        if self.answered[id] {
            return ;
        }
        self.answered.set(id, true);
        let ends = terminal || source == self.opts.target;
        let ghost m = old(self)@;
        let ghost earlier = old(self).rounds@.drop_last();
        let mut current = match self.rounds.pop() {
            Some(current) => current,
            None => Vec::new(),
        };
        assert(current@ == m.rounds.last());
        assert(self.rounds@ == earlier);
        if ends {
            current.truncate(hop);
            self.terminal_hop = Some(hop);
            assert(current@ == cut(m.rounds.last(), hop as nat));
        }
        let ghost kept = current@;
        while current.len() < hop
            invariant
                current@.len() <= hop || current@ == kept,
                padded(current@, hop as nat) == padded(kept, hop as nat),
            decreases hop - current@.len(),
        {
            let ghost before = current@;
            current.push(None);
            assert(padded(current@, hop as nat) =~= padded(before, hop as nat));
        }
        assert(current@ == padded(kept, hop as nat));
        current.set(hop - 1, Some(Ping { ip: source, latency: elapsed }));
        self.rounds.push(current);
        proof {
            let after = record(m, reply, elapsed);
            assert(accepted(m, hop, attempt));
            assert(after.rounds.last() == current@);
            assert(self@.rounds.len() == after.rounds.len());
            assert forall|i: int| 0 <= i < after.rounds.len() implies self@.rounds[i]
                == after.rounds[i] by {
                if i < earlier.len() {
                    assert(self.rounds@[i] == earlier[i]);
                    assert(earlier[i] == old(self).rounds@[i]);
                }
            }
            assert(self@.rounds =~= after.rounds);
        }
    }

    /// Whether the receive phase is over.
    fn receive_is_over(&self, elapsed: u64) -> (over: bool)
        requires
            inv(self@),
            self@.rounds.len() > 0,
        ensures
            over == round_complete(self@, elapsed),
    {
        if elapsed > self.opts.rx_timeout {
            return true;
        }
        let limit = match self.terminal_hop {
            Some(t) => t,
            None => self.window,
        };
        all_filled(&self.rounds[self.rounds.len() - 1], limit)
    }

    /// Closes the round if it is complete, else waits again.
    fn conclude(&mut self, elapsed: u64) -> (action: Action)
        requires
            inv(old(self)@),
            old(self)@.phase == Phase::Receiving,
        ensures
            final(self)@ == settle(old(self)@, elapsed).0,
            action == settle(old(self)@, elapsed).1,
            inv(final(self)@),
    {
        if self.receive_is_over(elapsed) {
            self.phase = Phase::Closing;
            Action::Publish
        } else {
            Action::Receive { deadline: RECEIVE_DEADLINE }
        }
    }

    /// Stops the trace.
    fn halt(&mut self) -> (action: Action)
        requires
            inv(old(self)@),
        ensures
            final(self)@ == halted(old(self)@),
            action == Action::Halt,
            inv(final(self)@),
    {
        self.phase = Phase::Stopped;
        Action::Halt
    }

    /// Takes note of `event` and says what to do next.
    pub fn step(&mut self, event: Event) -> (action: Action)
        requires
            inv(old(self)@),
        ensures
            final(self)@ == step_model(old(self)@, event).0,
            action == step_model(old(self)@, event).1,
            inv(final(self)@),
    {
        if self.phase == Phase::Stopped {
            return Action::Halt;
        }
        match event {
            Event::Cancelled => self.halt(),
            Event::SocketFailed => self.halt(),
            Event::Begin => {
                if self.phase == Phase::Idle {
                    self.begin_round(self.window);
                    Action::Publish
                } else {
                    self.halt()
                }
            },
            Event::Published => {
                if self.phase == Phase::Opening {
                    self.phase = Phase::Sending;
                    Action::SendProbes { hops: self.window }
                } else if self.phase == Phase::Closing {
                    if self.terminal_hop.is_some() {
                        self.phase = Phase::Pausing;
                        Action::Sleep { duration: TERMINAL_PAUSE }
                    } else {
                        let window = self.following_window();
                        self.begin_round(window);
                        Action::Publish
                    }
                } else {
                    self.halt()
                }
            },
            Event::ProbesSent => {
                if self.phase == Phase::Sending {
                    self.phase = Phase::Receiving;
                    Action::Receive { deadline: RECEIVE_DEADLINE }
                } else {
                    self.halt()
                }
            },
            Event::Datagram { bytes, elapsed } => {
                if self.phase == Phase::Receiving {
                    let reply = parse_reply(bytes.as_slice(), &self.opts);
                    self.take_reply(reply, elapsed);
                    self.conclude(elapsed)
                } else {
                    self.halt()
                }
            },
            Event::Quiet { elapsed } => {
                if self.phase == Phase::Receiving {
                    self.conclude(elapsed)
                } else {
                    self.halt()
                }
            },
            Event::Woke => {
                if self.phase == Phase::Pausing {
                    let window = self.following_window();
                    self.begin_round(window);
                    Action::Publish
                } else {
                    self.halt()
                }
            },
        }
    }
}

} // verus!
