//! Probe identifiers: one number per (hop, attempt) of a round, dense from
//! zero, so that an answer names the probe it answers.

use crate::tracer::PingMode;
use vstd::arithmetic::div_mod::{
    lemma_fundamental_div_mod, lemma_fundamental_div_mod_converse,
};
use vstd::arithmetic::mul::{lemma_mul_inequality, lemma_mul_is_commutative};
use vstd::prelude::*;

verus! {

/// The first destination port of UDP probes, by tradition.
pub const BASE_PORT: u16 = 33433;

/// What a mode adds to an identifier before it goes on the wire: nothing in
/// an echo's sequence number, the base port in a destination port.
pub open spec fn wire_base(mode: PingMode) -> nat {
    if mode == PingMode::ICMP {
        0
    } else {
        BASE_PORT as nat
    }
}

/// How many identifiers a mode can put into its 16-bit field.
pub open spec fn identifier_space(mode: PingMode) -> nat {
    (0x10000 - wire_base(mode)) as nat
}

/// The identifier of attempt `attempt` at hop `hop`, hops counted from one.
pub open spec fn raw_identifier(attempts: nat, hop: nat, attempt: nat) -> nat {
    (attempts * (hop - 1) + attempt) as nat
}

/// The identifier as the probe carries it.
pub open spec fn wire_identifier(mode: PingMode, attempts: nat, hop: nat, attempt: nat) -> nat {
    raw_identifier(attempts, hop, attempt) + wire_base(mode)
}

/// The hop that an identifier names.
pub open spec fn hop_of(attempts: nat, raw: nat) -> nat {
    raw / attempts + 1
}

/// The attempt that an identifier names.
pub open spec fn attempt_of(attempts: nat, raw: nat) -> nat {
    raw % attempts
}

/// Whether (hop, attempt) names a probe that can be sent: the hop is counted
/// from one, the attempt lies below `attempts`, and the identifier fits the
/// field of the mode.
pub open spec fn encodable(mode: PingMode, attempts: nat, hop: nat, attempt: nat) -> bool {
    &&& 1 <= hop
    &&& attempt < attempts
    &&& raw_identifier(attempts, hop, attempt) < identifier_space(mode)
}

/// What a wire value decodes to: nothing where no probe can have carried it.
pub open spec fn decoded(mode: PingMode, attempts: nat, wire: nat) -> Option<(nat, nat)> {
    if attempts == 0 || wire < wire_base(mode) {
        None
    } else {
        let raw = (wire - wire_base(mode)) as nat;
        Some((hop_of(attempts, raw), attempt_of(attempts, raw)))
    }
}

/// Decoding undoes encoding: the identifier of (hop, attempt) names that hop
/// and that attempt.
pub proof fn law_decode_inverts_encode(attempts: nat, hop: nat, attempt: nat)
    requires
        1 <= hop,
        attempt < attempts,
    ensures
        hop_of(attempts, raw_identifier(attempts, hop, attempt)) == hop,
        attempt_of(attempts, raw_identifier(attempts, hop, attempt)) == attempt,
{
    lemma_mul_is_commutative(attempts as int, hop - 1);
    lemma_fundamental_div_mod_converse(
        raw_identifier(attempts, hop, attempt) as int,
        attempts as int,
        hop - 1,
        attempt as int,
    );
}

/// Encoding undoes decoding: every number is the identifier of the hop and
/// attempt that it names, and these are a hop counted from one and an attempt
/// below `attempts`.
pub proof fn law_encode_inverts_decode(attempts: nat, raw: nat)
    requires
        1 <= attempts,
    ensures
        1 <= hop_of(attempts, raw),
        attempt_of(attempts, raw) < attempts,
        raw_identifier(attempts, hop_of(attempts, raw), attempt_of(attempts, raw)) == raw,
{
    lemma_fundamental_div_mod(raw as int, attempts as int);
    vstd::arithmetic::div_mod::lemma_div_pos_is_pos(raw as int, attempts as int);
}

/// The identifiers of the hops up to `max_hops` are exactly the numbers below
/// `attempts * max_hops`: with the two laws above, the encoding is a
/// bijection between the probes of a round and that range.
pub proof fn law_identifiers_are_dense(attempts: nat, max_hops: nat, raw: nat)
    requires
        1 <= attempts,
    ensures
        hop_of(attempts, raw) <= max_hops <==> raw < attempts * max_hops,
{
    lemma_fundamental_div_mod(raw as int, attempts as int);
    vstd::arithmetic::div_mod::lemma_div_pos_is_pos(raw as int, attempts as int);
    let q = raw as int / attempts as int;
    if q + 1 <= max_hops {
        lemma_mul_inequality(q + 1, max_hops as int, attempts as int);
        lemma_mul_is_commutative(attempts as int, q + 1);
        lemma_mul_is_commutative(attempts as int, max_hops as int);
        assert(attempts * (q + 1) == attempts * q + attempts) by (nonlinear_arith);
    } else {
        lemma_mul_inequality(max_hops as int, q, attempts as int);
        lemma_mul_is_commutative(attempts as int, q);
        lemma_mul_is_commutative(attempts as int, max_hops as int);
    }
}

/// With one attempt per hop the identifier is the hop less one.
pub proof fn law_single_attempt_identifier(mode: PingMode, hop: nat)
    requires
        1 <= hop,
    ensures
        raw_identifier(1, hop, 0) == hop - 1,
        wire_identifier(PingMode::ICMP, 1, hop, 0) == hop - 1,
        wire_identifier(PingMode::UDP, 1, hop, 0) == hop - 1 + 33433,
{
}

/// What `mode` adds to an identifier on the wire.
pub fn base_of(mode: PingMode) -> (base: u16)
    ensures
        base == wire_base(mode),
{
    match mode {
        PingMode::ICMP => 0,
        PingMode::UDP => BASE_PORT,
        PingMode::TCP => BASE_PORT,
    }
}

/// The wire identifier of attempt `attempt` at hop `hop`, or `None` where
/// (hop, attempt) names no probe that can be sent.
pub fn encode_identifier(mode: PingMode, attempts: usize, hop: usize, attempt: usize) -> (wire:
    Option<u16>)
    ensures
        wire is Some <==> encodable(mode, attempts as nat, hop as nat, attempt as nat),
        wire matches Some(w) ==> w == wire_identifier(
            mode,
            attempts as nat,
            hop as nat,
            attempt as nat,
        ),
{
    if hop < 1 || attempt >= attempts {
        return None;
    }
    let space: usize = 0x10000 - base_of(mode) as usize;
    proof {
        if attempts * (hop - 1) >= space {
            assert(raw_identifier(attempts as nat, hop as nat, attempt as nat) >= space);
        }
    }
    let scaled: usize = match attempts.checked_mul(hop - 1) {
        Some(scaled) => scaled,
        None => {
            return None;
        },
    };
    if scaled >= space || attempt >= space - scaled {
        return None;
    }
    Some((scaled + attempt + base_of(mode) as usize) as u16)
}

/// The hop and attempt that a wire identifier names, or `None` where no probe
/// of `mode` can have carried it.
pub fn decode_identifier(mode: PingMode, attempts: usize, wire: u16) -> (named: Option<
    (usize, usize),
>)
    ensures
        named is Some <==> decoded(mode, attempts as nat, wire as nat) is Some,
        named matches Some((hop, attempt)) ==> decoded(mode, attempts as nat, wire as nat) == Some(
            (hop as nat, attempt as nat),
        ),
{
    let base = base_of(mode);
    if attempts == 0 || wire < base {
        return None;
    }
    let raw: usize = (wire - base) as usize;
    proof {
        vstd::arithmetic::div_mod::lemma_div_is_ordered_by_denominator(
            raw as int,
            1,
            attempts as int,
        );
    }
    Some((raw / attempts + 1, raw % attempts))
}

} // verus!
