//! Building probes and recognising their answers.

use crate::addr::IpAddress;
use crate::bytes::{be_uint, field16, fit_u16, read_be16, with_field16};
use crate::checksum::{
    checksum, checksum_valid, internet_checksum, lemma_stored_checksum_validates,
    lemma_word_sum_ignores_skipped, word_at, word_count, MAX_CHECKSUM_LEN,
};
use crate::ident::{
    base_of, decode_identifier, decoded, law_decode_inverts_encode, law_encode_inverts_decode,
    wire_base, wire_identifier, BASE_PORT,
};
use crate::tracer::{PingMode, TraceOpts};
use crate::wire::{
    echo_v4_set_checksum, echo_v4_set_identifier, echo_v4_set_sequence_number, echo_v4_set_type,
    echo_v6_set_checksum, echo_v6_set_identifier, echo_v6_set_sequence_number, echo_v6_set_type,
    kind_v4, message_kind_v4, kind_v6, message_kind_v6, ipv4_payload,
    ipv4_payload_of, ipv4_source, ipv6_payload, ipv6_payload_of, ipv6_source, MessageKind,
    ECHO_HEADER_LEN, ICMP_HEADER_LEN, IPV4_HEADER_LEN, IPV6_HEADER_LEN,
};
use vstd::prelude::*;

verus! {

/// ICMPv4 type of an echo request.
pub const ICMPV4_ECHO_REQUEST: u8 = 8;

/// ICMPv6 type of an echo request.
pub const ICMPV6_ECHO_REQUEST: u8 = 128;

/// Where an echo carries its sequence number.
pub const ECHO_SEQUENCE_AT: usize = 6;

/// Where an ICMPv4 error that quotes a UDP probe shows its destination port.
pub const QUOTED_V4_UDP_PORT_AT: usize = 30;

/// Where an ICMPv4 error that quotes an echo probe shows its sequence number.
pub const QUOTED_V4_ECHO_SEQUENCE_AT: usize = 34;

/// Where an ICMPv6 error shows the identifier of the probe it quotes.
pub const QUOTED_V6_IDENTIFIER_AT: usize = 54;

/// The longest payload `gen_bytes` can number without running out of bytes.
pub const MAX_FILL: u8 = 216;

/// Bytes of payload in a UDP probe.
pub const UDP_PROBE_LEN: u8 = 32;

/// A recognised answer: who sent it, the hop (counted from one) and attempt
/// of the probe it answers, and whether it came from the target itself.
pub type ParseResult = Option<(IpAddress, usize, usize, bool)>;

/// Why a buffer was not made into an echo request.
#[derive(Clone, Copy, Debug, PartialEq, Eq, Structural)]
pub enum BuildError {
    /// Fewer than the eight bytes of an echo header.
    TooShort,
    /// More bytes than one datagram holds.
    TooLong,
}

/// `rand::random::<u16>()`: a number from the thread's generator. Nothing is
/// promised of it.
#[verifier::external_body]
fn random_u16() -> u16 {
    rand::random::<u16>()
}

/// An echo request made of `before`: type `type_byte`, code zero, the given
/// identifier and sequence number, and the checksum of the whole message.
/// Whatever follows the header stays.
pub open spec fn echo_request_of(
    before: Seq<u8>,
    type_byte: u8,
    identifier: u16,
    sequence_number: u16,
) -> Seq<u8> {
    let filled = with_field16(
        with_field16(before.update(0, type_byte).update(1, 0), 4, identifier),
        6,
        sequence_number,
    );
    with_field16(filled, 2, internet_checksum(filled, 1) as u16)
}

/// An echo request made by `echo_request_of` keeps the length, shows its type
/// and sequence number where an echo has them, and validates.
pub proof fn lemma_echo_request_of(
    before: Seq<u8>,
    type_byte: u8,
    identifier: u16,
    sequence_number: u16,
)
    requires
        before.len() >= ECHO_HEADER_LEN,
    ensures
        ({
            let message = echo_request_of(before, type_byte, identifier, sequence_number);
            &&& message.len() == before.len()
            &&& message[0] == type_byte
            &&& message[1] == 0
            &&& field16(message, 4) == identifier
            &&& field16(message, 6) == sequence_number
            &&& forall|i: int| 8 <= i < before.len() ==> message[i] == before[i]
            &&& checksum_valid(message)
        }),
{
    let filled = with_field16(
        with_field16(before.update(0, type_byte).update(1, 0), 4, identifier),
        6,
        sequence_number,
    );
    let sum = internet_checksum(filled, 1) as u16;
    let message = with_field16(filled, 2, sum);
    crate::checksum::lemma_fold16_add(
        crate::checksum::word_sum(filled, 1, word_count(filled)),
        0,
    );
    assert(internet_checksum(filled, 1) <= 0xFFFF);
    lemma_word_sum_ignores_skipped(filled, message, 1, word_count(filled));
    assert(word_at(message, 1) == sum);
    lemma_stored_checksum_validates(message, 1);
}

/// Makes `icmp_packet` an ICMPv4 echo request that carries `seq` as its
/// sequence number and a random identifier. A buffer that cannot hold an echo
/// header, or is longer than a datagram, is left as it was.
pub fn build_icmpv4_packet(icmp_packet: &mut Vec<u8>, seq: u16) -> (built: Result<(), BuildError>)
    ensures
        built is Ok <==> ECHO_HEADER_LEN <= old(icmp_packet)@.len() <= MAX_CHECKSUM_LEN,
        built matches Err(e) ==> e == (if old(icmp_packet)@.len() < ECHO_HEADER_LEN {
            BuildError::TooShort
        } else {
            BuildError::TooLong
        }),
        built is Err ==> final(icmp_packet)@ == old(icmp_packet)@,
        built is Ok ==> exists|identifier: u16|
            final(icmp_packet)@ == echo_request_of(
                old(icmp_packet)@,
                ICMPV4_ECHO_REQUEST,
                identifier,
                seq,
            ),
        built is Ok ==> final(icmp_packet)@.len() == old(icmp_packet)@.len(),
        built is Ok ==> final(icmp_packet)@[0] == ICMPV4_ECHO_REQUEST,
        built is Ok ==> field16(final(icmp_packet)@, 6) == seq,
        built is Ok ==> checksum_valid(final(icmp_packet)@),
{
    if icmp_packet.len() < ECHO_HEADER_LEN {
        return Err(BuildError::TooShort);
    }
    if icmp_packet.len() > MAX_CHECKSUM_LEN {
        return Err(BuildError::TooLong);
    }
    let identifier = random_u16();
    echo_v4_set_type(icmp_packet, ICMPV4_ECHO_REQUEST);
    icmp_packet.set(1, 0);
    echo_v4_set_identifier(icmp_packet, identifier);
    echo_v4_set_sequence_number(icmp_packet, seq);
    let sum = checksum(icmp_packet.as_slice(), 1);
    echo_v4_set_checksum(icmp_packet, sum);
    proof {
        lemma_echo_request_of(old(icmp_packet)@, ICMPV4_ECHO_REQUEST, identifier, seq);
        assert(icmp_packet@ == echo_request_of(
            old(icmp_packet)@,
            ICMPV4_ECHO_REQUEST,
            identifier,
            seq,
        ));
    }
    Ok(())
}

/// Makes `icmp_packet` an ICMPv6 echo request that carries `seq` as its
/// sequence number and a random identifier. The checksum is taken over the
/// message alone, as for ICMPv4. A buffer that cannot hold an echo header, or
/// is longer than a datagram, is left as it was.
pub fn build_icmpv6_packet(icmp_packet: &mut Vec<u8>, seq: u16) -> (built: Result<(), BuildError>)
    ensures
        built is Ok <==> ECHO_HEADER_LEN <= old(icmp_packet)@.len() <= MAX_CHECKSUM_LEN,
        built matches Err(e) ==> e == (if old(icmp_packet)@.len() < ECHO_HEADER_LEN {
            BuildError::TooShort
        } else {
            BuildError::TooLong
        }),
        built is Err ==> final(icmp_packet)@ == old(icmp_packet)@,
        built is Ok ==> exists|identifier: u16|
            final(icmp_packet)@ == echo_request_of(
                old(icmp_packet)@,
                ICMPV6_ECHO_REQUEST,
                identifier,
                seq,
            ),
        built is Ok ==> final(icmp_packet)@.len() == old(icmp_packet)@.len(),
        built is Ok ==> final(icmp_packet)@[0] == ICMPV6_ECHO_REQUEST,
        built is Ok ==> field16(final(icmp_packet)@, 6) == seq,
        built is Ok ==> checksum_valid(final(icmp_packet)@),
{
    if icmp_packet.len() < ECHO_HEADER_LEN {
        return Err(BuildError::TooShort);
    }
    if icmp_packet.len() > MAX_CHECKSUM_LEN {
        return Err(BuildError::TooLong);
    }
    let identifier = random_u16();
    echo_v6_set_type(icmp_packet, ICMPV6_ECHO_REQUEST);
    icmp_packet.set(1, 0);
    echo_v6_set_identifier(icmp_packet, identifier);
    echo_v6_set_sequence_number(icmp_packet, seq);
    let sum = checksum(icmp_packet.as_slice(), 1);
    echo_v6_set_checksum(icmp_packet, sum);
    proof {
        lemma_echo_request_of(old(icmp_packet)@, ICMPV6_ECHO_REQUEST, identifier, seq);
        assert(icmp_packet@ == echo_request_of(
            old(icmp_packet)@,
            ICMPV6_ECHO_REQUEST,
            identifier,
            seq,
        ));
    }
    Ok(())
}

/// Eight zero bytes: an echo header yet to be filled.
pub open spec fn blank_echo_bytes() -> Seq<u8> {
    Seq::new(ECHO_HEADER_LEN as nat, |i: int| 0u8)
}

/// Eight zero bytes: an echo header yet to be filled.
fn blank_echo() -> (bytes: Vec<u8>)
    ensures
        bytes@ == blank_echo_bytes(),
{
    let mut bytes: Vec<u8> = Vec::new();
    let mut n: usize = 0;
    while n < ECHO_HEADER_LEN
        invariant
            n <= ECHO_HEADER_LEN,
            bytes@ == Seq::new(n as nat, |i: int| 0u8),
        decreases ECHO_HEADER_LEN - n,
    {
        bytes.push(0);
        n = n + 1;
    }
    bytes
}

/// A minimal ICMPv4 echo request: eight bytes, no payload, `seq` as the
/// sequence number, a random identifier, a checksum that validates.
pub fn build_icmpv4_echo_packet(seq: u16) -> (packet: Vec<u8>)
    ensures
        exists|identifier: u16|
            packet@ == echo_request_of(
                blank_echo_bytes(),
                ICMPV4_ECHO_REQUEST,
                identifier,
                seq,
            ),
        packet@.len() == ECHO_HEADER_LEN,
        packet@[0] == ICMPV4_ECHO_REQUEST,
        packet@[1] == 0,
        field16(packet@, 6) == seq,
        checksum_valid(packet@),
{
    let mut packet = blank_echo();
    let built = build_icmpv4_packet(&mut packet, seq);
    proof {
        let identifier = choose|identifier: u16|
            packet@ == echo_request_of(
                blank_echo_bytes(),
                ICMPV4_ECHO_REQUEST,
                identifier,
                seq,
            );
        lemma_echo_request_of(
            blank_echo_bytes(),
            ICMPV4_ECHO_REQUEST,
            identifier,
            seq,
        );
    }
    packet
}

/// A minimal ICMPv6 echo request: eight bytes, no payload, `seq` as the
/// sequence number, a random identifier, a checksum that validates.
pub fn build_icmpv6_echo_packet(seq: u16) -> (packet: Vec<u8>)
    ensures
        exists|identifier: u16|
            packet@ == echo_request_of(
                blank_echo_bytes(),
                ICMPV6_ECHO_REQUEST,
                identifier,
                seq,
            ),
        packet@.len() == ECHO_HEADER_LEN,
        packet@[0] == ICMPV6_ECHO_REQUEST,
        packet@[1] == 0,
        field16(packet@, 6) == seq,
        checksum_valid(packet@),
{
    let mut packet = blank_echo();
    let built = build_icmpv6_packet(&mut packet, seq);
    proof {
        let identifier = choose|identifier: u16|
            packet@ == echo_request_of(
                blank_echo_bytes(),
                ICMPV6_ECHO_REQUEST,
                identifier,
                seq,
            );
        lemma_echo_request_of(
            blank_echo_bytes(),
            ICMPV6_ECHO_REQUEST,
            identifier,
            seq,
        );
    }
    packet
}

/// What the first byte of an ICMP message announces, read as ICMPv4 for an
/// IPv4 target and as ICMPv6 for an IPv6 target.
pub open spec fn message_kind(message: Seq<u8>, target: IpAddress) -> MessageKind {
    if target is V4 {
        kind_v4(message[0])
    } else {
        kind_v6(message[0])
    }
}

/// Where a Time Exceeded message shows the identifier of the probe it quotes.
/// A TCP probe over IPv4 has no such place.
pub open spec fn quoted_identifier_at(target: IpAddress, mode: PingMode) -> Option<usize> {
    match (target, mode) {
        (IpAddress::V6(_), _) => Some(QUOTED_V6_IDENTIFIER_AT),
        (IpAddress::V4(_), PingMode::UDP) => Some(QUOTED_V4_UDP_PORT_AT),
        (IpAddress::V4(_), PingMode::ICMP) => Some(QUOTED_V4_ECHO_SEQUENCE_AT),
        (IpAddress::V4(_), PingMode::TCP) => None,
    }
}

/// Where a message of the kind of `message` would show a probe's identifier,
/// and whether such a message ends the path. `None` where the message
/// answers no probe of this trace:
///
/// - an Echo Reply counts in ICMP mode and from the target only, and ends the
///   path;
/// - a Destination Unreachable counts in UDP mode and from the target only,
///   and ends the path;
/// - a Time Exceeded counts from anyone, and does not end the path;
/// - nothing else counts.
pub open spec fn identifier_claim(
    message: Seq<u8>,
    source: IpAddress,
    target: IpAddress,
    mode: PingMode,
) -> Option<(usize, bool)> {
    match message_kind(message, target) {
        MessageKind::EchoReply => if mode == PingMode::ICMP && source == target {
            Some((ECHO_SEQUENCE_AT, true))
        } else {
            None
        },
        MessageKind::DestinationUnreachable => if mode == PingMode::UDP && source == target {
            Some((QUOTED_V4_UDP_PORT_AT, true))
        } else {
            None
        },
        MessageKind::TimeExceeded => match quoted_identifier_at(target, mode) {
            Some(at) => Some((at, false)),
            None => None,
        },
        MessageKind::Other => None,
    }
}

/// Where `message` shows a probe's identifier, and whether the message ends
/// the path: what `identifier_claim` says, provided that the message has its
/// four header bytes and reaches to the end of the identifier.
pub open spec fn identifier_place(
    message: Seq<u8>,
    source: IpAddress,
    target: IpAddress,
    mode: PingMode,
) -> Option<(usize, bool)> {
    if message.len() < ICMP_HEADER_LEN {
        None
    } else {
        match identifier_claim(message, source, target, mode) {
            Some((at, terminal)) => if at + 2 <= message.len() {
                Some((at, terminal))
            } else {
                None
            },
            None => None,
        }
    }
}

/// What the ICMP message `message`, received from `source`, says of a trace
/// towards `target`: the hop and attempt that the identifier it shows
/// decodes to, or `None` where it shows none that a probe of `mode` can have
/// carried.
pub open spec fn spec_parse_ip(
    message: Seq<u8>,
    source: IpAddress,
    target: IpAddress,
    mode: PingMode,
    attempts: usize,
) -> ParseResult {
    match identifier_place(message, source, target, mode) {
        Some((at, terminal)) => match decoded(mode, attempts as nat, field16(message, at)) {
            Some((hop, attempt)) => Some((source, hop as usize, attempt as usize, terminal)),
            None => None,
        },
        None => None,
    }
}

/// The source address in the outer header of `datagram`, read as IPv4 for an
/// IPv4 target and as IPv6 for an IPv6 target; `None` where the datagram is
/// shorter than that header.
pub open spec fn outer_source(datagram: Seq<u8>, target: IpAddress) -> Option<IpAddress> {
    match target {
        IpAddress::V4(_) => if datagram.len() >= IPV4_HEADER_LEN {
            Some(IpAddress::V4(be_uint(datagram.subrange(12, 16)) as u32))
        } else {
            None
        },
        IpAddress::V6(_) => if datagram.len() >= IPV6_HEADER_LEN {
            Some(IpAddress::V6(be_uint(datagram.subrange(8, 24)) as u128))
        } else {
            None
        },
    }
}

/// The ICMP message that `datagram` carries behind its outer header.
pub open spec fn outer_payload(datagram: Seq<u8>, target: IpAddress) -> Seq<u8> {
    match target {
        IpAddress::V4(_) => ipv4_payload_of(datagram),
        IpAddress::V6(_) => ipv6_payload_of(datagram),
    }
}

/// What `datagram` says of a trace towards `target`.
pub open spec fn spec_parse_packet(
    datagram: Seq<u8>,
    target: IpAddress,
    mode: PingMode,
    attempts: usize,
) -> ParseResult {
    match outer_source(datagram, target) {
        Some(source) => spec_parse_ip(outer_payload(datagram, target), source, target, mode, attempts),
        None => None,
    }
}

/// What `datagram` says of the trace that `opts` configures: as
/// `spec_parse_packet`, without the answers that name a hop past `max_hops`.
pub open spec fn spec_parse_reply(datagram: Seq<u8>, opts: TraceOpts) -> ParseResult {
    match spec_parse_packet(datagram, opts.target, opts.mode, opts.attempts) {
        Some((source, hop, attempt, terminal)) => if hop <= opts.max_hops {
            Some((source, hop, attempt, terminal))
        } else {
            None
        },
        None => None,
    }
}

/// Every recognised answer names a hop counted from one and an attempt below
/// `attempts`, and shows the identifier of that hop and attempt.
pub proof fn lemma_parse_ip_names_a_probe(
    message: Seq<u8>,
    source: IpAddress,
    target: IpAddress,
    mode: PingMode,
    attempts: usize,
)
    ensures
        spec_parse_ip(message, source, target, mode, attempts) matches Some(
            (from, hop, attempt, terminal),
        ) ==> {
            &&& from == source
            &&& 1 <= hop <= 0x10000
            &&& attempt < attempts
            &&& identifier_place(message, source, target, mode) matches Some((at, ends))
            &&& ends == terminal
            &&& field16(message, at) == wire_identifier(
                mode,
                attempts as nat,
                hop as nat,
                attempt as nat,
            )
        },
{
    if let Some((at, terminal)) = identifier_place(message, source, target, mode) {
        let wire = field16(message, at);
        if decoded(mode, attempts as nat, wire) is Some {
            let raw = (wire - wire_base(mode)) as nat;
            law_encode_inverts_decode(attempts as nat, raw);
            vstd::arithmetic::div_mod::lemma_div_is_ordered_by_denominator(
                raw as int,
                1,
                attempts as int,
            );
        }
    }
}

/// Reads the ICMP message `buf`, received from `src`, for a trace towards
/// `target`.
pub fn parse_ip(buf: &[u8], src: IpAddress, target: IpAddress, mode: PingMode, attempts: usize) -> (reply:
    ParseResult)
    ensures
        reply == spec_parse_ip(buf@, src, target, mode, attempts),
        reply matches Some((_, hop, attempt, _)) ==> 1 <= hop && attempt < attempts,
{
    proof {
        lemma_parse_ip_names_a_probe(buf@, src, target, mode, attempts);
    }
    let kind = match target {
        IpAddress::V4(_) => message_kind_v4(buf),
        IpAddress::V6(_) => message_kind_v6(buf),
    };
    let kind = match kind {
        Some(kind) => kind,
        None => {
            return None;
        },
    };
    let (at, terminal): (usize, bool) = match kind {
        MessageKind::EchoReply => {
            if mode != PingMode::ICMP || src != target {
                return None;
            }
            (ECHO_SEQUENCE_AT, true)
        },
        MessageKind::DestinationUnreachable => {
            if mode != PingMode::UDP || src != target {
                return None;
            }
            (QUOTED_V4_UDP_PORT_AT, true)
        },
        MessageKind::TimeExceeded => {
            let at: usize = match (target, mode) {
                (IpAddress::V6(_), _) => QUOTED_V6_IDENTIFIER_AT,
                (IpAddress::V4(_), PingMode::UDP) => QUOTED_V4_UDP_PORT_AT,
                (IpAddress::V4(_), PingMode::ICMP) => QUOTED_V4_ECHO_SEQUENCE_AT,
                (IpAddress::V4(_), PingMode::TCP) => {
                    return None;
                },
            };
            (at, false)
        },
        MessageKind::Other => {
            return None;
        },
    };
    if buf.len() < at + 2 {
        return None;
    }
    let wire = read_be16(buf, at);
    match decode_identifier(mode, attempts, wire) {
        Some((hop, attempt)) => Some((src, hop, attempt, terminal)),
        None => None,
    }
}

/// Reads the raw IP datagram `buf` for a trace towards `target`: the outer
/// source, then the ICMP message inside.
pub fn parse_packet(buf: &[u8], target: IpAddress, mode: PingMode, attempts: usize) -> (reply:
    ParseResult)
    ensures
        reply == spec_parse_packet(buf@, target, mode, attempts),
        reply matches Some((_, hop, attempt, _)) ==> 1 <= hop && attempt < attempts,
{
    let (payload, source) = match target {
        IpAddress::V4(_) => {
            let source = match ipv4_source(buf) {
                Some(bits) => IpAddress::V4(bits),
                None => {
                    return None;
                },
            };
            match ipv4_payload(buf) {
                Some(payload) => (payload, source),
                None => {
                    return None;
                },
            }
        },
        IpAddress::V6(_) => {
            let source = match ipv6_source(buf) {
                Some(bits) => IpAddress::V6(bits),
                None => {
                    return None;
                },
            };
            match ipv6_payload(buf) {
                Some(payload) => (payload, source),
                None => {
                    return None;
                },
            }
        },
    };
    parse_ip(payload.as_slice(), source, target, mode, attempts)
}

/// Reads the raw IP datagram `buf` for the trace that `opts` configures, and
/// drops an answer that names a hop the trace never probes.
pub fn parse_reply(buf: &[u8], opts: &TraceOpts) -> (reply: ParseResult)
    ensures
        reply == spec_parse_reply(buf@, *opts),
        reply matches Some((_, hop, attempt, _)) ==> 1 <= hop <= opts.max_hops && attempt
            < opts.attempts,
{
    match parse_packet(buf, opts.target, opts.mode, opts.attempts) {
        Some((source, hop, attempt, terminal)) => {
            if hop <= opts.max_hops {
                Some((source, hop, attempt, terminal))
            } else {
                None
            }
        },
        None => None,
    }
}

/// Bytes of the outer header that a trace towards `target` expects.
pub open spec fn outer_header_len(target: IpAddress) -> nat {
    match target {
        IpAddress::V4(_) => IPV4_HEADER_LEN as nat,
        IpAddress::V6(_) => IPV6_HEADER_LEN as nat,
    }
}

/// A Time Exceeded message that shows the identifier of (hop, attempt) where
/// the family of the target and the mode put it is read back as that hop and
/// that attempt, from whoever sent it, and does not end the path.
pub proof fn law_time_exceeded_names_its_probe(
    datagram: Seq<u8>,
    target: IpAddress,
    mode: PingMode,
    attempts: usize,
    hop: usize,
    attempt: usize,
)
    requires
        1 <= hop,
        attempt < attempts,
        outer_source(datagram, target) is Some,
        outer_payload(datagram, target).len() >= ICMP_HEADER_LEN,
        message_kind(outer_payload(datagram, target), target) == MessageKind::TimeExceeded,
        quoted_identifier_at(target, mode) matches Some(at) && at + 2 <= outer_payload(
            datagram,
            target,
        ).len() && field16(outer_payload(datagram, target), at) == wire_identifier(
            mode,
            attempts as nat,
            hop as nat,
            attempt as nat,
        ),
    ensures
        spec_parse_packet(datagram, target, mode, attempts) == Some(
            (outer_source(datagram, target)->0, hop, attempt, false),
        ),
{
    law_decode_inverts_encode(attempts as nat, hop as nat, attempt as nat);
}

/// A buffer that ends before something that has to be read answers no probe:
/// a datagram shorter than its outer header, a message shorter than the four
/// bytes every ICMP message begins with, a message that ends before the
/// identifier that its kind would show.
pub proof fn law_truncated_is_not_ours(
    datagram: Seq<u8>,
    target: IpAddress,
    mode: PingMode,
    attempts: usize,
)
    ensures
        datagram.len() < outer_header_len(target) ==> spec_parse_packet(
            datagram,
            target,
            mode,
            attempts,
        ) is None,
        outer_payload(datagram, target).len() < ICMP_HEADER_LEN ==> spec_parse_packet(
            datagram,
            target,
            mode,
            attempts,
        ) is None,
        forall|source: IpAddress, at: usize, terminal: bool|
            identifier_claim(outer_payload(datagram, target), source, target, mode) == Some(
                (at, terminal),
            ) && outer_payload(datagram, target).len() < at + 2 ==> spec_parse_ip(
                outer_payload(datagram, target),
                source,
                target,
                mode,
                attempts,
            ) is None,
        spec_parse_packet(datagram, target, mode, attempts) is Some ==> datagram.len()
            >= outer_header_len(target) + ECHO_HEADER_LEN,
{
}

/// An answer that ends the path comes from the target; an Echo Reply or a
/// Destination Unreachable from anyone else answers no probe.
pub proof fn law_terminal_answers_come_from_the_target(
    datagram: Seq<u8>,
    target: IpAddress,
    mode: PingMode,
    attempts: usize,
)
    ensures
        spec_parse_packet(datagram, target, mode, attempts) matches Some(
            (source, _, _, terminal),
        ) ==> (terminal ==> source == target),
        outer_source(datagram, target) matches Some(source) && source != target && message_kind(
            outer_payload(datagram, target),
            target,
        ) != MessageKind::TimeExceeded ==> spec_parse_packet(datagram, target, mode, attempts)
            is None,
{
}

/// What `gen_bytes` returns for `len`: that many bytes counting up from 40.
pub open spec fn fill_of(len: u8) -> Seq<u8> {
    Seq::new(len as nat, |i: int| (i + 40) as u8)
}

/// The fixed content of a UDP probe: `len` bytes counting up from 40.
pub fn gen_bytes(len: u8) -> (bytes: Vec<u8>)
    requires
        len <= MAX_FILL,
    ensures
        bytes@ == fill_of(len),
{
    let mut bytes: Vec<u8> = Vec::new();
    let mut n: u8 = 0;
    while n < len
        invariant
            n <= len <= MAX_FILL,
            bytes@ == fill_of(n),
        decreases len - n,
    {
        bytes.push(n + 40);
        n = n + 1;
    }
    bytes
}

/// One probe to send: towards whom, with what TTL or hop limit, carrying
/// which identifier, how long the send may take, and of which family.
#[derive(Clone, Copy, Debug, PartialEq, Eq, Structural)]
pub struct Probe {
    pub target: IpAddress,
    pub ttl: usize,
    pub id: usize,
    pub timeout: u64,
    pub mode: PingMode,
}

/// The probe of attempt `attempt` at hop `hop`: its TTL is the hop, its
/// identifier the one that names this hop and attempt on the wire.
pub open spec fn probe_of(
    ip: IpAddress,
    hop: usize,
    timeout: u64,
    mode: PingMode,
    attempts: usize,
    attempt: int,
) -> Probe {
    Probe {
        target: ip,
        ttl: hop,
        id: wire_identifier(mode, attempts as nat, hop as nat, attempt as nat) as usize,
        timeout,
        mode,
    }
}

/// The probes of hop `hop`, counted from one: one per attempt, in order.
pub fn send_probe(ip: IpAddress, hop: usize, timeout: u64, mode: PingMode, attempts: usize) -> (probes:
    Vec<Probe>)
    requires
        1 <= hop,
        attempts * hop + BASE_PORT <= usize::MAX,
    ensures
        probes@.len() == attempts,
        forall|n: int|
            0 <= n < attempts ==> probes@[n] == probe_of(ip, hop, timeout, mode, attempts, n),
{
    proof {
        assert(attempts * hop == attempts * (hop - 1) + attempts && attempts * (hop - 1) >= 0)
            by (nonlinear_arith)
            requires
                hop >= 1,
        ;
    }
    let first: usize = attempts * (hop - 1) + base_of(mode) as usize;
    let mut probes: Vec<Probe> = Vec::new();
    let mut n: usize = 0;
    while n < attempts
        invariant
            n <= attempts,
            attempts * (hop - 1) >= 0,
            first == attempts * (hop - 1) + wire_base(mode),
            first + attempts <= usize::MAX,
            probes@.len() == n,
            forall|k: int|
                0 <= k < n ==> probes@[k] == probe_of(ip, hop, timeout, mode, attempts, k),
        decreases attempts - n,
    {
        probes.push(Probe { target: ip, ttl: hop, id: first + n, timeout, mode });
        n = n + 1;
    }
    probes
}

/// The socket a probe leaves through.
#[derive(Clone, Copy, Debug, PartialEq, Eq, Structural)]
pub enum Transport {
    /// A raw socket of the IPv4 family, protocol ICMP.
    RawV4,
    /// A raw socket of the IPv6 family, protocol ICMPv6.
    RawV6,
    /// An unbound UDP socket.
    Udp,
}

/// A probe as it is handed to a socket.
#[derive(Clone, Debug, PartialEq, Eq)]
pub struct ProbePacket {
    /// The socket to open.
    pub transport: Transport,
    /// The TTL or hop limit to set on it.
    pub ttl: u32,
    /// The write timeout to set on it, in microseconds.
    pub timeout: u64,
    /// The destination port: the identifier of a UDP probe, zero otherwise.
    pub port: u16,
    /// The bytes to send.
    pub payload: Vec<u8>,
}

/// Why a probe is not sent.
#[derive(Clone, Copy, Debug, PartialEq, Eq, Structural)]
pub enum ProbeError {
    /// TCP probes are reserved and not built.
    UnsupportedMode,
    /// The identifier does not fit the 16-bit field that carries it.
    IdentifierOutOfRange,
    /// The TTL is zero or does not fit the 8-bit field that carries it.
    TtlOutOfRange,
}

/// What is wrong with a probe, the first fault in the order of `ProbeError`,
/// or nothing.
pub open spec fn probe_fault(ttl: usize, id: usize, mode: PingMode) -> Option<ProbeError> {
    if mode == PingMode::TCP {
        Some(ProbeError::UnsupportedMode)
    } else if id > 0xFFFF {
        Some(ProbeError::IdentifierOutOfRange)
    } else if ttl < 1 || ttl > 255 {
        Some(ProbeError::TtlOutOfRange)
    } else {
        None
    }
}

/// The socket that a probe of `mode` towards `ip` leaves through.
pub open spec fn transport_of(ip: IpAddress, mode: PingMode) -> Transport {
    if mode != PingMode::ICMP {
        Transport::Udp
    } else if ip is V4 {
        Transport::RawV4
    } else {
        Transport::RawV6
    }
}

/// The destination port of a probe: its identifier in UDP mode, zero for an
/// echo.
pub open spec fn port_of(id: usize, mode: PingMode) -> int {
    if mode == PingMode::ICMP {
        0
    } else {
        id as int
    }
}

/// The bytes of a probe: in ICMP mode a minimal echo request of the family
/// of `ip` with `id` as its sequence number and `identifier` as its
/// identifier, else the fixed UDP content.
pub open spec fn payload_of(ip: IpAddress, id: usize, mode: PingMode, identifier: u16) -> Seq<u8> {
    if mode != PingMode::ICMP {
        fill_of(UDP_PROBE_LEN)
    } else if ip is V4 {
        echo_request_of(blank_echo_bytes(), ICMPV4_ECHO_REQUEST, identifier, id as u16)
    } else {
        echo_request_of(blank_echo_bytes(), ICMPV6_ECHO_REQUEST, identifier, id as u16)
    }
}

/// Lays out one probe for the socket that will send it. An echo carries a
/// random identifier beside `id`; all else is fixed by the arguments.
pub fn send_probe_packet(ip: IpAddress, ttl: usize, id: usize, timeout: u64, mode: PingMode) -> (sent:
    Result<ProbePacket, ProbeError>)
    ensures
        sent is Ok <==> probe_fault(ttl, id, mode) is None,
        sent matches Err(e) ==> probe_fault(ttl, id, mode) == Some(e),
        sent matches Ok(packet) ==> {
            &&& packet.transport == transport_of(ip, mode)
            &&& packet.ttl == ttl
            &&& packet.timeout == timeout
            &&& packet.port == port_of(id, mode)
            &&& exists|identifier: u16| packet.payload@ == payload_of(ip, id, mode, identifier)
        },
{
    if mode == PingMode::TCP {
        return Err(ProbeError::UnsupportedMode);
    }
    let id16 = match fit_u16(id) {
        Some(id16) => id16,
        None => {
            return Err(ProbeError::IdentifierOutOfRange);
        },
    };
    let ttl16 = match fit_u16(ttl) {
        Some(ttl16) => ttl16,
        None => {
            return Err(ProbeError::TtlOutOfRange);
        },
    };
    if ttl16 < 1 || ttl16 > 255 {
        return Err(ProbeError::TtlOutOfRange);
    }
    let ttl32: u32 = ttl16.into();
    match mode {
        PingMode::ICMP => {
            let (transport, payload) = match ip {
                IpAddress::V4(_) => (Transport::RawV4, build_icmpv4_echo_packet(id16)),
                IpAddress::V6(_) => (Transport::RawV6, build_icmpv6_echo_packet(id16)),
            };
            proof {
                let kind = if ip is V4 {
                    ICMPV4_ECHO_REQUEST
                } else {
                    ICMPV6_ECHO_REQUEST
                };
                let identifier = choose|identifier: u16|
                    payload@ == echo_request_of(blank_echo_bytes(), kind, identifier, id16);
                assert(payload@ == payload_of(ip, id, mode, identifier));
            }
            Ok(ProbePacket { transport, ttl: ttl32, timeout, port: 0, payload })
        },
        _ => {
            let payload = gen_bytes(UDP_PROBE_LEN);
            assert(payload@ == payload_of(ip, id, mode, 0));
            Ok(ProbePacket { transport: Transport::Udp, ttl: ttl32, timeout, port: id16, payload })
        },
    }
}

} // verus!
