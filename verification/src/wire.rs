//! The header views of `nex_packet`, each call behind a contract over the
//! bytes it reads or writes. Nothing in this file is proved: the contracts
//! state what the packet definitions of `nex_packet` lay down.

use crate::bytes::{be_uint, field16, with_field16};
use nex_packet::icmp::echo_request::MutableEchoRequestPacket as EchoRequestV4;
use nex_packet::icmp::{IcmpPacket, IcmpType};
use nex_packet::icmpv6::echo_request::MutableEchoRequestPacket as EchoRequestV6;
use nex_packet::icmpv6::{Icmpv6Packet, Icmpv6Type};
use nex_packet::ipv4::Ipv4Packet;
use nex_packet::ipv6::Ipv6Packet;
use nex_packet::Packet;
use vstd::prelude::*;

verus! {

/// Bytes of an IPv4 header without options.
pub const IPV4_HEADER_LEN: usize = 20;

/// Bytes of the fixed IPv6 header.
pub const IPV6_HEADER_LEN: usize = 40;

/// Bytes of what every ICMP message begins with: type, code, checksum.
pub const ICMP_HEADER_LEN: usize = 4;

/// Bytes of an echo header: type, code, checksum, identifier, sequence number.
pub const ECHO_HEADER_LEN: usize = 8;

/// The ICMP messages that a trace tells apart.
#[derive(Clone, Copy, Debug, PartialEq, Eq, Structural)]
pub enum MessageKind {
    EchoReply,
    DestinationUnreachable,
    TimeExceeded,
    Other,
}

/// What an ICMPv4 type byte announces.
pub open spec fn kind_v4(type_byte: u8) -> MessageKind {
    if type_byte == 0 {
        MessageKind::EchoReply
    } else if type_byte == 3 {
        MessageKind::DestinationUnreachable
    } else if type_byte == 11 {
        MessageKind::TimeExceeded
    } else {
        MessageKind::Other
    }
}

/// What an ICMPv6 type byte announces. ICMPv6 has no message that ends a
/// trace by reporting a closed port, so nothing maps to
/// `DestinationUnreachable`.
pub open spec fn kind_v6(type_byte: u8) -> MessageKind {
    if type_byte == 129 {
        MessageKind::EchoReply
    } else if type_byte == 3 {
        MessageKind::TimeExceeded
    } else {
        MessageKind::Other
    }
}

/// Length in bytes that the IPv4 header of `datagram` claims for itself.
pub open spec fn ipv4_claimed_header_len(datagram: Seq<u8>) -> int {
    (datagram[0] % 16) * 4
}

/// Where the payload of an IPv4 datagram begins: after the claimed header,
/// and never inside the fixed 20 bytes.
pub open spec fn ipv4_payload_start(datagram: Seq<u8>) -> int {
    if ipv4_claimed_header_len(datagram) < 20 {
        20
    } else {
        ipv4_claimed_header_len(datagram)
    }
}

/// Where the payload of an IPv4 datagram ends: where the total-length field
/// puts it, and never past the bytes at hand.
pub open spec fn ipv4_payload_end(datagram: Seq<u8>) -> int {
    let claimed = field16(datagram, 2) - ipv4_claimed_header_len(datagram);
    let end = ipv4_payload_start(datagram) + (if claimed < 0 {
        0
    } else {
        claimed
    });
    if end < datagram.len() {
        end
    } else {
        datagram.len() as int
    }
}

/// The payload of an IPv4 datagram of at least 20 bytes.
pub open spec fn ipv4_payload_of(datagram: Seq<u8>) -> Seq<u8> {
    if datagram.len() <= ipv4_payload_start(datagram) {
        Seq::empty()
    } else {
        datagram.subrange(ipv4_payload_start(datagram), ipv4_payload_end(datagram))
    }
}

/// Where the payload of an IPv6 datagram ends: where the payload-length field
/// puts it, and never past the bytes at hand.
pub open spec fn ipv6_payload_end(datagram: Seq<u8>) -> int {
    let end = 40 + field16(datagram, 4) as int;
    if end < datagram.len() {
        end
    } else {
        datagram.len() as int
    }
}

/// The payload of an IPv6 datagram of at least 40 bytes: what follows the
/// fixed header.
pub open spec fn ipv6_payload_of(datagram: Seq<u8>) -> Seq<u8> {
    if datagram.len() <= 40 {
        Seq::empty()
    } else {
        datagram.subrange(40, ipv6_payload_end(datagram))
    }
}

/// `Ipv4Packet::get_source` on the view that `Ipv4Packet::new` gives of
/// `datagram`. The view exists from 20 bytes on; the source address is bytes
/// 12 to 15.
#[verifier::external_body]
pub(crate) fn ipv4_source(datagram: &[u8]) -> (source: Option<u32>)
    ensures
        source is Some <==> datagram@.len() >= IPV4_HEADER_LEN,
        source matches Some(bits) ==> bits == be_uint(datagram@.subrange(12, 16)),
{
    match Ipv4Packet::new(datagram) {
        Some(packet) => Some(u32::from(packet.get_source())),
        None => None,
    }
}

/// `Ipv4Packet::payload` on the view that `Ipv4Packet::new` gives of
/// `datagram`: a copy of the bytes between the end of the header and the end
/// that the total-length field names.
#[verifier::external_body]
pub(crate) fn ipv4_payload(datagram: &[u8]) -> (payload: Option<Vec<u8>>)
    ensures
        payload is Some <==> datagram@.len() >= IPV4_HEADER_LEN,
        payload matches Some(bytes) ==> bytes@ == ipv4_payload_of(datagram@),
{
    match Ipv4Packet::new(datagram) {
        Some(packet) => Some(packet.payload().to_vec()),
        None => None,
    }
}

/// `Ipv6Packet::get_source` on the view that `Ipv6Packet::new` gives of
/// `datagram`. The view exists from 40 bytes on; the source address is bytes
/// 8 to 23.
#[verifier::external_body]
pub(crate) fn ipv6_source(datagram: &[u8]) -> (source: Option<u128>)
    ensures
        source is Some <==> datagram@.len() >= IPV6_HEADER_LEN,
        source matches Some(bits) ==> bits == be_uint(datagram@.subrange(8, 24)),
{
    match Ipv6Packet::new(datagram) {
        Some(packet) => Some(u128::from(packet.get_source())),
        None => None,
    }
}

/// `Ipv6Packet::payload` on the view that `Ipv6Packet::new` gives of
/// `datagram`: a copy of the bytes between the fixed header and the end that
/// the payload-length field names.
#[verifier::external_body]
pub(crate) fn ipv6_payload(datagram: &[u8]) -> (payload: Option<Vec<u8>>)
    ensures
        payload is Some <==> datagram@.len() >= IPV6_HEADER_LEN,
        payload matches Some(bytes) ==> bytes@ == ipv6_payload_of(datagram@),
{
    match Ipv6Packet::new(datagram) {
        Some(packet) => Some(packet.payload().to_vec()),
        None => None,
    }
}

/// `IcmpPacket::get_icmp_type` on the view that `IcmpPacket::new` gives of
/// `message`. The view exists from 4 bytes on; the type is byte 0.
#[verifier::external_body]
pub(crate) fn message_kind_v4(message: &[u8]) -> (kind: Option<MessageKind>)
    ensures
        kind is Some <==> message@.len() >= ICMP_HEADER_LEN,
        kind matches Some(k) ==> k == kind_v4(message@[0]),
{
    match IcmpPacket::new(message) {
        Some(packet) => Some(
            match packet.get_icmp_type() {
                IcmpType::EchoReply => MessageKind::EchoReply,
                IcmpType::DestinationUnreachable => MessageKind::DestinationUnreachable,
                IcmpType::TimeExceeded => MessageKind::TimeExceeded,
                _ => MessageKind::Other,
            },
        ),
        None => None,
    }
}

/// `Icmpv6Packet::get_icmpv6_type` on the view that `Icmpv6Packet::new` gives
/// of `message`. The view exists from 4 bytes on; the type is byte 0.
#[verifier::external_body]
pub(crate) fn message_kind_v6(message: &[u8]) -> (kind: Option<MessageKind>)
    ensures
        kind is Some <==> message@.len() >= ICMP_HEADER_LEN,
        kind matches Some(k) ==> k == kind_v6(message@[0]),
{
    match Icmpv6Packet::new(message) {
        Some(packet) => Some(
            match packet.get_icmpv6_type() {
                Icmpv6Type::EchoReply => MessageKind::EchoReply,
                Icmpv6Type::TimeExceeded => MessageKind::TimeExceeded,
                _ => MessageKind::Other,
            },
        ),
        None => None,
    }
}

/// `MutableEchoRequestPacket::set_icmp_type` of the ICMPv4 echo request laid
/// over `message`: byte 0 becomes `type_byte`.
#[verifier::external_body]
pub(crate) fn echo_v4_set_type(message: &mut Vec<u8>, type_byte: u8)
    requires
        old(message)@.len() >= ECHO_HEADER_LEN,
    ensures
        final(message)@ == old(message)@.update(0, type_byte),
{
    if let Some(mut packet) = EchoRequestV4::new(&mut message[..]) {
        packet.set_icmp_type(IcmpType::new(type_byte));
    }
}

/// `MutableEchoRequestPacket::set_identifier` of the ICMPv4 echo request laid
/// over `message`: bytes 4 and 5 become `identifier`, high byte first.
#[verifier::external_body]
pub(crate) fn echo_v4_set_identifier(message: &mut Vec<u8>, identifier: u16)
    requires
        old(message)@.len() >= ECHO_HEADER_LEN,
    ensures
        final(message)@ == with_field16(old(message)@, 4, identifier),
{
    if let Some(mut packet) = EchoRequestV4::new(&mut message[..]) {
        packet.set_identifier(identifier);
    }
}

/// `MutableEchoRequestPacket::set_sequence_number` of the ICMPv4 echo request
/// laid over `message`: bytes 6 and 7 become `sequence_number`, high byte
/// first.
#[verifier::external_body]
pub(crate) fn echo_v4_set_sequence_number(message: &mut Vec<u8>, sequence_number: u16)
    requires
        old(message)@.len() >= ECHO_HEADER_LEN,
    ensures
        final(message)@ == with_field16(old(message)@, 6, sequence_number),
{
    if let Some(mut packet) = EchoRequestV4::new(&mut message[..]) {
        packet.set_sequence_number(sequence_number);
    }
}

/// `MutableEchoRequestPacket::set_checksum` of the ICMPv4 echo request laid
/// over `message`: bytes 2 and 3 become `checksum`, high byte first.
#[verifier::external_body]
pub(crate) fn echo_v4_set_checksum(message: &mut Vec<u8>, checksum: u16)
    requires
        old(message)@.len() >= ECHO_HEADER_LEN,
    ensures
        final(message)@ == with_field16(old(message)@, 2, checksum),
{
    if let Some(mut packet) = EchoRequestV4::new(&mut message[..]) {
        packet.set_checksum(checksum);
    }
}

/// `MutableEchoRequestPacket::set_icmpv6_type` of the ICMPv6 echo request laid
/// over `message`: byte 0 becomes `type_byte`.
#[verifier::external_body]
pub(crate) fn echo_v6_set_type(message: &mut Vec<u8>, type_byte: u8)
    requires
        old(message)@.len() >= ECHO_HEADER_LEN,
    ensures
        final(message)@ == old(message)@.update(0, type_byte),
{
    if let Some(mut packet) = EchoRequestV6::new(&mut message[..]) {
        packet.set_icmpv6_type(Icmpv6Type::new(type_byte));
    }
}

/// `MutableEchoRequestPacket::set_identifier` of the ICMPv6 echo request laid
/// over `message`: bytes 4 and 5 become `identifier`, high byte first.
#[verifier::external_body]
pub(crate) fn echo_v6_set_identifier(message: &mut Vec<u8>, identifier: u16)
    requires
        old(message)@.len() >= ECHO_HEADER_LEN,
    ensures
        final(message)@ == with_field16(old(message)@, 4, identifier),
{
    if let Some(mut packet) = EchoRequestV6::new(&mut message[..]) {
        packet.set_identifier(identifier);
    }
}

/// `MutableEchoRequestPacket::set_sequence_number` of the ICMPv6 echo request
/// laid over `message`: bytes 6 and 7 become `sequence_number`, high byte
/// first.
#[verifier::external_body]
pub(crate) fn echo_v6_set_sequence_number(message: &mut Vec<u8>, sequence_number: u16)
    requires
        old(message)@.len() >= ECHO_HEADER_LEN,
    ensures
        final(message)@ == with_field16(old(message)@, 6, sequence_number),
{
    if let Some(mut packet) = EchoRequestV6::new(&mut message[..]) {
        packet.set_sequence_number(sequence_number);
    }
}

/// `MutableEchoRequestPacket::set_checksum` of the ICMPv6 echo request laid
/// over `message`: bytes 2 and 3 become `checksum`, high byte first.
#[verifier::external_body]
pub(crate) fn echo_v6_set_checksum(message: &mut Vec<u8>, checksum: u16)
    requires
        old(message)@.len() >= ECHO_HEADER_LEN,
    ensures
        final(message)@ == with_field16(old(message)@, 2, checksum),
{
    if let Some(mut packet) = EchoRequestV6::new(&mut message[..]) {
        packet.set_checksum(checksum);
    }
}

} // verus!
