use gtraceroute::addr::IpAddress;
use gtraceroute::checksum::verify_checksum;
use gtraceroute::packet::{
    build_icmpv4_echo_packet, build_icmpv4_packet, build_icmpv6_echo_packet, build_icmpv6_packet,
    gen_bytes, parse_ip, parse_packet, parse_reply, BuildError,
};
use gtraceroute::tracer::{PingMode, TraceOpts};

const GOOGLE: [u8; 4] = [8, 8, 8, 8];
const ROUTER: [u8; 4] = [10, 0, 0, 1];

fn v4(octets: [u8; 4]) -> IpAddress {
    IpAddress::v4(octets[0], octets[1], octets[2], octets[3])
}

/// An IPv4 datagram without options around `message`.
fn ipv4_datagram(source: [u8; 4], message: &[u8]) -> Vec<u8> {
    let total = 20 + message.len();
    let mut datagram = vec![0u8; 20];
    datagram[0] = 0x45;
    datagram[2] = (total >> 8) as u8;
    datagram[3] = total as u8;
    datagram[8] = 64;
    datagram[9] = 1;
    datagram[12..16].copy_from_slice(&source);
    datagram[16..20].copy_from_slice(&[192, 168, 0, 2]);
    datagram.extend_from_slice(message);
    datagram
}

/// An IPv6 datagram around `message`.
fn ipv6_datagram(source: u128, message: &[u8]) -> Vec<u8> {
    let mut datagram = vec![0u8; 40];
    datagram[0] = 0x60;
    datagram[4] = (message.len() >> 8) as u8;
    datagram[5] = message.len() as u8;
    datagram[6] = 58;
    datagram[7] = 64;
    datagram[8..24].copy_from_slice(&source.to_be_bytes());
    datagram.extend_from_slice(message);
    datagram
}

/// An ICMP message of `len` bytes and type `kind` that shows `identifier` at
/// byte `at`.
fn message_with(kind: u8, len: usize, at: usize, identifier: u16) -> Vec<u8> {
    let mut message = vec![0u8; len];
    message[0] = kind;
    message[at] = (identifier >> 8) as u8;
    message[at + 1] = identifier as u8;
    message
}

#[test]
fn time_exceeded_names_the_first_hop() {
    let message = message_with(11, 36, 34, 0);
    let datagram = ipv4_datagram(ROUTER, &message);
    assert_eq!(
        parse_packet(&datagram, v4(GOOGLE), PingMode::ICMP, 1),
        Some((v4(ROUTER), 1, 0, false))
    );
}

#[test]
fn echo_reply_from_the_target_is_terminal() {
    let message = message_with(0, 8, 6, 1);
    let datagram = ipv4_datagram(GOOGLE, &message);
    assert_eq!(
        parse_packet(&datagram, v4(GOOGLE), PingMode::ICMP, 1),
        Some((v4(GOOGLE), 2, 0, true))
    );
}

#[test]
fn echo_reply_with_sequence_zero_is_the_first_hop() {
    let message = message_with(0, 8, 6, 0);
    let datagram = ipv4_datagram(GOOGLE, &message);
    assert_eq!(
        parse_packet(&datagram, v4(GOOGLE), PingMode::ICMP, 1),
        Some((v4(GOOGLE), 1, 0, true))
    );
}

#[test]
fn udp_destination_unreachable_three_attempts() {
    let target = IpAddress::v4(1, 1, 1, 1);
    let message = message_with(3, 36, 30, 33440);
    let datagram = ipv4_datagram([1, 1, 1, 1], &message);
    assert_eq!(
        parse_packet(&datagram, target, PingMode::UDP, 3),
        Some((target, 3, 1, true))
    );
    let opts = TraceOpts {
        target,
        mode: PingMode::UDP,
        max_hops: 3,
        attempts: 3,
        ..TraceOpts::default()
    };
    assert_eq!(parse_reply(&datagram, &opts), Some((target, 3, 1, true)));
}

#[test]
fn ipv6_time_exceeded() {
    let target = IpAddress::V6(0x2606_4700_4700_0000_0000_0000_0000_1111);
    let router: u128 = 0x2001_0db8_0000_0000_0000_0000_0000_0001;
    let message = message_with(3, 56, 54, 2);
    let datagram = ipv6_datagram(router, &message);
    assert_eq!(
        parse_packet(&datagram, target, PingMode::ICMP, 1),
        Some((IpAddress::V6(router), 3, 0, false))
    );
}

#[test]
fn ipv6_echo_reply_from_the_target() {
    let bits: u128 = 0x2606_4700_4700_0000_0000_0000_0000_1111;
    let message = message_with(129, 8, 6, 5);
    let datagram = ipv6_datagram(bits, &message);
    assert_eq!(
        parse_packet(&datagram, IpAddress::V6(bits), PingMode::ICMP, 2),
        Some((IpAddress::V6(bits), 3, 1, true))
    );
}

#[test]
fn ipv6_type_three_is_time_exceeded_not_unreachable() {
    let bits: u128 = 0x2606_4700_4700_0000_0000_0000_0000_1111;
    let message = message_with(3, 56, 54, 33433 + 4);
    let datagram = ipv6_datagram(bits, &message);
    assert_eq!(
        parse_packet(&datagram, IpAddress::V6(bits), PingMode::UDP, 1),
        Some((IpAddress::V6(bits), 5, 0, false))
    );
    let unreachable = message_with(1, 56, 54, 33433 + 4);
    let datagram = ipv6_datagram(bits, &unreachable);
    assert_eq!(parse_packet(&datagram, IpAddress::V6(bits), PingMode::UDP, 1), None);
}

#[test]
fn stray_echo_reply_is_not_ours() {
    let message = message_with(0, 8, 6, 1);
    let datagram = ipv4_datagram([9, 9, 9, 9], &message);
    assert_eq!(parse_packet(&datagram, v4(GOOGLE), PingMode::ICMP, 1), None);
}

#[test]
fn echo_reply_in_udp_mode_is_not_ours() {
    let message = message_with(0, 8, 6, 1);
    let datagram = ipv4_datagram(GOOGLE, &message);
    assert_eq!(parse_packet(&datagram, v4(GOOGLE), PingMode::UDP, 1), None);
}

#[test]
fn destination_unreachable_needs_udp_mode_and_the_target() {
    let message = message_with(3, 36, 30, 33433);
    let from_target = ipv4_datagram(GOOGLE, &message);
    let from_router = ipv4_datagram(ROUTER, &message);
    assert_eq!(
        parse_packet(&from_target, v4(GOOGLE), PingMode::UDP, 1),
        Some((v4(GOOGLE), 1, 0, true))
    );
    assert_eq!(parse_packet(&from_target, v4(GOOGLE), PingMode::ICMP, 1), None);
    assert_eq!(parse_packet(&from_router, v4(GOOGLE), PingMode::UDP, 1), None);
}

#[test]
fn time_exceeded_round_trip_every_mode() {
    for attempts in 1..=4usize {
        for hop in 1..=30usize {
            for attempt in 0..attempts {
                let raw = (attempts * (hop - 1) + attempt) as u16;
                let echo = ipv4_datagram(ROUTER, &message_with(11, 36, 34, raw));
                assert_eq!(
                    parse_packet(&echo, v4(GOOGLE), PingMode::ICMP, attempts),
                    Some((v4(ROUTER), hop, attempt, false))
                );
                let udp = ipv4_datagram(ROUTER, &message_with(11, 36, 30, raw + 33433));
                assert_eq!(
                    parse_packet(&udp, v4(GOOGLE), PingMode::UDP, attempts),
                    Some((v4(ROUTER), hop, attempt, false))
                );
                let target = IpAddress::V6(1);
                let six = ipv6_datagram(77, &message_with(3, 56, 54, raw));
                assert_eq!(
                    parse_packet(&six, target, PingMode::ICMP, attempts),
                    Some((IpAddress::V6(77), hop, attempt, false))
                );
                let six_udp = ipv6_datagram(77, &message_with(3, 56, 54, raw + 33433));
                assert_eq!(
                    parse_packet(&six_udp, target, PingMode::UDP, attempts),
                    Some((IpAddress::V6(77), hop, attempt, false))
                );
                assert_eq!(
                    parse_packet(&six_udp, target, PingMode::TCP, attempts),
                    Some((IpAddress::V6(77), hop, attempt, false))
                );
            }
        }
    }
}

#[test]
fn tcp_over_ipv4_is_not_read() {
    let datagram = ipv4_datagram(ROUTER, &message_with(11, 36, 30, 33433));
    assert_eq!(parse_packet(&datagram, v4(GOOGLE), PingMode::TCP, 1), None);
}

#[test]
fn port_below_the_base_is_not_ours() {
    let datagram = ipv4_datagram(ROUTER, &message_with(11, 36, 30, 33432));
    assert_eq!(parse_packet(&datagram, v4(GOOGLE), PingMode::UDP, 1), None);
}

#[test]
fn zero_attempts_reads_nothing() {
    let datagram = ipv4_datagram(ROUTER, &message_with(11, 36, 34, 0));
    assert_eq!(parse_packet(&datagram, v4(GOOGLE), PingMode::ICMP, 0), None);
}

#[test]
fn truncated_buffers_are_not_ours() {
    let full = ipv4_datagram(ROUTER, &message_with(11, 36, 34, 3));
    assert!(parse_packet(&full, v4(GOOGLE), PingMode::ICMP, 1).is_some());
    for len in 0..full.len() {
        assert_eq!(parse_packet(&full[..len], v4(GOOGLE), PingMode::ICMP, 1), None);
    }
    let six = ipv6_datagram(77, &message_with(3, 56, 54, 3));
    assert!(parse_packet(&six, IpAddress::V6(1), PingMode::ICMP, 1).is_some());
    for len in 0..six.len() {
        assert_eq!(parse_packet(&six[..len], IpAddress::V6(1), PingMode::ICMP, 1), None);
    }
    let reply = ipv4_datagram(GOOGLE, &message_with(0, 8, 6, 1));
    for len in 0..reply.len() {
        assert_eq!(parse_packet(&reply[..len], v4(GOOGLE), PingMode::ICMP, 1), None);
    }
}

#[test]
fn total_length_bounds_the_message() {
    let mut datagram = ipv4_datagram(ROUTER, &message_with(11, 36, 34, 3));
    // The header claims a datagram that ends before the quoted sequence number.
    datagram[3] = 20 + 35;
    assert_eq!(parse_packet(&datagram, v4(GOOGLE), PingMode::ICMP, 1), None);
    datagram[3] = 20 + 36;
    assert_eq!(
        parse_packet(&datagram, v4(GOOGLE), PingMode::ICMP, 1),
        Some((v4(ROUTER), 4, 0, false))
    );
    // Bytes past the claimed end are no part of the message.
    datagram.extend_from_slice(&[0xAA; 12]);
    assert_eq!(
        parse_packet(&datagram, v4(GOOGLE), PingMode::ICMP, 1),
        Some((v4(ROUTER), 4, 0, false))
    );
}

#[test]
fn ipv4_options_move_the_message() {
    let message = message_with(11, 36, 34, 6);
    let mut datagram = vec![0u8; 24];
    let total = 24 + message.len();
    datagram[0] = 0x46;
    datagram[3] = total as u8;
    datagram[12..16].copy_from_slice(&ROUTER);
    datagram.extend_from_slice(&message);
    assert_eq!(
        parse_packet(&datagram, v4(GOOGLE), PingMode::ICMP, 2),
        Some((v4(ROUTER), 4, 0, false))
    );
}

#[test]
fn ipv6_payload_length_bounds_the_message() {
    let mut datagram = ipv6_datagram(77, &message_with(3, 56, 54, 3));
    datagram[5] = 55;
    assert_eq!(parse_packet(&datagram, IpAddress::V6(1), PingMode::ICMP, 1), None);
}

#[test]
fn parse_ip_reads_the_message_alone() {
    let message = message_with(11, 36, 34, 7);
    assert_eq!(
        parse_ip(&message, v4(ROUTER), v4(GOOGLE), PingMode::ICMP, 3),
        Some((v4(ROUTER), 3, 1, false))
    );
    assert_eq!(parse_ip(&message[..3], v4(ROUTER), v4(GOOGLE), PingMode::ICMP, 3), None);
    let other = message_with(8, 36, 34, 7);
    assert_eq!(parse_ip(&other, v4(ROUTER), v4(GOOGLE), PingMode::ICMP, 3), None);
}

#[test]
fn parse_reply_drops_hops_past_max_hops() {
    let opts = TraceOpts {
        target: v4(GOOGLE),
        mode: PingMode::ICMP,
        max_hops: 5,
        attempts: 1,
        ..TraceOpts::default()
    };
    let fifth = ipv4_datagram(ROUTER, &message_with(11, 36, 34, 4));
    let sixth = ipv4_datagram(ROUTER, &message_with(11, 36, 34, 5));
    assert_eq!(parse_reply(&fifth, &opts), Some((v4(ROUTER), 5, 0, false)));
    assert_eq!(parse_reply(&sixth, &opts), None);
    assert_eq!(
        parse_packet(&sixth, v4(GOOGLE), PingMode::ICMP, 1),
        Some((v4(ROUTER), 6, 0, false))
    );
}

#[test]
fn built_v4_echo_is_an_echo_request() {
    for seq in [0u16, 1, 2, 255, 256, 0x1234, 0xFFFF] {
        let packet = build_icmpv4_echo_packet(seq);
        assert_eq!(packet.len(), 8);
        assert_eq!(packet[0], 8);
        assert_eq!(packet[1], 0);
        assert_eq!(u16::from_be_bytes([packet[6], packet[7]]), seq);
        assert!(verify_checksum(&packet));
        let view = nex_packet::icmp::echo_request::EchoRequestPacket::new(&packet).unwrap();
        assert_eq!(view.get_icmp_type(), nex_packet::icmp::IcmpType::EchoRequest);
        assert_eq!(view.get_sequence_number(), seq);
        let generic = nex_packet::icmp::IcmpPacket::new(&packet).unwrap();
        assert_eq!(nex_packet::icmp::checksum(&generic), generic.get_checksum());
    }
}

#[test]
fn built_v6_echo_is_an_echo_request() {
    for seq in [0u16, 1, 2, 255, 256, 0x1234, 0xFFFF] {
        let packet = build_icmpv6_echo_packet(seq);
        assert_eq!(packet.len(), 8);
        assert_eq!(packet[0], 128);
        assert_eq!(packet[1], 0);
        assert_eq!(u16::from_be_bytes([packet[6], packet[7]]), seq);
        assert!(verify_checksum(&packet));
        let view = nex_packet::icmpv6::echo_request::EchoRequestPacket::new(&packet).unwrap();
        assert_eq!(view.get_icmpv6_type(), nex_packet::icmpv6::Icmpv6Type::EchoRequest);
        assert_eq!(view.get_sequence_number(), seq);
    }
}

#[test]
fn build_keeps_the_payload_and_sets_the_code() {
    let mut packet: Vec<u8> = vec![0xEE; 13];
    assert_eq!(build_icmpv4_packet(&mut packet, 0x0102), Ok(()));
    assert_eq!(packet.len(), 13);
    assert_eq!(packet[0], 8);
    assert_eq!(packet[1], 0);
    assert_eq!(&packet[6..8], &[1, 2]);
    assert_eq!(&packet[8..], &[0xEE; 5]);
    assert!(verify_checksum(&packet));
    let mut six: Vec<u8> = vec![0x11; 12];
    assert_eq!(build_icmpv6_packet(&mut six, 0xA0B0), Ok(()));
    assert_eq!(six[0], 128);
    assert_eq!(six[1], 0);
    assert_eq!(&six[6..8], &[0xA0, 0xB0]);
    assert_eq!(&six[8..], &[0x11; 4]);
    assert!(verify_checksum(&six));
}

#[test]
fn build_refuses_a_short_or_long_buffer() {
    let mut short: Vec<u8> = vec![7; 7];
    assert_eq!(build_icmpv4_packet(&mut short, 1), Err(BuildError::TooShort));
    assert_eq!(short, vec![7; 7]);
    assert_eq!(build_icmpv6_packet(&mut short, 1), Err(BuildError::TooShort));
    assert_eq!(short, vec![7; 7]);
    let mut long: Vec<u8> = vec![7; 65536];
    assert_eq!(build_icmpv4_packet(&mut long, 1), Err(BuildError::TooLong));
    assert_eq!(build_icmpv6_packet(&mut long, 1), Err(BuildError::TooLong));
    assert_eq!(long, vec![7; 65536]);
    let mut longest: Vec<u8> = vec![0xFF; 65535];
    assert_eq!(build_icmpv4_packet(&mut longest, 1), Ok(()));
    assert!(verify_checksum(&longest));
}

#[test]
fn checksum_validation_on_known_messages() {
    // An echo request with identifier 1 and sequence number 1.
    assert!(verify_checksum(&[8, 0, 0xF7, 0xFD, 0, 1, 0, 1]));
    assert!(!verify_checksum(&[8, 0, 0xF7, 0xFC, 0, 1, 0, 1]));
    assert!(verify_checksum(&[0xFF, 0xFF]));
    assert!(!verify_checksum(&[]));
    assert!(!verify_checksum(&[0, 0]));
    // A trailing odd byte is the high half of a last word.
    assert!(verify_checksum(&[0x12, 0xFF, 0xED]));
    assert!(!verify_checksum(&[0x12, 0x34, 0xED]));
    assert!(verify_checksum(&[0x00, 0xFF, 0xFF]));
}

#[test]
fn gen_bytes_counts_up_from_forty() {
    assert_eq!(gen_bytes(0), Vec::<u8>::new());
    assert_eq!(gen_bytes(3), vec![40, 41, 42]);
    let probe = gen_bytes(32);
    assert_eq!(probe.len(), 32);
    assert_eq!(probe[31], 71);
    let full = gen_bytes(216);
    assert_eq!(full[215], 255);
}
