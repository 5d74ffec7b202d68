use gtraceroute::addr::IpAddress;
use gtraceroute::bytes::{fit_u16, read_be16};
use gtraceroute::checksum::verify_checksum;
use gtraceroute::ident::{base_of, decode_identifier, encode_identifier, BASE_PORT};
use gtraceroute::packet::{
    gen_bytes, parse_packet, send_probe, send_probe_packet, Probe, ProbeError, Transport,
};
use gtraceroute::tracer::PingMode;

#[test]
fn base_port_is_the_traditional_one() {
    assert_eq!(BASE_PORT, 33433);
    assert_eq!(base_of(PingMode::ICMP), 0);
    assert_eq!(base_of(PingMode::UDP), 33433);
    assert_eq!(base_of(PingMode::TCP), 33433);
}

#[test]
fn single_attempt_identifier_is_the_hop_less_one() {
    for hop in 1..=100usize {
        assert_eq!(encode_identifier(PingMode::ICMP, 1, hop, 0), Some((hop - 1) as u16));
        assert_eq!(encode_identifier(PingMode::UDP, 1, hop, 0), Some((hop - 1 + 33433) as u16));
    }
}

#[test]
fn identifier_formula() {
    assert_eq!(encode_identifier(PingMode::ICMP, 3, 3, 1), Some(7));
    assert_eq!(encode_identifier(PingMode::UDP, 3, 3, 1), Some(33440));
    assert_eq!(encode_identifier(PingMode::TCP, 3, 3, 1), Some(33440));
    assert_eq!(decode_identifier(PingMode::UDP, 3, 33440), Some((3, 1)));
    assert_eq!(decode_identifier(PingMode::ICMP, 3, 7), Some((3, 1)));
}

#[test]
fn encoding_is_a_bijection() {
    for mode in [PingMode::ICMP, PingMode::UDP, PingMode::TCP] {
        for attempts in 1..=5usize {
            let max_hops = 40usize;
            let mut seen = vec![false; attempts * max_hops];
            for hop in 1..=max_hops {
                for attempt in 0..attempts {
                    let wire = encode_identifier(mode, attempts, hop, attempt).unwrap();
                    assert_eq!(decode_identifier(mode, attempts, wire), Some((hop, attempt)));
                    let raw = (wire - base_of(mode)) as usize;
                    assert!(!seen[raw]);
                    seen[raw] = true;
                }
            }
            assert!(seen.iter().all(|s| *s));
        }
    }
}

#[test]
fn identifiers_that_name_no_probe() {
    assert_eq!(encode_identifier(PingMode::ICMP, 3, 0, 0), None);
    assert_eq!(encode_identifier(PingMode::ICMP, 3, 1, 3), None);
    assert_eq!(encode_identifier(PingMode::ICMP, 0, 1, 0), None);
    assert_eq!(encode_identifier(PingMode::ICMP, 1, 65_536, 0), Some(65_535));
    assert_eq!(encode_identifier(PingMode::ICMP, 1, 65_537, 0), None);
    assert_eq!(encode_identifier(PingMode::UDP, 1, 32_103, 0), Some(65_535));
    assert_eq!(encode_identifier(PingMode::UDP, 1, 32_104, 0), None);
    assert_eq!(encode_identifier(PingMode::UDP, usize::MAX, usize::MAX, 0), None);
    assert_eq!(decode_identifier(PingMode::UDP, 1, 33_432), None);
    assert_eq!(decode_identifier(PingMode::UDP, 1, 33_433), Some((1, 0)));
    assert_eq!(decode_identifier(PingMode::ICMP, 0, 5), None);
    assert_eq!(decode_identifier(PingMode::ICMP, 4, 65_535), Some((16_384, 3)));
}

#[test]
fn helpers_read_and_narrow() {
    assert_eq!(read_be16(&[0, 0x12, 0x34, 0], 1), 0x1234);
    assert_eq!(fit_u16(0), Some(0));
    assert_eq!(fit_u16(65_535), Some(65_535));
    assert_eq!(fit_u16(65_536), None);
    assert_eq!(IpAddress::v4(8, 8, 4, 4), IpAddress::V4(0x0808_0404));
    assert!(IpAddress::v4(1, 2, 3, 4).is_v4());
    assert!(!IpAddress::V6(1).is_v4());
}

#[test]
fn probes_of_a_hop() {
    let target = IpAddress::v4(1, 1, 1, 1);
    let probes = send_probe(target, 3, 1_000_000, PingMode::UDP, 3);
    assert_eq!(
        probes,
        vec![
            Probe { target, ttl: 3, id: 33439, timeout: 1_000_000, mode: PingMode::UDP },
            Probe { target, ttl: 3, id: 33440, timeout: 1_000_000, mode: PingMode::UDP },
            Probe { target, ttl: 3, id: 33441, timeout: 1_000_000, mode: PingMode::UDP },
        ]
    );
    let echoes = send_probe(target, 1, 5, PingMode::ICMP, 2);
    assert_eq!(echoes.iter().map(|p| p.id).collect::<Vec<_>>(), vec![0, 1]);
    assert_eq!(send_probe(target, 9, 5, PingMode::ICMP, 0), vec![]);
}

#[test]
fn udp_probe_packet() {
    let target = IpAddress::v4(1, 1, 1, 1);
    let packet = send_probe_packet(target, 7, 33440, 250, PingMode::UDP).unwrap();
    assert_eq!(packet.transport, Transport::Udp);
    assert_eq!(packet.ttl, 7);
    assert_eq!(packet.port, 33440);
    assert_eq!(packet.timeout, 250);
    assert_eq!(packet.payload, gen_bytes(32));
    assert_eq!(packet.payload, (40u8..72).collect::<Vec<u8>>());
    let six = send_probe_packet(IpAddress::V6(1), 7, 33440, 250, PingMode::UDP).unwrap();
    assert_eq!(six.transport, Transport::Udp);
}

#[test]
fn echo_probe_packet() {
    let four = send_probe_packet(IpAddress::v4(8, 8, 8, 8), 2, 1, 1_000, PingMode::ICMP).unwrap();
    assert_eq!(four.transport, Transport::RawV4);
    assert_eq!(four.ttl, 2);
    assert_eq!(four.port, 0);
    assert_eq!(four.timeout, 1_000);
    assert_eq!(four.payload.len(), 8);
    assert_eq!(four.payload[0], 8);
    assert_eq!(&four.payload[6..8], &[0, 1]);
    assert!(verify_checksum(&four.payload));
    let six = send_probe_packet(IpAddress::V6(9), 255, 0x0A0B, 1, PingMode::ICMP).unwrap();
    assert_eq!(six.transport, Transport::RawV6);
    assert_eq!(six.ttl, 255);
    assert_eq!(six.payload[0], 128);
    assert_eq!(&six.payload[6..8], &[0x0A, 0x0B]);
    assert!(verify_checksum(&six.payload));
}

#[test]
fn probe_faults() {
    let target = IpAddress::v4(8, 8, 8, 8);
    assert_eq!(
        send_probe_packet(target, 1, 1, 1, PingMode::TCP),
        Err(ProbeError::UnsupportedMode)
    );
    assert_eq!(
        send_probe_packet(target, 0, 70_000, 1, PingMode::TCP),
        Err(ProbeError::UnsupportedMode)
    );
    assert_eq!(
        send_probe_packet(target, 1, 65_536, 1, PingMode::ICMP),
        Err(ProbeError::IdentifierOutOfRange)
    );
    assert_eq!(
        send_probe_packet(target, 0, 65_536, 1, PingMode::UDP),
        Err(ProbeError::IdentifierOutOfRange)
    );
    assert_eq!(
        send_probe_packet(target, 0, 1, 1, PingMode::ICMP),
        Err(ProbeError::TtlOutOfRange)
    );
    assert_eq!(
        send_probe_packet(target, 256, 1, 1, PingMode::UDP),
        Err(ProbeError::TtlOutOfRange)
    );
    assert_eq!(
        send_probe_packet(target, usize::MAX, 1, 1, PingMode::UDP),
        Err(ProbeError::TtlOutOfRange)
    );
    assert!(send_probe_packet(target, 255, 65_535, 1, PingMode::UDP).is_ok());
}

#[test]
fn a_quoted_probe_names_itself() {
    // What a router would send back for each probe of a hop is read as that hop.
    let target = IpAddress::v4(1, 1, 1, 1);
    for probe in send_probe(target, 4, 1, PingMode::UDP, 3) {
        let mut datagram = vec![0u8; 20 + 36];
        datagram[0] = 0x45;
        datagram[3] = 56;
        datagram[12..16].copy_from_slice(&[10, 0, 0, 4]);
        datagram[20] = 11;
        datagram[50] = (probe.id >> 8) as u8;
        datagram[51] = probe.id as u8;
        let reply = parse_packet(&datagram, target, PingMode::UDP, 3).unwrap();
        assert_eq!(reply.0, IpAddress::v4(10, 0, 0, 4));
        assert_eq!(reply.1, probe.ttl);
        assert_eq!(reply.2, probe.id - 33433 - 9);
        assert!(!reply.3);
    }
}
