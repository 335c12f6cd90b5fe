use e_libscanner::capture::{poll_stop, process_frame, LoopState};
use e_libscanner::classify::{classify, Outcome};
use e_libscanner::codec::{build_icmp_packet, decode_frame, DecodedFrame, Transport};
use e_libscanner::data::Data;
use e_libscanner::net::{read_be, IpAddr};
use e_libscanner::result::{HostInfo, PortInfo, PortStatus, ScanResults};
use e_libscanner::setting::{ScanSetting, ScanType};
use e_libscanner::traceroute::TracertQueryResult;
use std::collections::HashMap;
use std::time::Duration;

const A: [u8; 4] = [192, 168, 1, 10];
const B: [u8; 4] = [10, 0, 0, 7];

fn addr(b: [u8; 4]) -> IpAddr {
    IpAddr::V4(u32::from_be_bytes(b))
}

fn ethernet(ethertype: u16, payload: &[u8]) -> Vec<u8> {
    let mut f = vec![0xaa; 12];
    f.extend_from_slice(&ethertype.to_be_bytes());
    f.extend_from_slice(payload);
    f
}

fn ipv4(src: [u8; 4], proto: u8, ttl: u8, payload: &[u8]) -> Vec<u8> {
    let total = (20 + payload.len()) as u16;
    let mut p = vec![0x45, 0];
    p.extend_from_slice(&total.to_be_bytes());
    p.extend_from_slice(&[0, 0, 0, 0, ttl, proto, 0, 0]);
    p.extend_from_slice(&src);
    p.extend_from_slice(&[192, 168, 1, 2]);
    p.extend_from_slice(payload);
    p
}

fn ipv6(src: u128, next: u8, hop_limit: u8, payload: &[u8]) -> Vec<u8> {
    let mut p = vec![0x60, 0, 0, 0];
    p.extend_from_slice(&(payload.len() as u16).to_be_bytes());
    p.push(next);
    p.push(hop_limit);
    p.extend_from_slice(&src.to_be_bytes());
    p.extend_from_slice(&1u128.to_be_bytes());
    p.extend_from_slice(payload);
    p
}

fn tcp(src_port: u16, flags: u8) -> Vec<u8> {
    let mut t = Vec::new();
    t.extend_from_slice(&src_port.to_be_bytes());
    t.extend_from_slice(&40000u16.to_be_bytes());
    t.extend_from_slice(&[0; 8]);
    t.push(0x50);
    t.push(flags);
    t.extend_from_slice(&[0; 6]);
    t
}

fn tcp_frame(src: [u8; 4], port: u16, flags: u8) -> Vec<u8> {
    ethernet(0x0800, &ipv4(src, 6, 64, &tcp(port, flags)))
}

fn icmp_frame(src: [u8; 4], icmp_type: u8, ttl: u8) -> Vec<u8> {
    ethernet(0x0800, &ipv4(src, 1, ttl, &[icmp_type, 0, 0, 0, 0, 1, 0, 1]))
}

fn setting(scan_type: ScanType, targets: &[[u8; 4]]) -> ScanSetting {
    ScanSetting {
        scan_type,
        timeout: Duration::from_secs(3).as_nanos(),
        ip_set: targets.iter().map(|t| addr(*t)).collect(),
    }
}

fn ports_data() -> Data {
    let mut portmap = HashMap::new();
    portmap.insert(80u16, "http".to_string());
    portmap.insert(22u16, "ssh".to_string());
    Data { portmap }
}

fn ports_of(r: &ScanResults, a: IpAddr) -> Vec<PortInfo> {
    r.result()
        .ip_with_port
        .iter()
        .filter(|e| e.0 == a)
        .flat_map(|e| e.1.clone())
        .collect()
}

fn total_ports(r: &ScanResults) -> usize {
    r.result().ip_with_port.iter().map(|e| e.1.len()).sum()
}

#[test]
fn read_be_reads_big_endian() {
    assert_eq!(read_be(&[0x12, 0x34, 0x56], 1, 2), 0x3456);
    assert_eq!(read_be(&[1, 2, 3, 4], 0, 4), 0x01020304);
    assert_eq!(read_be(&[9], 0, 0), 0);
}

#[test]
fn decode_short_frame_is_dropped() {
    assert_eq!(decode_frame(&[0u8; 13]), None);
    assert_eq!(decode_frame(&[]), None);
}

#[test]
fn decode_other_ethertype_is_dropped() {
    let f = ethernet(0x0806, &ipv4(A, 6, 64, &tcp(80, 0x12)));
    assert_eq!(decode_frame(&f), None);
}

#[test]
fn decode_truncated_ip_header_is_dropped() {
    let f = ethernet(0x0800, &[0x45, 0, 0, 20]);
    assert_eq!(decode_frame(&f), None);
}

#[test]
fn decode_ipv4_tcp() {
    let d = decode_frame(&tcp_frame(A, 443, 0x12)).unwrap();
    assert_eq!(
        d,
        DecodedFrame { source: addr(A), ttl: 64, transport: Transport::Tcp { source_port: 443, flags: 0x12 } }
    );
}

#[test]
fn decode_ipv4_short_tcp_is_dropped() {
    let f = ethernet(0x0800, &ipv4(A, 6, 64, &tcp(80, 0x12)[..19]));
    assert_eq!(decode_frame(&f), None);
}

#[test]
fn decode_ipv4_total_length_cuts_payload() {
    let mut p = ipv4(A, 6, 64, &tcp(80, 0x12));
    p[2] = 0;
    p[3] = 30;
    assert_eq!(decode_frame(&ethernet(0x0800, &p)), None);
}

#[test]
fn decode_ipv4_options_move_payload() {
    let seg = tcp(8080, 0x14);
    let mut p = ipv4(A, 6, 33, &[]);
    p[0] = 0x46;
    let total = (24 + seg.len()) as u16;
    p[2..4].copy_from_slice(&total.to_be_bytes());
    p.extend_from_slice(&[1, 1, 1, 1]);
    p.extend_from_slice(&seg);
    let d = decode_frame(&ethernet(0x0800, &p)).unwrap();
    assert_eq!(d.transport, Transport::Tcp { source_port: 8080, flags: 0x14 });
    assert_eq!(d.ttl, 33);
}

#[test]
fn decode_ipv4_udp_and_icmp() {
    let udp = [0x00, 0x35, 0x9c, 0x40, 0, 8, 0, 0];
    let d = decode_frame(&ethernet(0x0800, &ipv4(B, 17, 50, &udp))).unwrap();
    assert_eq!(d.transport, Transport::Udp { source_port: 53 });
    let d = decode_frame(&icmp_frame(B, 0, 120)).unwrap();
    assert_eq!(d, DecodedFrame { source: addr(B), ttl: 120, transport: Transport::Icmp { icmp_type: 0 } });
}

#[test]
fn decode_ipv4_unknown_protocol_is_dropped() {
    let f = ethernet(0x0800, &ipv4(A, 47, 64, &[0; 20]));
    assert_eq!(decode_frame(&f), None);
}

#[test]
fn decode_ipv6_icmpv6_and_tcp() {
    let src: u128 = 0x2001_0db8_0000_0000_0000_0000_0000_0001;
    let f = ethernet(0x86DD, &ipv6(src, 58, 255, &[129, 0, 0, 0, 0, 0, 0, 0]));
    let d = decode_frame(&f).unwrap();
    assert_eq!(d, DecodedFrame { source: IpAddr::V6(src), ttl: 255, transport: Transport::Icmp { icmp_type: 129 } });
    let f = ethernet(0x86DD, &ipv6(src, 6, 60, &tcp(22, 0x12)));
    let d = decode_frame(&f).unwrap();
    assert_eq!(d.transport, Transport::Tcp { source_port: 22, flags: 0x12 });
    let f = ethernet(0x86DD, &ipv6(src, 1, 60, &[129, 0, 0, 0]));
    assert_eq!(decode_frame(&f), None);
}

#[test]
fn classify_syn_scan_flags() {
    let s = setting(ScanType::TcpSynScan, &[A]);
    let d = decode_frame(&tcp_frame(A, 80, 0x12)).unwrap();
    assert_eq!(classify(&s, &d), Outcome::PortOpen(addr(A), 80));
    let d = decode_frame(&tcp_frame(A, 81, 0x14)).unwrap();
    assert_eq!(classify(&s, &d), Outcome::PortClosed(addr(A), 81));
    let d = decode_frame(&tcp_frame(A, 82, 0x02)).unwrap();
    assert_eq!(classify(&s, &d), Outcome::Nothing);
    let d = decode_frame(&tcp_frame(A, 83, 0x04)).unwrap();
    assert_eq!(classify(&s, &d), Outcome::Nothing);
}

#[test]
fn classify_tcp_ping_reports_host() {
    let s = setting(ScanType::TcpPingScan, &[A]);
    let d = decode_frame(&tcp_frame(A, 80, 0x14)).unwrap();
    assert_eq!(classify(&s, &d), Outcome::HostUp(HostInfo { ip_addr: addr(A), ttl: 64 }));
    let s = setting(ScanType::TcpConnectScan, &[A]);
    let d = decode_frame(&tcp_frame(A, 80, 0x12)).unwrap();
    assert_eq!(classify(&s, &d), Outcome::HostUp(HostInfo { ip_addr: addr(A), ttl: 64 }));
}

#[test]
fn classify_off_target_is_nothing() {
    for st in [ScanType::TcpSynScan, ScanType::TcpPingScan, ScanType::IcmpPingScan] {
        let s = setting(st, &[A]);
        let d = decode_frame(&tcp_frame(B, 80, 0x12)).unwrap();
        assert_eq!(classify(&s, &d), Outcome::Nothing);
        let d = decode_frame(&icmp_frame(B, 0, 64)).unwrap();
        assert_eq!(classify(&s, &d), Outcome::Nothing);
    }
}

#[test]
fn classify_icmp_and_udp() {
    let s = setting(ScanType::IcmpPingScan, &[A]);
    let d = decode_frame(&icmp_frame(A, 0, 57)).unwrap();
    assert_eq!(classify(&s, &d), Outcome::HostUp(HostInfo { ip_addr: addr(A), ttl: 57 }));
    let d = decode_frame(&icmp_frame(A, 3, 57)).unwrap();
    assert_eq!(classify(&s, &d), Outcome::Nothing);
    let s = setting(ScanType::UdpPingScan, &[A]);
    let udp = [0x00, 0x35, 0x9c, 0x40, 0, 8, 0, 0];
    let d = decode_frame(&ethernet(0x0800, &ipv4(A, 17, 50, &udp))).unwrap();
    assert_eq!(classify(&s, &d), Outcome::Nothing);
}

#[test]
fn syn_ack_records_one_open_port() {
    let s = setting(ScanType::TcpSynScan, &[A]);
    let data = ports_data();
    let mut r = ScanResults::new();
    process_frame(&mut r, &s, &data, &tcp_frame(A, 22, 0x12));
    assert!(r.contains_socket(addr(A), 22));
    let ports = ports_of(&r, addr(A));
    assert_eq!(ports.len(), 1);
    assert_eq!(ports[0].port, 22);
    assert_eq!(ports[0].status, PortStatus::Open);
    assert_eq!(ports[0].describe, "ssh");
}

#[test]
fn same_syn_ack_twice_is_recorded_once() {
    let s = setting(ScanType::TcpSynScan, &[A]);
    let data = ports_data();
    let mut r = ScanResults::new();
    let f = tcp_frame(A, 80, 0x12);
    process_frame(&mut r, &s, &data, &f);
    process_frame(&mut r, &s, &data, &f);
    assert_eq!(ports_of(&r, addr(A)).len(), 1);
    assert_eq!(total_ports(&r), 1);
}

#[test]
fn rst_ack_records_closed_port_with_placeholder() {
    let s = setting(ScanType::TcpSynScan, &[A]);
    let data = ports_data();
    let mut r = ScanResults::new();
    process_frame(&mut r, &s, &data, &tcp_frame(A, 9999, 0x14));
    process_frame(&mut r, &s, &data, &tcp_frame(A, 80, 0x12));
    let ports = ports_of(&r, addr(A));
    assert_eq!(ports.len(), 2);
    assert_eq!(ports[0].status, PortStatus::Closed);
    assert_eq!(ports[0].describe, "unknown type");
    assert_eq!(ports[1].port, 80);
    assert_eq!(r.result().ip_with_port.len(), 1);
}

#[test]
fn icmp_reply_records_host_once() {
    let s = setting(ScanType::IcmpPingScan, &[A]);
    let data = Data::new();
    let mut r = ScanResults::new();
    process_frame(&mut r, &s, &data, &icmp_frame(A, 0, 61));
    assert_eq!(r.result().ips, vec![HostInfo { ip_addr: addr(A), ttl: 61 }]);
    assert!(r.contains_host(addr(A)));
    process_frame(&mut r, &s, &data, &icmp_frame(A, 0, 62));
    assert_eq!(r.result().ips.len(), 1);
}

#[test]
fn icmp_reply_off_target_records_nothing() {
    let s = setting(ScanType::IcmpPingScan, &[A]);
    let data = Data::new();
    let mut r = ScanResults::new();
    process_frame(&mut r, &s, &data, &icmp_frame(B, 0, 61));
    assert!(r.result().ips.is_empty());
    assert!(!r.contains_host(addr(B)));
    process_frame(&mut r, &s, &data, &icmp_frame(A, 0, 61));
    process_frame(&mut r, &s, &data, &icmp_frame(B, 0, 61));
    assert_eq!(r.result().ips.len(), 1);
}

#[test]
fn distinct_writers_keep_every_port() {
    let s = setting(ScanType::TcpSynScan, &[A, B]);
    let data = ports_data();
    let mut r = ScanResults::new();
    let order = [(B, 80u16), (A, 22), (A, 80), (B, 443), (A, 8080), (B, 22)];
    for (src, port) in order {
        process_frame(&mut r, &s, &data, &tcp_frame(src, port, 0x12));
    }
    assert_eq!(total_ports(&r), order.len());
    for (src, port) in order {
        assert!(r.contains_socket(addr(src), port));
    }
    assert_eq!(r.result().ip_with_port.len(), 2);
    assert_eq!(r.result().ip_with_port[0].0, addr(B));
}

#[test]
fn end_to_end_syn_scan() {
    let s = setting(ScanType::TcpSynScan, &[A]);
    let data = ports_data();
    let mut r = ScanResults::new();
    process_frame(&mut r, &s, &data, &tcp_frame(A, 80, 0x12));
    assert!(r.result().ips.is_empty());
    assert_eq!(r.result().ip_with_port.len(), 1);
    let (a, ports) = &r.result().ip_with_port[0];
    assert_eq!(*a, addr(A));
    assert_eq!(ports.len(), 1);
    assert_eq!(ports[0].port, 80);
    assert_eq!(ports[0].status, PortStatus::Open);
    assert_eq!(ports[0].describe, "http");
}

#[test]
fn undecodable_frame_changes_nothing() {
    let s = setting(ScanType::TcpSynScan, &[A]);
    let data = ports_data();
    let mut r = ScanResults::new();
    process_frame(&mut r, &s, &data, &[1, 2, 3]);
    assert!(r.result().ips.is_empty());
    assert!(r.result().ip_with_port.is_empty());
}

#[test]
fn direct_records() {
    let mut r = ScanResults::new();
    r.record_host(HostInfo { ip_addr: addr(B), ttl: 3 });
    r.record_port(addr(A), PortInfo { port: 1, status: PortStatus::Filtered, describe: "x".to_string() });
    r.record(Outcome::HostUp(HostInfo { ip_addr: addr(B), ttl: 9 }), &Data::new());
    r.record(Outcome::PortClosed(addr(A), 2), &Data::new());
    assert_eq!(r.result().ips, vec![HostInfo { ip_addr: addr(B), ttl: 3 }]);
    assert_eq!(ports_of(&r, addr(A)).len(), 2);
    assert!(r.contains_socket(addr(A), 2));
    assert!(!r.contains_socket(addr(B), 2));
}

#[test]
fn describe_looks_up_or_falls_back() {
    let d = ports_data();
    assert_eq!(d.describe(80), "http");
    assert_eq!(d.describe(81), "unknown type");
    assert_eq!(Data::new().describe(22), "unknown type");
}

#[test]
fn hop_keeps_largest_rtt() {
    let mut hop = TracertQueryResult::new(4);
    for ms in [10u64, 25, 5] {
        hop.add_query(Duration::from_millis(ms).as_nanos(), vec![format!("10.0.0.{}", ms)]);
    }
    assert_eq!(hop.rtt, Duration::from_millis(25).as_nanos());
    assert_eq!(hop.id, 4);
    assert_eq!(hop.addr.len(), 3);
    assert_eq!(hop.addr[2], vec!["10.0.0.5".to_string()]);
}

#[test]
fn stop_flag_ends_loop_at_poll() {
    assert_eq!(poll_stop(true, 0, 1000), LoopState::StoppedBySignal);
    assert_eq!(poll_stop(true, 5000, 1000), LoopState::StoppedBySignal);
    assert_eq!(poll_stop(false, 1001, 1000), LoopState::StoppedByTimeout);
    assert_eq!(poll_stop(false, 1000, 1000), LoopState::Running);
}

#[test]
fn stop_is_seen_after_frame_is_processed() {
    let s = setting(ScanType::TcpSynScan, &[A]);
    let data = ports_data();
    let mut r = ScanResults::new();
    let frames = [tcp_frame(A, 80, 0x12), tcp_frame(A, 22, 0x12)];
    let stops = [true, false];
    let mut processed = 0;
    for (f, stop) in frames.iter().zip(stops) {
        process_frame(&mut r, &s, &data, f);
        processed += 1;
        if poll_stop(stop, 0, s.timeout) != LoopState::Running {
            break;
        }
    }
    assert_eq!(processed, 1);
    assert_eq!(total_ports(&r), 1);
}

fn ones_complement_sum(b: &[u8]) -> u16 {
    let mut sum: u32 = 0;
    for c in b.chunks(2) {
        let w = if c.len() == 2 { u16::from_be_bytes([c[0], c[1]]) } else { (c[0] as u16) << 8 };
        sum += w as u32;
    }
    while sum >> 16 != 0 {
        sum = (sum >> 16) + (sum & 0xffff);
    }
    sum as u16
}

#[test]
fn echo_request_fields_and_checksum() {
    let mut p = vec![0u8; 12];
    p[1] = 0;
    p[8..].copy_from_slice(&[0xde, 0xad, 0xbe, 0xef]);
    p[2] = 0x55;
    build_icmp_packet(&mut p, 0x1234, 0xabcd);
    assert_eq!(p[0], 8);
    assert_eq!(&p[4..6], &[0x12, 0x34]);
    assert_eq!(&p[6..8], &[0xab, 0xcd]);
    assert_eq!(&p[8..], &[0xde, 0xad, 0xbe, 0xef]);
    assert_eq!(ones_complement_sum(&p), 0xffff);
    let expected = !ones_complement_sum(&[8, 0, 0, 0, 0x12, 0x34, 0xab, 0xcd, 0xde, 0xad, 0xbe, 0xef]);
    assert_eq!(u16::from_be_bytes([p[2], p[3]]), expected);
    assert_ne!(u16::from_be_bytes([p[2], p[3]]), 0x5500);
}
