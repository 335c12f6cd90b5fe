//! The scan classifier: what a decoded reply means under a scan type.
use vstd::prelude::*;
use crate::codec::{DecodedFrame, Transport};
use crate::net::IpAddr;
use crate::result::HostInfo;
use crate::setting::{ScanSetting, ScanType};

verus! {

/// TCP flags byte with SYN and ACK set.
pub const TCP_SYN_ACK: u8 = 0x12;
/// TCP flags byte with RST and ACK set.
pub const TCP_RST_ACK: u8 = 0x14;
/// ICMP type of an echo reply.
pub const ICMP_ECHO_REPLY: u8 = 0;
/// ICMPv6 type of an echo reply.
pub const ICMPV6_ECHO_REPLY: u8 = 129;

/// What one reply tells.
#[derive(PartialEq, Eq, Structural, Clone, Copy, Debug)]
pub enum Outcome {
    /// The host is up.
    HostUp(HostInfo),
    /// The port of the address is open.
    PortOpen(IpAddr, u16),
    /// The port of the address is closed.
    PortClosed(IpAddr, u16),
    /// Nothing to record.
    Nothing,
}

/// `icmp_type` is an echo reply in the ICMP version of address `a`.
pub open spec fn is_echo_reply(a: IpAddr, icmp_type: u8) -> bool {
    match a {
        IpAddr::V4(_) => icmp_type == ICMP_ECHO_REPLY,
        IpAddr::V6(_) => icmp_type == ICMPV6_ECHO_REPLY,
    }
}

/// The classification of reply `d` under `scan_type` with target set `targets`.
pub open spec fn classification(scan_type: ScanType, targets: Seq<IpAddr>, d: DecodedFrame) -> Outcome {
    if !targets.contains(d.source) {
        Outcome::Nothing
    } else {
        match d.transport {
            Transport::Tcp { source_port, flags } => {
                if scan_type == ScanType::TcpSynScan {
                    if flags == TCP_SYN_ACK {
                        Outcome::PortOpen(d.source, source_port)
                    } else if flags == TCP_RST_ACK {
                        Outcome::PortClosed(d.source, source_port)
                    } else {
                        Outcome::Nothing
                    }
                } else if scan_type.tcp_based() && (flags == TCP_SYN_ACK || flags == TCP_RST_ACK) {
                    Outcome::HostUp(HostInfo { ip_addr: d.source, ttl: d.ttl })
                } else {
                    Outcome::Nothing
                }
            },
            Transport::Icmp { icmp_type } => {
                if scan_type == ScanType::IcmpPingScan && is_echo_reply(d.source, icmp_type) {
                    Outcome::HostUp(HostInfo { ip_addr: d.source, ttl: d.ttl })
                } else {
                    Outcome::Nothing
                }
            },
            Transport::Udp { .. } => Outcome::Nothing,
        }
    }
}

/// Classifies the decoded reply `d` under the scan configuration.
pub fn classify(setting: &ScanSetting, d: &DecodedFrame) -> (r: Outcome)
    ensures
        r == classification(setting.scan_type, setting.ip_set@, *d),
{
    if !setting.is_target(d.source) {
        return Outcome::Nothing;
    }
    match d.transport {
        Transport::Tcp { source_port, flags } => {
            match setting.scan_type {
                ScanType::TcpSynScan => {
                    if flags == TCP_SYN_ACK {
                        Outcome::PortOpen(d.source, source_port)
                    } else if flags == TCP_RST_ACK {
                        Outcome::PortClosed(d.source, source_port)
                    } else {
                        Outcome::Nothing
                    }
                },
                ScanType::TcpConnectScan | ScanType::TcpPingScan => {
                    if flags == TCP_SYN_ACK || flags == TCP_RST_ACK {
                        Outcome::HostUp(HostInfo { ip_addr: d.source, ttl: d.ttl })
                    } else {
                        Outcome::Nothing
                    }
                },
                _ => Outcome::Nothing,
            }
        },
        Transport::Icmp { icmp_type } => {
            let reply = match d.source {
                IpAddr::V4(_) => icmp_type == ICMP_ECHO_REPLY,
                IpAddr::V6(_) => icmp_type == ICMPV6_ECHO_REPLY,
            };
            match setting.scan_type {
                ScanType::IcmpPingScan => {
                    if reply {
                        Outcome::HostUp(HostInfo { ip_addr: d.source, ttl: d.ttl })
                    } else {
                        Outcome::Nothing
                    }
                },
                _ => Outcome::Nothing,
            }
        },
        Transport::Udp { .. } => Outcome::Nothing,
    }
}

} // verus!
