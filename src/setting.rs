//! Per-run scan configuration.
use vstd::prelude::*;
use crate::net::IpAddr;

verus! {

/// The scan strategy; it governs how replies are classified.
#[derive(PartialEq, Eq, Structural, Clone, Copy, Debug)]
pub enum ScanType {
    /// Half-open TCP scan: SYN probes, replies give port states.
    TcpSynScan,
    /// TCP scan by full connection attempts.
    TcpConnectScan,
    /// Host discovery by TCP probes.
    TcpPingScan,
    /// Host discovery by ICMP echo requests.
    IcmpPingScan,
    /// Host discovery by UDP probes.
    UdpPingScan,
}

impl ScanType {
    /// Whether replies to this scan are read from TCP segments.
    pub open spec fn tcp_based(self) -> bool {
        match self {
            ScanType::TcpSynScan | ScanType::TcpConnectScan | ScanType::TcpPingScan => true,
            _ => false,
        }
    }
}

/// The configuration of one scan run; read-only while the scan runs.
#[derive(Clone, Debug)]
pub struct ScanSetting {
    /// The scan strategy.
    pub scan_type: ScanType,
    /// How long the capture loop runs, in nanoseconds.
    pub timeout: u128,
    /// The target addresses; replies from other addresses are ignored.
    pub ip_set: Vec<IpAddr>,
}

impl ScanSetting {
    /// Whether `a` is one of the targets.
    pub fn is_target(&self, a: IpAddr) -> (r: bool)
        ensures
            r == self.ip_set@.contains(a),
    {
        let mut i: usize = 0;
        while i < self.ip_set.len()
            invariant
                i <= self.ip_set@.len(),
                forall|k: int| 0 <= k < i ==> self.ip_set@[k] != a,
            decreases self.ip_set@.len() - i,
        {
            if self.ip_set[i] == a {
                return true;
            }
            i = i + 1;
        }
        false
    }
}

} // verus!
