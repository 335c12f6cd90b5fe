//! Scan results and the aggregator that records them without duplicates.
use vstd::prelude::*;
use crate::net::IpAddr;

verus! {

/// A host found up.
#[derive(PartialEq, Eq, Structural, Clone, Copy, Debug)]
pub struct HostInfo {
    /// Its address.
    pub ip_addr: IpAddr,
    /// The time to live (or hop limit) of its reply.
    pub ttl: u8,
}

/// The state of a port.
#[derive(PartialEq, Eq, Structural, Clone, Copy, Debug)]
pub enum PortStatus {
    /// A connection is accepted.
    Open,
    /// The host answers that nothing listens there.
    Closed,
    /// No answer tells either way.
    Filtered,
}

/// What was observed of one port of a host.
#[derive(Clone, Debug)]
pub struct PortInfo {
    /// The port number.
    pub port: u16,
    /// Its state.
    pub status: PortStatus,
    /// The name of the service usually found on it.
    pub describe: String,
}

/// The mathematical value of a `PortInfo`.
pub struct PortView {
    /// The port number.
    pub port: u16,
    /// Its state.
    pub status: PortStatus,
    /// The service name, as characters.
    pub describe: Seq<char>,
}

impl View for PortInfo {
    type V = PortView;

    open spec fn view(&self) -> PortView {
        PortView { port: self.port, status: self.status, describe: self.describe@ }
    }
}

/// The mathematical value of the recorded results: the hosts in discovery
/// order, and for each address with recorded ports, its ports in discovery
/// order.
pub struct ResultsView {
    /// The up hosts.
    pub hosts: Seq<HostInfo>,
    /// Per address, its ports.
    pub ports: Seq<(IpAddr, Seq<PortView>)>,
}

/// Nothing recorded.
pub open spec fn empty_results() -> ResultsView {
    ResultsView { hosts: Seq::empty(), ports: Seq::empty() }
}

/// `a` is recorded as an up host.
pub open spec fn has_host(v: ResultsView, a: IpAddr) -> bool {
    exists|i: int| 0 <= i < v.hosts.len() && v.hosts[i].ip_addr == a
}

/// `a` has an entry in the port table.
pub open spec fn has_key(v: ResultsView, a: IpAddr) -> bool {
    exists|i: int| 0 <= i < v.ports.len() && v.ports[i].0 == a
}

/// The socket `(a, p)` is recorded in the port table.
pub open spec fn has_socket(v: ResultsView, a: IpAddr, p: u16) -> bool {
    exists|i: int, j: int|
        0 <= i < v.ports.len() && v.ports[i].0 == a && 0 <= j < v.ports[i].1.len()
            && #[trigger] v.ports[i].1[j].port == p
}

/// The position of the entry of `a` in the port table.
pub open spec fn key_index(v: ResultsView, a: IpAddr) -> int {
    choose|i: int| 0 <= i < v.ports.len() && v.ports[i].0 == a
}

/// `v` with host `h` appended.
pub open spec fn with_host(v: ResultsView, h: HostInfo) -> ResultsView {
    ResultsView { hosts: v.hosts.push(h), ports: v.ports }
}

/// `v` with port `pv` appended to the entry of `a`, which is created at the
/// end of the table where `a` has none.
pub open spec fn with_port(v: ResultsView, a: IpAddr, pv: PortView) -> ResultsView {
    if has_key(v, a) {
        let i = key_index(v, a);
        ResultsView { hosts: v.hosts, ports: v.ports.update(i, (a, v.ports[i].1.push(pv))) }
    } else {
        ResultsView { hosts: v.hosts, ports: v.ports.push((a, seq![pv])) }
    }
}

/// Check-then-act for a host: record `h` unless its address is recorded.
pub open spec fn observe_host(v: ResultsView, h: HostInfo) -> ResultsView {
    if has_host(v, h.ip_addr) {
        v
    } else {
        with_host(v, h)
    }
}

/// Check-then-act for a port: record `pv` at `a` unless that socket is recorded.
pub open spec fn observe_port(v: ResultsView, a: IpAddr, pv: PortView) -> ResultsView {
    if has_socket(v, a, pv.port) {
        v
    } else {
        with_port(v, a, pv)
    }
}

/// No address twice among the hosts, no address with two entries, and no
/// port twice in one entry.
pub open spec fn view_wf(v: ResultsView) -> bool {
    &&& forall|i: int, j: int|
        0 <= i < j < v.hosts.len() ==> v.hosts[i].ip_addr != v.hosts[j].ip_addr
    &&& forall|i: int, j: int| 0 <= i < j < v.ports.len() ==> v.ports[i].0 != v.ports[j].0
    &&& forall|i: int, j: int, k: int|
        0 <= i < v.ports.len() && 0 <= j < k < v.ports[i].1.len() ==> v.ports[i].1[j].port
            != v.ports[i].1[k].port
}

/// The number of port entries over the whole table.
pub open spec fn total_ports(ports: Seq<(IpAddr, Seq<PortView>)>) -> nat
    decreases ports.len(),
{
    if ports.len() == 0 {
        0
    } else {
        total_ports(ports.drop_last()) + ports.last().1.len()
    }
}

/// What `with_port` adds to the recorded sockets: exactly `(a, pv.port)`.
pub proof fn lemma_with_port_sockets(v: ResultsView, a: IpAddr, pv: PortView)
    ensures
        forall|b: IpAddr, q: u16|
            has_socket(with_port(v, a, pv), b, q) <==> (has_socket(v, b, q) || (b == a && q
                == pv.port)),
{
    let w = with_port(v, a, pv);
    assert forall|b: IpAddr, q: u16|
        has_socket(w, b, q) <==> (has_socket(v, b, q) || (b == a && q == pv.port)) by {
        if has_key(v, a) {
            let i = key_index(v, a);
            if has_socket(w, b, q) {
                let (i2, j2) = choose|i2: int, j2: int|
                    0 <= i2 < w.ports.len() && w.ports[i2].0 == b && 0 <= j2 < w.ports[i2].1.len()
                        && #[trigger] w.ports[i2].1[j2].port == q;
                if i2 == i && j2 == v.ports[i].1.len() {
                } else {
                    assert(v.ports[i2].1[j2].port == q);
                }
            }
            if has_socket(v, b, q) {
                let (i2, j2) = choose|i2: int, j2: int|
                    0 <= i2 < v.ports.len() && v.ports[i2].0 == b && 0 <= j2 < v.ports[i2].1.len()
                        && #[trigger] v.ports[i2].1[j2].port == q;
                assert(w.ports[i2].1[j2].port == q);
            }
            if b == a && q == pv.port {
                assert(w.ports[i].1[v.ports[i].1.len() as int].port == q);
            }
        } else {
            let n = v.ports.len() as int;
            if has_socket(w, b, q) {
                let (i2, j2) = choose|i2: int, j2: int|
                    0 <= i2 < w.ports.len() && w.ports[i2].0 == b && 0 <= j2 < w.ports[i2].1.len()
                        && #[trigger] w.ports[i2].1[j2].port == q;
                if i2 < n {
                    assert(v.ports[i2].1[j2].port == q);
                }
            }
            if has_socket(v, b, q) {
                let (i2, j2) = choose|i2: int, j2: int|
                    0 <= i2 < v.ports.len() && v.ports[i2].0 == b && 0 <= j2 < v.ports[i2].1.len()
                        && #[trigger] v.ports[i2].1[j2].port == q;
                assert(w.ports[i2].1[j2].port == q);
            }
            if b == a && q == pv.port {
                assert(w.ports[n].1[0].port == q);
            }
        }
    }
}

/// `with_port` of a socket not yet recorded keeps the view well formed.
pub proof fn lemma_with_port_wf(v: ResultsView, a: IpAddr, pv: PortView)
    requires
        view_wf(v),
        !has_socket(v, a, pv.port),
    ensures
        view_wf(with_port(v, a, pv)),
{
    let w = with_port(v, a, pv);
    if has_key(v, a) {
        let i = key_index(v, a);
        assert forall|i2: int, j: int, k: int|
            0 <= i2 < w.ports.len() && 0 <= j < k < w.ports[i2].1.len() implies w.ports[i2].1[j].port
            != w.ports[i2].1[k].port by {
            if i2 == i && k == v.ports[i].1.len() {
                if v.ports[i].1[j].port == pv.port {
                    assert(has_socket(v, a, pv.port));
                }
            }
        }
    }
}

/// The view of a table of keys distinct that holds `a` at `i` has `i` as the
/// position of `a`.
pub proof fn lemma_key_index(v: ResultsView, a: IpAddr, i: int)
    requires
        view_wf(v),
        0 <= i < v.ports.len(),
        v.ports[i].0 == a,
    ensures
        has_key(v, a),
        key_index(v, a) == i,
{
    assert(has_key(v, a));
}

/// Adding one port to one entry adds one to the total.
pub proof fn lemma_total_update(ports: Seq<(IpAddr, Seq<PortView>)>, i: int, e: (IpAddr, Seq<PortView>))
    requires
        0 <= i < ports.len(),
        e.1.len() == ports[i].1.len() + 1,
    ensures
        total_ports(ports.update(i, e)) == total_ports(ports) + 1,
    decreases ports.len(),
{
    let u = ports.update(i, e);
    if i < ports.len() - 1 {
        assert(u.drop_last() =~= ports.drop_last().update(i, e));
        lemma_total_update(ports.drop_last(), i, e);
    } else {
        assert(u.drop_last() =~= ports.drop_last());
    }
}

/// Recording a socket not yet recorded adds one port entry in all.
pub proof fn lemma_with_port_total(v: ResultsView, a: IpAddr, pv: PortView)
    ensures
        total_ports(with_port(v, a, pv).ports) == total_ports(v.ports) + 1,
{
    let w = with_port(v, a, pv);
    if has_key(v, a) {
        lemma_total_update(v.ports, key_index(v, a), (a, v.ports[key_index(v, a)].1.push(pv)));
    } else {
        assert(w.ports.drop_last() =~= v.ports);
    }
}

/// The recorded hosts and ports, as handed to the caller after a scan.
#[derive(Clone, Debug)]
pub struct ScanResult {
    /// Up hosts, in discovery order.
    pub ips: Vec<HostInfo>,
    /// Per address, its observed ports in discovery order.
    pub ip_with_port: Vec<(IpAddr, Vec<PortInfo>)>,
}

/// The result aggregator: the results with their dedup guards.
#[derive(Clone, Debug)]
pub struct ScanResults {
    result: ScanResult,
    ip_set: Vec<IpAddr>,
    socket_set: Vec<(IpAddr, u16)>,
}

/// The view of one entry of the port table.
pub open spec fn entry_view(e: (IpAddr, Vec<PortInfo>)) -> (IpAddr, Seq<PortView>) {
    (e.0, e.1@.map_values(|p: PortInfo| p@))
}

impl View for ScanResults {
    type V = ResultsView;

    closed spec fn view(&self) -> ResultsView {
        ResultsView {
            hosts: self.result.ips@,
            ports: self.result.ip_with_port@.map_values(|e: (IpAddr, Vec<PortInfo>)| entry_view(e)),
        }
    }
}

impl ScanResults {
    /// The aggregator's invariant: the view is well formed and the guards
    /// hold exactly the recorded addresses and sockets.
    pub closed spec fn wf(&self) -> bool {
        &&& view_wf(self@)
        &&& self.ip_set@ == self.result.ips@.map_values(|h: HostInfo| h.ip_addr)
        &&& forall|s: (IpAddr, u16)| #[trigger]
            self.socket_set@.contains(s) <==> has_socket(self@, s.0, s.1)
    }

    /// Empty results.
    pub fn new() -> (r: Self)
        ensures
            r.wf(),
            r@ == empty_results(),
    {
        let r = ScanResults {
            result: ScanResult { ips: Vec::new(), ip_with_port: Vec::new() },
            ip_set: Vec::new(),
            socket_set: Vec::new(),
        };
        assert(r@.ports =~= Seq::empty());
        assert(r.ip_set@ =~= r.result.ips@.map_values(|h: HostInfo| h.ip_addr));
        r
    }

    /// The recorded hosts and ports.
    pub fn result(&self) -> (r: &ScanResult)
        ensures
            r.ips@ == self@.hosts,
            r.ip_with_port@.map_values(|e: (IpAddr, Vec<PortInfo>)| entry_view(e)) == self@.ports,
    {
        &self.result
    }

    /// Whether `a` is recorded as an up host.
    pub fn contains_host(&self, a: IpAddr) -> (r: bool)
        requires
            self.wf(),
        ensures
            r == has_host(self@, a),
    {
        let mut i: usize = 0;
        while i < self.ip_set.len()
            invariant
                self.wf(),
                i <= self.ip_set@.len(),
                forall|k: int| 0 <= k < i ==> self.ip_set@[k] != a,
            decreases self.ip_set@.len() - i,
        {
            if self.ip_set[i] == a {
                assert(self.ip_set@[i as int] == self@.hosts[i as int].ip_addr);
                return true;
            }
            i = i + 1;
        }
        assert forall|k: int| 0 <= k < self@.hosts.len() implies self@.hosts[k].ip_addr != a by {
            assert(self.ip_set@[k] == self@.hosts[k].ip_addr);
        }
        false
    }

    /// Whether the socket `(a, port)` is recorded.
    pub fn contains_socket(&self, a: IpAddr, port: u16) -> (r: bool)
        requires
            self.wf(),
        ensures
            r == has_socket(self@, a, port),
    {
        let mut i: usize = 0;
        while i < self.socket_set.len()
            invariant
                self.wf(),
                i <= self.socket_set@.len(),
                forall|k: int| 0 <= k < i ==> self.socket_set@[k] != (a, port),
            decreases self.socket_set@.len() - i,
        {
            let s = self.socket_set[i];
            if s.0 == a && s.1 == port {
                assert(self.socket_set@.contains((a, port)));
                return true;
            }
            i = i + 1;
        }
        assert(!self.socket_set@.contains((a, port)));
        false
    }

    /// Appends host `h`, whose address is not yet recorded.
    pub fn record_host(&mut self, h: HostInfo)
        requires
            old(self).wf(),
            !has_host(old(self)@, h.ip_addr),
        ensures
            final(self).wf(),
            final(self)@ == with_host(old(self)@, h),
    {
        self.result.ips.push(h);
        self.ip_set.push(h.ip_addr);
        assert(self.ip_set@ =~= self.result.ips@.map_values(|h: HostInfo| h.ip_addr));
        assert(self@ =~= with_host(old(self)@, h));
        assert forall|s: (IpAddr, u16)|
            #[trigger] self.socket_set@.contains(s) <==> has_socket(self@, s.0, s.1) by {
            assert(old(self).socket_set@.contains(s) <==> has_socket(old(self)@, s.0, s.1));
        }
    }
    /// Appends `info` to the ports of `a`; the socket is not yet recorded.
    pub fn record_port(&mut self, a: IpAddr, info: PortInfo)
        requires
            old(self).wf(),
            !has_socket(old(self)@, a, info.port),
        ensures
            final(self).wf(),
            final(self)@ == with_port(old(self)@, a, info@),
    {
        let ghost v = self@;
        let ghost pv = info@;
        let port = info.port;
        let mut i: usize = 0;
        let n = self.result.ip_with_port.len();
        while i < n
            invariant
                n == self.result.ip_with_port@.len(),
                self@ == v,
                i <= n,
                forall|k: int| 0 <= k < i ==> self.result.ip_with_port@[k].0 != a,
            ensures
                self@ == v,
                i <= n,
                i < n ==> self.result.ip_with_port@[i as int].0 == a,
                forall|k: int| 0 <= k < i ==> self.result.ip_with_port@[k].0 != a,
            decreases n - i,
        {
            if self.result.ip_with_port[i].0 == a {
                break;
            }
            i = i + 1;
        }
        proof {
            lemma_with_port_sockets(v, a, pv);
            lemma_with_port_wf(v, a, pv);
        }
        if i < n {
            proof {
                lemma_key_index(v, a, i as int);
            }
            self.result.ip_with_port[i].1.push(info);
            assert(self@.ports =~~= with_port(v, a, pv).ports);
        } else {
            assert(!has_key(v, a)) by {
                if has_key(v, a) {
                    let k = key_index(v, a);
                    assert(self.result.ip_with_port@[k].0 == a);
                }
            }
            self.result.ip_with_port.push((a, vec![info]));
            assert(self@.ports =~~= with_port(v, a, pv).ports);
        }
        self.socket_set.push((a, port));
        assert(self@ == with_port(v, a, pv));
        assert forall|s: (IpAddr, u16)|
            #[trigger] self.socket_set@.contains(s) <==> has_socket(self@, s.0, s.1) by {
            assert(old(self).socket_set@.contains(s) <==> has_socket(v, s.0, s.1));
            if self.socket_set@.contains(s) && s != (a, port) {
                let k = choose|k: int| 0 <= k < self.socket_set@.len() && self.socket_set@[k] == s;
                assert(old(self).socket_set@[k] == s);
            }
            if old(self).socket_set@.contains(s) {
                let k = choose|k: int| 0 <= k < old(self).socket_set@.len() && old(self).socket_set@[k] == s;
                assert(self.socket_set@[k] == s);
            }
            if s == (a, port) {
                assert(self.socket_set@[self.socket_set@.len() - 1] == s);
            }
        }
    }
}

} // verus!
