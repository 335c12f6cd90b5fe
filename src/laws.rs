//! Properties of classification and aggregation taken together.
use vstd::prelude::*;
use crate::capture::{aggregate, port_entry};
use crate::classify::{Outcome, TCP_SYN_ACK, ICMP_ECHO_REPLY, ICMPV6_ECHO_REPLY, classification};
use crate::codec::{DecodedFrame, Transport};
use crate::data::Data;
use crate::net::IpAddr;
use crate::result::{
    HostInfo, PortStatus, ResultsView, empty_results, has_host, has_socket, key_index, has_key,
    lemma_with_port_sockets, lemma_with_port_total, lemma_with_port_wf, total_ports, view_wf,
    with_host, with_port,
};
use crate::setting::ScanType;

verus! {

/// A SYN+ACK from target `a`, port `p`, seen by a SYN scan while that socket
/// is not recorded, records the socket, with exactly one entry for `p`
/// under `a`, an open one.
pub proof fn lemma_syn_ack_records_open_port(
    v: ResultsView,
    targets: Seq<IpAddr>,
    data: Data,
    a: IpAddr,
    p: u16,
    ttl: u8,
)
    requires
        view_wf(v),
        targets.contains(a),
        !has_socket(v, a, p),
    ensures
        ({
            let d = DecodedFrame { source: a, ttl, transport: Transport::Tcp { source_port: p, flags: TCP_SYN_ACK } };
            let w = aggregate(v, classification(ScanType::TcpSynScan, targets, d), data);
            &&& view_wf(w)
            &&& has_socket(w, a, p)
            &&& w.hosts == v.hosts
            &&& exists|i: int, j: int|
                0 <= i < w.ports.len() && w.ports[i].0 == a && 0 <= j < w.ports[i].1.len()
                    && w.ports[i].1[j] == port_entry(data, p, PortStatus::Open)
                    && forall|k: int| 0 <= k < w.ports[i].1.len() && k != j ==> w.ports[i].1[k].port != p
        }),
{
    let pe = port_entry(data, p, PortStatus::Open);
    let w = with_port(v, a, pe);
    lemma_with_port_sockets(v, a, pe);
    lemma_with_port_wf(v, a, pe);
    let (i, j) = if has_key(v, a) {
        let i = key_index(v, a);
        (i, v.ports[i].1.len() as int)
    } else {
        (v.ports.len() as int, 0int)
    };
    assert(0 <= i < w.ports.len() && w.ports[i].0 == a && 0 <= j < w.ports[i].1.len());
    assert(w.ports[i].1[j] == pe);
    assert forall|k: int| 0 <= k < w.ports[i].1.len() && k != j implies w.ports[i].1[k].port != p by {
        if k < j {
            assert(w.ports[i].1[k].port != w.ports[i].1[j].port);
        } else {
            assert(w.ports[i].1[j].port != w.ports[i].1[k].port);
        }
    }
}

/// Aggregating the classification of the same reply twice records what
/// aggregating it once records.
pub proof fn lemma_aggregate_idempotent(v: ResultsView, scan_type: ScanType, targets: Seq<IpAddr>, data: Data, d: DecodedFrame)
    ensures
        ({
            let o = classification(scan_type, targets, d);
            aggregate(aggregate(v, o, data), o, data) == aggregate(v, o, data)
        }),
{
    let o = classification(scan_type, targets, d);
    match o {
        Outcome::HostUp(h) => {
            if !has_host(v, h.ip_addr) {
                let w = with_host(v, h);
                assert(w.hosts[v.hosts.len() as int].ip_addr == h.ip_addr);
            }
        },
        Outcome::PortOpen(a, p) => {
            lemma_with_port_sockets(v, a, port_entry(data, p, PortStatus::Open));
        },
        Outcome::PortClosed(a, p) => {
            lemma_with_port_sockets(v, a, port_entry(data, p, PortStatus::Closed));
        },
        Outcome::Nothing => {},
    }
}

/// The echo-reply type of ICMP in the IP version of `a`.
pub open spec fn echo_reply_type(a: IpAddr) -> u8 {
    match a {
        IpAddr::V4(_) => ICMP_ECHO_REPLY,
        IpAddr::V6(_) => ICMPV6_ECHO_REPLY,
    }
}

/// Under ICMP host discovery, an echo reply from target `a` not yet recorded
/// appends exactly one host, `a` with the reply's time to live; no later
/// reply from `a` appends another.
pub proof fn lemma_icmp_reply_records_host_once(
    v: ResultsView,
    targets: Seq<IpAddr>,
    data: Data,
    a: IpAddr,
    ttl: u8,
    later: DecodedFrame,
)
    requires
        targets.contains(a),
        !has_host(v, a),
        later.source == a,
    ensures
        ({
            let d = DecodedFrame { source: a, ttl, transport: Transport::Icmp { icmp_type: echo_reply_type(a) } };
            let w = aggregate(v, classification(ScanType::IcmpPingScan, targets, d), data);
            &&& w.hosts == v.hosts.push(HostInfo { ip_addr: a, ttl })
            &&& w.ports == v.ports
            &&& has_host(w, a)
            &&& aggregate(w, classification(ScanType::IcmpPingScan, targets, later), data) == w
        }),
{
    let w = with_host(v, HostInfo { ip_addr: a, ttl });
    assert(w.hosts[v.hosts.len() as int].ip_addr == a);
}

/// A reply from an address outside the targets changes nothing, whatever the
/// scan type and whatever is recorded.
pub proof fn lemma_off_target_reply_ignored(v: ResultsView, scan_type: ScanType, targets: Seq<IpAddr>, data: Data, d: DecodedFrame)
    requires
        !targets.contains(d.source),
    ensures
        aggregate(v, classification(scan_type, targets, d), data) == v,
{
}

/// The socket that a port outcome reports.
pub open spec fn socket_of(o: Outcome) -> (IpAddr, u16) {
    match o {
        Outcome::PortOpen(a, p) => (a, p),
        Outcome::PortClosed(a, p) => (a, p),
        _ => (IpAddr::V4(0), 0),
    }
}

/// `o` reports the state of a port.
pub open spec fn is_port_outcome(o: Outcome) -> bool {
    match o {
        Outcome::PortOpen(_, _) | Outcome::PortClosed(_, _) => true,
        _ => false,
    }
}

/// The results after `outcomes` went through the aggregator one after the
/// other, in the order in which their critical sections completed.
pub open spec fn aggregate_all(v: ResultsView, outcomes: Seq<Outcome>, data: Data) -> ResultsView
    decreases outcomes.len(),
{
    if outcomes.len() == 0 {
        v
    } else {
        aggregate(aggregate_all(v, outcomes.drop_last(), data), outcomes.last(), data)
    }
}

/// Writers that each record a port outcome for a socket of its own leave,
/// in whatever order their records complete, exactly one port entry each.
pub proof fn lemma_distinct_writers_all_kept(outcomes: Seq<Outcome>, data: Data)
    requires
        forall|i: int| 0 <= i < outcomes.len() ==> is_port_outcome(#[trigger] outcomes[i]),
        forall|i: int, j: int|
            0 <= i < j < outcomes.len() ==> socket_of(outcomes[i]) != socket_of(outcomes[j]),
    ensures
        total_ports(aggregate_all(empty_results(), outcomes, data).ports) == outcomes.len(),
        aggregate_all(empty_results(), outcomes, data).hosts.len() == 0,
        view_wf(aggregate_all(empty_results(), outcomes, data)),
        forall|i: int| 0 <= i < outcomes.len() ==> has_socket(aggregate_all(empty_results(), outcomes, data), socket_of(#[trigger] outcomes[i]).0, socket_of(outcomes[i]).1),
    decreases outcomes.len(),
{
    let e = empty_results();
    if outcomes.len() == 0 {
        assert(total_ports(e.ports) == 0);
    } else {
        let prev = outcomes.drop_last();
        lemma_distinct_writers_all_kept(prev, data);
        let v = aggregate_all(e, prev, data);
        let o = outcomes.last();
        assert(is_port_outcome(outcomes[outcomes.len() - 1]));
        let (a, p) = socket_of(o);
        let status = match o {
            Outcome::PortOpen(_, _) => PortStatus::Open,
            _ => PortStatus::Closed,
        };
        let pe = port_entry(data, p, status);
        assert(!has_socket(v, a, p)) by {
            lemma_sockets_of_prefix(prev, data);
            if has_socket(v, a, p) {
                let k = choose|k: int| 0 <= k < prev.len() && socket_of(prev[k]) == (a, p);
                assert(socket_of(outcomes[k]) != socket_of(outcomes[outcomes.len() - 1]));
            }
        }
        lemma_with_port_sockets(v, a, pe);
        lemma_with_port_wf(v, a, pe);
        lemma_with_port_total(v, a, pe);
        assert forall|i: int| 0 <= i < outcomes.len() implies has_socket(aggregate_all(e, outcomes, data), socket_of(#[trigger] outcomes[i]).0, socket_of(outcomes[i]).1) by {
            if i < prev.len() {
                assert(prev[i] == outcomes[i]);
            }
        }
    }
}

/// Only sockets of the port outcomes aggregated are recorded.
pub proof fn lemma_sockets_of_prefix(outcomes: Seq<Outcome>, data: Data)
    requires
        forall|i: int| 0 <= i < outcomes.len() ==> is_port_outcome(#[trigger] outcomes[i]),
    ensures
        forall|a: IpAddr, p: u16| has_socket(aggregate_all(empty_results(), outcomes, data), a, p)
            ==> exists|k: int| 0 <= k < outcomes.len() && socket_of(outcomes[k]) == (a, p),
        aggregate_all(empty_results(), outcomes, data).hosts.len() == 0,
    decreases outcomes.len(),
{
    if outcomes.len() > 0 {
        let prev = outcomes.drop_last();
        assert forall|i: int| 0 <= i < prev.len() implies is_port_outcome(#[trigger] prev[i]) by {
            assert(prev[i] == outcomes[i]);
        }
        lemma_sockets_of_prefix(prev, data);
        let v = aggregate_all(empty_results(), prev, data);
        let o = outcomes.last();
        assert(is_port_outcome(outcomes[outcomes.len() - 1]));
        let (a0, p0) = socket_of(o);
        let status = match o {
            Outcome::PortOpen(_, _) => PortStatus::Open,
            _ => PortStatus::Closed,
        };
        lemma_with_port_sockets(v, a0, port_entry(data, p0, status));
        assert forall|a: IpAddr, p: u16| has_socket(aggregate_all(empty_results(), outcomes, data), a, p)
            implies exists|k: int| 0 <= k < outcomes.len() && socket_of(outcomes[k]) == (a, p) by {
            if has_socket(v, a, p) {
                let k = choose|k: int| 0 <= k < prev.len() && socket_of(prev[k]) == (a, p);
                assert(outcomes[k] == prev[k]);
            } else {
                assert(socket_of(outcomes[outcomes.len() - 1]) == (a, p));
            }
        }
    }
}

} // verus!
