//! The capture loop's logic: each captured frame goes through the codec, the
//! classifier and the aggregator; after each frame the loop polls whether to
//! stop.
use vstd::prelude::*;
use crate::classify::{Outcome, classification, classify};
use crate::codec::{decode_frame, frame_view};
use crate::data::Data;
use crate::result::{PortInfo, PortStatus, PortView, ResultsView, ScanResults, observe_host, observe_port};
use crate::setting::ScanSetting;

verus! {

/// The port entry recorded for `port` with `status`.
pub open spec fn port_entry(data: Data, port: u16, status: PortStatus) -> PortView {
    PortView { port, status, describe: data.service_name(port) }
}

/// The results after outcome `o` went through the aggregator's
/// check-then-act: a host or socket already recorded is not recorded again.
pub open spec fn aggregate(v: ResultsView, o: Outcome, data: Data) -> ResultsView {
    match o {
        Outcome::HostUp(h) => observe_host(v, h),
        Outcome::PortOpen(a, p) => observe_port(v, a, port_entry(data, p, PortStatus::Open)),
        Outcome::PortClosed(a, p) => observe_port(v, a, port_entry(data, p, PortStatus::Closed)),
        Outcome::Nothing => v,
    }
}

/// The results after the captured frame `f` was processed.
pub open spec fn after_frame(v: ResultsView, setting: ScanSetting, data: Data, f: Seq<u8>) -> ResultsView {
    match frame_view(f) {
        Some(d) => aggregate(v, classification(setting.scan_type, setting.ip_set@, d), data),
        None => v,
    }
}

impl ScanResults {
    /// Records outcome `o` unless what it reports is recorded already.
    pub fn record(&mut self, o: Outcome, data: &Data)
        requires
            old(self).wf(),
        ensures
            final(self).wf(),
            final(self)@ == aggregate(old(self)@, o, *data),
    {
        match o {
            Outcome::HostUp(h) => {
                if !self.contains_host(h.ip_addr) {
                    self.record_host(h);
                }
            },
            Outcome::PortOpen(a, p) => {
                if !self.contains_socket(a, p) {
                    let info = PortInfo { port: p, status: PortStatus::Open, describe: data.describe(p) };
                    self.record_port(a, info);
                }
            },
            Outcome::PortClosed(a, p) => {
                if !self.contains_socket(a, p) {
                    let info = PortInfo { port: p, status: PortStatus::Closed, describe: data.describe(p) };
                    self.record_port(a, info);
                }
            },
            Outcome::Nothing => {},
        }
    }
}

/// Decodes, classifies and records one captured frame. Frames that do not
/// decode are dropped.
pub fn process_frame(results: &mut ScanResults, setting: &ScanSetting, data: &Data, frame: &[u8])
    requires
        old(results).wf(),
    ensures
        final(results).wf(),
        final(results)@ == after_frame(old(results)@, *setting, *data, frame@),
{
    match decode_frame(frame) {
        Some(d) => {
            let o = classify(setting, &d);
            results.record(o, data);
        },
        None => {},
    }
}

/// The state of the capture loop.
#[derive(PartialEq, Eq, Structural, Clone, Copy, Debug)]
pub enum LoopState {
    /// The loop goes on reading.
    Running,
    /// The loop ended: the timeout passed.
    StoppedByTimeout,
    /// The loop ended: the stop flag was set.
    StoppedBySignal,
}

/// The state after a poll that saw the stop flag `stop` with `elapsed`
/// nanoseconds since the loop started.
pub open spec fn next_state(stop: bool, elapsed: u128, timeout: u128) -> LoopState {
    if stop {
        LoopState::StoppedBySignal
    } else if elapsed > timeout {
        LoopState::StoppedByTimeout
    } else {
        LoopState::Running
    }
}

/// The poll at the end of each iteration of the capture loop: a set stop
/// flag ends the loop, else running past the timeout does.
pub fn poll_stop(stop: bool, elapsed: u128, timeout: u128) -> (r: LoopState)
    ensures
        r == next_state(stop, elapsed, timeout),
        stop ==> r == LoopState::StoppedBySignal,
        r == LoopState::Running <==> (!stop && elapsed <= timeout),
{
    if stop {
        LoopState::StoppedBySignal
    } else if elapsed > timeout {
        LoopState::StoppedByTimeout
    } else {
        LoopState::Running
    }
}

} // verus!
