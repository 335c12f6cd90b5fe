//! Traceroute hop collection: the queries of one hop fold into one result.
use vstd::prelude::*;

verus! {

/// What was observed at one hop toward a target.
#[derive(Clone, Debug)]
pub struct TracertQueryResult {
    /// The hop's ordinal: the time to live of its probes.
    pub id: u8,
    /// Round-trip time, in nanoseconds: the largest over the hop's queries.
    pub rtt: u128,
    /// The responder addresses of each query.
    pub addr: Vec<Vec<String>>,
}

/// The larger of `a` and `b`.
pub open spec fn max_u128(a: u128, b: u128) -> u128 {
    if a >= b {
        a
    } else {
        b
    }
}

/// The largest of `samples`, and `0` for none.
pub open spec fn max_rtt(samples: Seq<u128>) -> u128
    decreases samples.len(),
{
    if samples.len() == 0 {
        0
    } else {
        max_u128(max_rtt(samples.drop_last()), samples.last())
    }
}

impl TracertQueryResult {
    /// The result of hop `id` before any query came back.
    pub fn new(id: u8) -> (r: Self)
        ensures
            r.id == id,
            r.rtt == 0,
            r.addr@ == Seq::<Vec<String>>::empty(),
    {
        TracertQueryResult { id, rtt: 0, addr: Vec::new() }
    }

    /// Folds in one query of the hop: its round-trip time `rtt` and its
    /// responder addresses `addr`.
    pub fn add_query(&mut self, rtt: u128, addr: Vec<String>)
        ensures
            final(self).id == old(self).id,
            final(self).rtt == max_u128(old(self).rtt, rtt),
            final(self).addr@ == old(self).addr@.push(addr),
    {
        if rtt > self.rtt {
            self.rtt = rtt;
        }
        self.addr.push(addr);
    }
}

/// The round-trip time that a hop keeps, folded from its samples as
/// `add_query` folds them, is their maximum: no sample exceeds it and one
/// sample equals it.
pub proof fn lemma_hop_rtt_is_max(samples: Seq<u128>, i: int)
    requires
        0 <= i < samples.len(),
    ensures
        samples[i] <= max_rtt(samples),
        samples.len() > 0 ==> exists|k: int| 0 <= k < samples.len() && samples[k] == max_rtt(samples),
    decreases samples.len(),
{
    if i < samples.len() - 1 {
        lemma_hop_rtt_is_max(samples.drop_last(), i);
        assert(samples.drop_last()[i] == samples[i]);
    }
    if samples.len() > 1 {
        lemma_hop_rtt_is_max(samples.drop_last(), 0);
        let k = choose|k: int|
            0 <= k < samples.drop_last().len() && samples.drop_last()[k] == max_rtt(samples.drop_last());
        if max_rtt(samples) != samples.last() {
            assert(samples[k] == max_rtt(samples));
        }
    }
    if samples.len() > 0 && max_rtt(samples) == samples.last() {
        assert(samples[samples.len() - 1] == max_rtt(samples));
    }
}

} // verus!
