//! The port-name table that port observations are described from.
use vstd::prelude::*;
use std::collections::HashMap;

verus! {

broadcast use vstd::std_specs::hash::group_hash_axioms;

/// The description of a port that the table does not name.
pub const UNKNOWN_SERVICE: &'static str = "unknown type";

/// Well-known ports and the names of their services.
#[derive(Debug)]
pub struct Data {
    /// Service name by port number.
    pub portmap: HashMap<u16, String>,
}

impl Data {
    /// An empty table.
    pub fn new() -> (r: Self)
        ensures
            r.portmap@ == Map::<u16, String>::empty(),
    {
        Data { portmap: HashMap::new() }
    }

    /// The description of `port`: its name in the table, else the placeholder.
    pub open spec fn service_name(&self, port: u16) -> Seq<char> {
        if self.portmap@.contains_key(port) {
            self.portmap@[port]@
        } else {
            UNKNOWN_SERVICE@
        }
    }

    /// Looks up the description of `port`.
    pub fn describe(&self, port: u16) -> (r: String)
        ensures
            r@ == self.service_name(port),
    {
        match self.portmap.get(&port) {
            Some(name) => name.clone(),
            None => UNKNOWN_SERVICE.to_string(),
        }
    }
}

} // verus!
