//! The internet gateway of a virtual network.
use vstd::prelude::*;

verus! {

/// An internet gateway and the network it is attached to.
pub struct InternetGateway {
    pub id: String,
    pub vpc_id: String,
}

impl InternetGateway {
    /// The gateway `igw-1`, attached to `vpc_id`.
    pub fn new(vpc_id: &str) -> (gateway: Self)
        ensures
            gateway.id@ == "igw-1"@,
            gateway.vpc_id@ == vpc_id@,
    {
        InternetGateway { id: "igw-1".to_owned(), vpc_id: vpc_id.to_owned() }
    }
}

} // verus!
