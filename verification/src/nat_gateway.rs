//! The NAT gateway of a subnet.
use vstd::prelude::*;

verus! {

/// A NAT gateway and the subnet it stands in.
pub struct NATGateway {
    pub id: String,
    pub subnet: String,
}

impl NATGateway {
    /// The gateway `nat-1`, in `subnet`.
    pub fn new(subnet: &str) -> (gateway: Self)
        ensures
            gateway.id@ == "nat-1"@,
            gateway.subnet@ == subnet@,
    {
        NATGateway { id: "nat-1".to_owned(), subnet: subnet.to_owned() }
    }
}

} // verus!
