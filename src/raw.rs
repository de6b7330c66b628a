use vstd::prelude::*;
use crate::address::AddressType;

verus! {

/// How the raw output adapter reaches a destination.
#[derive(Debug, Clone, Copy, PartialEq, Eq, Structural)]
pub enum ConnectPlan {
    /// Connect to the IP address given.
    Direct,
    /// Ask the configured DNS server for the domain's address first.
    ResolveWithDns,
    /// Hand `host:port` to the system resolver.
    SystemResolver,
}

/// IP destinations are reached directly; a domain goes through the configured
/// DNS server where there is one, else through the system resolver.
pub fn connect_plan(address_type: AddressType, has_dns: bool) -> (r: ConnectPlan)
    ensures
        address_type != AddressType::Domain ==> r == ConnectPlan::Direct,
        address_type == AddressType::Domain && has_dns ==> r == ConnectPlan::ResolveWithDns,
        address_type == AddressType::Domain && !has_dns ==> r == ConnectPlan::SystemResolver,
{
    match address_type {
        AddressType::Domain => if has_dns {
            ConnectPlan::ResolveWithDns
        } else {
            ConnectPlan::SystemResolver
        },
        _ => ConnectPlan::Direct,
    }
}

} // verus!
