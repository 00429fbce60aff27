//! Normalisation of the kernel's routing messages into state updates.
//!
//! The messages are given as plain values: the header fields and the first
//! attribute of each kind that the derivation reads.

use crate::state::{
    address_added, address_removed, copy_bytes, link_added, link_removed, route_added, route_removed, InterfaceModel,
    InterfacesState, IpFamily,
};
use vstd::prelude::*;

verus! {

/// Link flag: the link is a loopback link.
pub const LINK_FLAG_LOOPBACK: u32 = 0x8;

/// Link flag: the link is operationally up (it has a carrier).
pub const LINK_FLAG_LOWER_UP: u32 = 0x10000;

/// Address flag: the address is permanent.
pub const ADDRESS_FLAG_PERMANENT: u32 = 0x80;

/// The address family code of IPv4.
pub const FAMILY_INET: u8 = 2;

/// The address family code of IPv6.
pub const FAMILY_INET6: u8 = 10;

/// A link message: the interface index and the link flags.
pub struct LinkInfo {
    pub index: u32,
    pub flags: u32,
}

/// An address message: its header and its first flags and address attributes.
pub struct AddressInfo {
    pub family: u8,
    pub flags: u8,
    pub index: u32,
    pub extended_flags: Option<u32>,
    pub address: Option<Vec<u8>>,
}

/// A route message: its family and its first output interface, gateway and
/// priority attributes.
pub struct RouteInfo {
    pub family: u8,
    pub output_interface: Option<u32>,
    pub gateway: Option<Vec<u8>>,
    pub priority: Option<u32>,
}

/// A message received from the kernel, classified.
pub enum Message {
    NewLink(LinkInfo),
    DelLink(LinkInfo),
    NewAddress(AddressInfo),
    DelAddress(AddressInfo),
    NewRoute(RouteInfo),
    DelRoute(RouteInfo),
    ProtocolError,
    Overrun,
    Other,
}

/// The family of a known address family code.
pub open spec fn family_of(code: u8) -> Option<IpFamily> {
    if code == FAMILY_INET {
        Some(IpFamily::V4)
    } else if code == FAMILY_INET6 {
        Some(IpFamily::V6)
    } else {
        None
    }
}

pub open spec fn link_loopback(l: &LinkInfo) -> bool {
    l.flags & LINK_FLAG_LOOPBACK != 0
}

pub open spec fn link_up(l: &LinkInfo) -> bool {
    l.flags & LINK_FLAG_LOWER_UP != 0
}

/// The flags of an address: those of the flags attribute, where there is one,
/// together with those of the header.
pub open spec fn address_flags(a: &AddressInfo) -> u32 {
    match a.extended_flags {
        Some(x) => x | (a.flags as u32),
        None => a.flags as u32,
    }
}

/// What an address message contributes: nothing for a permanent address, for
/// a message without an address, or for an unknown family.
pub open spec fn address_tuple(a: &AddressInfo) -> Option<(u32, IpFamily, Seq<u8>)> {
    if address_flags(a) & ADDRESS_FLAG_PERMANENT == 0 && a.address is Some && family_of(a.family) is Some {
        Some((a.index, family_of(a.family)->0, a.address->0@))
    } else {
        None
    }
}

/// What a route message contributes: only a route of a known family with an
/// output interface, a gateway and a priority counts.
pub open spec fn route_tuple(r: &RouteInfo) -> Option<(u32, IpFamily, Seq<u8>, u32)> {
    if r.output_interface is Some && r.gateway is Some && r.priority is Some && family_of(r.family) is Some {
        Some((r.output_interface->0, family_of(r.family)->0, r.gateway->0@, r.priority->0))
    } else {
        None
    }
}

/// The records after a message.
pub open spec fn message_applied(m: Map<u32, InterfaceModel>, msg: &Message) -> Map<u32, InterfaceModel> {
    match msg {
        Message::NewLink(l) => link_added(m, l.index, link_loopback(l), link_up(l)),
        Message::DelLink(l) => link_removed(m, l.index, link_loopback(l)),
        Message::NewAddress(a) => match address_tuple(a) {
            Some(t) => address_added(m, t.0, t.1, t.2),
            None => m,
        },
        Message::DelAddress(a) => match address_tuple(a) {
            Some(t) => address_removed(m, t.0, t.1, t.2),
            None => m,
        },
        Message::NewRoute(r) => match route_tuple(r) {
            Some(t) => route_added(m, t.0, t.1, (t.2, t.3)),
            None => m,
        },
        Message::DelRoute(r) => match route_tuple(r) {
            Some(t) => route_removed(m, t.0, t.1, (t.2, t.3)),
            None => m,
        },
        _ => m,
    }
}

fn ip_family(code: u8) -> (r: Option<IpFamily>)
    ensures
        r == family_of(code),
{
    if code == FAMILY_INET {
        Some(IpFamily::V4)
    } else if code == FAMILY_INET6 {
        Some(IpFamily::V6)
    } else {
        None
    }
}

/// Extracts the interface index, family and address of an address message.
///
/// Has a result if the address is not permanent, the message has an address
/// and its family is IPv4 or IPv6.
pub fn parse_address(a: &AddressInfo) -> (r: Option<(u32, IpFamily, Vec<u8>)>)
    ensures
        match r {
            Some(t) => address_tuple(a) == Some((t.0, t.1, t.2@)),
            None => address_tuple(a) is None,
        },
{
    let flags: u32 = match a.extended_flags {
        Some(x) => x | (a.flags as u32),
        None => a.flags as u32,
    };
    if flags & ADDRESS_FLAG_PERMANENT == 0 {
        match (&a.address, ip_family(a.family)) {
            (Some(bytes), Some(family)) => Some((a.index, family, copy_bytes(bytes))),
            _ => None,
        }
    } else {
        None
    }
}

/// Extracts the output interface, family, gateway and priority of a route
/// message.
///
/// Has a result when the message has all three attributes and its family is
/// IPv4 or IPv6.
pub fn parse_default_route(r: &RouteInfo) -> (res: Option<(u32, IpFamily, Vec<u8>, u32)>)
    ensures
        match res {
            Some(t) => route_tuple(r) == Some((t.0, t.1, t.2@, t.3)),
            None => route_tuple(r) is None,
        },
{
    match (r.output_interface, &r.gateway, r.priority, ip_family(r.family)) {
        (Some(oif), Some(gateway), Some(priority), Some(family)) => Some(
            (oif, family, copy_bytes(gateway), priority),
        ),
        _ => None,
    }
}

/// Applies a link, address or route message to the state; any other message
/// leaves it as it is.
pub fn apply_message(state: &mut InterfacesState, msg: &Message)
    requires
        old(state).wf(),
    ensures
        final(state).wf(),
        final(state)@ == message_applied(old(state)@, msg),
{
    match msg {
        Message::NewLink(l) => state.add_link(
            l.index,
            l.flags & LINK_FLAG_LOOPBACK != 0,
            l.flags & LINK_FLAG_LOWER_UP != 0,
        ),
        Message::DelLink(l) => state.remove_link(l.index, l.flags & LINK_FLAG_LOOPBACK != 0),
        Message::NewAddress(a) => {
            if let Some((index, family, address)) = parse_address(a) {
                state.add_address(index, family, address);
            }
        },
        Message::DelAddress(a) => {
            if let Some((index, family, address)) = parse_address(a) {
                state.remove_address(index, family, &address);
            }
        },
        Message::NewRoute(r) => {
            if let Some((index, family, gateway, priority)) = parse_default_route(r) {
                state.add_default_route(index, family, gateway, priority);
            }
        },
        Message::DelRoute(r) => {
            if let Some((index, family, gateway, priority)) = parse_default_route(r) {
                state.remove_default_route(index, family, &gateway, priority);
            }
        },
        _ => {},
    }
}

} // verus!
