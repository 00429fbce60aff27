//! Rebuilding the whole state from the system's interface, address and
//! forwarding tables, as read after a change notification.

use crate::state::{
    address_added, connectivity_of, copy_bytes, link_added, route_added, InterfaceModel, InterfacesState,
    InternetConnectivity, IpFamily,
};
use vstd::prelude::*;

verus! {

/// The table family code of IPv4.
pub const TABLE_FAMILY_INET: u16 = 2;

/// The table family code of IPv6.
pub const TABLE_FAMILY_INET6: u16 = 23;

/// The valid lifetime that marks an address as infinite.
pub const LIFETIME_INFINITE: u32 = 0xffff_ffff;

/// The notification kinds that trigger a rebuild: a parameter change, an added
/// instance, a deleted instance and the initial notification.
pub const NOTIFICATION_PARAMETER: u32 = 0;
pub const NOTIFICATION_ADD: u32 = 1;
pub const NOTIFICATION_DELETE: u32 = 2;
pub const NOTIFICATION_INITIAL: u32 = 3;

/// A row of the interface table.
#[derive(Clone, Copy, Debug)]
pub struct InterfaceRow {
    pub index: u32,
    pub hardware: bool,
    pub loopback: bool,
    pub up: bool,
}

/// A row of the unicast address table: the address bytes are those of its
/// family (four or sixteen).
pub struct AddressRow {
    pub index: u32,
    pub family: u16,
    pub address: Vec<u8>,
    pub valid_lifetime: u32,
}

/// A row of the forwarding table. `prefix` holds the raw bytes of the
/// destination prefix's socket address, whose first byte is part of the
/// family code.
pub struct RouteRow {
    pub index: u32,
    pub prefix_length: u8,
    pub prefix: Vec<u8>,
    pub next_hop_family: u16,
    pub next_hop: Vec<u8>,
    pub metric: u32,
}

pub open spec fn table_family(code: u16) -> Option<IpFamily> {
    if code == TABLE_FAMILY_INET {
        Some(IpFamily::V4)
    } else if code == TABLE_FAMILY_INET6 {
        Some(IpFamily::V6)
    } else {
        None
    }
}

/// A default route: no prefix length, and every byte of the prefix after the
/// first is zero.
pub open spec fn default_prefix(length: u8, prefix: Seq<u8>) -> bool {
    length == 0 && forall|i: int| 1 <= i < prefix.len() ==> prefix[i] == 0
}

pub open spec fn interface_row_applied(m: Map<u32, InterfaceModel>, row: InterfaceRow) -> Map<u32, InterfaceModel> {
    if row.hardware {
        link_added(m, row.index, row.loopback, row.up)
    } else {
        m
    }
}

pub open spec fn address_row_applied(m: Map<u32, InterfaceModel>, row: AddressRow) -> Map<u32, InterfaceModel> {
    match table_family(row.family) {
        Some(f) => if row.valid_lifetime != LIFETIME_INFINITE {
            address_added(m, row.index, f, row.address@)
        } else {
            m
        },
        None => m,
    }
}

pub open spec fn route_row_applied(m: Map<u32, InterfaceModel>, row: RouteRow) -> Map<u32, InterfaceModel> {
    if default_prefix(row.prefix_length, row.prefix@) {
        match table_family(row.next_hop_family) {
            Some(f) => route_added(m, row.index, f, (row.next_hop@, row.metric)),
            None => m,
        }
    } else {
        m
    }
}

pub open spec fn interface_rows_applied(m: Map<u32, InterfaceModel>, rows: Seq<InterfaceRow>) -> Map<
    u32,
    InterfaceModel,
>
    decreases rows.len(),
{
    if rows.len() == 0 {
        m
    } else {
        interface_row_applied(interface_rows_applied(m, rows.drop_last()), rows.last())
    }
}

pub open spec fn address_rows_applied(m: Map<u32, InterfaceModel>, rows: Seq<AddressRow>) -> Map<
    u32,
    InterfaceModel,
>
    decreases rows.len(),
{
    if rows.len() == 0 {
        m
    } else {
        address_row_applied(address_rows_applied(m, rows.drop_last()), rows.last())
    }
}

pub open spec fn route_rows_applied(m: Map<u32, InterfaceModel>, rows: Seq<RouteRow>) -> Map<
    u32,
    InterfaceModel,
>
    decreases rows.len(),
{
    if rows.len() == 0 {
        m
    } else {
        route_row_applied(route_rows_applied(m, rows.drop_last()), rows.last())
    }
}

/// The records that the three tables give, starting from nothing.
pub open spec fn tables_applied(
    interfaces: Seq<InterfaceRow>,
    addresses: Seq<AddressRow>,
    routes: Seq<RouteRow>,
) -> Map<u32, InterfaceModel> {
    route_rows_applied(
        address_rows_applied(interface_rows_applied(Map::empty(), interfaces), addresses),
        routes,
    )
}

/// The family of a table family code, where it is a known one.
pub fn family_from_code(code: u16) -> (r: Option<IpFamily>)
    ensures
        r == table_family(code),
{
    if code == TABLE_FAMILY_INET {
        Some(IpFamily::V4)
    } else if code == TABLE_FAMILY_INET6 {
        Some(IpFamily::V6)
    } else {
        None
    }
}

/// Whether a forwarding entry's destination is the default one.
pub fn is_default_prefix(length: u8, prefix: &Vec<u8>) -> (r: bool)
    ensures
        r == default_prefix(length, prefix@),
{
    if length != 0 {
        return false;
    }
    let mut i: usize = 1;
    while i < prefix.len()
        invariant
            1 <= i,
            forall|j: int| 1 <= j < i && j < prefix@.len() ==> prefix@[j] == 0,
        decreases prefix@.len() - i,
    {
        if prefix[i] != 0 {
            return false;
        }
        i = i + 1;
    }
    true
}

/// Whether a change notification of this kind calls for a rebuild.
pub fn accepts_notification(kind: u32) -> (r: bool)
    ensures
        r == (kind == NOTIFICATION_PARAMETER || kind == NOTIFICATION_ADD || kind == NOTIFICATION_DELETE
            || kind == NOTIFICATION_INITIAL),
{
    kind == NOTIFICATION_PARAMETER || kind == NOTIFICATION_ADD || kind == NOTIFICATION_DELETE
        || kind == NOTIFICATION_INITIAL
}

/// Builds the state from the three tables: hardware, non-loopback interfaces;
/// addresses of a known family whose lifetime is not infinite; and default
/// routes whose next hop has a known family.
pub fn interfaces_from_tables(
    interfaces: &Vec<InterfaceRow>,
    addresses: &Vec<AddressRow>,
    routes: &Vec<RouteRow>,
) -> (r: InterfacesState)
    ensures
        r.wf(),
        r@ == tables_applied(interfaces@, addresses@, routes@),
{
    let mut state = InterfacesState::new();
    let mut i: usize = 0;
    while i < interfaces.len()
        invariant
            i <= interfaces@.len(),
            state.wf(),
            state@ == interface_rows_applied(Map::empty(), interfaces@.take(i as int)),
        decreases interfaces@.len() - i,
    {
        let row = interfaces[i];
        if row.hardware {
            state.add_link(row.index, row.loopback, row.up);
        }
        assert(interfaces@.take(i + 1).drop_last() =~= interfaces@.take(i as int));
        i = i + 1;
    }
    assert(interfaces@.take(i as int) =~= interfaces@);
    let ghost base = state@;
    let mut i: usize = 0;
    while i < addresses.len()
        invariant
            i <= addresses@.len(),
            state.wf(),
            state@ == address_rows_applied(base, addresses@.take(i as int)),
        decreases addresses@.len() - i,
    {
        let row = &addresses[i];
        if let Some(family) = family_from_code(row.family) {
            if row.valid_lifetime != LIFETIME_INFINITE {
                state.add_address(row.index, family, copy_bytes(&row.address));
            }
        }
        assert(addresses@.take(i + 1).drop_last() =~= addresses@.take(i as int));
        i = i + 1;
    }
    assert(addresses@.take(i as int) =~= addresses@);
    let ghost base = state@;
    let mut i: usize = 0;
    while i < routes.len()
        invariant
            i <= routes@.len(),
            state.wf(),
            state@ == route_rows_applied(base, routes@.take(i as int)),
        decreases routes@.len() - i,
    {
        let row = &routes[i];
        if is_default_prefix(row.prefix_length, &row.prefix) {
            if let Some(family) = family_from_code(row.next_hop_family) {
                state.add_default_route(row.index, family, copy_bytes(&row.next_hop), row.metric);
            }
        }
        assert(routes@.take(i + 1).drop_last() =~= routes@.take(i as int));
        i = i + 1;
    }
    assert(routes@.take(i as int) =~= routes@);
    state
}

/// Replaces the state with a rebuilt one; the new connectivity is to be
/// reported only where it differs from the old.
pub fn replace_state(current: &mut InterfacesState, rebuilt: InterfacesState) -> (r: Option<
    InternetConnectivity,
>)
    requires
        old(current).wf(),
        rebuilt.wf(),
    ensures
        final(current).wf(),
        final(current)@ == rebuilt@,
        r == (if connectivity_of(rebuilt@) != connectivity_of(old(current)@) {
            Some(connectivity_of(rebuilt@))
        } else {
            None
        }),
{
    let before = current.internet_connectivity();
    let after = rebuilt.internet_connectivity();
    *current = rebuilt;
    if before != after {
        Some(after)
    } else {
        None
    }
}

} // verus!
