use connectivity::state::{InterfacesState, InternetConnectivity, IpFamily};
use connectivity::table::{
    accepts_notification, family_from_code, interfaces_from_tables, is_default_prefix, replace_state,
    AddressRow, InterfaceRow, RouteRow, LIFETIME_INFINITE,
};

fn default_prefix(family: u16) -> Vec<u8> {
    let mut bytes = vec![0u8; 28];
    bytes[0] = family as u8;
    bytes
}

fn ethernet() -> InterfaceRow {
    InterfaceRow { index: 4, hardware: true, loopback: false, up: true }
}

fn ipv4_address(lifetime: u32) -> AddressRow {
    AddressRow { index: 4, family: 2, address: vec![192, 168, 1, 20], valid_lifetime: lifetime }
}

fn ipv4_default_route() -> RouteRow {
    RouteRow {
        index: 4,
        prefix_length: 0,
        prefix: default_prefix(2),
        next_hop_family: 2,
        next_hop: vec![192, 168, 1, 1],
        metric: 25,
    }
}

#[test]
fn family_codes() {
    assert_eq!(family_from_code(2), Some(IpFamily::V4));
    assert_eq!(family_from_code(23), Some(IpFamily::V6));
    assert_eq!(family_from_code(0), None);
    assert_eq!(family_from_code(10), None);
}

#[test]
fn default_prefix_check() {
    assert!(is_default_prefix(0, &default_prefix(23)));
    assert!(is_default_prefix(0, &vec![]));
    assert!(!is_default_prefix(8, &default_prefix(2)));
    let mut p = default_prefix(2);
    p[5] = 10;
    assert!(!is_default_prefix(0, &p));
}

#[test]
fn notification_kinds() {
    for kind in 0..4 {
        assert!(accepts_notification(kind));
    }
    assert!(!accepts_notification(4));
}

#[test]
fn rebuild_keeps_a_default_route() {
    let state = interfaces_from_tables(&vec![ethernet()], &vec![ipv4_address(3600)], &vec![ipv4_default_route()]);
    assert_eq!(state.internet_connectivity(), InternetConnectivity::IpV4);
}

#[test]
fn rebuild_filters_rows() {
    let software = InterfaceRow { hardware: false, ..ethernet() };
    let state = interfaces_from_tables(&vec![software], &vec![ipv4_address(3600)], &vec![ipv4_default_route()]);
    assert_eq!(state.internet_connectivity(), InternetConnectivity::Disconnected);

    let state = interfaces_from_tables(
        &vec![ethernet()],
        &vec![ipv4_address(LIFETIME_INFINITE)],
        &vec![ipv4_default_route()],
    );
    assert_eq!(state.internet_connectivity(), InternetConnectivity::Disconnected);

    let mut route = ipv4_default_route();
    route.prefix_length = 24;
    let state = interfaces_from_tables(&vec![ethernet()], &vec![ipv4_address(3600)], &vec![route]);
    assert_eq!(state.internet_connectivity(), InternetConnectivity::Disconnected);

    let loopback = InterfaceRow { loopback: true, ..ethernet() };
    let state = interfaces_from_tables(&vec![loopback], &vec![ipv4_address(3600)], &vec![ipv4_default_route()]);
    assert_eq!(state.internet_connectivity(), InternetConnectivity::Disconnected);
}

#[test]
fn rebuild_reports_changes_only() {
    let mut current = InterfacesState::new();
    let rebuilt = interfaces_from_tables(&vec![ethernet()], &vec![ipv4_address(3600)], &vec![ipv4_default_route()]);
    assert_eq!(replace_state(&mut current, rebuilt), Some(InternetConnectivity::IpV4));
    let again = interfaces_from_tables(&vec![ethernet()], &vec![ipv4_address(7200)], &vec![ipv4_default_route()]);
    assert_eq!(replace_state(&mut current, again), None);
    let down = InterfaceRow { up: false, ..ethernet() };
    let gone = interfaces_from_tables(&vec![down], &vec![ipv4_address(3600)], &vec![ipv4_default_route()]);
    assert_eq!(replace_state(&mut current, gone), Some(InternetConnectivity::Disconnected));
    assert_eq!(current.internet_connectivity(), InternetConnectivity::Disconnected);
}
