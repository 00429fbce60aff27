use connectivity::state::{InterfacesState, InternetConnectivity, IpFamily};

fn v4(a: u8, b: u8, c: u8, d: u8) -> Vec<u8> {
    vec![a, b, c, d]
}

fn v6(last: u8) -> Vec<u8> {
    let mut bytes = vec![0u8; 16];
    bytes[0] = 0x20;
    bytes[1] = 0x01;
    bytes[15] = last;
    bytes
}

#[test]
fn empty_state_is_disconnected() {
    let state = InterfacesState::new();
    assert_eq!(state.internet_connectivity(), InternetConnectivity::Disconnected);
}

#[test]
fn removal_is_idempotent() {
    let mut state = InterfacesState::new();
    state.add_link(5, false, true);
    state.add_address(5, IpFamily::V4, v4(1, 1, 1, 1));
    state.add_default_route(5, IpFamily::V4, v4(1, 1, 1, 1), 100);
    assert_eq!(state.internet_connectivity(), InternetConnectivity::IpV4);
    state.remove_link(5, false);
    assert_eq!(state.internet_connectivity(), InternetConnectivity::Disconnected);
    state.remove_address(5, IpFamily::V4, &v4(1, 1, 1, 1));
    assert_eq!(state.internet_connectivity(), InternetConnectivity::Disconnected);
    state.remove_default_route(5, IpFamily::V4, &v4(1, 1, 1, 1), 100);
    assert_eq!(state.internet_connectivity(), InternetConnectivity::Disconnected);
}

#[test]
fn up_link_alone_is_disconnected() {
    let mut state = InterfacesState::new();
    state.add_link(1, false, true);
    assert_eq!(state.internet_connectivity(), InternetConnectivity::Disconnected);
}

#[test]
fn loopback_link_changes_nothing() {
    let mut state = InterfacesState::new();
    state.add_link(2, false, true);
    state.add_address(2, IpFamily::V4, v4(10, 0, 0, 2));
    state.add_default_route(2, IpFamily::V4, v4(10, 0, 0, 1), 0);
    assert_eq!(state.internet_connectivity(), InternetConnectivity::IpV4);
    state.add_link(2, true, false);
    assert_eq!(state.internet_connectivity(), InternetConnectivity::IpV4);
    state.remove_link(2, true);
    assert_eq!(state.internet_connectivity(), InternetConnectivity::IpV4);
    // A loopback link on an unseen index creates no record: an address and a
    // route on it do not make it up.
    state.add_link(1, true, true);
    state.add_address(1, IpFamily::V6, v6(1));
    state.add_default_route(1, IpFamily::V6, v6(2), 0);
    assert_eq!(state.internet_connectivity(), InternetConnectivity::IpV4);
}

#[test]
fn both_families_on_different_interfaces() {
    let mut state = InterfacesState::new();
    state.add_link(1, false, true);
    state.add_address(1, IpFamily::V4, v4(192, 168, 1, 2));
    state.add_default_route(1, IpFamily::V4, v4(192, 168, 1, 1), 100);
    state.add_link(2, false, true);
    state.add_address(2, IpFamily::V6, v6(2));
    state.add_default_route(2, IpFamily::V6, v6(1), 1024);
    assert_eq!(state.internet_connectivity(), InternetConnectivity::All);
}

#[test]
fn ipv6_only() {
    let mut state = InterfacesState::new();
    state.add_link(3, false, true);
    state.add_address(3, IpFamily::V6, v6(2));
    state.add_default_route(3, IpFamily::V6, v6(1), 1024);
    assert_eq!(state.internet_connectivity(), InternetConnectivity::IpV6);
}

#[test]
fn down_link_reaches_nothing() {
    let mut state = InterfacesState::new();
    state.add_link(1, false, false);
    state.add_address(1, IpFamily::V4, v4(192, 168, 1, 2));
    state.add_default_route(1, IpFamily::V4, v4(192, 168, 1, 1), 100);
    assert_eq!(state.internet_connectivity(), InternetConnectivity::Disconnected);
    state.add_link(1, false, true);
    assert_eq!(state.internet_connectivity(), InternetConnectivity::IpV4);
}

#[test]
fn record_created_down_by_address() {
    let mut state = InterfacesState::new();
    state.add_address(4, IpFamily::V4, v4(10, 1, 1, 2));
    state.add_default_route(4, IpFamily::V4, v4(10, 1, 1, 1), 5);
    assert_eq!(state.internet_connectivity(), InternetConnectivity::Disconnected);
    state.add_link(4, false, true);
    assert_eq!(state.internet_connectivity(), InternetConnectivity::IpV4);
}

#[test]
fn order_does_not_matter() {
    let mut a = InterfacesState::new();
    a.add_link(1, false, true);
    a.add_address(1, IpFamily::V4, v4(10, 0, 0, 2));
    a.add_default_route(1, IpFamily::V4, v4(10, 0, 0, 1), 10);
    let mut b = InterfacesState::new();
    b.add_default_route(1, IpFamily::V4, v4(10, 0, 0, 1), 10);
    b.add_address(1, IpFamily::V4, v4(10, 0, 0, 2));
    b.add_link(1, false, true);
    assert_eq!(a.internet_connectivity(), b.internet_connectivity());
    assert_eq!(a.internet_connectivity(), InternetConnectivity::IpV4);
}

#[test]
fn addresses_are_a_set() {
    let mut state = InterfacesState::new();
    state.add_link(1, false, true);
    state.add_address(1, IpFamily::V4, v4(10, 0, 0, 2));
    state.add_address(1, IpFamily::V4, v4(10, 0, 0, 2));
    state.add_default_route(1, IpFamily::V4, v4(10, 0, 0, 1), 10);
    assert_eq!(state.internet_connectivity(), InternetConnectivity::IpV4);
    state.remove_address(1, IpFamily::V4, &v4(10, 0, 0, 2));
    assert_eq!(state.internet_connectivity(), InternetConnectivity::Disconnected);
}

#[test]
fn gateway_identity_includes_priority() {
    let mut state = InterfacesState::new();
    state.add_link(1, false, true);
    state.add_address(1, IpFamily::V4, v4(10, 0, 0, 2));
    state.add_default_route(1, IpFamily::V4, v4(10, 0, 0, 1), 10);
    state.remove_default_route(1, IpFamily::V4, &v4(10, 0, 0, 1), 20);
    assert_eq!(state.internet_connectivity(), InternetConnectivity::IpV4);
    state.remove_default_route(1, IpFamily::V4, &v4(10, 0, 0, 1), 10);
    assert_eq!(state.internet_connectivity(), InternetConnectivity::Disconnected);
}

#[test]
fn families_are_kept_apart() {
    let mut state = InterfacesState::new();
    state.add_link(1, false, true);
    state.add_address(1, IpFamily::V4, v4(10, 0, 0, 2));
    state.add_default_route(1, IpFamily::V6, v6(1), 10);
    assert_eq!(state.internet_connectivity(), InternetConnectivity::Disconnected);
}
