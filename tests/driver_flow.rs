use connectivity::driver::{Driver, Failure, Phase, Step};
use connectivity::netlink::{AddressInfo, LinkInfo, Message, RouteInfo, LINK_FLAG_LOWER_UP};
use connectivity::state::InternetConnectivity;

fn link(index: u32) -> Message {
    Message::NewLink(LinkInfo { index, flags: LINK_FLAG_LOWER_UP })
}

fn address(index: u32, family: u8, bytes: Vec<u8>) -> Message {
    Message::NewAddress(AddressInfo { family, flags: 0, index, extended_flags: None, address: Some(bytes) })
}

fn route(index: u32, family: u8, gateway: Vec<u8>) -> Message {
    Message::NewRoute(RouteInfo {
        family,
        output_interface: Some(index),
        gateway: Some(gateway),
        priority: Some(100),
    })
}

fn v6(last: u8) -> Vec<u8> {
    let mut bytes = vec![0u8; 16];
    bytes[0] = 0xfe;
    bytes[15] = last;
    bytes
}

#[test]
fn duplicates_are_not_emitted() {
    let mut driver = Driver::new();
    driver.snapshot_item(&link(1));
    driver.snapshot_item(&address(1, 2, vec![10, 0, 0, 2]));
    let mut emitted = Vec::new();
    emitted.push(driver.finish_bootstrap().unwrap());
    assert_eq!(emitted, vec![InternetConnectivity::Disconnected]);
    // Derived sequence: IpV4, IpV4, All.
    for msg in [route(1, 2, vec![10, 0, 0, 1]), address(1, 10, v6(2)), route(1, 10, v6(1))] {
        if let Step::Emit(c) = driver.on_message(&msg) {
            emitted.push(c);
        }
    }
    assert_eq!(
        emitted,
        vec![InternetConnectivity::Disconnected, InternetConnectivity::IpV4, InternetConnectivity::All]
    );
    assert_eq!(driver.last(), InternetConnectivity::All);
}

#[test]
fn initial_value_is_always_emitted() {
    let mut driver = Driver::new();
    assert_eq!(driver.phase(), Phase::Bootstrapping);
    assert_eq!(driver.finish_bootstrap(), Some(InternetConnectivity::Disconnected));
    assert_eq!(driver.phase(), Phase::Streaming);
    assert_eq!(driver.finish_bootstrap(), None);
}

#[test]
fn snapshot_failure_emits_nothing() {
    for failing_query in 0..4 {
        let mut driver = Driver::new();
        let queries = [
            link(1),
            address(1, 2, vec![10, 0, 0, 2]),
            route(1, 2, vec![10, 0, 0, 1]),
            route(1, 10, v6(1)),
        ];
        for (n, item) in queries.iter().enumerate() {
            if n == failing_query {
                driver.fail(Failure::Snapshot);
                break;
            }
            driver.snapshot_item(item);
        }
        assert_eq!(driver.phase(), Phase::Terminated);
        assert_eq!(driver.failure(), Some(Failure::Snapshot));
        assert_eq!(driver.finish_bootstrap(), None);
        assert_eq!(driver.on_message(&route(1, 2, vec![10, 0, 0, 1])), Step::Quiet);
        assert_eq!(driver.phase(), Phase::Terminated);
    }
}

#[test]
fn protocol_error_is_fatal() {
    let mut driver = Driver::new();
    driver.finish_bootstrap();
    assert_eq!(driver.on_message(&Message::ProtocolError), Step::Fail(Failure::Protocol));
    assert_eq!(driver.phase(), Phase::Terminated);
    assert_eq!(driver.failure(), Some(Failure::Protocol));
}

#[test]
fn overrun_is_fatal() {
    let mut driver = Driver::new();
    driver.finish_bootstrap();
    assert_eq!(driver.on_message(&Message::Overrun), Step::Fail(Failure::Overrun));
    assert_eq!(driver.failure(), Some(Failure::Overrun));
}

#[test]
fn other_messages_are_dropped() {
    let mut driver = Driver::new();
    driver.finish_bootstrap();
    assert_eq!(driver.on_message(&Message::Other), Step::Quiet);
    assert_eq!(driver.phase(), Phase::Streaming);
}

#[test]
fn receiver_gone_drains_then_terminates() {
    let mut driver = Driver::new();
    driver.receiver_closed();
    assert_eq!(driver.phase(), Phase::Bootstrapping);
    driver.finish_bootstrap();
    driver.receiver_closed();
    assert_eq!(driver.phase(), Phase::Draining);
    assert_eq!(driver.on_message(&link(1)), Step::Quiet);
    driver.unsubscribed();
    assert_eq!(driver.phase(), Phase::Terminated);
    assert_eq!(driver.failure(), None);
}

#[test]
fn send_failure_terminates() {
    let mut driver = Driver::new();
    driver.finish_bootstrap();
    driver.fail(Failure::Send);
    assert_eq!(driver.phase(), Phase::Terminated);
    assert_eq!(driver.failure(), Some(Failure::Send));
    driver.fail(Failure::Protocol);
    assert_eq!(driver.failure(), Some(Failure::Send));
}

#[test]
fn link_removal_while_streaming() {
    let mut driver = Driver::new();
    driver.snapshot_item(&link(5));
    driver.snapshot_item(&address(5, 2, vec![1, 1, 1, 1]));
    driver.snapshot_item(&route(5, 2, vec![1, 1, 1, 1]));
    assert_eq!(driver.finish_bootstrap(), Some(InternetConnectivity::IpV4));
    let removal = Message::DelLink(LinkInfo { index: 5, flags: 0 });
    assert_eq!(driver.on_message(&removal), Step::Emit(InternetConnectivity::Disconnected));
    let stale = Message::DelAddress(AddressInfo {
        family: 2,
        flags: 0,
        index: 5,
        extended_flags: None,
        address: Some(vec![1, 1, 1, 1]),
    });
    assert_eq!(driver.on_message(&stale), Step::Quiet);
    assert_eq!(driver.last(), InternetConnectivity::Disconnected);
}
