use netty::address::{bind_address, SocketAddress, GLOBAL_ADDRESS, LOCAL_ADDRESS};
use netty::timing::{pace, Pacing};
use netty::websocket::{check_open, packet_payload, ws_url, WsMessage, WS_OPEN};

#[test]
fn public_servers_bind_every_interface() {
    assert_eq!(bind_address(true, 8000), SocketAddress { ip: [0, 0, 0, 0], port: 8000 });
    assert_eq!(bind_address(true, 8001).ip, GLOBAL_ADDRESS);
}

#[test]
fn private_servers_bind_loopback() {
    assert_eq!(bind_address(false, 8001), SocketAddress { ip: [127, 0, 0, 1], port: 8001 });
    assert_eq!(bind_address(false, 0).ip, LOCAL_ADDRESS);
}

#[test]
fn addresses_differ_by_any_octet_or_port() {
    let a = SocketAddress { ip: [10, 0, 0, 1], port: 80 };
    assert_eq!(a, SocketAddress { ip: [10, 0, 0, 1], port: 80 });
    assert_ne!(a, SocketAddress { ip: [10, 0, 0, 2], port: 80 });
    assert_ne!(a, SocketAddress { ip: [11, 0, 0, 1], port: 80 });
    assert_ne!(a, SocketAddress { ip: [10, 0, 0, 1], port: 81 });
}

#[test]
fn websocket_url_of_the_default_client() {
    assert_eq!(ws_url([127, 0, 0, 1], 8001), "ws://127.0.0.1:8001");
}

#[test]
fn websocket_url_extremes() {
    assert_eq!(ws_url([0, 0, 0, 0], 0), "ws://0.0.0.0:0");
    assert_eq!(ws_url([255, 255, 255, 255], 65535), "ws://255.255.255.255:65535");
    assert_eq!(ws_url([192, 168, 10, 9], 10), "ws://192.168.10.9:10");
}

#[test]
fn only_an_open_websocket_takes_a_packet() {
    assert_eq!(WS_OPEN, 1);
    assert_eq!(check_open(0), Err(()));
    assert_eq!(check_open(1), Ok(()));
    assert_eq!(check_open(2), Err(()));
    assert_eq!(check_open(3), Err(()));
}

#[test]
fn only_binary_messages_carry_packets() {
    assert_eq!(packet_payload(WsMessage::Binary(vec![1, 2, 3])), Some(vec![1, 2, 3]));
    assert_eq!(packet_payload(WsMessage::Binary(Vec::new())), Some(Vec::new()));
    assert_eq!(packet_payload(WsMessage::Text("hi".to_string())), None);
    assert_eq!(packet_payload(WsMessage::Ping(vec![1])), None);
    assert_eq!(packet_payload(WsMessage::Pong(vec![1])), None);
    assert_eq!(packet_payload(WsMessage::Close), None);
    assert_eq!(packet_payload(WsMessage::Frame), None);
}

#[test]
fn a_short_iteration_sleeps_out_the_tick() {
    assert_eq!(pace(6_000_000, 16_666_667), Pacing::Sleep(10_666_667));
    assert_eq!(pace(0, 5), Pacing::Sleep(5));
}

#[test]
fn a_long_iteration_does_not_sleep() {
    assert_eq!(pace(16_666_667, 16_666_667), Pacing::Overrun);
    assert_eq!(pace(20_000_000, 16_666_667), Pacing::Overrun);
    assert_eq!(pace(0, 0), Pacing::Overrun);
}
