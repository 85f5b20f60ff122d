use proxychains::address::{Endpoint, Ipv4};
use proxychains::connection::{BridgeError, Poll};
use proxychains::pack;
use proxychains::proxychains::{Proxy, ProxyChainsConf, ProxyChainsMode};
use proxychains::shim::{Accepted, ReadOutcome, Shim, Written};

fn local_proxy() -> Endpoint {
    Endpoint { ip: Ipv4 { a: 127, b: 0, c: 0, d: 1 }, port: 1080 }
}

fn second_proxy() -> Endpoint {
    Endpoint { ip: Ipv4 { a: 127, b: 0, c: 0, d: 1 }, port: 1081 }
}

fn origin() -> Endpoint {
    Endpoint { ip: Ipv4 { a: 93, b: 184, c: 216, d: 34 }, port: 80 }
}

fn elsewhere() -> Endpoint {
    Endpoint { ip: Ipv4 { a: 1, b: 1, c: 1, d: 1 }, port: 443 }
}

fn shim() -> Shim {
    Shim::new(ProxyChainsConf {
        mode: ProxyChainsMode::Strict,
        proxies: vec![
            Proxy { socket_addr: local_proxy(), auth: None },
            Proxy { socket_addr: second_proxy(), auth: Some(("u".to_string(), "p".to_string())) },
        ],
        chain_len: 0,
    })
}

fn running_shim() -> Shim {
    let mut shim = shim();
    assert_eq!(shim.poll_next(), Accepted::Publish);
    shim.waker_sent();
    shim
}

fn bridged_shim(fd: i32, target: Endpoint) -> Shim {
    let mut shim = running_shim();
    assert!(shim.connect(fd, &pack(target)));
    assert_eq!(shim.poll_next(), Accepted::Ready { fd: fd as u32, target_addr: target });
    shim
}

#[test]
fn new_shim_knows_its_proxies_and_no_bridge() {
    let shim = shim();
    assert_eq!(shim.proxies().len(), 2);
    assert_eq!(shim.config().mode, ProxyChainsMode::Strict);
    assert!(shim.is_proxy(&local_proxy()));
    assert!(shim.is_proxy(&second_proxy()));
    assert!(!shim.is_proxy(&origin()));
    assert!(!shim.is_bridged(origin()));
}

#[test]
fn connect_to_an_ordinary_endpoint_is_announced() {
    let mut shim = running_shim();
    assert_eq!(shim.poll_next(), Accepted::Pending);
    assert!(shim.connect(5, &pack(origin())));
    assert!(!shim.is_bridged(origin()));
    assert_eq!(shim.poll_next(), Accepted::Ready { fd: 5, target_addr: origin() });
    assert!(shim.is_bridged(origin()));
    assert_eq!(shim.poll_next(), Accepted::Pending);
}

#[test]
fn connect_to_a_proxy_is_not_intercepted() {
    let mut shim = running_shim();
    assert!(!shim.connect(5, &pack(local_proxy())));
    assert!(!shim.connect(6, &pack(second_proxy())));
    assert_eq!(shim.poll_next(), Accepted::Pending);
    assert!(!shim.is_bridged(local_proxy()));
    assert_eq!(shim.write(5, b"x"), Written::Forward);
    let mut buf = [0u8; 4];
    assert_eq!(shim.read(5, &mut buf), ReadOutcome::Forward);
}

#[test]
fn connect_to_a_bridged_endpoint_is_not_announced_again() {
    let mut shim = bridged_shim(5, origin());
    assert!(!shim.connect(6, &pack(origin())));
    assert_eq!(shim.poll_next(), Accepted::Pending);
    assert!(shim.connect(6, &pack(elsewhere())));
    assert_eq!(shim.poll_next(), Accepted::Ready { fd: 6, target_addr: elsewhere() });
}

#[test]
fn connections_get_their_bridges_in_the_order_announced() {
    let mut shim = running_shim();
    assert!(shim.connect(9, &pack(origin())));
    assert!(shim.connect(4, &pack(elsewhere())));
    assert_eq!(shim.poll_next(), Accepted::Ready { fd: 9, target_addr: origin() });
    assert_eq!(shim.poll_next(), Accepted::Ready { fd: 4, target_addr: elsewhere() });
    assert_eq!(shim.poll_next(), Accepted::Pending);
}

#[test]
fn announcements_wait_until_the_worker_has_published_its_waker() {
    let mut shim = shim();
    assert!(shim.connect(5, &pack(origin())));
    assert_eq!(shim.poll_next(), Accepted::Publish);
    assert!(!shim.is_bridged(origin()));
    shim.waker_sent();
    assert_eq!(shim.poll_next(), Accepted::Ready { fd: 5, target_addr: origin() });
}

#[test]
fn write_without_bridge_is_forwarded() {
    let mut shim = running_shim();
    assert_eq!(shim.write(3, b"to a file"), Written::Forward);
    assert_eq!(shim.write(-1, b""), Written::Forward);
}

#[test]
fn read_without_bridge_is_forwarded_and_leaves_the_buffer() {
    let mut shim = running_shim();
    let mut buf = [7u8; 4];
    assert_eq!(shim.read(3, &mut buf), ReadOutcome::Forward);
    assert_eq!(buf, [7; 4]);
}

#[test]
fn write_before_the_pump_polls_is_dropped() {
    let mut shim = bridged_shim(5, origin());
    assert_eq!(shim.write(5, b"early"), Written::Taken { count: 5, wake: false });
    let mut buf = [0u8; 16];
    assert_eq!(shim.poll_read(5, &mut buf), Some(Poll::Pending));
    assert_eq!(shim.poll_read(5, &mut buf), Some(Poll::Pending));
    assert_eq!(buf, [0u8; 16]);
}

#[test]
fn write_after_the_pump_polled_is_queued_and_wakes() {
    let mut shim = bridged_shim(5, origin());
    let mut buf = [0u8; 32];
    assert_eq!(shim.poll_read(5, &mut buf), Some(Poll::Pending));
    let request = b"GET / HTTP/1.0\r\n\r\n";
    assert_eq!(shim.write(5, request), Written::Taken { count: 18, wake: true });
    assert_eq!(shim.write(5, b""), Written::Taken { count: 0, wake: true });
    assert_eq!(shim.poll_read(5, &mut buf), Some(Poll::Ready(Ok(18))));
    assert_eq!(&buf[..18], request);
    assert_eq!(shim.poll_read(5, &mut buf), Some(Poll::Ready(Ok(0))));
    assert_eq!(shim.poll_read(5, &mut buf), Some(Poll::Pending));
}

#[test]
fn read_waits_until_the_peer_has_sent() {
    let mut shim = bridged_shim(5, origin());
    let mut buf = [0u8; 4096];
    assert_eq!(shim.read(5, &mut buf), ReadOutcome::Pending);
    let reply = b"HTTP/1.0 200 OK\r\n\r\nhi";
    assert_eq!(shim.poll_write(5, reply), Some(Poll::Ready(Ok(21))));
    assert_eq!(shim.read(5, &mut buf), ReadOutcome::Taken { len: 21 });
    assert_eq!(&buf[..21], reply);
    assert!(buf[21..].iter().all(|byte| *byte == 0));
    assert_eq!(shim.read(5, &mut buf), ReadOutcome::Pending);
}

#[test]
fn read_takes_chunks_in_arrival_order() {
    let mut shim = bridged_shim(5, origin());
    assert_eq!(shim.poll_write(5, b"one"), Some(Poll::Ready(Ok(3))));
    assert_eq!(shim.poll_write(5, b"three"), Some(Poll::Ready(Ok(5))));
    let mut buf = [0u8; 8];
    assert_eq!(shim.read(5, &mut buf), ReadOutcome::Taken { len: 3 });
    assert_eq!(&buf, b"one\0\0\0\0\0");
    assert_eq!(shim.read(5, &mut buf), ReadOutcome::Taken { len: 5 });
    assert_eq!(&buf, b"three\0\0\0");
}

#[test]
fn read_into_a_short_buffer_reports_the_chunk_length() {
    let mut shim = bridged_shim(5, origin());
    assert_eq!(shim.poll_write(5, b"abcdef"), Some(Poll::Ready(Ok(6))));
    assert_eq!(shim.poll_write(5, b"gh"), Some(Poll::Ready(Ok(2))));
    let mut buf = [0u8; 4];
    assert_eq!(shim.read(5, &mut buf), ReadOutcome::Taken { len: 6 });
    assert_eq!(&buf, b"abcd");
    assert_eq!(shim.read(5, &mut buf), ReadOutcome::Taken { len: 2 });
    assert_eq!(&buf, b"ghcd");
}

#[test]
fn pump_poll_with_a_short_buffer_is_an_error() {
    let mut shim = bridged_shim(5, origin());
    let mut buf = [0u8; 2];
    assert_eq!(shim.poll_read(5, &mut buf), Some(Poll::Pending));
    assert_eq!(shim.write(5, b"abc"), Written::Taken { count: 3, wake: true });
    assert_eq!(
        shim.poll_read(5, &mut buf),
        Some(Poll::Ready(Err(BridgeError::ChunkTooLarge)))
    );
    assert_eq!(buf, [0, 0]);
}

#[test]
fn pump_without_bridge_gets_nothing() {
    let mut shim = running_shim();
    let mut buf = [1u8; 2];
    assert_eq!(shim.poll_read(5, &mut buf), None);
    assert_eq!(shim.poll_write(5, b"x"), None);
    assert_eq!(buf, [1, 1]);
    assert_eq!(shim.write(5, b"x"), Written::Forward);
}

#[test]
fn bridges_do_not_share_their_queues() {
    let mut shim = bridged_shim(5, origin());
    assert!(shim.connect(6, &pack(elsewhere())));
    assert_eq!(shim.poll_next(), Accepted::Ready { fd: 6, target_addr: elsewhere() });
    let mut buf = [0u8; 8];
    assert_eq!(shim.poll_read(5, &mut buf), Some(Poll::Pending));
    assert_eq!(shim.poll_read(6, &mut buf), Some(Poll::Pending));
    assert_eq!(shim.write(5, b"five"), Written::Taken { count: 4, wake: true });
    assert_eq!(shim.write(6, b"six"), Written::Taken { count: 3, wake: true });
    assert_eq!(shim.poll_write(6, b"back"), Some(Poll::Ready(Ok(4))));
    assert_eq!(shim.read(5, &mut buf), ReadOutcome::Pending);
    assert_eq!(shim.poll_read(6, &mut buf), Some(Poll::Ready(Ok(3))));
    assert_eq!(&buf[..3], b"six");
    assert_eq!(shim.poll_read(5, &mut buf), Some(Poll::Ready(Ok(4))));
    assert_eq!(&buf[..4], b"five");
    assert_eq!(shim.read(6, &mut buf), ReadOutcome::Taken { len: 4 });
    assert_eq!(&buf[..4], b"back");
}

#[test]
fn released_descriptor_is_forwarded_again() {
    let mut shim = bridged_shim(5, origin());
    assert!(shim.is_bridged(origin()));
    assert!(shim.release(5));
    assert!(!shim.release(5));
    assert!(!shim.is_bridged(origin()));
    assert_eq!(shim.write(5, b"x"), Written::Forward);
    assert!(shim.connect(8, &pack(origin())));
}

#[test]
fn closed_shim_announces_nothing_and_finishes() {
    let mut shim = running_shim();
    assert!(shim.connect(5, &pack(origin())));
    shim.close();
    assert!(!shim.connect(6, &pack(elsewhere())));
    assert_eq!(shim.poll_next(), Accepted::Ready { fd: 5, target_addr: origin() });
    assert_eq!(shim.poll_next(), Accepted::Finished);
}

#[test]
fn negative_descriptor_is_keyed_by_its_bit_pattern() {
    let mut shim = running_shim();
    assert!(shim.connect(-1, &pack(origin())));
    assert_eq!(shim.poll_next(), Accepted::Ready { fd: u32::MAX, target_addr: origin() });
    assert_eq!(shim.write(-1, b"x"), Written::Taken { count: 1, wake: false });
    assert_eq!(shim.write(1, b"x"), Written::Forward);
}

#[test]
fn request_and_reply_cross_the_bridge() {
    let mut shim = running_shim();
    assert!(shim.connect(5, &pack(origin())));
    assert_eq!(shim.poll_next(), Accepted::Ready { fd: 5, target_addr: origin() });
    let mut pump_buf = [0u8; 2048];
    assert_eq!(shim.poll_read(5, &mut pump_buf), Some(Poll::Pending));
    let request = b"GET / HTTP/1.0\r\n\r\n";
    assert_eq!(shim.write(5, request), Written::Taken { count: request.len(), wake: true });
    assert_eq!(shim.poll_read(5, &mut pump_buf), Some(Poll::Ready(Ok(request.len()))));
    assert_eq!(&pump_buf[..request.len()], request);
    let reply = b"HTTP/1.0 200 OK\r\n\r\nhi";
    assert_eq!(shim.poll_write(5, reply), Some(Poll::Ready(Ok(reply.len()))));
    let mut buf = [0u8; 4096];
    assert_eq!(shim.read(5, &mut buf), ReadOutcome::Taken { len: reply.len() });
    assert_eq!(&buf[..reply.len()], reply);
}
