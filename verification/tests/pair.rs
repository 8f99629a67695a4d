use socket2::{Domain, SockAddr, Socket, Type};
use tokio_seqpacket::error::{Error, ErrorKind};
use tokio_seqpacket::readiness::{outcome, Outcome, Poll, Readiness, Token};
use tokio_seqpacket::socket::{connect, poll_recv, poll_send, Connect, Step};

fn pair() -> (Socket, Socket) {
    Socket::pair(Domain::unix(), Type::seqpacket().non_blocking().cloexec(), None).unwrap()
}

/// One poll of a send with the reactor ready: the call is made and judged.
fn send_once(socket: &Socket, payload: &[u8]) -> Outcome {
    assert_eq!(poll_send(Readiness::Ready), Step::Call(()));
    outcome(socket.send(payload).map_err(|error| Error::from_io(&error)))
}

/// One poll of a receive with the reactor ready: the call is made and judged.
fn recv_once(socket: &Socket, buffer: &mut [u8]) -> Outcome {
    assert_eq!(poll_recv(Readiness::Ready), Step::Call(()));
    outcome(socket.recv(buffer).map_err(|error| Error::from_io(&error)))
}

fn told(size: usize) -> Outcome {
    Outcome { token: Token::Retain, poll: Poll::Ready(Ok(size)) }
}

fn left_pending() -> Outcome {
    Outcome { token: Token::Clear, poll: Poll::Pending }
}

#[test]
fn messages_arrive_whole_and_apart() {
    let (a, b) = pair();
    assert_eq!(send_once(&a, b"hello"), told(5));
    assert_eq!(send_once(&a, b"world!"), told(6));
    let mut buffer = [0u8; 64];
    assert_eq!(recv_once(&b, &mut buffer), told(5));
    assert_eq!(&buffer[..5], b"hello");
    assert_eq!(recv_once(&b, &mut buffer), told(6));
    assert_eq!(&buffer[..6], b"world!");
}

#[test]
fn an_empty_message_is_received_as_zero_bytes() {
    let (a, b) = pair();
    assert_eq!(send_once(&a, b""), told(0));
    assert_eq!(send_once(&a, b"next"), told(4));
    let mut buffer = [0u8; 8];
    assert_eq!(recv_once(&b, &mut buffer), told(0));
    assert_eq!(recv_once(&b, &mut buffer), told(4));
    assert_eq!(&buffer[..4], b"next");
}

#[test]
fn every_message_arrives_once_and_in_the_order_sent() {
    let (a, b) = pair();
    for number in 0u8..32 {
        assert_eq!(send_once(&a, &[number; 3]), told(3));
    }
    let mut buffer = [0u8; 8];
    for number in 0u8..32 {
        assert_eq!(recv_once(&b, &mut buffer), told(3));
        assert_eq!(&buffer[..3], &[number; 3]);
    }
    assert_eq!(recv_once(&b, &mut buffer), left_pending());
}

#[test]
fn a_receive_without_data_is_left_pending_until_data_arrives() {
    let (a, b) = pair();
    let mut buffer = [0u8; 8];
    assert_eq!(recv_once(&b, &mut buffer), left_pending());
    assert_eq!(recv_once(&b, &mut buffer), left_pending());
    assert_eq!(send_once(&a, b"now"), told(3));
    assert_eq!(recv_once(&b, &mut buffer), told(3));
    assert_eq!(&buffer[..3], b"now");
}

#[test]
fn a_send_without_room_is_left_pending_until_the_peer_receives() {
    let (a, b) = pair();
    let payload = [7u8; 1024];
    let mut sent = 0;
    loop {
        let judged = send_once(&a, &payload);
        if judged == left_pending() {
            break;
        }
        assert_eq!(judged, told(1024));
        sent += 1;
        assert!(sent < 100_000, "the socket took more than it can hold");
    }
    assert!(sent > 0);
    let mut buffer = [0u8; 2048];
    for _ in 0..sent {
        assert_eq!(recv_once(&b, &mut buffer), told(1024));
    }
    assert_eq!(send_once(&a, &payload), told(1024));
}

#[test]
fn after_the_peer_closed_a_receive_completes_with_zero_bytes() {
    let (a, b) = pair();
    assert_eq!(send_once(&a, b"last"), told(4));
    drop(a);
    let mut buffer = [0u8; 8];
    assert_eq!(recv_once(&b, &mut buffer), told(4));
    assert_eq!(recv_once(&b, &mut buffer), told(0));
    assert_eq!(recv_once(&b, &mut buffer), told(0));
}

#[test]
fn a_send_to_a_peer_that_is_gone_fails_for_good() {
    let (a, b) = pair();
    drop(b);
    let judged = send_once(&a, b"anyone?");
    assert_eq!(judged.token, Token::Retain);
    match judged.poll {
        Poll::Ready(Err(error)) => {
            assert!(!error.is_would_block());
            assert!(error.raw_os_error.is_some());
        },
        other => panic!("the peer is gone, and the task was told {:?}", other),
    }
}

#[test]
fn connecting_to_a_path_that_does_not_exist_fails_with_its_error() {
    let socket = Socket::new(Domain::unix(), Type::seqpacket().non_blocking().cloexec(), None).unwrap();
    let nowhere = SockAddr::unix("/nonexistent/tokio-seqpacket/socket").unwrap();
    let attempt = socket.connect(&nowhere).map_err(|error| Error::from_io(&error));
    assert_eq!(
        connect(attempt),
        Connect::Failed(Error { kind: ErrorKind::Other, raw_os_error: Some(libc::ENOENT) })
    );
}
