use tokio_seqpacket::error::{Error, ErrorKind};

#[test]
fn a_would_block_error_is_reduced_to_its_class_and_code() {
    let reduced = Error::from_io(&std::io::Error::from_raw_os_error(libc::EAGAIN));
    assert_eq!(reduced, Error { kind: ErrorKind::WouldBlock, raw_os_error: Some(libc::EAGAIN) });
    assert!(reduced.is_would_block());
}

#[test]
fn an_error_without_a_code_keeps_its_class() {
    let reduced = Error::from_io(&std::io::Error::from(std::io::ErrorKind::InvalidInput));
    assert_eq!(reduced, Error::invalid_input());
    let reduced = Error::from_io(&std::io::Error::from(std::io::ErrorKind::WouldBlock));
    assert_eq!(reduced, Error { kind: ErrorKind::WouldBlock, raw_os_error: None });
}

#[test]
fn any_other_error_keeps_its_code() {
    let reduced = Error::from_io(&std::io::Error::from_raw_os_error(libc::EPIPE));
    assert_eq!(reduced, Error { kind: ErrorKind::Other, raw_os_error: Some(libc::EPIPE) });
    assert!(!reduced.is_would_block());
    let reduced = Error::from_io(&std::io::Error::from_raw_os_error(libc::ECONNRESET));
    assert_eq!(reduced, Error { kind: ErrorKind::Other, raw_os_error: Some(libc::ECONNRESET) });
}
