use socket2::{Domain, SockAddr, Socket, Type};
use tokio_seqpacket::ancillary::SocketAncillary;
use tokio_seqpacket::error::{Error, ErrorKind};
use tokio_seqpacket::message::{
    check_returned_size, recv_flags, recv_msg, recv_msg_result, returned_size, send_flags,
    send_msg, HeaderLimits, MessageHeader, MSG_CMSG_CLOEXEC, MSG_CTRUNC, MSG_NOSIGNAL,
};

const WIDE: HeaderLimits = HeaderLimits { max_iov_len: usize::MAX, max_control_len: usize::MAX };
const NARROW: HeaderLimits = HeaderLimits { max_iov_len: 4, max_control_len: 32 };

#[test]
fn a_count_of_bytes_is_handed_on() {
    assert_eq!(check_returned_size(5), Ok(5));
    assert_eq!(check_returned_size(isize::MAX), Ok(isize::MAX as usize));
}

#[test]
fn an_empty_message_is_zero_bytes_and_no_failure() {
    assert_eq!(returned_size(0), Some(0));
    assert_eq!(check_returned_size(0), Ok(0));
}

#[test]
fn a_negative_result_is_a_failure() {
    assert_eq!(returned_size(-1), None);
    assert_eq!(returned_size(isize::MIN), None);
    assert!(check_returned_size(-1).is_err());
}

#[test]
fn a_negative_result_carries_the_last_os_error() {
    let socket = Socket::new(Domain::unix(), Type::seqpacket(), None).unwrap();
    let nowhere = SockAddr::unix("/nonexistent/tokio-seqpacket/path").unwrap();
    assert!(socket.connect(&nowhere).is_err());
    let failure = check_returned_size(-1).unwrap_err();
    assert_eq!(failure.raw_os_error, Some(libc::ENOENT));
    assert_eq!(failure.kind, ErrorKind::Other);
}

#[test]
fn the_flags_are_those_of_the_platform() {
    assert_eq!(MSG_NOSIGNAL, libc::MSG_NOSIGNAL);
    assert_eq!(MSG_CMSG_CLOEXEC, libc::MSG_CMSG_CLOEXEC);
    assert_eq!(MSG_CTRUNC, libc::MSG_CTRUNC);
    assert_eq!(send_flags(), 0x4000);
    assert_eq!(recv_flags(), 0x4000_4000);
}

#[test]
fn a_send_without_control_data_names_no_control_region() {
    let mut region = [0u8; 64];
    let mut ancillary = SocketAncillary::new(&mut region);
    let header = send_msg(&WIDE, 3, &mut ancillary);
    assert_eq!(
        header,
        Ok(MessageHeader { name_len: 0, iov_len: 3, control: false, control_len: 0, msg_flags: 0 })
    );
}

#[test]
fn a_send_names_the_bytes_in_use() {
    let mut region = [0u8; 64];
    let mut ancillary = SocketAncillary::new(&mut region);
    assert!(ancillary.add_fds(&[7]));
    let header = send_msg(&WIDE, 1, &mut ancillary);
    assert_eq!(
        header,
        Ok(MessageHeader { name_len: 0, iov_len: 1, control: true, control_len: 24, msg_flags: 0 })
    );
}

#[test]
fn a_send_clears_the_truncation_mark() {
    let mut region = [0u8; 64];
    let mut ancillary = SocketAncillary::from_parts(&mut region, 24, true).unwrap();
    assert!(ancillary.truncated());
    let header = send_msg(&WIDE, 1, &mut ancillary).unwrap();
    assert!(!ancillary.truncated());
    assert_eq!(ancillary.len(), 24);
    assert_eq!(header.control_len, 24);
}

#[test]
fn a_send_clears_the_truncation_mark_even_if_the_lengths_do_not_fit() {
    let mut region = [0u8; 64];
    let mut ancillary = SocketAncillary::from_parts(&mut region, 40, true).unwrap();
    assert_eq!(send_msg(&NARROW, 1, &mut ancillary), Err(Error::invalid_input()));
    assert!(!ancillary.truncated());
    assert_eq!(ancillary.len(), 40);
}

#[test]
fn too_many_buffers_are_invalid_input() {
    let mut region = [0u8; 64];
    let mut ancillary = SocketAncillary::new(&mut region);
    assert_eq!(send_msg(&NARROW, 5, &mut ancillary), Err(Error::invalid_input()));
    assert_eq!(recv_msg(&NARROW, 5, &SocketAncillary::new(&mut [])), Err(Error::invalid_input()));
    assert!(send_msg(&NARROW, 4, &mut ancillary).is_ok());
}

#[test]
fn invalid_input_is_a_local_failure_without_a_code() {
    let failure = Error::invalid_input();
    assert_eq!(failure.kind, ErrorKind::InvalidInput);
    assert_eq!(failure.raw_os_error, None);
    assert!(!failure.is_would_block());
}

#[test]
fn a_receive_offers_the_whole_region() {
    let mut region = [0u8; 32];
    let ancillary = SocketAncillary::new(&mut region);
    assert_eq!(
        recv_msg(&NARROW, 2, &ancillary),
        Ok(MessageHeader { name_len: 0, iov_len: 2, control: true, control_len: 32, msg_flags: 0 })
    );
}

#[test]
fn a_receive_into_too_large_a_region_is_invalid_input() {
    let mut region = [0u8; 33];
    let ancillary = SocketAncillary::new(&mut region);
    assert_eq!(recv_msg(&NARROW, 2, &ancillary), Err(Error::invalid_input()));
}

#[test]
fn a_receive_without_a_region_names_no_control_region() {
    let ancillary = SocketAncillary::new(&mut []);
    assert_eq!(
        recv_msg(&WIDE, 2, &ancillary),
        Ok(MessageHeader { name_len: 0, iov_len: 2, control: false, control_len: 0, msg_flags: 0 })
    );
}

#[test]
fn a_receive_records_length_and_truncation() {
    let mut region = [0u8; 32];
    let mut ancillary = SocketAncillary::new(&mut region);
    assert_eq!(recv_msg_result(10, MSG_CTRUNC, 32, &mut ancillary), Ok(10));
    assert!(ancillary.truncated());
    assert_eq!(ancillary.len(), 32);
}

#[test]
fn a_later_receive_that_fits_is_not_truncated() {
    let mut region = [0u8; 64];
    let mut ancillary = SocketAncillary::from_parts(&mut region, 16, true).unwrap();
    assert_eq!(recv_msg_result(3, 0, 24, &mut ancillary), Ok(3));
    assert!(!ancillary.truncated());
    assert_eq!(ancillary.len(), 24);
}

#[test]
fn other_header_flags_do_not_mean_truncation() {
    let mut region = [0u8; 64];
    let mut ancillary = SocketAncillary::new(&mut region);
    assert_eq!(recv_msg_result(1, libc::MSG_TRUNC | libc::MSG_EOR, 0, &mut ancillary), Ok(1));
    assert!(!ancillary.truncated());
    assert_eq!(recv_msg_result(1, libc::MSG_CTRUNC | libc::MSG_EOR, 0, &mut ancillary), Ok(1));
    assert!(ancillary.truncated());
}

#[test]
fn a_failed_receive_leaves_the_region_as_it_was() {
    let mut region = [0u8; 64];
    let mut ancillary = SocketAncillary::from_parts(&mut region, 16, true).unwrap();
    assert!(recv_msg_result(-1, 0, 24, &mut ancillary).is_err());
    assert!(ancillary.truncated());
    assert_eq!(ancillary.len(), 16);
}
