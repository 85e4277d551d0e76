use tokio_serial::frame::LineCodec;
use tokio_serial::port::{Async, DeviceReply, Fault, Serial};
use tokio_serial::stream::{Action, Framed, Phase, StreamError};

fn open() -> Framed {
    Framed::new(Serial::from_path("/dev/ttyUSB0"), LineCodec)
}

fn emit(text: &str) -> Action {
    Action::Emit(text.to_string())
}

fn deliver(stream: &mut Framed, bytes: &[u8]) -> Action {
    assert_eq!(stream.poll(), Action::Read);
    stream.on_read(bytes, DeviceReply::Done(bytes.len()))
}

#[test]
fn new_stream_waits_for_data() {
    let mut stream = open();
    assert_eq!(stream.phase(), Phase::AwaitingData);
    assert!(stream.buffered().is_empty());
    assert_eq!(stream.port().port_name(), Some("/dev/ttyUSB0".to_string()));
    assert_eq!(stream.poll(), Action::Read);
    assert_eq!(stream.phase(), Phase::AwaitingData);
}

#[test]
fn two_frames_in_one_read_then_end() {
    let mut stream = open();
    assert_eq!(stream.poll(), Action::Read);
    assert_eq!(stream.on_read(b"ab\ncd\n", DeviceReply::Done(6)), emit("ab\n"));
    assert_eq!(stream.poll(), emit("cd\n"));
    assert!(stream.buffered().is_empty());
    assert_eq!(stream.poll(), Action::Read);
    assert_eq!(stream.on_read(&[0u8; 8], DeviceReply::Done(0)), Action::End);
    assert_eq!(stream.phase(), Phase::Closed);
    assert_eq!(stream.poll(), Action::End);
}

#[test]
fn frame_split_over_two_reads() {
    let mut stream = open();
    assert_eq!(stream.poll(), Action::Read);
    assert_eq!(stream.on_read(b"ab", DeviceReply::Done(2)), Action::Read);
    assert_eq!(stream.buffered(), b"ab");
    assert_eq!(stream.on_read(b"\ncd\n", DeviceReply::Done(4)), emit("ab\n"));
    assert_eq!(stream.poll(), emit("cd\n"));
    assert_eq!(stream.poll(), Action::Read);
    assert!(stream.buffered().is_empty());
}

#[test]
fn many_frames_in_one_read_come_out_in_order() {
    let lines = ["one\n", "\n", "tw\u{f6}\n", "three\n", "4\n"];
    let wire: Vec<u8> = lines.concat().into_bytes();
    let mut stream = open();
    let mut got = vec![deliver(&mut stream, &wire)];
    for _ in 1..lines.len() {
        got.push(stream.poll());
    }
    let want: Vec<Action> = lines.iter().map(|l| emit(l)).collect();
    assert_eq!(got, want);
    assert!(stream.buffered().is_empty());
    assert_eq!(stream.poll(), Action::Read);
}

#[test]
fn only_the_filled_part_of_the_region_is_taken() {
    let mut stream = open();
    let mut region = [0u8; 16];
    region[..3].copy_from_slice(b"ab\n");
    region[3] = b'\n';
    assert_eq!(stream.poll(), Action::Read);
    assert_eq!(stream.on_read(&region, DeviceReply::Done(3)), emit("ab\n"));
    assert!(stream.buffered().is_empty());
    assert_eq!(stream.poll(), Action::Read);
}

#[test]
fn residue_stays_for_the_next_read() {
    let mut stream = open();
    assert_eq!(deliver(&mut stream, b"ab\ncd"), emit("ab\n"));
    assert_eq!(stream.phase(), Phase::HasBytesPendingDecode);
    assert_eq!(stream.buffered(), b"cd");
    assert_eq!(stream.poll(), Action::Read);
    assert_eq!(stream.phase(), Phase::AwaitingData);
    assert_eq!(stream.on_read(b"e\n", DeviceReply::Done(2)), emit("cde\n"));
}

#[test]
fn prefix_without_terminator_is_never_emitted() {
    let mut stream = open();
    assert_eq!(deliver(&mut stream, b"hel"), Action::Read);
    assert_eq!(stream.poll(), Action::Read);
    assert_eq!(stream.poll(), Action::Read);
    assert_eq!(stream.buffered(), b"hel");
    assert_eq!(stream.on_read(b"lo\n", DeviceReply::Done(3)), emit("hello\n"));
    assert!(stream.buffered().is_empty());
    assert_eq!(stream.poll(), Action::Read);
}

#[test]
fn multibyte_char_split_over_two_reads() {
    let mut stream = open();
    assert_eq!(deliver(&mut stream, &[b'a', 0xc3]), Action::Read);
    assert_eq!(stream.on_read(&[0xa9, b'\n'], DeviceReply::Done(2)), emit("a\u{e9}\n"));
}

#[test]
fn invalid_bytes_fail_the_stream_for_good() {
    let mut stream = open();
    let wire = [0xffu8, b'\n', b'o', b'k', b'\n'];
    assert_eq!(deliver(&mut stream, &wire), Action::Fail(StreamError::InvalidEncoding));
    assert_eq!(stream.phase(), Phase::Failed);
    assert_eq!(stream.poll(), Action::End);
    assert_eq!(stream.poll(), Action::End);
    assert_eq!(stream.on_read(b"ok\n", DeviceReply::Done(3)), Action::End);
    assert_eq!(stream.poll(), Action::End);
}

#[test]
fn invalid_frame_after_a_valid_one_fails_at_its_turn() {
    let mut stream = open();
    let wire = [b'o', b'k', b'\n', 0x80, b'\n', b'x', b'\n'];
    assert_eq!(deliver(&mut stream, &wire), emit("ok\n"));
    assert_eq!(stream.poll(), Action::Fail(StreamError::InvalidEncoding));
    assert_eq!(stream.poll(), Action::End);
}

#[test]
fn end_of_device_stream_drops_the_residue() {
    let mut stream = open();
    assert_eq!(deliver(&mut stream, b"ab\npartial"), emit("ab\n"));
    assert_eq!(stream.poll(), Action::Read);
    assert_eq!(stream.buffered(), b"partial");
    assert_eq!(stream.on_read(&[0u8; 4], DeviceReply::Done(0)), Action::End);
    assert_eq!(stream.phase(), Phase::Closed);
    assert!(stream.buffered().is_empty());
    assert_eq!(stream.poll(), Action::End);
    assert_eq!(stream.on_read(b"late\n", DeviceReply::Done(5)), Action::End);
    assert_eq!(stream.poll(), Action::End);
}

#[test]
fn end_of_device_stream_on_an_empty_buffer() {
    let mut stream = open();
    assert_eq!(stream.poll(), Action::Read);
    assert_eq!(stream.on_read(&[], DeviceReply::Done(0)), Action::End);
    assert_eq!(stream.poll(), Action::End);
}

#[test]
fn read_failure_fails_the_stream_for_good() {
    let mut stream = open();
    assert_eq!(deliver(&mut stream, b"ab\ncd"), emit("ab\n"));
    assert_eq!(stream.poll(), Action::Read);
    assert_eq!(
        stream.on_read(&[0u8; 4], DeviceReply::Failed(Fault::NoDevice)),
        Action::Fail(StreamError::Io(Fault::NoDevice))
    );
    assert_eq!(stream.phase(), Phase::Failed);
    assert_eq!(stream.poll(), Action::End);
    assert_eq!(stream.on_read(b"x\n", DeviceReply::Done(2)), Action::End);
}

#[test]
fn would_block_suspends_and_keeps_the_buffer() {
    let mut stream = open();
    assert_eq!(deliver(&mut stream, b"ab"), Action::Read);
    assert_eq!(stream.on_read(&[0u8; 4], DeviceReply::WouldBlock), Action::Suspend);
    assert_eq!(stream.buffered(), b"ab");
    assert_eq!(stream.port().poll_read(), Async::NotReady);
    assert_eq!(stream.phase(), Phase::AwaitingData);
}

#[test]
fn no_read_is_asked_for_before_the_wake() {
    let mut stream = open();
    assert_eq!(stream.poll(), Action::Read);
    assert_eq!(stream.on_read(&[0u8; 4], DeviceReply::WouldBlock), Action::Suspend);
    let mut reads = 0;
    for _ in 0..5 {
        if stream.poll() == Action::Read {
            reads += 1;
        }
    }
    assert_eq!(reads, 0);
    assert_eq!(stream.poll(), Action::Suspend);
    stream.on_readable();
    assert_eq!(stream.poll(), Action::Read);
    assert_eq!(stream.on_read(b"ab\n", DeviceReply::Done(3)), emit("ab\n"));
}

#[test]
fn buffered_frames_still_come_out_while_the_port_is_blocked() {
    let mut stream = open();
    assert_eq!(deliver(&mut stream, b"ab\ncd\n"), emit("ab\n"));
    stream.on_read(&[], DeviceReply::WouldBlock);
    assert_eq!(stream.poll(), emit("cd\n"));
    assert_eq!(stream.poll(), Action::Suspend);
}

#[test]
fn wake_keeps_buffer_and_phase() {
    let mut stream = open();
    assert_eq!(deliver(&mut stream, b"ab"), Action::Read);
    stream.on_read(&[], DeviceReply::WouldBlock);
    stream.on_readable();
    assert_eq!(stream.buffered(), b"ab");
    assert_eq!(stream.phase(), Phase::AwaitingData);
    assert_eq!(stream.port().poll_read(), Async::Ready);
}
