//! Tests for daemon wire framing and socket paths.

use quran_tui::daemon::wire::{decode_frame, encode_frame, frame_body_len, FrameError, MAX_FRAME_BYTES};
use quran_tui::daemon::{lock_path, socket_path, PROTO_VERSION};
use quran_tui::daemon::session::{Burst, DaemonEvent};

#[test]
fn oversize_length_prefix_is_rejected() {
    let mut buf = ((MAX_FRAME_BYTES as u32) + 1).to_le_bytes().to_vec();
    buf.extend_from_slice(&[0u8; 1024]);
    assert_eq!(decode_frame(&buf), Err(FrameError::TooLarge));
    let header = ((MAX_FRAME_BYTES as u32) + 1).to_le_bytes();
    assert_eq!(frame_body_len(header), Err(FrameError::TooLarge));
}

#[test]
fn two_messages_decode_in_order() {
    let mut buf = encode_frame(b"hello").unwrap();
    buf.extend(encode_frame(b"world!").unwrap());
    let (first, used) = decode_frame(&buf).unwrap();
    assert_eq!(first, b"hello");
    assert_eq!(used, 9);
    let (second, used2) = decode_frame(&buf[used..]).unwrap();
    assert_eq!(second, b"world!");
    assert_eq!(used + used2, buf.len());
}

#[test]
fn frame_header_is_little_endian_length() {
    let frame = encode_frame(&[7u8; 300]).unwrap();
    assert_eq!(&frame[..4], &[44, 1, 0, 0]);
    assert_eq!(frame.len(), 304);
    assert_eq!(frame_body_len([44, 1, 0, 0]), Ok(300));
}

#[test]
fn short_buffers_are_truncated() {
    assert_eq!(decode_frame(&[1, 0]), Err(FrameError::Truncated));
    assert_eq!(decode_frame(&[3, 0, 0, 0, 9]), Err(FrameError::Truncated));
    assert_eq!(decode_frame(&[0, 0, 0, 0]), Ok((vec![], 4)));
}

#[test]
fn oversize_bodies_are_not_encoded() {
    let body = vec![0u8; MAX_FRAME_BYTES + 1];
    assert_eq!(encode_frame(&body), Err(FrameError::TooLarge));
}

#[test]
fn socket_and_lock_live_in_the_runtime_dir() {
    assert_eq!(socket_path("/run/user/1000"), "/run/user/1000/quran-tui.sock");
    assert_eq!(lock_path("/run/user/1000"), "/run/user/1000/quran-tui.lock");
    assert_eq!(PROTO_VERSION, 1);
}

#[test]
fn the_latest_frame_of_a_burst_wins() {
    let events = [DaemonEvent::Frame, DaemonEvent::LateWelcome, DaemonEvent::Frame, DaemonEvent::Empty, DaemonEvent::Frame];
    let mut b = Burst::start();
    for (i, e) in events.iter().enumerate() {
        b = b.step(*e, i);
    }
    assert_eq!(b, Burst { latest: Some(2), stopped: true, done: false });

    let mut b = Burst::start();
    b = b.step(DaemonEvent::Frame, 0);
    b = b.step(DaemonEvent::Bye, 1);
    assert_eq!(b, Burst { latest: Some(0), stopped: true, done: true });

    let b = Burst::start().step(DaemonEvent::Disconnected, 0);
    assert_eq!(b, Burst { latest: None, stopped: true, done: true });
}
