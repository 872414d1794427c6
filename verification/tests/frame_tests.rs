use antimpeu::errors::FrameError;
use antimpeu::frame::{encode_frame, parse_frame_len, MAX_FRAME_LEN};

fn round_trip(payload: &[u8]) {
    let f = encode_frame(payload).expect("payload under the maximum must encode");
    assert_eq!(f.len(), payload.len() + 4);
    let declared = parse_frame_len(&f[..4]).expect("own header must parse");
    assert_eq!(declared as usize, payload.len());
    assert_eq!(&f[4..], payload);
}

#[test]
fn frame_round_trip_empty() {
    round_trip(b"");
}

#[test]
fn frame_round_trip_one_byte() {
    round_trip(b"x");
}

#[test]
fn frame_round_trip_64k() {
    let big: Vec<u8> = (0..65536u32).map(|i| (i / 7) as u8).collect();
    round_trip(&big);
}

#[test]
fn header_is_big_endian() {
    let f = encode_frame(&[9u8; 0x01020304 % 1000]).unwrap();
    assert_eq!(&f[..4], &[0, 0, (0x01020304u32 % 1000 / 256) as u8, (0x01020304u32 % 1000 % 256) as u8]);
    let f = encode_frame(b"ab").unwrap();
    assert_eq!(&f[..4], &[0, 0, 0, 2]);
}

#[test]
fn oversized_payload_is_refused() {
    let big = vec![0u8; MAX_FRAME_LEN as usize + 1];
    assert_eq!(encode_frame(&big), Err(FrameError::FrameTooLarge));
    let exactly = vec![0u8; MAX_FRAME_LEN as usize];
    assert!(encode_frame(&exactly).is_ok());
}

#[test]
fn oversized_declared_length_is_refused() {
    assert_eq!(
        parse_frame_len(&[0xff, 0xff, 0xff, 0xff]),
        Err(FrameError::FrameTooLarge)
    );
    assert_eq!(parse_frame_len(&[0, 0x80, 0, 1]), Err(FrameError::FrameTooLarge));
    assert_eq!(parse_frame_len(&[0, 0x80, 0, 0]), Ok(MAX_FRAME_LEN));
}
