use sans_effort::boundary::codec::{Decode, DecodeError, Encode, Reader, Writer};

fn round_trip(a: u8, b: u32, c: u64, d: &[u8], e: &str) {
    let mut w = Writer::new();
    w.u8(a);
    w.u32(b);
    w.u64(c);
    w.bytes(d);
    w.str(e);

    let bytes = w.finish();
    let mut r = Reader::new(&bytes);
    assert_eq!(r.u8(), Some(a));
    assert_eq!(r.u32(), Some(b));
    assert_eq!(r.u64(), Some(c));
    assert_eq!(r.bytes(), Some(d));
    assert_eq!(r.str().as_deref(), Some(e));
    assert!(r.is_empty());
}

#[test]
fn codec_round_trips() {
    round_trip(0, 0, 0, &[], "");
    round_trip(1, 2, 3, &[4, 5, 6], "seven");
    round_trip(u8::MAX, u32::MAX, u64::MAX, &[0xff; 300], "ünïcödé ✓");
    round_trip(0x7f, 0x0102_0304, 0x0102_0304_0506_0708, &[0], "a\nb");
}

#[test]
fn reader_rejects_short_input() {
    let inputs: [&[u8]; 8] = [
        &[],
        &[1],
        &[1, 2, 3],
        &[1, 2, 3, 4, 5, 6, 7],
        &[1, 2, 3, 4, 5, 6, 7, 8, 9, 10, 11, 12, 13],
        &[0, 0, 0, 0, 0, 0, 0, 0, 0, 0, 0, 0, 0, 0xff, 0xff, 0xff, 0xff],
        &[0, 0, 0, 0, 0, 0, 0, 0, 0, 0, 0, 0, 0, 2, 0, 0, 0, 0xc3],
        &[9; 64],
    ];
    for bytes in inputs {
        let mut r = Reader::new(bytes);
        // Whatever the prefix decodes to, a truncated tail is `None`, never a
        // panic.
        let _ = r.u8();
        let _ = r.u32();
        let _ = r.u64();
        let _ = r.bytes();
        drop(r.str());
    }
}

#[test]
fn integers_are_little_endian() {
    let mut w = Writer::new();
    w.u32(0x0403_0201);
    w.u64(0x0807_0605_0403_0201);
    assert_eq!(w.finish(), [1, 2, 3, 4, 1, 2, 3, 4, 5, 6, 7, 8]);
}

#[test]
fn a_payload_is_its_length_then_its_bytes() {
    let mut w = Writer::new();
    w.bytes(&[9, 8, 7]);
    w.str("hi");
    assert_eq!(w.finish(), [3, 0, 0, 0, 9, 8, 7, 2, 0, 0, 0, b'h', b'i']);
}

#[test]
fn a_short_read_consumes_nothing() {
    let bytes = [1, 2, 3];
    let mut r = Reader::new(&bytes);
    assert_eq!(r.u32(), None);
    assert_eq!(r.u8(), Some(1));
}

#[test]
fn a_length_past_the_end_is_refused_after_the_length() {
    let bytes = [5, 0, 0, 0, 1, 2];
    let mut r = Reader::new(&bytes);
    assert_eq!(r.bytes(), None);
    assert_eq!(r.u8(), Some(1), "the length was consumed, the payload was not");
}

#[test]
fn a_string_that_is_not_utf8_is_refused() {
    let bytes = [2, 0, 0, 0, 0xc3, 0x28];
    let mut r = Reader::new(&bytes);
    assert_eq!(r.str(), None);
    assert!(r.is_empty(), "the payload was consumed");
}

#[test]
fn finish_reports_trailing_bytes() {
    let bytes = [1, 2, 3];
    let mut r = Reader::new(&bytes);
    assert_eq!(r.u8(), Some(1));
    assert_eq!(r.finish(), Err(DecodeError::TrailingBytes { remaining: 2 }));
    assert_eq!(r.u8(), Some(2));
    assert_eq!(r.u8(), Some(3));
    assert_eq!(r.finish(), Ok(()));
}

#[test]
fn an_id_crosses_as_eight_bytes() {
    assert_eq!(5u64.to_bytes(), [5, 0, 0, 0, 0, 0, 0, 0]);
    assert_eq!(u64::from_bytes(&[5, 0, 0, 0, 0, 0, 0, 0]), Ok(5));
    assert_eq!(u64::from_bytes(&[5, 0, 0]), Err(DecodeError::Invalid));
    assert_eq!(
        u64::from_bytes(&[5, 0, 0, 0, 0, 0, 0, 0, 9]),
        Err(DecodeError::TrailingBytes { remaining: 1 })
    );
}

#[test]
fn a_string_is_its_length_then_its_utf8() {
    assert_eq!(String::from("hé").to_bytes(), [3, 0, 0, 0, b'h', 0xc3, 0xa9]);
    assert_eq!(String::from_bytes(&[3, 0, 0, 0, b'h', 0xc3, 0xa9]), Ok(String::from("hé")));
    assert_eq!(String::from_bytes(&[1, 0, 0, 0, 0xff]), Err(DecodeError::Invalid));
}

#[test]
fn a_result_is_a_tag_then_what_it_holds() {
    let ok: Result<u64, String> = Ok(7);
    assert_eq!(ok.to_bytes(), [0, 7, 0, 0, 0, 0, 0, 0, 0]);
    let err: Result<u64, String> = Err(String::from("no"));
    assert_eq!(err.to_bytes(), [1, 2, 0, 0, 0, b'n', b'o']);
    assert_eq!(Result::<u64, String>::from_bytes(&ok.to_bytes()), Ok(ok));
    assert_eq!(Result::<u64, String>::from_bytes(&err.to_bytes()), Ok(err));
    assert_eq!(
        Result::<u64, String>::from_bytes(&[2]),
        Err(DecodeError::UnknownTag { tag: 2 })
    );
    assert_eq!(Result::<u64, String>::from_bytes(&[]), Err(DecodeError::Invalid));
    assert_eq!(
        Result::<u64, String>::from_bytes(&[0, 7, 0, 0, 0, 0, 0, 0, 0, 9]),
        Err(DecodeError::TrailingBytes { remaining: 1 })
    );
}

#[test]
fn an_option_is_a_tag_then_what_it_holds() {
    assert_eq!(None::<u64>.to_bytes(), [0]);
    assert_eq!(Some(1u64).to_bytes(), [1, 1, 0, 0, 0, 0, 0, 0, 0]);
    assert_eq!(Option::<u64>::from_bytes(&[0]), Ok(None));
    assert_eq!(Option::<u64>::from_bytes(&[1, 1, 0, 0, 0, 0, 0, 0, 0]), Ok(Some(1)));
    assert_eq!(Option::<u64>::from_bytes(&[1, 1]), Err(DecodeError::Invalid));
    assert_eq!(
        Option::<u64>::from_bytes(&[5]),
        Err(DecodeError::UnknownTag { tag: 5 })
    );
}

#[test]
fn what_fits_is_found_at_run_time() {
    assert!(7u64.fits());
    assert!(String::from("hi").fits());
    assert!(Ok::<u64, String>(1).fits());
    assert!(None::<String>.fits());
}
