use sans_effort::reply::Answer;
use sans_effort::boundary::codec::{Decode, DecodeError, Encode};
use sans_effort::effects::console::effect::{ReadLine, WriteLine};
use sans_effort::effects::console::{line_from_read, ReadLineError};
use sans_effort::effects::time::effect::Sleep;

#[test]
fn errors_round_trip() {
    for e in [ReadLineError::Closed, ReadLineError::Failed] {
        assert_eq!(ReadLineError::from_bytes(&e.to_bytes()), Ok(e));
    }
}

#[test]
fn read_line_errors_are_tagged() {
    assert_eq!(ReadLineError::Closed.to_bytes(), [0]);
    assert_eq!(ReadLineError::Failed.to_bytes(), [1]);
    assert_eq!(
        ReadLineError::from_bytes(&[7]),
        Err(DecodeError::UnknownTag { tag: 7 })
    );
    assert_eq!(ReadLineError::from_bytes(&[]), Err(DecodeError::Invalid));
    assert_eq!(
        ReadLineError::from_bytes(&[0, 0]),
        Err(DecodeError::TrailingBytes { remaining: 1 })
    );
}

#[test]
fn whole_milliseconds_round_trip() {
    for ms in [0, 1, 999, 1000, 1001, 86_400_000, 123_456_789_012, u64::MAX] {
        let sleep = Sleep::from_millis(ms);
        assert_eq!(sleep.millis(), ms);
        assert_eq!(Sleep::from_bytes(&sleep.to_bytes()), Ok(sleep));
    }
}

#[test]
fn durations_past_u64_millis_saturate() {
    // The longest duration there is: `u64::MAX` seconds and a second less a
    // nanosecond.
    let longest = Sleep {
        secs: u64::MAX,
        nanos: 999_999_999,
    };
    assert_eq!(longest.millis(), u64::MAX);
}

#[test]
fn sub_millisecond_precision_does_not_cross() {
    let sleep = Sleep {
        secs: 2,
        nanos: 345_678_901,
    };
    assert_eq!(sleep.millis(), 2345);
    assert_eq!(sleep.to_bytes(), 2345u64.to_le_bytes());
    assert_eq!(Sleep::from_millis(2345), Sleep { secs: 2, nanos: 345_000_000 });
}

#[test]
fn a_written_line_crosses_as_a_str() {
    let line = WriteLine(String::from("hi"));
    assert_eq!(line.to_bytes(), [2, 0, 0, 0, b'h', b'i']);
    assert_eq!(WriteLine::from_bytes(&line.to_bytes()), Ok(line));
    assert_eq!(ReadLine.to_bytes(), Vec::<u8>::new());
    assert_eq!(ReadLine::from_bytes(&[]), Ok(ReadLine));
    assert_eq!(WriteLine::from_bytes(&[1, 0, 0, 0]), Err(DecodeError::Invalid));
}

#[test]
fn lines_lose_their_endings_and_the_end_is_closed() {
    assert_eq!(line_from_read(Some(3), String::from("a\r\n")), Ok(String::from("a")));
    assert_eq!(
        line_from_read(Some(3), String::from("b \n")),
        Ok(String::from("b ")),
        "only the ending goes"
    );
    assert_eq!(
        line_from_read(Some(1), String::from("c")),
        Ok(String::from("c")),
        "a last line with no ending"
    );
    assert_eq!(line_from_read(Some(0), String::new()), Err(ReadLineError::Closed));
}

#[test]
fn a_failed_read_is_failed() {
    assert_eq!(line_from_read(None, String::from("x")), Err(ReadLineError::Failed));
}

#[test]
fn a_carriage_return_alone_is_kept() {
    assert_eq!(line_from_read(Some(2), String::from("a\r")), Ok(String::from("a\r")));
    assert_eq!(line_from_read(Some(3), String::from("é\n")), Ok(String::from("é")));
    assert_eq!(line_from_read(Some(1), String::from("\n")), Ok(String::new()));
}

#[test]
fn a_read_is_answered_with_a_line_or_why_not() {
    let line: Result<String, ReadLineError> = Ok(String::from("hi"));
    assert_eq!(line.clone().into_wire(), [0, 2, 0, 0, 0, b'h', b'i']);
    let closed: Result<String, ReadLineError> = Err(ReadLineError::Closed);
    assert_eq!(closed.clone().into_wire(), [1, 0]);
    for answer in [line, closed, Err(ReadLineError::Failed)] {
        assert_eq!(
            <Result<String, ReadLineError> as Answer>::from_wire(answer.clone().into_wire()),
            Ok(answer)
        );
    }
}
