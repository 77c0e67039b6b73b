use sans_effort::boundary::pending::Pending;
use sans_effort::driver::mail::Mail;
use sans_effort::reply::{kind::Kind, value::Value, Answer, Reply};

#[test]
fn menu_round_trips_through_value() {
    assert_eq!(
        <Vec<u8>>::from_value(vec![1u8, 2].into_value()),
        Some(vec![1, 2])
    );
    assert_eq!(
        String::from_value(String::from("x").into_value()),
        Some(String::from("x"))
    );
    assert_eq!(u64::from_value(7u64.into_value()), Some(7));
    assert_eq!(<()>::from_value(().into_value()), Some(()));
    assert_eq!(u64::from_value(Value::Unit), None);
}

#[test]
fn a_value_reads_only_as_its_own_kind() {
    let values = [
        Value::Bytes(vec![1]),
        Value::Str(String::from("s")),
        Value::U64(3),
        Value::Unit,
    ];
    for value in values {
        assert_eq!(
            <Vec<u8>>::from_value_ref(&value).is_some(),
            value.kind() == Kind::Bytes
        );
        assert_eq!(
            String::from_value_ref(&value).is_some(),
            value.kind() == Kind::Str
        );
        assert_eq!(u64::from_value_ref(&value).is_some(), value.kind() == Kind::U64);
        assert_eq!(<()>::from_value_ref(&value).is_some(), value.kind() == Kind::Unit);
    }
}

#[test]
fn a_pending_handle_keeps_its_id_and_kind() {
    let mut mail = Mail::new(3);
    let handle = mail.mint::<String>();
    assert_eq!(handle.id(), 1);
    let pending = String::into_pending(handle);
    assert_eq!(pending.id(), 1);
    assert_eq!(pending.kind(), Kind::Str);

    let Err(pending) = u64::from_pending(pending) else {
        panic!("a str request is not a u64 one");
    };
    assert_eq!(pending.kind(), Kind::Str, "handed back untouched");
    let Ok(handle) = String::from_pending(pending) else {
        panic!("a str request is a str one");
    };
    assert_eq!(handle.id(), 1);
}

#[test]
fn an_answer_crosses_under_its_wire_kind() {
    let mut mail = Mail::new(4);
    let _ = mail.mint::<()>();
    let handle = mail.mint::<u64>();
    let pending: Pending = <u64 as Answer>::pending(handle);
    assert_eq!((pending.id(), pending.kind()), (2, Kind::U64));
    assert_eq!(<u64 as Answer>::from_wire(9), Ok(9));
    assert_eq!(<String as Answer>::check(&String::from("x")), Ok(()));
    assert_eq!(
        sans_effort::reply::check::<Vec<u8>>(&Value::Bytes(vec![1, 2])),
        Ok(())
    );
}

#[test]
fn reply_menu_round_trips_through_value() {
    assert_eq!(
        <Vec<u8>>::from_value(vec![1u8, 2].into_value()),
        Some(vec![1, 2])
    );
    assert_eq!(
        String::from_value(String::from("x").into_value()),
        Some(String::from("x"))
    );
    assert_eq!(u64::from_value(7u64.into_value()), Some(7));
    assert_eq!(<()>::from_value(().into_value()), Some(()));
    assert_eq!(u64::from_value(Value::Unit), None);
}

#[test]
fn a_result_answers_as_bytes() {
    let answer: Result<String, u64> = Ok(String::from("hi"));
    let wire = answer.clone().into_wire();
    assert_eq!(wire, [0, 2, 0, 0, 0, b'h', b'i']);
    assert_eq!(<Result<String, u64> as Answer>::from_wire(wire.clone()), Ok(answer));
    assert_eq!(<Result<String, u64> as Answer>::check(&wire), Ok(()));
    assert_eq!(
        <Result<String, u64> as Answer>::check(&vec![7]),
        Err(sans_effort::boundary::codec::DecodeError::UnknownTag { tag: 7 })
    );
    let mut mail = Mail::new(6);
    let handle = mail.mint::<Result<String, u64>>();
    let pending = <Result<String, u64> as Answer>::pending(handle);
    assert_eq!((pending.id(), pending.kind()), (1, Kind::Bytes));
}

#[test]
fn an_option_answers_as_bytes() {
    assert_eq!(Some(3u64).into_wire(), [1, 3, 0, 0, 0, 0, 0, 0, 0]);
    assert_eq!(<Option<u64> as Answer>::from_wire(vec![0]), Ok(None));
    assert_eq!(
        sans_effort::reply::check::<Option<u64>>(&Value::Bytes(vec![1, 3])),
        Err(sans_effort::boundary::codec::DecodeError::Invalid)
    );
}

#[test]
fn each_reply_kind_names_itself() {
    assert_eq!(<Vec<u8> as Reply>::wire_kind(), Kind::Bytes);
    assert_eq!(<String as Reply>::wire_kind(), Kind::Str);
    assert_eq!(<u64 as Reply>::wire_kind(), Kind::U64);
    assert_eq!(<() as Reply>::wire_kind(), Kind::Unit);
}

#[test]
fn a_refusal_names_why_the_bytes_do_not_decode() {
    type Line = Result<String, u64>;
    assert!(Ok::<String, u64>(String::from("x")).can_cross());
    assert_eq!(
        sans_effort::reply::check::<Line>(&Value::Bytes(vec![9])),
        Err(sans_effort::boundary::codec::DecodeError::UnknownTag { tag: 9 })
    );
    assert_eq!(
        sans_effort::reply::check::<Line>(&Value::Bytes(vec![0, 1, 0, 0, 0, b'x', 0])),
        Err(sans_effort::boundary::codec::DecodeError::TrailingBytes { remaining: 1 })
    );
    assert_eq!(
        sans_effort::reply::check::<Line>(&Value::Bytes(vec![1, 1])),
        Err(sans_effort::boundary::codec::DecodeError::Invalid)
    );
}
