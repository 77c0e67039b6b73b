use sans_effort::driver::mail::Delivery;
use sans_effort::effects::console::ReadLineError;
use sans_effort::reply::{check, Answer, Reply};
use sans_effort::driver::mail::Mail;
use sans_effort::driver::outbox::Inner;
use sans_effort::reply::value::Value;

#[test]
fn ids_are_minted_from_one_without_gaps() {
    let mut mail = Mail::new(11);
    let a = mail.mint::<String>();
    let b = mail.mint::<u64>();
    let c = mail.mint::<()>();
    assert_eq!((a.id(), b.id(), c.id()), (1, 2, 3));
}

#[test]
fn a_delivered_reply_is_collected_once() {
    let mut mail = Mail::new(1);
    let handle = mail.mint::<String>();
    let id = handle.id();
    mail.open(id);
    assert_eq!(mail.outstanding(), 1);
    assert_eq!(mail.collect(id), None, "nothing delivered yet: still waiting");

    assert!(mail.deliver(handle, Value::Str(String::from("bob"))));
    assert_eq!(mail.collect(id), Some(Value::Str(String::from("bob"))));
    assert_eq!(mail.outstanding(), 0, "taking the reply closes the slot");
    assert_eq!(mail.collect(id), None);
    assert!(mail.take_closed().is_empty(), "answered, not abandoned");
}

#[test]
fn an_abandoned_request_discards_its_late_reply() {
    let mut mail = Mail::new(2);
    let abandoned = mail.mint::<String>();
    let live = mail.mint::<String>();
    mail.open(abandoned.id());
    mail.open(live.id());

    mail.close(abandoned.id());
    assert_eq!(mail.outstanding(), 1);
    assert!(!mail.deliver(abandoned, Value::Str(String::from("late"))));
    assert_eq!(mail.take_closed(), [1], "reported once");
    assert!(mail.take_closed().is_empty());

    assert!(mail.deliver(live, Value::Str(String::from("kept"))));
    assert_eq!(mail.collect(2), Some(Value::Str(String::from("kept"))));
}

#[test]
fn a_request_never_recorded_has_no_slot() {
    let mut mail = Mail::new(5);
    let never = mail.mint::<u64>();
    assert!(!mail.deliver(never, Value::U64(1)));
    mail.close(1);
    assert!(mail.take_closed().is_empty(), "only an open slot is closed");
}

#[test]
fn the_outbox_drains_effects_and_counts_what_is_open() {
    let mut inner: Inner<&str> = Inner::new(9);
    inner.tell("WriteLine");
    let handle = inner.mint::<String>();
    inner.open(handle.id(), "ReadLine");
    let (effects, outstanding) = inner.drain();
    assert_eq!(effects, ["WriteLine", "ReadLine"]);
    assert_eq!(outstanding, 1);
    assert!(inner.drain().0.is_empty(), "drained once");

    assert!(inner.deliver(handle, Value::Str(String::from("bob"))));
    assert_eq!(inner.collect(1), Some(Value::Str(String::from("bob"))));
    assert_eq!(inner.drain(), (Vec::new(), 0));
}

#[test]
fn a_handle_names_the_driver_that_minted_it() {
    let mut mail = Mail::new(11);
    let h = mail.mint::<String>();
    assert_eq!(h.driver(), 11);
    assert_eq!(mail.driver(), 11);
    let inner = Inner::<u8>::new(4);
    assert_eq!(inner.driver(), 4);
    assert!(mail.can_mint() && inner.can_mint());
}

#[test]
fn replies_to_two_requests_arrive_in_either_order() {
    for first_first in [true, false] {
        let mut mail = Mail::new(3);
        let a = mail.mint::<String>();
        let b = mail.mint::<String>();
        mail.open(a.id());
        mail.open(b.id());

        let replies = if first_first {
            [(a, "a"), (b, "b")]
        } else {
            [(b, "b"), (a, "a")]
        };
        for (handle, value) in replies {
            assert!(mail.deliver(handle, Value::Str(String::from(value))));
        }

        assert_eq!(mail.collect(1), Some(Value::Str(String::from("a"))));
        assert_eq!(mail.collect(2), Some(Value::Str(String::from("b"))));
        assert_eq!(mail.outstanding(), 0);
    }
}

#[test]
fn bytes_that_do_not_decode_are_refused_and_the_request_stays_open() {
    type Line = Result<String, ReadLineError>;

    let mut inner: Inner<&str> = Inner::new(8);
    let handle = inner.mint::<Line>();
    inner.open(handle.id(), "ReadLine");
    let Ok(wire) = Vec::<u8>::from_pending(<Line as Answer>::pending(handle)) else {
        panic!("a fallible read crosses as bytes");
    };

    let bad = Value::Bytes(vec![7]);
    let verdict = check::<Line>(&bad);
    let Delivery::Refused(wire, _) = inner.offer(wire, bad, verdict) else {
        panic!("7 is not an encoded result");
    };
    assert_eq!(inner.drain().1, 1, "still waiting");

    let good = Value::Bytes(Ok::<String, ReadLineError>(String::from("hi")).into_wire());
    let verdict = check::<Line>(&good);
    assert!(matches!(inner.offer(wire, good, verdict), Delivery::Delivered));
    let Some(value) = inner.collect(1) else {
        panic!("the good reply was delivered");
    };
    let Some(bytes) = Vec::<u8>::from_value(value) else {
        panic!("as bytes");
    };
    assert_eq!(<Line as Answer>::from_wire(bytes), Ok(Ok(String::from("hi"))));
}

#[test]
fn a_reply_to_a_request_no_longer_open_is_gone() {
    let mut mail = Mail::new(9);
    let handle = mail.mint::<u64>();
    assert!(matches!(mail.offer(handle, Value::U64(1), Ok(())), Delivery::Gone));
}
