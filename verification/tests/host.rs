use sans_effort::boundary::codec::{Encode, Writer};
use sans_effort::boundary::pending::Pending;
use sans_effort::driver::mail::Mail;
use sans_effort::driver::status::Status as DriveStatus;
use sans_effort::driver::step::Step;
use sans_effort::host::contract::{
    self, BAD_HANDLE, BAD_INPUT, FRAME_ASK, FRAME_CLOSED, FRAME_TELL, FRAME_WOKE, MALFORMED, OK,
    STALE, WRONG_KIND,
};
use sans_effort::host::error::Error;
use sans_effort::host::frames::{encode, woke_frames, Shown};
use sans_effort::host::input::Input;
use sans_effort::host::status::Status;
use sans_effort::host::table::{
    issue, locate, note_wake, release, settle_wakes, Located, Release,
};
use sans_effort::host::wallet::{views, Wallet};
use sans_effort::reply::kind::Kind;
use sans_effort::reply::Reply;
use sans_effort::boundary::codec::DecodeError;

/// A view a host receives: an ask carrying its id (tag 1), or a line to say
/// (tag 2).
#[derive(Debug, PartialEq)]
enum View {
    Ask(u64),
    Say(String),
}

impl Encode for View {
    fn fits(&self) -> bool {
        match self {
            View::Ask(_) => true,
            View::Say(text) => u32::try_from(text.len()).is_ok(),
        }
    }

    fn encode(&self, w: &mut Writer) {
        match self {
            View::Ask(id) => {
                w.u8(1);
                w.u64(*id);
            }
            View::Say(text) => {
                w.u8(2);
                w.str(text);
            }
        }
    }
}

fn closed_frame(id: u64) -> Vec<u8> {
    let mut w = Writer::new();
    w.u8(FRAME_CLOSED);
    w.bytes(&id.to_le_bytes());
    w.finish()
}

fn reply_str_record(id: u64, s: &str) -> Vec<u8> {
    let mut w = Writer::new();
    w.u8(1);
    w.u64(id);
    w.str(s);
    w.finish()
}

#[test]
fn a_closed_frame_is_kind_length_id() {
    assert_eq!(
        closed_frame(5),
        [
            3, // FRAME_CLOSED
            8, 0, 0, 0, // payload length
            5, 0, 0, 0, 0, 0, 0, 0, // the id
        ]
    );
    let step: Step<Shown<View>> = Step::new(Vec::new(), vec![5]);
    assert_eq!(encode(&step), closed_frame(5));
}

#[test]
fn a_woke_frame_is_kind_length_handle() {
    assert_eq!(
        woke_frames(&[5]),
        [
            4, // FRAME_WOKE
            8, 0, 0, 0, // payload length
            5, 0, 0, 0, 0, 0, 0, 0, // the handle
        ]
    );
}

#[test]
fn a_frame_is_kind_length_payload() {
    let ask = Step::new(
        vec![Shown {
            view: View::Ask(1),
            awaits: true,
        }],
        Vec::new(),
    );
    assert_eq!(
        encode(&ask),
        [
            2, // FRAME_ASK
            9, 0, 0, 0, // payload length
            1, // the view's tag: Ask
            1, 0, 0, 0, 0, 0, 0, 0, // its request id
        ]
    );

    let tell = Step::new(
        vec![Shown {
            view: View::Say(String::from("hi")),
            awaits: false,
        }],
        Vec::new(),
    );
    assert_eq!(
        encode(&tell),
        [
            1, // FRAME_TELL
            7, 0, 0, 0, // payload length
            2, // the view's tag: Say
            2, 0, 0, 0, b'h', b'i', // its text
        ]
    );
}

#[test]
fn effects_come_before_closed_frames() {
    let step = Step::new(
        vec![
            Shown {
                view: View::Ask(1),
                awaits: true,
            },
            Shown {
                view: View::Say(String::from("done")),
                awaits: false,
            },
        ],
        vec![1],
    );
    let bytes = encode(&step);
    assert_eq!(bytes[0], FRAME_ASK);
    assert_eq!(bytes[14], FRAME_TELL);
    let tail = &bytes[bytes.len() - 13..];
    assert_eq!(tail, closed_frame(1).as_slice());
    assert_eq!(bytes.len(), 14 + 14 + 13);
}

#[test]
fn a_reply_record_decodes() {
    assert_eq!(
        Input::decode(&reply_str_record(2, "b")),
        Ok(Input::Str(2, String::from("b")))
    );
    assert_eq!(
        Input::decode(&[2, 7, 0, 0, 0, 0, 0, 0, 0, 9, 0, 0, 0, 0, 0, 0, 0]),
        Ok(Input::U64(7, 9))
    );
    assert_eq!(
        Input::decode(&[3, 7, 0, 0, 0, 0, 0, 0, 0]),
        Ok(Input::Unit(7))
    );
    assert_eq!(
        Input::decode(&[4, 7, 0, 0, 0, 0, 0, 0, 0, 2, 0, 0, 0, 5, 6]),
        Ok(Input::Bytes(7, vec![5, 6]))
    );
}

#[test]
fn trailing_bytes_are_refused() {
    let mut record = reply_str_record(1, "hi");
    record.push(0);
    assert_eq!(
        Input::decode(&record),
        Err(DecodeError::TrailingBytes { remaining: 1 })
    );
    assert_eq!(Error::Malformed(DecodeError::TrailingBytes { remaining: 1 }).code(), MALFORMED);
}

#[test]
fn arbitrary_input_is_refused_never_a_panic() {
    let records: [&[u8]; 6] = [
        &[],
        &[9],
        &[1, 1, 0],
        &[1, 1, 0, 0, 0, 0, 0, 0, 0, 9, 0, 0, 0],
        &[3, 1, 0, 0, 0, 0, 0, 0],
        &[0, 1, 2, 3],
    ];
    for record in records {
        assert!(Input::decode(record).is_err());
    }
    assert_eq!(Input::decode(&[9]), Err(DecodeError::UnknownTag { tag: 9 }));
    assert_eq!(Input::decode(&[]), Err(DecodeError::Invalid));
}

#[test]
fn error_and_status_codes() {
    assert_eq!(Error::BadHandle.code(), BAD_HANDLE);
    assert_eq!(Error::BadInput.code(), BAD_INPUT);
    assert_eq!(Error::Stale { id: 1 }.code(), STALE);
    assert_eq!(
        Error::WrongKind {
            id: 1,
            expected: Kind::Str,
            got: Kind::U64
        }
        .code(),
        WRONG_KIND
    );
    assert_eq!(Error::Busy.code(), contract::BUSY);
    assert_eq!(Error::Finished.code(), contract::FINISHED);
    assert_eq!(Error::Panicked.code(), contract::PANICKED);
    assert_eq!(Error::WrongThread.code(), contract::WRONG_THREAD);
    assert_eq!(contract::code_of(Ok(())), OK);
    assert_eq!(contract::code_of(Err(Error::BadHandle)), BAD_HANDLE);
    assert_eq!(sans_effort::host::code::code_of(Err(Error::Busy)), sans_effort::host::code::BUSY);
    assert_eq!(Status::Awaiting.code(), contract::AWAITING);
    assert_eq!(Status::Complete.code(), contract::COMPLETE);
    assert_eq!(Status::Idle.code(), contract::IDLE);
    assert_eq!(Status::from(DriveStatus::Idle), Status::Idle);
    assert_eq!(Status::from(DriveStatus::Complete), Status::Complete);
}

#[test]
fn a_poll_is_classified() {
    assert_eq!(DriveStatus::classify(true, 3), DriveStatus::Complete);
    assert_eq!(DriveStatus::classify(false, 1), DriveStatus::Awaiting);
    assert_eq!(DriveStatus::classify(false, 0), DriveStatus::Idle);
}

/// One str request, shown to the host the way a driver's first batch shows
/// it: returns the wallet and the mailbox that minted the handle.
fn one_request() -> (Wallet, Mail) {
    let mut mail = Mail::new(1);
    let handle = mail.mint::<String>();
    mail.open(handle.id());
    let mut wallet = Wallet::new();
    let shown = wallet.show(
        vec![
            (View::Ask(1), Some(String::into_pending(handle))),
            (View::Say(String::from("?")), None),
        ],
        Vec::new(),
    );
    assert_eq!(
        views(shown).effects(),
        [View::Ask(1), View::Say(String::from("?"))]
    );
    (wallet, mail)
}

#[test]
fn machine_typed_layer() {
    let (mut wallet, _) = one_request();
    assert_eq!(
        wallet.claim(1, 7u64, false).map(|(h, v)| (h.id(), v)),
        Err(Error::WrongKind {
            id: 1,
            expected: Kind::Str,
            got: Kind::U64,
        }),
        "wrong kind: named, and the handle kept"
    );
    let (handle, value) = wallet.claim(1, String::from("hi"), false).expect("reply");
    assert_eq!((handle.id(), value.as_str()), (1, "hi"));
    assert_eq!(
        wallet.claim(1, String::from("again"), true).map(|(h, _)| h.id()),
        Err(Error::Finished)
    );
}

#[test]
fn machine_dropped_requests_are_forgotten() {
    let mut mail = Mail::new(2);
    let abandoned = mail.mint::<String>();
    let live = mail.mint::<String>();
    let mut wallet = Wallet::new();
    let step = wallet.show(
        vec![
            (View::Ask(1), Some(String::into_pending(abandoned))),
            (View::Ask(2), Some(String::into_pending(live))),
        ],
        vec![1],
    );
    assert_eq!(step.closed(), [1], "the abandoned one is reported closed");
    assert_eq!(
        wallet.take(1, false),
        Err(Error::Stale { id: 1 }),
        "a late reply to an abandoned id is stale, not a host bug"
    );
    assert_eq!(
        wallet.take(99, false),
        Err(Error::BadInput),
        "an id never issued is a host bug"
    );
    assert_eq!(wallet.take(0, false), Err(Error::BadInput));
    let kept = wallet.take(2, false).expect("kept");
    assert_eq!((kept.id(), kept.kind()), (2, Kind::Str));
}

#[test]
fn a_second_reply_to_an_answered_id_is_stale() {
    let (mut wallet, _) = one_request();
    assert!(wallet.claim(1, String::from("a"), false).is_ok());
    assert_eq!(
        wallet.claim(1, String::from("a"), false).map(|(h, _)| h.id()),
        Err(Error::Stale { id: 1 })
    );
}

#[test]
fn a_machine_begins_once() {
    let mut wallet = Wallet::new();
    assert_eq!(wallet.begin(false), Ok(()));
    assert_eq!(wallet.begin(false), Err(Error::BadInput), "start twice");
    assert_eq!(Wallet::new().begin(true), Err(Error::Finished));
}

#[test]
fn the_table_locates_and_releases_handles() {
    assert_eq!(locate(true, false, None), Ok(Located::Migrating));
    assert_eq!(locate(false, true, None), Err(Error::BadInput), "parked: not started yet");
    assert_eq!(locate(false, false, Some(true)), Ok(Located::Here));
    assert_eq!(locate(false, false, Some(false)), Err(Error::WrongThread));
    assert_eq!(locate(false, false, None), Err(Error::BadHandle));
    assert_eq!(release(true, None), Ok(Release::Removed));
    assert_eq!(release(false, Some(true)), Ok(Release::DropLocal));
    assert_eq!(release(false, Some(false)), Err(Error::WrongThread), "only its owner frees it");
    assert_eq!(release(false, None), Err(Error::BadHandle));
}

#[test]
fn wakes_follow_a_call_s_output_or_wait() {
    let (out, queued) = settle_wakes(Ok((vec![9], Status::Complete)), vec![5]);
    let mut want = vec![9];
    want.extend(woke_frames(&[5]));
    assert_eq!(out, Ok((want, Status::Complete)));
    assert!(queued.is_empty());

    let (out, queued) = settle_wakes(Err(Error::Busy), vec![5, 6]);
    assert_eq!(out, Err(Error::Busy));
    assert_eq!(queued, [5, 6], "a failed call has no output: the wakes wait");
    assert_eq!(woke_frames(&[5])[0], FRAME_WOKE);
}

#[test]
fn handles_are_never_zero_and_never_reused() {
    let mut next = 1;
    let a = issue(&mut next);
    let b = issue(&mut next);
    assert_eq!((a, b, next), (1, 2, 3));
}

#[test]
fn a_pending_unit_request_is_claimed_with_unit() {
    let mut mail = Mail::new(8);
    let handle = mail.mint::<()>();
    let mut wallet = Wallet::new();
    let _ = wallet.show(vec![(View::Ask(1), Some(Pending::Unit(handle)))], Vec::new());
    assert_eq!(
        wallet.claim(1, String::from("x"), false).map(|(h, _)| h.id()),
        Err(Error::WrongKind {
            id: 1,
            expected: Kind::Unit,
            got: Kind::Str
        })
    );
    assert!(wallet.claim(1, (), false).is_ok());
}

#[test]
fn a_wake_during_a_call_is_noted_for_that_call() {
    let mut call = Some(vec![3u64]);
    assert!(note_wake(&mut call, 9));
    assert_eq!(call, Some(vec![3, 9]));

    let mut none: Option<Vec<u64>> = None;
    assert!(!note_wake(&mut none, 9), "outside any call: left for wakes");
    assert_eq!(none, None);
}
