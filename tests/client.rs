use activelook::client::{await_step, match_response, AwaitStep, ClientSession};
use activelook::commands::Command;
use activelook::protocol::{encode_frame, ProtocolError};
use activelook::responses::Response;
use activelook::traits::Serializable;

fn response_frame(resp: &Response, id: &[u8]) -> Vec<u8> {
    let (tag, data) = resp.as_bytes().unwrap();
    encode_frame(tag, id, &data)
}

#[test]
fn requests_take_the_counter_then_advance_it() {
    let mut session = ClientSession::new();
    assert_eq!(0, session.query_id());
    let (id, frame) = session.prepare_request(&Command::PowerDisplay { en: 1 });
    assert_eq!(0, id);
    assert_eq!(vec![0xFF, 0x00, 0x04, 10, 0, 0, 0, 0, 0x01, 0xAA], frame);
    assert_eq!(1, session.query_id());
    let (id, frame) = session.prepare_request(&Command::Clear);
    assert_eq!(1, id);
    assert_eq!(vec![0xFF, 0x01, 0x04, 9, 0, 0, 0, 1, 0xAA], frame);
    assert_eq!(2, session.query_id());
}

#[test]
fn response_with_matching_id_is_delivered() {
    let resp = Response::Battery { level: 42 };
    let frame = response_frame(&resp, &[0, 0, 1, 2]);
    assert_eq!(Ok(resp), match_response(0x0102, &frame));
}

#[test]
fn response_with_other_id_is_rejected() {
    let resp = Response::Battery { level: 42 };
    let frame = response_frame(&resp, &[0, 0, 1, 3]);
    assert_eq!(Err(ProtocolError::IncorrectQueryId), match_response(0x0102, &frame));
    // no id at all
    let frame = response_frame(&resp, &[]);
    assert_eq!(Err(ProtocolError::IncorrectQueryId), match_response(0, &frame));
    // an id of the wrong width
    let frame = response_frame(&resp, &[1, 2]);
    assert_eq!(Err(ProtocolError::IncorrectQueryId), match_response(0x0102, &frame));
}

#[test]
fn garbage_means_waiting_goes_on() {
    assert!(matches!(await_step(5, Some(&[0x00, 0x01]), 1, None), AwaitStep::Retry));
    assert!(matches!(await_step(5, None, 1, None), AwaitStep::Retry));
    // a frame whose payload does not decode
    let frame = encode_frame(0x77, &[0, 0, 0, 5], &[]);
    assert_eq!(Err(ProtocolError::ParseError(activelook::wire::CodecError::UnknownId)), match_response(5, &frame));
    assert!(matches!(await_step(5, Some(&frame), 3, Some(10)), AwaitStep::Retry));
}

#[test]
fn waiting_gives_up_after_the_last_attempt() {
    assert!(matches!(
        await_step(5, None, 10, Some(10)),
        AwaitStep::Fail(ProtocolError::Empty)
    ));
    assert!(matches!(await_step(5, Some(&[0xFF]), 9, Some(10)), AwaitStep::Retry));
}

#[test]
fn await_step_delivers_or_fails_on_a_response_frame() {
    let resp = Response::PixelCount { count: 1234 };
    let frame = response_frame(&resp, &[0, 0, 0, 5]);
    match await_step(5, Some(&frame), 1, Some(1)) {
        AwaitStep::Deliver(r) => assert_eq!(resp, r),
        _ => panic!("expected the response"),
    }
    assert!(matches!(
        await_step(6, Some(&frame), 1, None),
        AwaitStep::Fail(ProtocolError::IncorrectQueryId)
    ));
}
