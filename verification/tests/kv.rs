use fly_dist_sys::error::{Error, ErrorKind};
use fly_dist_sys::kv::Kv;
use fly_dist_sys::proto::{Message, MessageBody};
use serde_json::Value;

fn json(text: &str) -> Value {
    serde_json::from_str(text).unwrap()
}

fn reply(body: MessageBody) -> Message {
    Message { src: "lin-kv".to_string(), dst: "n1".to_string(), body }
}

#[test]
fn stores_have_their_service_names() {
    assert_eq!(Kv::new_lin_kv().destination(), "lin-kv");
    assert_eq!(Kv::new_seq_kv().destination(), "seq-kv");
    assert_eq!(Kv::new_lww_kv().destination(), "lww-kv");
}

#[test]
fn read_request_names_the_key() {
    let body = Kv::new_seq_kv().read("counter");
    assert_eq!(body.to_value(), json(r#"{"type":"read","key":"counter"}"#));
    assert_eq!(body.msg_id, 0);
    assert_eq!(body.in_reply_to, 0);
}

#[test]
fn write_request_names_key_and_value() {
    let body = Kv::new_lin_kv().write("k", json(r#"{"a":[1,2]}"#));
    assert_eq!(body.to_value(), json(r#"{"type":"write","key":"k","value":{"a":[1,2]}}"#));
}

#[test]
fn compare_and_swap_request_names_all_four() {
    let body = Kv::new_lww_kv().compare_and_swap("k", &Value::from(1), &Value::from(2), true);
    assert_eq!(
        body.to_value(),
        json(r#"{"type":"compare_and_swap","key":"k","from":1,"to":2,"create_if_not_exists":true}"#)
    );
    let body = Kv::new_lww_kv().compare_and_swap("k", &Value::Null, &Value::from("x"), false);
    assert_eq!(
        body.to_value(),
        json(r#"{"type":"compare_and_swap","key":"k","from":null,"to":"x","create_if_not_exists":false}"#)
    );
}

#[test]
fn read_outcome_gives_the_value() {
    let got = Kv::read_outcome(Ok(reply(MessageBody::new("read_ok").with_field("value", Value::from(42)))));
    assert_eq!(got.unwrap(), Some(Value::from(42)));
    let got = Kv::read_outcome(Ok(reply(MessageBody::new("read_ok").with_field("value", Value::Null))));
    assert_eq!(got.unwrap(), Some(Value::Null));
}

#[test]
fn read_outcome_maps_a_missing_key_to_no_value() {
    let got = Kv::read_outcome(Err(Error::key_does_not_exist()));
    assert_eq!(got.unwrap(), None);
    let got = Kv::read_outcome(Err(Error::new(ErrorKind::KeyDoesNotExist, "k")));
    assert_eq!(got.unwrap(), None);
}

#[test]
fn read_outcome_passes_other_failures_on() {
    let e = Kv::read_outcome(Err(Error::new(ErrorKind::Timeout, "late"))).unwrap_err();
    assert_eq!(e.kind, ErrorKind::Timeout);
    assert_eq!(e.text, "late");
    let e = Kv::read_outcome(Err(Error::key_already_exists())).unwrap_err();
    assert_eq!(e.kind, ErrorKind::KeyAlreadyExists);
}

#[test]
fn read_outcome_refuses_a_reply_without_value() {
    let e = Kv::read_outcome(Ok(reply(MessageBody::new("read_ok")))).unwrap_err();
    assert_eq!(e.kind, ErrorKind::MalformedRequest);
}

#[test]
fn write_outcome_passes_failures_on() {
    assert!(Kv::write_outcome(Ok(reply(MessageBody::new("write_ok")))).is_ok());
    let e = Kv::write_outcome(Err(Error::precondition_failed())).unwrap_err();
    assert_eq!(e.kind, ErrorKind::PreconditionFailed);
    assert_eq!(e.text, "precondition failed");
}
