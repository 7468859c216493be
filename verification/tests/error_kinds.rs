use fly_dist_sys::error::{Error, ErrorKind};
use fly_dist_sys::proto::MessageBody;
use serde_json::Value;

fn all_kinds() -> Vec<(ErrorKind, u8, &'static str)> {
    vec![
        (ErrorKind::Timeout, 0, "timeout"),
        (ErrorKind::NodeNotFound, 1, "node not found"),
        (ErrorKind::NotSupported, 10, "not supported"),
        (ErrorKind::TemporarilyUnavailable, 11, "temporarily unavailable"),
        (ErrorKind::MalformedRequest, 12, "malformed request"),
        (ErrorKind::Crash, 13, "crash"),
        (ErrorKind::Abort, 14, "abort"),
        (ErrorKind::KeyDoesNotExist, 20, "key does not exist"),
        (ErrorKind::KeyAlreadyExists, 21, "key already exists"),
        (ErrorKind::PreconditionFailed, 22, "precondition failed"),
        (ErrorKind::TxnConflict, 30, "transaction conflict"),
    ]
}

#[test]
fn every_kind_has_its_code() {
    for (kind, code, _) in all_kinds() {
        assert_eq!(kind.code(), code);
    }
}

#[test]
fn every_code_decodes_to_its_kind() {
    for (kind, code, _) in all_kinds() {
        assert_eq!(ErrorKind::from_u8(code), Some(kind));
        assert_eq!(ErrorKind::from_u8(kind.code()), Some(kind));
    }
}

#[test]
fn unknown_codes_are_refused() {
    let known: Vec<u8> = all_kinds().iter().map(|k| k.1).collect();
    let mut refused = 0;
    for code in 0..=255u8 {
        if known.contains(&code) {
            assert!(ErrorKind::from_u8(code).is_some());
        } else {
            assert_eq!(ErrorKind::from_u8(code), None);
            refused += 1;
        }
    }
    assert_eq!(refused, 245);
    assert_eq!(ErrorKind::from_u8(2), None);
    assert_eq!(ErrorKind::from_u8(15), None);
    assert_eq!(ErrorKind::from_u8(31), None);
    assert_eq!(ErrorKind::from_u8(255), None);
}

#[test]
fn every_kind_has_its_text() {
    for (kind, _, text) in all_kinds() {
        assert_eq!(kind.to_string(), text);
    }
}

#[test]
fn constructors_use_the_canonical_text() {
    let made = vec![
        Error::timeout(),
        Error::node_not_found(),
        Error::not_supported(),
        Error::temporarily_unavailable(),
        Error::malformed_request(),
        Error::crash(),
        Error::abort(),
        Error::key_does_not_exist(),
        Error::key_already_exists(),
        Error::precondition_failed(),
        Error::txn_conflict(),
    ];
    for (e, (kind, _, text)) in made.iter().zip(all_kinds()) {
        assert_eq!(e.kind, kind);
        assert_eq!(e.text, text);
    }
}

#[test]
fn predicates_tell_the_kind() {
    let e = Error::key_does_not_exist();
    assert!(e.is_key_does_not_exist());
    assert!(!e.is_key_already_exists());
    assert!(!e.is_timeout());
    assert!(Error::timeout().is_timeout());
    assert!(Error::node_not_found().is_node_not_found());
    assert!(Error::not_supported().is_not_supported());
    assert!(Error::temporarily_unavailable().is_temporarily_unavailable());
    assert!(Error::malformed_request().is_malformed_request());
    assert!(Error::crash().is_crash());
    assert!(Error::abort().is_abort());
    assert!(Error::key_already_exists().is_key_already_exists());
    assert!(Error::precondition_failed().is_precondition_failed());
    assert!(Error::txn_conflict().is_txn_conflict());
    assert!(!Error::crash().is_abort());
}

#[test]
fn new_keeps_kind_and_text() {
    let e = Error::new(ErrorKind::Abort, "gave up");
    assert_eq!(e.kind, ErrorKind::Abort);
    assert_eq!(e.text, "gave up");
    let c = e.clone();
    assert_eq!(c.kind, ErrorKind::Abort);
    assert_eq!(c.text, "gave up");
}

#[test]
fn display_shows_kind_and_other_text() {
    assert_eq!(Error::crash().to_string(), "crash");
    assert_eq!(Error::new(ErrorKind::Crash, "crash").to_string(), "crash");
    assert_eq!(Error::new(ErrorKind::Crash, "disk full").to_string(), "crash: disk full");
    assert_eq!(Error::new(ErrorKind::TxnConflict, "").to_string(), "transaction conflict: ");
}

#[test]
fn error_body_carries_code_and_text() {
    let body = Error::new(ErrorKind::PreconditionFailed, "expected 5").into_body();
    assert_eq!(body.ty, "error");
    assert_eq!(body.msg_id, 0);
    assert_eq!(body.in_reply_to, 0);
    assert_eq!(body.extra.len(), 2);
    assert_eq!(body.extra.get("code"), Some(&Value::from(22)));
    assert_eq!(body.extra.get("text"), Some(&Value::from("expected 5")));
}

#[test]
fn error_body_round_trip_for_every_kind() {
    for (kind, _, _) in all_kinds() {
        let body = Error::new(kind, "why").into_body();
        let back = Error::from_body(&body).unwrap();
        assert_eq!(back.kind, kind);
        assert_eq!(back.text, "why");
    }
}

#[test]
fn error_body_without_code_is_refused() {
    let body = MessageBody::new("error").with_field("text", Value::from("x"));
    assert!(Error::from_body(&body).is_none());
}

#[test]
fn error_body_without_text_is_refused() {
    let body = MessageBody::new("error").with_field("code", Value::from(13));
    assert!(Error::from_body(&body).is_none());
}

#[test]
fn error_body_with_unknown_code_is_refused() {
    for code in [2u64, 99, 255, 256, 269, 1 << 40] {
        let body = MessageBody::new("error")
            .with_field("code", Value::from(code))
            .with_field("text", Value::from("x"));
        assert!(Error::from_body(&body).is_none(), "code {}", code);
    }
}

#[test]
fn error_body_with_misshapen_fields_is_refused() {
    let body = MessageBody::new("error")
        .with_field("code", Value::from("13"))
        .with_field("text", Value::from("x"));
    assert!(Error::from_body(&body).is_none());
    let body = MessageBody::new("error")
        .with_field("code", Value::from(-1))
        .with_field("text", Value::from("x"));
    assert!(Error::from_body(&body).is_none());
    let body = MessageBody::new("error")
        .with_field("code", Value::from(13))
        .with_field("text", Value::from(7));
    assert!(Error::from_body(&body).is_none());
    let body = MessageBody::new("error")
        .with_field("code", Value::Null)
        .with_field("text", Value::from("x"));
    assert!(Error::from_body(&body).is_none());
}

#[test]
fn error_body_is_read_whatever_the_type() {
    let body = MessageBody::new("other")
        .with_field("code", Value::from(20))
        .with_field("text", Value::from("gone"));
    let e = Error::from_body(&body).unwrap();
    assert!(e.is_key_does_not_exist());
    assert_eq!(e.text, "gone");
}
