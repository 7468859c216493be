use fly_dist_sys::error::{Error, ErrorKind};
use fly_dist_sys::handlers::{
    broadcast_answer, counter_answer, echo_answer, generate_answer, gossip_targets, node_index,
    set_body, unique_id, Seen,
};
use fly_dist_sys::proto::{Message, MessageBody};
use fly_dist_sys::NodeMetadata;
use serde_json::Value;

fn json(text: &str) -> Value {
    serde_json::from_str(text).unwrap()
}

fn request(src: &str, body: &str) -> Message {
    Message {
        src: src.to_string(),
        dst: "n1".to_string(),
        body: MessageBody::from_value(&json(body)).unwrap(),
    }
}

fn cluster(own: &str, ids: &[&str]) -> NodeMetadata {
    NodeMetadata {
        node_id: own.to_string(),
        node_ids: ids.iter().map(|s| s.to_string()).collect(),
    }
}

fn names(ids: &[&str]) -> Vec<String> {
    ids.iter().map(|s| s.to_string()).collect()
}

fn failure_of(body: &MessageBody) -> ErrorKind {
    assert_eq!(body.ty, "error");
    Error::from_body(body).unwrap().kind
}

#[test]
fn echo_answers_with_the_payload() {
    let req = request("c1", r#"{"type":"echo","msg_id":1,"echo":"hi","more":[1]}"#);
    let body = echo_answer(&req).into_body().unwrap();
    assert_eq!(body.ty, "echo_ok");
    assert_eq!(body.msg_id, 0);
    assert_eq!(body.in_reply_to, 0);
    assert_eq!(body.extra, req.body.extra);
    assert_eq!(body.to_value(), json(r#"{"type":"echo_ok","echo":"hi","more":[1]}"#));
}

#[test]
fn echo_supports_nothing_else() {
    for ty in ["", "Echo", "echo_ok", "read", "init_ok"] {
        let req = request("c1", &format!("{{\"type\":\"{}\",\"echo\":\"hi\"}}", ty));
        let body = echo_answer(&req).into_body().unwrap();
        assert_eq!(failure_of(&body), ErrorKind::NotSupported, "{}", ty);
        assert_eq!(body.extra.get("text"), Some(&Value::from("not supported")));
    }
}

#[test]
fn gossip_goes_to_the_others_when_a_client_asks() {
    let who = cluster("n2", &["n1", "n2", "n3", "n4"]);
    assert_eq!(gossip_targets(&who, "c1"), names(&["n1", "n3", "n4"]));
    assert_eq!(gossip_targets(&who, "c"), names(&["n1", "n3", "n4"]));
    assert_eq!(gossip_targets(&who, "client"), names(&["n1", "n3", "n4"]));
}

#[test]
fn gossip_goes_nowhere_when_a_node_asks() {
    let who = cluster("n2", &["n1", "n2", "n3"]);
    assert!(gossip_targets(&who, "n1").is_empty());
    assert!(gossip_targets(&who, "").is_empty());
    assert!(gossip_targets(&who, "C1").is_empty());
    assert!(gossip_targets(&who, "xc").is_empty());
    assert!(gossip_targets(&who, "\u{e7}1").is_empty());
}

#[test]
fn gossip_leaves_out_every_place_of_the_node_itself() {
    let who = cluster("n1", &["n1", "n2", "n1", "n3", "n2"]);
    assert_eq!(gossip_targets(&who, "c9"), names(&["n2", "n3", "n2"]));
    assert!(gossip_targets(&cluster("n1", &["n1"]), "c9").is_empty());
    assert!(gossip_targets(&cluster("n1", &[]), "c9").is_empty());
    assert_eq!(gossip_targets(&cluster("n9", &["n1", "n2"]), "c9"), names(&["n1", "n2"]));
}

#[test]
fn seen_keeps_each_value_once_in_order() {
    let mut seen = Seen::new();
    assert!(!seen.contains(3));
    assert_eq!(seen.to_value(), json("[]"));
    assert!(seen.insert(3));
    assert!(seen.insert(-1));
    assert!(!seen.insert(3));
    assert!(seen.insert(i64::MAX));
    assert!(seen.insert(i64::MIN));
    assert!(seen.contains(3));
    assert!(seen.contains(-1));
    assert!(!seen.contains(0));
    assert_eq!(seen.to_value(), json("[3,-1,9223372036854775807,-9223372036854775808]"));
    seen.extend(&vec![7, 3, 7, 8]);
    assert_eq!(seen.to_value(), json("[3,-1,9223372036854775807,-9223372036854775808,7,8]"));
}

#[test]
fn set_body_lists_what_was_seen() {
    let mut seen = Seen::new();
    assert_eq!(set_body(&seen).to_value(), json(r#"{"type":"set","set":[]}"#));
    seen.insert(5);
    seen.insert(2);
    assert_eq!(set_body(&seen).to_value(), json(r#"{"type":"set","set":[5,2]}"#));
}

#[test]
fn broadcast_records_and_names_the_others() {
    let who = cluster("n1", &["n1", "n2", "n3"]);
    let mut seen = Seen::new();
    let (targets, answer) =
        broadcast_answer(&mut seen, &who, &request("c4", r#"{"type":"broadcast","msg_id":1,"message":5}"#));
    assert_eq!(targets, names(&["n2", "n3"]));
    let body = answer.into_body().unwrap();
    assert_eq!(body.ty, "broadcast_ok");
    assert!(body.extra.is_empty());
    assert_eq!(seen.to_value(), json("[5]"));
}

#[test]
fn broadcast_from_a_node_is_recorded_and_not_passed_on() {
    let who = cluster("n1", &["n1", "n2", "n3"]);
    let mut seen = Seen::new();
    let (targets, answer) =
        broadcast_answer(&mut seen, &who, &request("n2", r#"{"type":"broadcast","message":-8}"#));
    assert!(targets.is_empty());
    assert_eq!(answer.into_body().unwrap().ty, "broadcast_ok");
    assert_eq!(seen.to_value(), json("[-8]"));
}

#[test]
fn set_is_merged_and_not_answered() {
    let who = cluster("n1", &["n1", "n2"]);
    let mut seen = Seen::new();
    seen.insert(2);
    let (targets, answer) =
        broadcast_answer(&mut seen, &who, &request("n2", r#"{"type":"set","set":[1,2,3,1]}"#));
    assert!(targets.is_empty());
    assert!(answer.into_body().is_none());
    assert_eq!(seen.to_value(), json("[2,1,3]"));
    let (targets, answer) = broadcast_answer(&mut seen, &who, &request("c1", r#"{"type":"set","set":[]}"#));
    assert!(targets.is_empty());
    assert!(answer.into_body().is_none());
    assert_eq!(seen.to_value(), json("[2,1,3]"));
}

#[test]
fn read_lists_what_broadcasts_recorded() {
    let who = cluster("n1", &["n1", "n2"]);
    let mut seen = Seen::new();
    for (src, v) in [("c1", 4), ("n2", 9), ("c2", 4), ("c3", 1)] {
        let req = request(src, &format!("{{\"type\":\"broadcast\",\"message\":{}}}", v));
        let _ = broadcast_answer(&mut seen, &who, &req);
    }
    let (targets, answer) = broadcast_answer(&mut seen, &who, &request("c1", r#"{"type":"read","msg_id":3}"#));
    assert!(targets.is_empty());
    let body = answer.into_body().unwrap();
    assert_eq!(body.to_value(), json(r#"{"type":"read_ok","messages":[4,9,1]}"#));
    assert_eq!(seen.to_value(), json("[4,9,1]"));
}

#[test]
fn topology_is_acknowledged() {
    let who = cluster("n1", &["n1", "n2"]);
    let mut seen = Seen::new();
    let (targets, answer) = broadcast_answer(
        &mut seen,
        &who,
        &request("c1", r#"{"type":"topology","topology":{"n1":["n2"],"n2":["n1"]}}"#),
    );
    assert!(targets.is_empty());
    let body = answer.into_body().unwrap();
    assert_eq!(body.ty, "topology_ok");
    assert!(body.extra.is_empty());
    assert_eq!(seen.to_value(), json("[]"));
}

#[test]
fn broadcast_program_refuses_what_it_cannot_read() {
    let who = cluster("n1", &["n1", "n2"]);
    let mut seen = Seen::new();
    seen.insert(1);
    for text in [
        r#"{"type":"broadcast"}"#,
        r#"{"type":"broadcast","message":"5"}"#,
        r#"{"type":"broadcast","message":1.5}"#,
        r#"{"type":"broadcast","message":9223372036854775808}"#,
        r#"{"type":"set"}"#,
        r#"{"type":"set","set":5}"#,
        r#"{"type":"set","set":[7,"8"]}"#,
        r#"{"type":"set","set":[7,null]}"#,
    ] {
        let (targets, answer) = broadcast_answer(&mut seen, &who, &request("c1", text));
        assert!(targets.is_empty(), "{}", text);
        assert_eq!(failure_of(&answer.into_body().unwrap()), ErrorKind::MalformedRequest, "{}", text);
        assert_eq!(seen.to_value(), json("[1]"), "{}", text);
    }
    let (targets, answer) = broadcast_answer(&mut seen, &who, &request("c1", r#"{"type":"echo"}"#));
    assert!(targets.is_empty());
    assert_eq!(failure_of(&answer.into_body().unwrap()), ErrorKind::NotSupported);
    assert_eq!(seen.to_value(), json("[1]"));
}

#[test]
fn node_index_is_the_first_place_or_zero() {
    assert_eq!(node_index(&cluster("n1", &["n1", "n2", "n3"])), 0);
    assert_eq!(node_index(&cluster("n3", &["n1", "n2", "n3"])), 2);
    assert_eq!(node_index(&cluster("n2", &["n1", "n2", "n2"])), 1);
    assert_eq!(node_index(&cluster("n9", &["n1", "n2", "n3"])), 0);
    assert_eq!(node_index(&cluster("n1", &[])), 0);
}

#[test]
fn unique_id_puts_place_above_count() {
    assert_eq!(unique_id(0, 0), 0);
    assert_eq!(unique_id(0, 7), 7);
    assert_eq!(unique_id(1, 0), 4294967296);
    assert_eq!(unique_id(1, 1), 4294967297);
    assert_eq!(unique_id(2, 3), 8589934595);
    assert_eq!(unique_id(0, u32::MAX), 4294967295);
    assert_eq!(unique_id(u32::MAX, 0), 18446744069414584320);
    assert_eq!(unique_id(u32::MAX, u32::MAX), u64::MAX);
}

#[test]
fn unique_ids_differ() {
    let mut all = Vec::new();
    for idx in [0u32, 1, 2, 65536, u32::MAX] {
        for ctr in [0u32, 1, 2, 65536, u32::MAX] {
            all.push(unique_id(idx, ctr));
        }
    }
    let mut sorted = all.clone();
    sorted.sort();
    sorted.dedup();
    assert_eq!(sorted.len(), all.len());
}

#[test]
fn generate_answers_with_the_identifier() {
    let body = generate_answer(&request("c1", r#"{"type":"generate","msg_id":1}"#), 2, 3)
        .into_body()
        .unwrap();
    assert_eq!(body.to_value(), json(r#"{"type":"generate_ok","id":8589934595}"#));
    let body = generate_answer(&request("c1", r#"{"type":"generate"}"#), u32::MAX, u32::MAX)
        .into_body()
        .unwrap();
    assert_eq!(body.extra.get("id"), Some(&Value::from(u64::MAX)));
    let body = generate_answer(&request("c1", r#"{"type":"read"}"#), 2, 3).into_body().unwrap();
    assert_eq!(failure_of(&body), ErrorKind::NotSupported);
}

#[test]
fn counter_answers_add_and_read() {
    let body = counter_answer(&request("c1", r#"{"type":"add","delta":3}"#)).into_body().unwrap();
    assert_eq!(body.to_value(), json(r#"{"type":"add_ok"}"#));
    let body = counter_answer(&request("c1", r#"{"type":"read"}"#)).into_body().unwrap();
    assert_eq!(body.to_value(), json(r#"{"type":"read_ok","value":0}"#));
    for text in [r#"{"type":"add"}"#, r#"{"type":"add","delta":-1}"#, r#"{"type":"add","delta":"3"}"#] {
        let body = counter_answer(&request("c1", text)).into_body().unwrap();
        assert_eq!(failure_of(&body), ErrorKind::MalformedRequest, "{}", text);
    }
    let body = counter_answer(&request("c1", r#"{"type":"sub","delta":3}"#)).into_body().unwrap();
    assert_eq!(failure_of(&body), ErrorKind::NotSupported);
}
