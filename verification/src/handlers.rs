//! The programs that run on a node: what each answers to a request, whom it
//! sends to, and what it keeps between requests.

use crate::error::{Error, ErrorKind};
use crate::json::{
    json_model, map_get, no_fields, value_as_array, value_as_i64, value_as_u64, value_from_array,
    value_from_i64, value_from_u64, values_model, Json,
};
use crate::node::{is_text, NodeMetadata};
use crate::proto::{
    fields_model, strings_view, BodyView, InitView, IntoBody, Message, MessageBody, MessageView,
};
use serde_json::Value;
use vstd::prelude::*;
use vstd::string::*;

verus! {

/// The body that answers a request with a failure of the given kind.
pub open spec fn failure(kind: ErrorKind) -> BodyView {
    Error::of_kind(kind).to_body()
}

/// What the echo program answers: to `echo`, a body of type `echo_ok` with
/// the request's payload; to anything else, that it is not supported.
pub open spec fn echo_spec(req: MessageView) -> BodyView {
    if req.body.ty == "echo"@ {
        BodyView { extra: req.body.extra, ..BodyView::of_type("echo_ok"@) }
    } else {
        failure(ErrorKind::NotSupported)
    }
}

/// The answer of the echo program to a request.
pub fn echo_answer(req: &Message) -> (r: IntoBody)
    ensures
        r.body() == Some(echo_spec(req@)),
{
    if is_text(&req.body.ty, "echo") {
        IntoBody::Body(
            MessageBody {
                ty: String::from_str("echo_ok"),
                msg_id: 0,
                in_reply_to: 0,
                extra: req.body.extra.clone(),
            },
        )
    } else {
        IntoBody::Outcome(Err(Error::not_supported()))
    }
}

/// Whether a sender is a client: its name begins with `c`.
pub open spec fn is_client(src: Seq<char>) -> bool {
    src.len() > 0 && src[0] == 'c'
}

/// The identifiers of a list that are not the node's own, in the list's
/// order.
pub open spec fn others(ids: Seq<Seq<char>>, own: Seq<char>) -> Seq<Seq<char>>
    decreases ids.len(),
{
    if ids.len() == 0 {
        Seq::empty()
    } else if ids.last() == own {
        others(ids.drop_last(), own)
    } else {
        others(ids.drop_last(), own).push(ids.last())
    }
}

/// The nodes that a broadcast is passed on to: every other node of the
/// cluster where the message came from a client, and none where it came
/// from a node.
pub open spec fn gossip_targets_spec(who: InitView, src: Seq<char>) -> Seq<Seq<char>> {
    if is_client(src) {
        others(who.node_ids, who.node_id)
    } else {
        Seq::empty()
    }
}

/// The nodes that a broadcast from the given sender is passed on to.
pub fn gossip_targets(who: &NodeMetadata, src: &str) -> (r: Vec<String>)
    ensures
        strings_view(r@) == gossip_targets_spec(who@, src@),
{
    let mut out: Vec<String> = Vec::new();
    if src.unicode_len() == 0 || src.get_char(0) != 'c' {
        proof {
            assert(strings_view(out@) =~= Seq::<Seq<char>>::empty());
        }
        return out;
    }
    let ghost ids = strings_view(who.node_ids@);
    let mut i: usize = 0;
    proof {
        assert(strings_view(out@) =~= others(ids.take(0), who.node_id@));
    }
    while i < who.node_ids.len()
        invariant
            i <= who.node_ids.len(),
            ids == strings_view(who.node_ids@),
            strings_view(out@) == others(ids.take(i as int), who.node_id@),
        decreases who.node_ids.len() - i,
    {
        let ghost before = out@;
        proof {
            assert(ids.take(i + 1).drop_last() =~= ids.take(i as int));
            assert(ids.take(i + 1).last() == who.node_ids[i as int]@);
        }
        if !(who.node_ids[i] == who.node_id) {
            out.push(who.node_ids[i].clone());
            proof {
                assert(strings_view(out@) =~= strings_view(before).push(who.node_ids[i as int]@));
            }
        }
        i += 1;
    }
    proof {
        assert(ids.take(who.node_ids.len() as int) =~= ids);
    }
    out
}

/// The values that a node has seen, each once, in the order in which they
/// first came.
pub struct Seen {
    values: Vec<i64>,
}

impl View for Seen {
    type V = Seq<i64>;

    closed spec fn view(&self) -> Seq<i64> {
        self.values@
    }
}

/// What has been seen once a value has come: the value is added at the end
/// unless it was seen before.
pub open spec fn recorded(seen: Seq<i64>, value: i64) -> Seq<i64> {
    if seen.contains(value) {
        seen
    } else {
        seen.push(value)
    }
}

/// What has been seen once each value of a list has come, in turn.
pub open spec fn merged(seen: Seq<i64>, values: Seq<i64>) -> Seq<i64>
    decreases values.len(),
{
    if values.len() == 0 {
        seen
    } else {
        recorded(merged(seen, values.drop_last()), values.last())
    }
}

/// The JSON integers of a list of numbers.
pub open spec fn ints(s: Seq<i64>) -> Seq<Json> {
    s.map_values(|n: i64| Json::Int(n as int))
}

/// The number under a key of a payload, where it is an integer of 64 bits.
pub open spec fn int_field(p: Map<Seq<char>, Json>, key: Seq<char>) -> Option<i64> {
    if p.contains_key(key) {
        match p[key] {
            Json::Int(n) if i64::MIN <= n <= i64::MAX => Some(n as i64),
            _ => None,
        }
    } else {
        None
    }
}

/// The numbers that a JSON array holds, where it holds nothing but integers
/// of 64 bits.
pub open spec fn ints_of(a: Seq<Json>) -> Option<Seq<i64>> {
    if forall|i: int| 0 <= i < a.len() ==> int_item(#[trigger] a[i]) is Some {
        Some(Seq::new(a.len(), |i: int| int_item(a[i]).unwrap()))
    } else {
        None
    }
}

/// The number that a JSON value is, where it is an integer of 64 bits.
pub open spec fn int_item(j: Json) -> Option<i64> {
    match j {
        Json::Int(n) if i64::MIN <= n <= i64::MAX => Some(n as i64),
        _ => None,
    }
}

/// The numbers under a key of a payload, where it holds an array of
/// integers of 64 bits.
pub open spec fn ints_field(p: Map<Seq<char>, Json>, key: Seq<char>) -> Option<Seq<i64>> {
    if p.contains_key(key) {
        match p[key] {
            Json::Array(a) => ints_of(a),
            _ => None,
        }
    } else {
        None
    }
}

impl Seen {
    /// Nothing occurs twice.
    pub open spec fn wf(&self) -> bool {
        self@.no_duplicates()
    }

    /// Nothing seen yet.
    pub fn new() -> (r: Self)
        ensures
            r@ == Seq::<i64>::empty(),
            r.wf(),
    {
        Seen { values: Vec::new() }
    }

    /// Whether a value has been seen.
    pub fn contains(&self, value: i64) -> (r: bool)
        ensures
            r == self@.contains(value),
    {
        let mut i: usize = 0;
        while i < self.values.len()
            invariant
                i <= self.values.len(),
                forall|j: int| 0 <= j < i ==> self.values[j] != value,
            decreases self.values.len() - i,
        {
            if self.values[i] == value {
                return true;
            }
            i += 1;
        }
        false
    }

    /// Records a value, and says whether it is new.
    pub fn insert(&mut self, value: i64) -> (fresh: bool)
        requires
            old(self).wf(),
        ensures
            final(self).wf(),
            fresh == !old(self)@.contains(value),
            final(self)@ == recorded(old(self)@, value),
    {
        if self.contains(value) {
            false
        } else {
            self.values.push(value);
            true
        }
    }

    /// Records each value of a list in turn.
    pub fn extend(&mut self, values: &Vec<i64>)
        requires
            old(self).wf(),
        ensures
            final(self).wf(),
            final(self)@ == merged(old(self)@, values@),
    {
        let mut i: usize = 0;
        while i < values.len()
            invariant
                i <= values.len(),
                self.wf(),
                self@ == merged(old(self)@, values@.take(i as int)),
            decreases values.len() - i,
        {
            proof {
                assert(values@.take(i + 1).drop_last() =~= values@.take(i as int));
            }
            let _ = self.insert(values[i]);
            i += 1;
        }
        proof {
            assert(values@.take(values.len() as int) =~= values@);
        }
    }

    /// The values as a JSON array, in their order.
    pub fn to_value(&self) -> (r: Value)
        ensures
            json_model(r) == Json::Array(ints(self@)),
    {
        let mut items: Vec<Value> = Vec::new();
        let mut i: usize = 0;
        while i < self.values.len()
            invariant
                i <= self.values.len(),
                values_model(items@) == ints(self@.take(i as int)),
            decreases self.values.len() - i,
        {
            let ghost before = items@;
            items.push(value_from_i64(self.values[i]));
            proof {
                assert(values_model(items@) =~= values_model(before).push(
                    Json::Int(self.values[i as int] as int),
                ));
                assert(ints(self@.take(i + 1)) =~= ints(self@.take(i as int)).push(
                    Json::Int(self.values[i as int] as int),
                ));
            }
            i += 1;
        }
        proof {
            assert(self@.take(self.values.len() as int) =~= self@);
        }
        value_from_array(items)
    }
}

/// The body that passes on what a node has seen: type `set`, the values
/// under `set`.
pub open spec fn set_body_spec(seen: Seq<i64>) -> BodyView {
    BodyView {
        extra: no_fields().insert("set"@, Json::Array(ints(seen))),
        ..BodyView::of_type("set"@)
    }
}

/// The body that passes on what a node has seen.
pub fn set_body(seen: &Seen) -> (r: MessageBody)
    ensures
        r@ == set_body_spec(seen@),
{
    MessageBody::new("set").with_field("set", seen.to_value())
}

/// Reads the numbers under a key of a request's payload.
fn read_ints(req: &Message, key: &str) -> (r: Option<Vec<i64>>)
    ensures
        (match ints_field(req@.body.extra, key@) {
            Some(v) => r is Some && r.unwrap()@ == v,
            None => r is None,
        }),
{
    let items = match map_get(&req.body.extra, key) {
        Some(v) => match value_as_array(v) {
            Some(a) => a,
            None => {
                return None;
            },
        },
        None => {
            return None;
        },
    };
    let ghost a = values_model(items@);
    let mut out: Vec<i64> = Vec::new();
    let mut i: usize = 0;
    while i < items.len()
        invariant
            i <= items.len(),
            a == values_model(items@),
            ints_field(req@.body.extra, key@) == ints_of(a),
            out.len() == i,
            forall|j: int| 0 <= j < i ==> int_item(a[j]) == Some(#[trigger] out[j]),
        decreases items.len() - i,
    {
        match value_as_i64(&items[i]) {
            Some(n) => {
                out.push(n);
            },
            None => {
                proof {
                    assert(a[i as int] == json_model(items@[i as int]));
                    assert(int_item(a[i as int]) is None);
                }
                return None;
            },
        }
        i += 1;
    }
    proof {
        assert forall|j: int| 0 <= j < a.len() implies int_item(#[trigger] a[j]) is Some by {
            assert(int_item(a[j]) == Some(out[j]));
        }
        assert(out@ =~= ints_of(a).unwrap());
    }
    Some(out)
}

/// Reads the number under a key of a request's payload.
fn read_int(req: &Message, key: &str) -> (r: Option<i64>)
    ensures
        r == int_field(req@.body.extra, key@),
{
    match map_get(&req.body.extra, key) {
        Some(v) => value_as_i64(v),
        None => None,
    }
}

/// What the broadcast program does with a request: what it has seen
/// afterwards, whom it passes that on to, and the body it answers with, if
/// any.
///
/// - `broadcast` records the number under `message`, passes everything
///   seen on to the other nodes where the request came from a client, and
///   is answered with `broadcast_ok`.
/// - `set` records the numbers under `set` and is not answered.
/// - `read` is answered with `read_ok` and everything seen under
///   `messages`.
/// - `topology` is answered with `topology_ok`.
/// - A `broadcast` or `set` without its numbers is a malformed request,
///   and any other type is not supported; neither changes what was seen.
pub open spec fn broadcast_spec(seen: Seq<i64>, who: InitView, req: MessageView) -> (
    Seq<i64>,
    Seq<Seq<char>>,
    Option<BodyView>,
) {
    if req.body.ty == "broadcast"@ {
        match int_field(req.body.extra, "message"@) {
            Some(v) => (
                recorded(seen, v),
                gossip_targets_spec(who, req.src),
                Some(BodyView::of_type("broadcast_ok"@)),
            ),
            None => (seen, Seq::empty(), Some(failure(ErrorKind::MalformedRequest))),
        }
    } else if req.body.ty == "set"@ {
        match ints_field(req.body.extra, "set"@) {
            Some(vs) => (merged(seen, vs), Seq::empty(), None),
            None => (seen, Seq::empty(), Some(failure(ErrorKind::MalformedRequest))),
        }
    } else if req.body.ty == "read"@ {
        (
            seen,
            Seq::empty(),
            Some(
                BodyView {
                    extra: no_fields().insert("messages"@, Json::Array(ints(seen))),
                    ..BodyView::of_type("read_ok"@)
                },
            ),
        )
    } else if req.body.ty == "topology"@ {
        (seen, Seq::empty(), Some(BodyView::of_type("topology_ok"@)))
    } else {
        (seen, Seq::empty(), Some(failure(ErrorKind::NotSupported)))
    }
}

/// Runs the broadcast program on a request: records what the request
/// brings, and gives the nodes to pass [`set_body`] on to and the answer.
pub fn broadcast_answer(seen: &mut Seen, who: &NodeMetadata, req: &Message) -> (r: (
    Vec<String>,
    IntoBody,
))
    requires
        old(seen).wf(),
    ensures
        final(seen).wf(),
        (final(seen)@, strings_view(r.0@), r.1.body()) == broadcast_spec(old(seen)@, who@, req@),
{
    let none: Vec<String> = Vec::new();
    proof {
        assert(strings_view(none@) =~= Seq::<Seq<char>>::empty());
    }
    if is_text(&req.body.ty, "broadcast") {
        match read_int(req, "message") {
            Some(v) => {
                let _ = seen.insert(v);
                let targets = gossip_targets(who, req.src.as_str());
                (targets, IntoBody::Text(String::from_str("broadcast_ok")))
            },
            None => (none, IntoBody::Outcome(Err(Error::malformed_request()))),
        }
    } else if is_text(&req.body.ty, "set") {
        match read_ints(req, "set") {
            Some(vs) => {
                seen.extend(&vs);
                let answer = IntoBody::Outcome(Ok(Box::new(IntoBody::NoBody)));
                proof {
                    assert(answer.body() == IntoBody::NoBody.body());
                }
                (none, answer)
            },
            None => (none, IntoBody::Outcome(Err(Error::malformed_request()))),
        }
    } else if is_text(&req.body.ty, "read") {
        let mut fields: Vec<(String, Value)> = Vec::new();
        fields.push((String::from_str("messages"), seen.to_value()));
        proof {
            assert(fields@.drop_last() =~= Seq::<(String, Value)>::empty());
            assert(fields_model(fields@.drop_last()) == no_fields());
            assert(fields_model(fields@) == fields_model(fields@.drop_last()).insert(
                fields@.last().0@,
                json_model(fields@.last().1),
            ));
        }
        (none, IntoBody::Fields(String::from_str("read_ok"), fields))
    } else if is_text(&req.body.ty, "topology") {
        (none, IntoBody::Text(String::from_str("topology_ok")))
    } else {
        (none, IntoBody::Outcome(Err(Error::not_supported())))
    }
}

/// Whether a place is that of the node's own identifier among those of the
/// cluster: the first place where it stands, and 0 where it stands nowhere.
pub open spec fn is_place(who: InitView, i: int) -> bool {
    if who.node_ids.contains(who.node_id) {
        &&& 0 <= i < who.node_ids.len()
        &&& who.node_ids[i] == who.node_id
        &&& forall|j: int| 0 <= j < i ==> who.node_ids[j] != who.node_id
    } else {
        i == 0
    }
}

/// The place of the node's own identifier among those of the cluster.
pub fn node_index(who: &NodeMetadata) -> (r: usize)
    ensures
        is_place(who@, r as int),
{
    let ghost ids = strings_view(who.node_ids@);
    let mut i: usize = 0;
    while i < who.node_ids.len()
        invariant
            i <= who.node_ids.len(),
            ids == strings_view(who.node_ids@),
            forall|j: int| 0 <= j < i ==> ids[j] != who.node_id@,
        decreases who.node_ids.len() - i,
    {
        if who.node_ids[i] == who.node_id {
            proof {
                assert(ids[i as int] == who.node_id@);
            }
            return i;
        }
        i += 1;
    }
    0
}

/// The identifier that the node in a given place makes of a count: the
/// place in the upper 32 bits, the count in the lower.
pub open spec fn unique_id_spec(node_idx: u32, ctr: u32) -> u64 {
    (node_idx as u64 * 0x1_0000_0000 + ctr as u64) as u64
}

/// The identifier that the node in a given place makes of a count.
pub fn unique_id(node_idx: u32, ctr: u32) -> (r: u64)
    ensures
        r == unique_id_spec(node_idx, ctr),
        r == node_idx as u64 * 0x1_0000_0000 + ctr as u64,
{
    let hi: u64 = (node_idx as u64) << 32;
    let lo: u64 = ctr as u64;
    let id: u64 = hi | lo;
    proof {
        let a = node_idx as u64;
        assert(((a << 32) | lo) == a * 0x1_0000_0000 + lo) by (bit_vector)
            requires
                a <= 0xffff_ffff,
                lo <= 0xffff_ffff,
        ;
    }
    id
}

/// What the program of unique identifiers answers: to `generate`, a body of
/// type `generate_ok` with the identifier under `id`; to anything else,
/// that it is not supported.
pub open spec fn generate_spec(req: MessageView, node_idx: u32, ctr: u32) -> BodyView {
    if req.body.ty == "generate"@ {
        BodyView {
            extra: no_fields().insert("id"@, Json::Int(unique_id_spec(node_idx, ctr) as int)),
            ..BodyView::of_type("generate_ok"@)
        }
    } else {
        failure(ErrorKind::NotSupported)
    }
}

/// The answer of the program of unique identifiers to a request, for the
/// node in the given place and the given count.
pub fn generate_answer(req: &Message, node_idx: u32, ctr: u32) -> (r: IntoBody)
    ensures
        r.body() == Some(generate_spec(req@, node_idx, ctr)),
{
    if is_text(&req.body.ty, "generate") {
        let mut fields: Vec<(String, Value)> = Vec::new();
        fields.push((String::from_str("id"), value_from_u64(unique_id(node_idx, ctr))));
        proof {
            assert(fields@.drop_last() =~= Seq::<(String, Value)>::empty());
            assert(fields_model(fields@.drop_last()) == no_fields());
            assert(fields_model(fields@) == fields_model(fields@.drop_last()).insert(
                fields@.last().0@,
                json_model(fields@.last().1),
            ));
        }
        IntoBody::Fields(String::from_str("generate_ok"), fields)
    } else {
        IntoBody::Outcome(Err(Error::not_supported()))
    }
}

/// Whether a payload holds an integer from 0 to `u64::MAX` under a key.
pub open spec fn has_count(p: Map<Seq<char>, Json>, key: Seq<char>) -> bool {
    p.contains_key(key) && (match p[key] {
        Json::Int(n) => 0 <= n <= u64::MAX,
        _ => false,
    })
}

/// What the counter program answers: to `add` with a count under `delta`,
/// `add_ok`; to `add` without one, that the request is malformed; to
/// `read`, `read_ok` with the value 0; to anything else, that it is not
/// supported.
pub open spec fn counter_spec(req: MessageView) -> BodyView {
    if req.body.ty == "add"@ {
        if has_count(req.body.extra, "delta"@) {
            BodyView::of_type("add_ok"@)
        } else {
            failure(ErrorKind::MalformedRequest)
        }
    } else if req.body.ty == "read"@ {
        BodyView {
            extra: no_fields().insert("value"@, Json::Int(0)),
            ..BodyView::of_type("read_ok"@)
        }
    } else {
        failure(ErrorKind::NotSupported)
    }
}

/// The answer of the counter program to a request.
pub fn counter_answer(req: &Message) -> (r: IntoBody)
    ensures
        r.body() == Some(counter_spec(req@)),
{
    if is_text(&req.body.ty, "add") {
        let delta = match map_get(&req.body.extra, "delta") {
            Some(v) => value_as_u64(v),
            None => None,
        };
        match delta {
            Some(_) => IntoBody::Body(MessageBody::new("add_ok")),
            None => IntoBody::Outcome(Err(Error::malformed_request())),
        }
    } else if is_text(&req.body.ty, "read") {
        IntoBody::Body(MessageBody::new("read_ok").with_field("value", value_from_u64(0)))
    } else {
        IntoBody::Outcome(Err(Error::not_supported()))
    }
}

/// Recording a value keeps every value at most once, keeps what was seen,
/// and has the value seen.
pub proof fn lemma_recorded(seen: Seq<i64>, value: i64)
    requires
        seen.no_duplicates(),
    ensures
        recorded(seen, value).no_duplicates(),
        recorded(seen, value).contains(value),
        forall|v: i64| seen.contains(v) ==> recorded(seen, value).contains(v),
        forall|v: i64| recorded(seen, value).contains(v) ==> v == value || seen.contains(v),
{
    let after = recorded(seen, value);
    if !seen.contains(value) {
        assert(after[seen.len() as int] == value);
        assert forall|v: i64| seen.contains(v) implies after.contains(v) by {
            let i = choose|i: int| 0 <= i < seen.len() && seen[i] == v;
            assert(after[i] == v);
        }
    }
}

/// A broadcast is passed on only when it comes from a client, and never to
/// the node itself: for a request from any other sender the broadcast
/// program names no node to send to, and no node it names bears the
/// node's own identifier.
pub proof fn lemma_no_rebroadcast(seen: Seq<i64>, who: InitView, req: MessageView)
    ensures
        !is_client(req.src) ==> broadcast_spec(seen, who, req).1 == Seq::<Seq<char>>::empty(),
        !broadcast_spec(seen, who, req).1.contains(who.node_id),
        forall|t: Seq<char>| #[trigger]
            broadcast_spec(seen, who, req).1.contains(t) ==> who.node_ids.contains(t),
{
    lemma_others(who.node_ids, who.node_id);
    let targets = broadcast_spec(seen, who, req).1;
    assert(targets == others(who.node_ids, who.node_id) || targets == Seq::<Seq<char>>::empty());
    assert forall|t: Seq<char>| #[trigger] targets.contains(t) implies who.node_ids.contains(t)
        && t != who.node_id by {
        if targets == others(who.node_ids, who.node_id) {
            assert(others(who.node_ids, who.node_id).contains(t));
        }
    }
}

/// The other nodes of a list are those of the list that do not bear the
/// node's own identifier.
pub proof fn lemma_others(ids: Seq<Seq<char>>, own: Seq<char>)
    ensures
        forall|t: Seq<char>| #[trigger]
            others(ids, own).contains(t) <==> ids.contains(t) && t != own,
    decreases ids.len(),
{
    if ids.len() > 0 {
        let before = ids.drop_last();
        let last = ids.last();
        let rest = others(before, own);
        lemma_others(before, own);
        assert forall|t: Seq<char>| #[trigger]
            others(ids, own).contains(t) <==> ids.contains(t) && t != own by {
            assert(rest.contains(t) <==> before.contains(t) && t != own);
            if ids.contains(t) && t != own {
                let i = choose|i: int| 0 <= i < ids.len() && ids[i] == t;
                if i < before.len() {
                    assert(before[i] == t);
                    assert(rest.contains(t));
                    let k = choose|k: int| 0 <= k < rest.len() && rest[k] == t;
                    assert(others(ids, own)[k] == t);
                } else {
                    assert(last == t);
                    assert(others(ids, own)[rest.len() as int] == t);
                }
            }
            if others(ids, own).contains(t) {
                let k = choose|k: int| 0 <= k < others(ids, own).len() && others(ids, own)[k] == t;
                if k < rest.len() {
                    assert(rest[k] == t);
                    assert(rest.contains(t));
                    let i = choose|i: int| 0 <= i < before.len() && before[i] == t;
                    assert(ids[i] == t);
                } else {
                    assert(last != own);
                    assert(t == last);
                    assert(ids[ids.len() - 1] == t);
                }
            }
        }
    } else {
        assert forall|t: Seq<char>| #[trigger]
            others(ids, own).contains(t) <==> ids.contains(t) && t != own by {
            if ids.contains(t) {
                let i = choose|i: int| 0 <= i < ids.len() && ids[i] == t;
            }
            if others(ids, own).contains(t) {
                let k = choose|k: int| 0 <= k < others(ids, own).len() && others(ids, own)[k] == t;
            }
        }
    }
}

/// A later read returns what a broadcast recorded: once a `broadcast` has
/// brought a number, the answer to a `read` lists it under `messages`.
pub proof fn lemma_read_returns_broadcast(
    seen: Seq<i64>,
    who: InitView,
    bring: MessageView,
    read: MessageView,
    value: i64,
)
    requires
        seen.no_duplicates(),
        bring.body.ty == "broadcast"@,
        int_field(bring.body.extra, "message"@) == Some(value),
        read.body.ty == "read"@,
    ensures
        broadcast_spec(seen, who, bring).0.contains(value),
        broadcast_spec(broadcast_spec(seen, who, bring).0, who, read).0 == broadcast_spec(
            seen,
            who,
            bring,
        ).0,
        broadcast_spec(broadcast_spec(seen, who, bring).0, who, read).2 is Some,
        broadcast_spec(broadcast_spec(seen, who, bring).0, who, read).2.unwrap().extra["messages"@]
            == Json::Array(ints(recorded(seen, value))),
        ints(recorded(seen, value)).contains(Json::Int(value as int)),
{
    reveal_strlit("broadcast");
    reveal_strlit("read");
    reveal_strlit("set");
    assert("broadcast"@.len() == 9);
    assert("read"@.len() == 4);
    assert("set"@.len() == 3);
    lemma_recorded(seen, value);
    let after = recorded(seen, value);
    let i = choose|i: int| 0 <= i < after.len() && after[i] == value;
    assert(ints(after)[i] == Json::Int(value as int));
}

/// Two identifiers are equal only where place and count both are.
pub proof fn lemma_unique_ids_differ(a: u32, b: u32, c: u32, d: u32)
    ensures
        unique_id_spec(a, b) == unique_id_spec(c, d) ==> a == c && b == d,
{
    assert(a as u64 * 0x1_0000_0000 + b as u64 <= u64::MAX);
    assert(c as u64 * 0x1_0000_0000 + d as u64 <= u64::MAX);
}

} // verus!
