//! The wire format: envelopes and bodies, and their reading from and writing
//! to JSON.

use crate::error::{Error, ErrorKind};
use crate::json::{
    json_from_str, json_model, json_parse, json_text, map_get, map_insert, map_model, map_new,
    map_remove, no_fields, value_as_array, value_as_object, value_as_str, value_as_u64,
    value_from_object, value_from_string, value_from_u64, values_model, Json,
};
use serde_json::Value;
use vstd::prelude::*;
use vstd::string::*;

verus! {

/// The body of a message: its type tag, the identifier of the request it
/// makes (0: none), the identifier of the request it answers (0: none), and
/// the fields that belong to its type.
#[derive(Debug, PartialEq, Eq)]
pub struct MessageBody {
    pub ty: String,
    pub msg_id: u32,
    pub in_reply_to: u32,
    pub extra: serde_json::Map<String, Value>,
}

/// The mathematical content of a [`MessageBody`].
pub struct BodyView {
    pub ty: Seq<char>,
    pub msg_id: u32,
    pub in_reply_to: u32,
    pub extra: Map<Seq<char>, Json>,
}

/// One wire message: who sent it, whom it is for, and its body.
#[derive(Debug, PartialEq, Eq)]
pub struct Message {
    pub src: String,
    pub dst: String,
    pub body: MessageBody,
}

/// The mathematical content of a [`Message`].
pub struct MessageView {
    pub src: Seq<char>,
    pub dst: Seq<char>,
    pub body: BodyView,
}

impl View for MessageBody {
    type V = BodyView;

    open spec fn view(&self) -> BodyView {
        BodyView {
            ty: self.ty@,
            msg_id: self.msg_id,
            in_reply_to: self.in_reply_to,
            extra: map_model(self.extra),
        }
    }
}

impl View for Message {
    type V = MessageView;

    open spec fn view(&self) -> MessageView {
        MessageView { src: self.src@, dst: self.dst@, body: self.body@ }
    }
}

impl BodyView {
    /// A body of the given type with no identifiers and no fields.
    pub open spec fn of_type(ty: Seq<char>) -> BodyView {
        BodyView { ty, msg_id: 0, in_reply_to: 0, extra: no_fields() }
    }

    /// Whether the payload keeps clear of the three names that the fixed
    /// fields have on the wire.
    pub open spec fn valid(self) -> bool {
        &&& !self.extra.contains_key("type"@)
        &&& !self.extra.contains_key("msg_id"@)
        &&& !self.extra.contains_key("in_reply_to"@)
    }

    /// The wire object of a body: the payload's fields beside the type, and
    /// beside each identifier that is not 0. A payload field named like a
    /// fixed field gives way to it.
    pub open spec fn to_json(self) -> Map<Seq<char>, Json> {
        let payload = self.extra.remove("msg_id"@).remove("in_reply_to"@);
        let typed = payload.insert("type"@, Json::Str(self.ty));
        let stamped = if self.msg_id != 0 {
            typed.insert("msg_id"@, Json::Int(self.msg_id as int))
        } else {
            typed
        };
        if self.in_reply_to != 0 {
            stamped.insert("in_reply_to"@, Json::Int(self.in_reply_to as int))
        } else {
            stamped
        }
    }

    /// The identifier under a key of a wire object: 0 where the key is
    /// absent, the number where it is an integer that fits 32 bits, and
    /// nothing for any other value.
    pub open spec fn id_field(o: Map<Seq<char>, Json>, key: Seq<char>) -> Option<u32> {
        if !o.contains_key(key) {
            Some(0u32)
        } else {
            match o[key] {
                Json::Int(n) if 0 <= n <= u32::MAX => Some(n as u32),
                _ => None,
            }
        }
    }

    /// The body that a wire object denotes: its type must be a string and
    /// its identifiers, where present, integers of 32 bits; every other
    /// field goes to the payload.
    pub open spec fn from_json(o: Map<Seq<char>, Json>) -> Option<BodyView> {
        if o.contains_key("type"@) {
            match (o["type"@], Self::id_field(o, "msg_id"@), Self::id_field(o, "in_reply_to"@)) {
                (Json::Str(ty), Some(msg_id), Some(in_reply_to)) => Some(
                    BodyView {
                        ty,
                        msg_id,
                        in_reply_to,
                        extra: o.remove("type"@).remove("msg_id"@).remove("in_reply_to"@),
                    },
                ),
                _ => None,
            }
        } else {
            None
        }
    }

    /// The body that a JSON value denotes, which must be an object.
    pub open spec fn from_value(j: Json) -> Option<BodyView> {
        match j {
            Json::Object(o) => Self::from_json(o),
            _ => None,
        }
    }
}

impl MessageView {
    /// The wire value of an envelope: an object with the source under
    /// `src`, the destination under `dest` and the body's object under
    /// `body`.
    pub open spec fn to_json(self) -> Json {
        Json::Object(
            no_fields().insert("src"@, Json::Str(self.src)).insert(
                "dest"@,
                Json::Str(self.dst),
            ).insert("body"@, Json::Object(self.body.to_json())),
        )
    }

    /// The envelope that a JSON value denotes: an object whose `src` and
    /// `dest` are strings and whose `body` denotes a body. Other fields of
    /// the object are passed over.
    pub open spec fn from_json(j: Json) -> Option<MessageView> {
        match j {
            Json::Object(o) => {
                if o.contains_key("src"@) && o.contains_key("dest"@) && o.contains_key("body"@) {
                    match (o["src"@], o["dest"@], BodyView::from_value(o["body"@])) {
                        (Json::Str(src), Json::Str(dst), Some(body)) => Some(
                            MessageView { src, dst, body },
                        ),
                        _ => None,
                    }
                } else {
                    None
                }
            },
            _ => None,
        }
    }
}

/// Reads the identifier under a key of a wire object.
fn read_id(obj: &serde_json::Map<String, Value>, key: &str) -> (r: Option<u32>)
    ensures
        r == BodyView::id_field(map_model(*obj), key@),
{
    match map_get(obj, key) {
        None => Some(0),
        Some(v) => match value_as_u64(v) {
            Some(n) => if n <= 0xffff_ffff {
                Some(n as u32)
            } else {
                None
            },
            None => None,
        },
    }
}

impl Clone for MessageBody {
    fn clone(&self) -> (r: Self)
        ensures
            r@ == self@,
    {
        MessageBody {
            ty: self.ty.clone(),
            msg_id: self.msg_id,
            in_reply_to: self.in_reply_to,
            extra: self.extra.clone(),
        }
    }
}

impl Clone for Message {
    fn clone(&self) -> (r: Self)
        ensures
            r@ == self@,
    {
        Message { src: self.src.clone(), dst: self.dst.clone(), body: self.body.clone() }
    }
}

impl Default for MessageBody {
    fn default() -> (r: Self)
        ensures
            r@ == BodyView::of_type(Seq::empty()),
    {
        MessageBody { ty: String::new(), msg_id: 0, in_reply_to: 0, extra: map_new() }
    }
}

impl MessageBody {
    /// A body of the given type, with no identifiers and an empty payload.
    pub fn new(ty: &str) -> (r: Self)
        ensures
            r@ == BodyView::of_type(ty@),
    {
        MessageBody { ty: String::from_str(ty), msg_id: 0, in_reply_to: 0, extra: map_new() }
    }

    /// This body with one more payload field, which replaces a field of the
    /// same name.
    pub fn with_field(self, key: &str, value: Value) -> (r: Self)
        ensures
            r@ == (BodyView { extra: self@.extra.insert(key@, json_model(value)), ..self@ }),
    {
        let mut body = self;
        map_insert(&mut body.extra, String::from_str(key), value);
        body
    }

    /// The wire object of this body, as a JSON value.
    pub fn to_value(&self) -> (r: Value)
        ensures
            json_model(r) == Json::Object(self@.to_json()),
    {
        let mut obj = self.extra.clone();
        let _ = map_remove(&mut obj, "msg_id");
        let _ = map_remove(&mut obj, "in_reply_to");
        map_insert(&mut obj, String::from_str("type"), value_from_string(self.ty.clone()));
        if !u32_is_zero(&self.msg_id) {
            map_insert(&mut obj, String::from_str("msg_id"), value_from_u64(self.msg_id as u64));
        }
        if !u32_is_zero(&self.in_reply_to) {
            map_insert(
                &mut obj,
                String::from_str("in_reply_to"),
                value_from_u64(self.in_reply_to as u64),
            );
        }
        value_from_object(obj)
    }

    /// The body that a JSON value denotes, if it denotes one.
    pub fn from_value(v: &Value) -> (r: Option<Self>)
        ensures
            (match BodyView::from_value(json_model(*v)) {
                Some(b) => r is Some && r.unwrap()@ == b,
                None => r is None,
            }),
    {
        let obj = match value_as_object(v) {
            Some(o) => o,
            None => {
                return None;
            },
        };
        let ty = match map_get(obj, "type") {
            Some(t) => match value_as_str(t) {
                Some(s) => String::from_str(s),
                None => {
                    return None;
                },
            },
            None => {
                return None;
            },
        };
        let msg_id = match read_id(obj, "msg_id") {
            Some(n) => n,
            None => {
                return None;
            },
        };
        let in_reply_to = match read_id(obj, "in_reply_to") {
            Some(n) => n,
            None => {
                return None;
            },
        };
        let mut extra = obj.clone();
        let _ = map_remove(&mut extra, "type");
        let _ = map_remove(&mut extra, "msg_id");
        let _ = map_remove(&mut extra, "in_reply_to");
        Some(MessageBody { ty, msg_id, in_reply_to, extra })
    }
}

impl MessageView {
    /// The envelope that a line of text denotes: the text must be JSON, and
    /// the value an envelope.
    pub open spec fn parse(line: Seq<char>) -> Option<MessageView> {
        match json_parse(line) {
            Some(j) => Self::from_json(j),
            None => None,
        }
    }

    /// The line that carries an envelope: its compact JSON text and a line
    /// feed.
    pub open spec fn to_line(self) -> Seq<char> {
        json_text(self.to_json()) + "\n"@
    }
}

/// Reads the string under a key of a wire object.
fn read_string(obj: &serde_json::Map<String, Value>, key: &str) -> (r: Option<String>)
    ensures
        (match r {
            Some(s) => map_model(*obj).contains_key(key@) && map_model(*obj)[key@] == Json::Str(
                s@,
            ),
            None => !map_model(*obj).contains_key(key@) || !(map_model(*obj)[key@] is Str),
        }),
{
    match map_get(obj, key) {
        Some(v) => match value_as_str(v) {
            Some(s) => Some(String::from_str(s)),
            None => None,
        },
        None => None,
    }
}

impl Message {
    /// The type tag of the body.
    pub fn ty(&self) -> (r: &str)
        ensures
            r@ == self@.body.ty,
    {
        self.body.ty.as_str()
    }

    /// The wire value of this envelope.
    pub fn to_value(&self) -> (r: Value)
        ensures
            json_model(r) == self@.to_json(),
    {
        let mut obj = map_new();
        map_insert(&mut obj, String::from_str("src"), value_from_string(self.src.clone()));
        map_insert(&mut obj, String::from_str("dest"), value_from_string(self.dst.clone()));
        map_insert(&mut obj, String::from_str("body"), self.body.to_value());
        value_from_object(obj)
    }

    /// The envelope that a JSON value denotes, if it denotes one.
    pub fn from_value(v: &Value) -> (r: Option<Self>)
        ensures
            (match MessageView::from_json(json_model(*v)) {
                Some(m) => r is Some && r.unwrap()@ == m,
                None => r is None,
            }),
    {
        let obj = match value_as_object(v) {
            Some(o) => o,
            None => {
                return None;
            },
        };
        let src = match read_string(obj, "src") {
            Some(s) => s,
            None => {
                return None;
            },
        };
        let dst = match read_string(obj, "dest") {
            Some(s) => s,
            None => {
                return None;
            },
        };
        let body = match map_get(obj, "body") {
            Some(b) => match MessageBody::from_value(b) {
                Some(body) => body,
                None => {
                    return None;
                },
            },
            None => {
                return None;
            },
        };
        Some(Message { src, dst, body })
    }

    /// Reads one line of input: the envelope that it denotes. A line that is
    /// no JSON, or whose JSON is no envelope, is a malformed request.
    pub fn decode(line: &str) -> (r: Result<Self, Error>)
        ensures
            (match MessageView::parse(line@) {
                Some(m) => r is Ok && r.unwrap()@ == m,
                None => r is Err && r.unwrap_err()@ == Error::of_kind(
                    ErrorKind::MalformedRequest,
                ),
            }),
    {
        let parsed = match json_from_str(line) {
            Some(v) => Message::from_value(&v),
            None => None,
        };
        match parsed {
            Some(m) => Ok(m),
            None => Err(Error::malformed_request()),
        }
    }
}

/// Whether an identifier is 0, which stands for none and is left out of
/// the wire object.
pub fn u32_is_zero(v: &u32) -> (r: bool)
    ensures
        r == (*v == 0),
{
    *v == 0
}

/// Whether a text is one line: it ends with a line feed and holds no other.
pub open spec fn single_line(s: Seq<char>) -> bool {
    &&& s.len() > 0
    &&& s.last() == '\n'
    &&& !s.drop_last().contains('\n')
}

/// Ends a JSON text with a line feed, so that it is one line of output.
/// Where the serializer gave no text there is no line, and the failure is a
/// crash.
pub fn frame(text: Option<String>) -> (r: Result<String, Error>)
    ensures
        (match text {
            Some(t) => r is Ok && r.unwrap()@ == t@ + "\n"@,
            None => r is Err && r.unwrap_err()@ == Error::of_kind(ErrorKind::Crash),
        }),
        text is Some && !text.unwrap()@.contains('\n') ==> single_line(r.unwrap()@),
{
    match text {
        Some(t) => {
            let mut line = t;
            line.append("\n");
            proof {
                reveal_strlit("\n");
                assert("\n"@.len() == 1);
                assert(line@.drop_last() =~= t@);
            }
            Ok(line)
        },
        None => Err(Error::crash()),
    }
}

/// The names of the fixed fields of a body differ from one another, and so
/// do those of an envelope.
pub proof fn lemma_wire_names_differ()
    ensures
        "type"@ != "msg_id"@,
        "type"@ != "in_reply_to"@,
        "msg_id"@ != "in_reply_to"@,
        "src"@ != "dest"@,
        "src"@ != "body"@,
        "dest"@ != "body"@,
{
    reveal_strlit("type");
    reveal_strlit("msg_id");
    reveal_strlit("in_reply_to");
    reveal_strlit("src");
    reveal_strlit("dest");
    reveal_strlit("body");
    assert("type"@.len() == 4);
    assert("msg_id"@.len() == 6);
    assert("in_reply_to"@.len() == 11);
    assert("src"@.len() == 3);
    assert("dest"@[0] == 'd');
    assert("body"@[0] == 'b');
}

/// A body whose identifier is 0 has no field for it on the wire, and a wire
/// object without the field is read with the identifier 0.
pub proof fn lemma_zero_identifiers(b: BodyView, o: Map<Seq<char>, Json>)
    ensures
        b.msg_id == 0 ==> !b.to_json().contains_key("msg_id"@),
        b.in_reply_to == 0 ==> !b.to_json().contains_key("in_reply_to"@),
        b.msg_id != 0 ==> b.to_json()["msg_id"@] == Json::Int(b.msg_id as int),
        b.in_reply_to != 0 ==> b.to_json()["in_reply_to"@] == Json::Int(b.in_reply_to as int),
        !o.contains_key("msg_id"@) && BodyView::from_json(o) is Some ==> BodyView::from_json(
            o,
        ).unwrap().msg_id == 0,
        !o.contains_key("in_reply_to"@) && BodyView::from_json(o) is Some ==> BodyView::from_json(
            o,
        ).unwrap().in_reply_to == 0,
{
    lemma_wire_names_differ();
}

/// Writing a body whose payload keeps clear of the fixed fields' names and
/// reading the wire object back gives the same body.
pub proof fn lemma_body_round_trip(b: BodyView)
    requires
        b.valid(),
    ensures
        BodyView::from_json(b.to_json()) == Some(b),
{
    lemma_wire_names_differ();
    let o = b.to_json();
    assert(o.contains_key("type"@));
    assert(o["type"@] == Json::Str(b.ty));
    assert(BodyView::id_field(o, "msg_id"@) == Some(b.msg_id));
    assert(BodyView::id_field(o, "in_reply_to"@) == Some(b.in_reply_to));
    assert(o.remove("type"@).remove("msg_id"@).remove("in_reply_to"@) =~= b.extra);
}

/// Writing an envelope whose payload keeps clear of the fixed fields' names
/// and reading the wire value back gives the same envelope.
pub proof fn lemma_envelope_round_trip(m: MessageView)
    requires
        m.body.valid(),
    ensures
        MessageView::from_json(m.to_json()) == Some(m),
{
    lemma_wire_names_differ();
    lemma_body_round_trip(m.body);
}

/// Wherever the parser reads back the value that the serializer printed,
/// the line written for an envelope whose payload keeps clear of the fixed
/// fields' names denotes that envelope, once its line feed is taken off.
pub proof fn lemma_line_round_trip(m: MessageView)
    requires
        m.body.valid(),
    ensures
        m.to_line().drop_last() == json_text(m.to_json()),
        json_parse(json_text(m.to_json())) == Some(m.to_json()) ==> MessageView::parse(
            m.to_line().drop_last(),
        ) == Some(m),
{
    reveal_strlit("\n");
    assert("\n"@.len() == 1);
    assert(m.to_line().drop_last() =~= json_text(m.to_json()));
    lemma_envelope_round_trip(m);
}

/// What is read from a wire object is a body whose payload keeps clear of
/// the fixed fields' names.
pub proof fn lemma_decoded_body_valid(o: Map<Seq<char>, Json>)
    requires
        BodyView::from_json(o) is Some,
    ensures
        BodyView::from_json(o).unwrap().valid(),
{
}

/// What a handler may answer: one of a closed set of shapes, each of which
/// stands for a body to send back or for none.
pub enum IntoBody {
    /// The body itself.
    Body(MessageBody),
    /// Nothing is sent back.
    NoBody,
    /// Success with a further answer, or a failure that is sent back as an
    /// error body.
    Outcome(Result<Box<IntoBody>, Error>),
    /// A body of this type with an empty payload.
    Text(String),
    /// A body of this type whose payload holds the listed fields.
    Fields(String, Vec<(String, Value)>),
}

/// The payload that a list of fields makes: each field in turn, a later one
/// in place of an earlier one of the same name.
pub open spec fn fields_model(fields: Seq<(String, Value)>) -> Map<Seq<char>, Json>
    decreases fields.len(),
{
    if fields.len() == 0 {
        no_fields()
    } else {
        fields_model(fields.drop_last()).insert(fields.last().0@, json_model(fields.last().1))
    }
}

impl IntoBody {
    /// The body that an answer stands for, if it stands for one.
    pub open spec fn body(self) -> Option<BodyView>
        decreases self,
    {
        match self {
            IntoBody::Body(b) => Some(b@),
            IntoBody::NoBody => None,
            IntoBody::Outcome(Ok(inner)) => inner.body(),
            IntoBody::Outcome(Err(e)) => Some(e@.to_body()),
            IntoBody::Text(ty) => Some(BodyView::of_type(ty@)),
            IntoBody::Fields(ty, fields) => Some(
                BodyView { extra: fields_model(fields@), ..BodyView::of_type(ty@) },
            ),
        }
    }

    /// Turns an answer into the body to send back, or into nothing.
    pub fn into_body(self) -> (r: Option<MessageBody>)
        ensures
            (match self.body() {
                Some(b) => r is Some && r.unwrap()@ == b,
                None => r is None,
            }),
        decreases self,
    {
        match self {
            IntoBody::Body(b) => Some(b),
            IntoBody::NoBody => None,
            IntoBody::Outcome(Ok(inner)) => (*inner).into_body(),
            IntoBody::Outcome(Err(e)) => Some(e.into_body()),
            IntoBody::Text(ty) => Some(
                MessageBody { ty, msg_id: 0, in_reply_to: 0, extra: map_new() },
            ),
            IntoBody::Fields(ty, fields) => {
                let mut extra = map_new();
                let mut i: usize = 0;
                while i < fields.len()
                    invariant
                        i <= fields.len(),
                        map_model(extra) == fields_model(fields@.take(i as int)),
                    decreases fields.len() - i,
                {
                    let key = fields[i].0.clone();
                    let value = fields[i].1.clone();
                    map_insert(&mut extra, key, value);
                    proof {
                        assert(fields@.take(i + 1).drop_last() =~= fields@.take(i as int));
                    }
                    i += 1;
                }
                proof {
                    assert(fields@.take(fields.len() as int) =~= fields@);
                }
                Some(MessageBody { ty, msg_id: 0, in_reply_to: 0, extra })
            },
        }
    }
}

/// What an `init` message tells a node: its own identifier and those of
/// every node of the cluster, itself included.
#[derive(Debug, PartialEq, Eq)]
pub struct InitMessage {
    pub node_id: String,
    pub node_ids: Vec<String>,
}

/// The mathematical content of an [`InitMessage`].
pub struct InitView {
    pub node_id: Seq<char>,
    pub node_ids: Seq<Seq<char>>,
}

/// The characters of each string of a sequence.
pub open spec fn strings_view(s: Seq<String>) -> Seq<Seq<char>> {
    s.map_values(|t: String| t@)
}

/// The strings that a JSON array holds, where it holds nothing else.
pub open spec fn strings_of(a: Seq<Json>) -> Option<Seq<Seq<char>>> {
    if forall|i: int| 0 <= i < a.len() ==> (#[trigger] a[i]) is Str {
        Some(Seq::new(a.len(), |i: int| a[i]->Str_0))
    } else {
        None
    }
}

impl View for InitMessage {
    type V = InitView;

    open spec fn view(&self) -> InitView {
        InitView { node_id: self.node_id@, node_ids: strings_view(self.node_ids@) }
    }
}

impl InitView {
    /// What a payload tells as an `init` message: it must hold a string
    /// under `node_id` and an array of strings under `node_ids`.
    pub open spec fn from_payload(p: Map<Seq<char>, Json>) -> Option<InitView> {
        if p.contains_key("node_id"@) && p.contains_key("node_ids"@) {
            match (p["node_id"@], p["node_ids"@]) {
                (Json::Str(node_id), Json::Array(a)) => match strings_of(a) {
                    Some(node_ids) => Some(InitView { node_id, node_ids }),
                    None => None,
                },
                _ => None,
            }
        } else {
            None
        }
    }
}

impl InitMessage {
    /// Reads the payload of an `init` body; `None` where an identifier is
    /// missing or of another shape.
    pub fn from_body(body: &MessageBody) -> (r: Option<Self>)
        ensures
            (match InitView::from_payload(body@.extra) {
                Some(init) => r is Some && r.unwrap()@ == init,
                None => r is None,
            }),
    {
        let node_id = match read_string(&body.extra, "node_id") {
            Some(s) => s,
            None => {
                return None;
            },
        };
        let items = match map_get(&body.extra, "node_ids") {
            Some(v) => match value_as_array(v) {
                Some(a) => a,
                None => {
                    return None;
                },
            },
            None => {
                return None;
            },
        };
        let ghost a = values_model(items@);
        let mut node_ids: Vec<String> = Vec::new();
        let mut i: usize = 0;
        while i < items.len()
            invariant
                i <= items.len(),
                a == values_model(items@),
                InitView::from_payload(body@.extra) == (match strings_of(a) {
                    Some(ids) => Some(InitView { node_id: node_id@, node_ids: ids }),
                    None => None,
                }),
                node_ids.len() == i,
                forall|j: int| 0 <= j < i ==> a[j] == Json::Str(#[trigger] node_ids[j]@),
            decreases items.len() - i,
        {
            match value_as_str(&items[i]) {
                Some(s) => {
                    node_ids.push(String::from_str(s));
                },
                None => {
                    proof {
                        assert(a[i as int] == json_model(items@[i as int]));
                        assert(!(a[i as int] is Str));
                    }
                    return None;
                },
            }
            i += 1;
        }
        proof {
            assert(forall|j: int| 0 <= j < a.len() ==> (#[trigger] a[j]) is Str) by {
                assert forall|j: int| 0 <= j < a.len() implies (#[trigger] a[j]) is Str by {
                    assert(a[j] == Json::Str(node_ids[j]@));
                }
            }
            assert(strings_view(node_ids@) =~= strings_of(a).unwrap());
        }
        Some(InitMessage { node_id, node_ids })
    }
}

/// What the shapes of an answer stand for: no answer for no body; a bare
/// type for a body of that type with an empty payload; a failure for a body
/// of type `error` that carries the failure's code and text; a success for
/// what the answer within stands for.
pub proof fn lemma_answer_shapes(ty: String, e: Error, inner: IntoBody, b: MessageBody)
    ensures
        IntoBody::NoBody.body() is None,
        IntoBody::Body(b).body() == Some(b@),
        IntoBody::Text(ty).body() == Some(BodyView::of_type(ty@)),
        IntoBody::Outcome(Err(e)).body() == Some(e@.to_body()),
        e@.to_body().ty == "error"@,
        e@.to_body().extra == no_fields().insert(
            "code"@,
            Json::Int(e.kind.spec_code() as int),
        ).insert("text"@, Json::Str(e.text@)),
        IntoBody::Outcome(Ok(Box::new(inner))).body() == inner.body(),
{
}

} // verus!
