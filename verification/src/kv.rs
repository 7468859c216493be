//! The three key-value stores that the cluster offers as services: the
//! requests a node sends them, and what their replies mean.

use crate::error::{Error, ErrorKind, ErrorView};
use crate::json::{json_model, map_remove, no_fields, value_from_bool, value_from_string, Json};
use crate::proto::{BodyView, Message, MessageBody};
use serde_json::Value;
use vstd::prelude::*;
use vstd::string::*;

verus! {

/// A key-value store, by the name of the service that a request is sent to.
pub struct Kv {
    ty: &'static str,
}

/// The body of a request that reads a key.
pub open spec fn read_request(key: Seq<char>) -> BodyView {
    BodyView { extra: no_fields().insert("key"@, Json::Str(key)), ..BodyView::of_type("read"@) }
}

/// The body of a request that writes a value under a key.
pub open spec fn write_request(key: Seq<char>, value: Json) -> BodyView {
    BodyView {
        extra: no_fields().insert("key"@, Json::Str(key)).insert("value"@, value),
        ..BodyView::of_type("write"@)
    }
}

/// The body of a request that puts one value in place of another under a
/// key, and says whether a missing key is to be created.
pub open spec fn cas_request(key: Seq<char>, from: Json, to: Json, create: bool) -> BodyView {
    BodyView {
        extra: no_fields().insert("key"@, Json::Str(key)).insert("from"@, from).insert(
            "to"@,
            to,
        ).insert("create_if_not_exists"@, Json::Bool(create)),
        ..BodyView::of_type("compare_and_swap"@)
    }
}

/// What the outcome of a read means: the value of a reply that holds one;
/// no value where the store reports that the key does not exist; a
/// malformed request where a reply holds no value; any other failure as
/// it is.
pub open spec fn read_outcome_spec(outcome: Result<BodyView, ErrorView>) -> Result<
    Option<Json>,
    ErrorView,
> {
    match outcome {
        Ok(body) => if body.extra.contains_key("value"@) {
            Ok(Some(body.extra["value"@]))
        } else {
            Err(Error::of_kind(ErrorKind::MalformedRequest))
        },
        Err(e) => if e.kind == ErrorKind::KeyDoesNotExist {
            Ok(None)
        } else {
            Err(e)
        },
    }
}

/// The content of what a read gives.
pub open spec fn read_view(r: Result<Option<Value>, Error>) -> Result<Option<Json>, ErrorView> {
    match r {
        Ok(Some(v)) => Ok(Some(json_model(v))),
        Ok(None) => Ok(None),
        Err(e) => Err(e@),
    }
}

/// The body of the reply that an outcome holds, or its failure.
pub open spec fn outcome_body(outcome: Result<Message, Error>) -> Result<BodyView, ErrorView> {
    match outcome {
        Ok(m) => Ok(m@.body),
        Err(e) => Err(e@),
    }
}

impl Kv {
    /// The name of the service.
    pub closed spec fn service(&self) -> Seq<char> {
        self.ty@
    }

    /// The linearizable store.
    pub fn new_lin_kv() -> (r: Self)
        ensures
            r.service() == "lin-kv"@,
    {
        Kv { ty: "lin-kv" }
    }

    /// The sequentially consistent store.
    pub fn new_seq_kv() -> (r: Self)
        ensures
            r.service() == "seq-kv"@,
    {
        Kv { ty: "seq-kv" }
    }

    /// The last-writer-wins store.
    pub fn new_lww_kv() -> (r: Self)
        ensures
            r.service() == "lww-kv"@,
    {
        Kv { ty: "lww-kv" }
    }

    /// The node that requests are sent to: the service itself.
    pub fn destination(&self) -> (r: String)
        ensures
            r@ == self.service(),
    {
        String::from_str(self.ty)
    }

    /// The request that reads a key.
    pub fn read(&self, key: &str) -> (r: MessageBody)
        ensures
            r@ == read_request(key@),
    {
        MessageBody::new("read").with_field("key", value_from_string(String::from_str(key)))
    }

    /// The request that writes a value under a key.
    pub fn write(&self, key: &str, value: Value) -> (r: MessageBody)
        ensures
            r@ == write_request(key@, json_model(value)),
    {
        MessageBody::new("write").with_field(
            "key",
            value_from_string(String::from_str(key)),
        ).with_field("value", value)
    }

    /// The request that puts `to` in place of `from` under a key.
    pub fn compare_and_swap(
        &self,
        key: &str,
        from: &Value,
        to: &Value,
        create_if_not_exists: bool,
    ) -> (r: MessageBody)
        ensures
            r@ == cas_request(key@, json_model(*from), json_model(*to), create_if_not_exists),
    {
        MessageBody::new("compare_and_swap").with_field(
            "key",
            value_from_string(String::from_str(key)),
        ).with_field("from", from.clone()).with_field("to", to.clone()).with_field(
            "create_if_not_exists",
            value_from_bool(create_if_not_exists),
        )
    }

    /// What the outcome of a read request gives: the value, or none for a
    /// key that does not exist.
    pub fn read_outcome(outcome: Result<Message, Error>) -> (r: Result<Option<Value>, Error>)
        ensures
            read_view(r) == read_outcome_spec(outcome_body(outcome)),
    {
        match outcome {
            Ok(message) => {
                let mut extra = message.body.extra;
                match map_remove(&mut extra, "value") {
                    Some(value) => Ok(Some(value)),
                    None => Err(Error::malformed_request()),
                }
            },
            Err(e) => if e.is_key_does_not_exist() {
                Ok(None)
            } else {
                Err(e)
            },
        }
    }

    /// What the outcome of a write or of a compare-and-swap gives: nothing
    /// on a reply, the failure else.
    pub fn write_outcome(outcome: Result<Message, Error>) -> (r: Result<(), Error>)
        ensures
            (match outcome {
                Ok(_) => r is Ok,
                Err(e) => r is Err && r.unwrap_err()@ == e@,
            }),
    {
        match outcome {
            Ok(_) => Ok(()),
            Err(e) => Err(e),
        }
    }
}

} // verus!
