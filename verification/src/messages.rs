//! The messages of the client and peer protocols, and their JSON form.
//!
//! A request is a JSON object told apart by its member `request_type`, a
//! response one told apart by `response_status`. Members that a message does
//! not name are ignored when it is read.

use crate::json::{
    append_integer, integer_member, integer_of, integer_text, json_members, json_quoted, quote,
    text_member, text_of, Content,
};
use crate::storage::{Key, Time};
use vstd::prelude::*;
use vstd::string::*;

verus! {

/// What a client asks for.
#[derive(Debug, PartialEq, Eq)]
pub enum Request {
    Load(Load),
    Store(Store),
}

/// A request for the hash held under `key`.
#[derive(Debug, PartialEq, Eq)]
pub struct Load {
    pub key: Key,
}

/// A request to hold `hash` under `key`.
#[derive(Debug, PartialEq, Eq)]
pub struct Store {
    pub key: Key,
    pub hash: crate::storage::Hash,
}

/// What a client is told.
#[derive(Debug, PartialEq, Eq)]
pub enum Response {
    /// A load that hit.
    Data { requested_key: Key, requested_hash: crate::storage::Hash },
    /// A store that was carried out.
    Success,
    /// A load that missed.
    KeyNotFound,
    /// What the client sent is no request.
    InvalidRequest,
}

/// What a client is sent when it connects.
#[derive(Debug, PartialEq, Eq)]
pub struct Greeting<'a> {
    pub student_name: &'a str,
}

/// What a node tells its peers of a write: the key, the hash, and the time
/// at which the node stored it, in milliseconds since the Unix epoch.
#[derive(Debug, PartialEq, Eq)]
pub struct PeerUpdate {
    pub key: Key,
    pub hash: crate::storage::Hash,
    pub time: Time,
}

/// A request as mathematical values.
pub enum RequestModel {
    Load { key: Seq<char> },
    Store { key: Seq<char>, hash: Seq<char> },
}

/// A response as mathematical values.
pub enum ResponseModel {
    Data { requested_key: Seq<char>, requested_hash: Seq<char> },
    Success,
    KeyNotFound,
    InvalidRequest,
}

/// A peer update as mathematical values.
pub struct UpdateModel {
    pub key: Seq<char>,
    pub hash: Seq<char>,
    pub time: int,
}

impl View for Request {
    type V = RequestModel;

    open spec fn view(&self) -> RequestModel {
        match *self {
            Request::Load(load) => RequestModel::Load { key: load.key@ },
            Request::Store(store) => RequestModel::Store { key: store.key@, hash: store.hash@ },
        }
    }
}

impl View for Response {
    type V = ResponseModel;

    open spec fn view(&self) -> ResponseModel {
        match *self {
            Response::Data { requested_key, requested_hash } => ResponseModel::Data {
                requested_key: requested_key@,
                requested_hash: requested_hash@,
            },
            Response::Success => ResponseModel::Success,
            Response::KeyNotFound => ResponseModel::KeyNotFound,
            Response::InvalidRequest => ResponseModel::InvalidRequest,
        }
    }
}

impl View for PeerUpdate {
    type V = UpdateModel;

    open spec fn view(&self) -> UpdateModel {
        UpdateModel { key: self.key@, hash: self.hash@, time: self.time as int }
    }
}

/// The text that a string holds, where there is one.
pub open spec fn text_in(text: Option<String>) -> Option<Seq<char>> {
    match text {
        Some(text) => Some(text@),
        None => None,
    }
}

/// A message that was read, as mathematical values.
pub open spec fn request_model(request: Option<Request>) -> Option<RequestModel> {
    match request {
        Some(request) => Some(request@),
        None => None,
    }
}

/// An update that was read, as mathematical values.
pub open spec fn update_model(update: Option<PeerUpdate>) -> Option<UpdateModel> {
    match update {
        Some(update) => Some(update@),
        None => None,
    }
}

/// The request that three members of an object spell, if they spell one:
/// `kind` is `"load"` and there is a key, or `kind` is `"store"` and there
/// are a key and a hash.
pub open spec fn request_of(
    kind: Option<Seq<char>>,
    key: Option<Seq<char>>,
    hash: Option<Seq<char>>,
) -> Option<RequestModel> {
    if kind == Some("load"@) && key is Some {
        Some(RequestModel::Load { key: key->Some_0 })
    } else if kind == Some("store"@) && key is Some && hash is Some {
        Some(RequestModel::Store { key: key->Some_0, hash: hash->Some_0 })
    } else {
        None
    }
}

/// The update that three members of an object spell, if all are there.
pub open spec fn update_of(
    key: Option<Seq<char>>,
    hash: Option<Seq<char>>,
    time: Option<i64>,
) -> Option<UpdateModel> {
    if key is Some && hash is Some && time is Some {
        Some(UpdateModel { key: key->Some_0, hash: hash->Some_0, time: time->Some_0 as int })
    } else {
        None
    }
}

/// The request that an object with these members stands for, if it is one:
/// its kind is the string `request_type`, its key the string `key`, its hash
/// the string `hash`.
pub open spec fn request_in(members: Map<Seq<char>, Content>) -> Option<RequestModel> {
    request_of(
        text_of(members, "request_type"@),
        text_of(members, "key"@),
        text_of(members, "hash"@),
    )
}

/// The update that an object with these members stands for, if it is one:
/// its key is the string `key`, its hash the string `hash`, its time the
/// integer `time`.
pub open spec fn update_in(members: Map<Seq<char>, Content>) -> Option<UpdateModel> {
    update_of(text_of(members, "key"@), text_of(members, "hash"@), integer_of(members, "time"@))
}

/// The frame of a load that hit, around the key and the hash as JSON string
/// literals.
pub open spec fn data_text(quoted_key: Seq<char>, quoted_hash: Seq<char>) -> Seq<char> {
    "{\"response_status\":\"success\",\"requested_key\":"@ + quoted_key
        + ",\"requested_hash\":"@ + quoted_hash + "}"@
}

/// The frame that carries `response`.
pub open spec fn response_text(response: ResponseModel) -> Seq<char> {
    match response {
        ResponseModel::Data { requested_key, requested_hash } => data_text(
            json_quoted(requested_key),
            json_quoted(requested_hash),
        ),
        ResponseModel::Success => "{\"response_status\":\"success\"}"@,
        ResponseModel::KeyNotFound => "{\"response_status\":\"key not found\"}"@,
        ResponseModel::InvalidRequest => "{\"response_status\":\"invalid request\"}"@,
    }
}

/// The frame of a greeting, around the name as a JSON string literal.
pub open spec fn named_text(quoted_name: Seq<char>) -> Seq<char> {
    "{\"student_name\":"@ + quoted_name + "}"@
}

/// The frame that greets a client in the name of `student_name`.
pub open spec fn greeting_text(student_name: Seq<char>) -> Seq<char> {
    named_text(json_quoted(student_name))
}

/// The frame of an update, around the key and the hash as JSON string
/// literals.
pub open spec fn stamped_text(quoted_key: Seq<char>, quoted_hash: Seq<char>, time: int) -> Seq<
    char,
> {
    "{\"key\":"@ + quoted_key + ",\"hash\":"@ + quoted_hash + ",\"time\":"@ + integer_text(time)
        + "}"@
}

/// The frame that carries `update`.
pub open spec fn update_text(update: UpdateModel) -> Seq<char> {
    stamped_text(json_quoted(update.key), json_quoted(update.hash), update.time)
}

fn is_literal(text: &String, literal: &str) -> (same: bool)
    ensures
        same == (text@ == literal@),
{
    let other = literal.to_owned();
    *text == other
}

impl Request {
    /// Makes a request of the strings `request_type`, `key` and `hash` of an
    /// object, as far as it has them.
    pub fn from_members(
        kind: Option<String>,
        key: Option<String>,
        hash: Option<String>,
    ) -> (request: Option<Request>)
        ensures
            request_model(request) == request_of(text_in(kind), text_in(key), text_in(hash)),
    {
        match (kind, key) {
            (Some(kind), Some(key)) => {
                if is_literal(&kind, "load") {
                    Some(Request::Load(Load { key }))
                } else if is_literal(&kind, "store") {
                    match hash {
                        Some(hash) => Some(Request::Store(Store { key, hash })),
                        None => None,
                    }
                } else {
                    None
                }
            },
            _ => None,
        }
    }
}

impl PeerUpdate {
    /// Makes an update of the strings `key` and `hash` and the integer `time`
    /// of an object, as far as it has them.
    pub fn from_members(
        key: Option<String>,
        hash: Option<String>,
        time: Option<Time>,
    ) -> (update: Option<PeerUpdate>)
        ensures
            update_model(update) == update_of(text_in(key), text_in(hash), time),
    {
        match (key, hash, time) {
            (Some(key), Some(hash), Some(time)) => Some(PeerUpdate { key, hash, time }),
            _ => None,
        }
    }
}

/// Reads a request out of one JSON value.
pub fn decode_request(value: &serde_json::Value) -> (request: Option<Request>)
    ensures
        request_model(request) == request_in(json_members(*value)),
{
    let kind = text_member(value, "request_type");
    let key = text_member(value, "key");
    let hash = text_member(value, "hash");
    Request::from_members(kind, key, hash)
}

/// Reads a peer update out of one JSON value.
pub fn decode_update(value: &serde_json::Value) -> (update: Option<PeerUpdate>)
    ensures
        update_model(update) == update_in(json_members(*value)),
{
    let key = text_member(value, "key");
    let hash = text_member(value, "hash");
    let time = integer_member(value, "time");
    PeerUpdate::from_members(key, hash, time)
}

/// The frame of a load that hit: takes the key and the hash as JSON string
/// literals.
pub fn data_frame(quoted_key: &str, quoted_hash: &str) -> (text: String)
    ensures
        text@ == data_text(quoted_key@, quoted_hash@),
{
    let mut text = "{\"response_status\":\"success\",\"requested_key\":".to_owned();
    text.append(quoted_key);
    text.append(",\"requested_hash\":");
    text.append(quoted_hash);
    text.append("}");
    text
}

/// The frame of a greeting: takes the name as a JSON string literal.
pub fn greeting_frame(quoted_name: &str) -> (text: String)
    ensures
        text@ == named_text(quoted_name@),
{
    let mut text = "{\"student_name\":".to_owned();
    text.append(quoted_name);
    text.append("}");
    text
}

/// The frame of an update: takes the key and the hash as JSON string
/// literals.
pub fn update_frame(quoted_key: &str, quoted_hash: &str, time: Time) -> (text: String)
    ensures
        text@ == stamped_text(quoted_key@, quoted_hash@, time as int),
{
    let mut text = "{\"key\":".to_owned();
    text.append(quoted_key);
    text.append(",\"hash\":");
    text.append(quoted_hash);
    text.append(",\"time\":");
    append_integer(&mut text, time);
    text.append("}");
    text
}

/// Writes `response` as one frame.
pub fn encode_response(response: &Response) -> (text: String)
    ensures
        text@ == response_text(response@),
{
    match response {
        Response::Data { requested_key, requested_hash } => {
            let quoted_key = quote(requested_key.as_str());
            let quoted_hash = quote(requested_hash.as_str());
            data_frame(quoted_key.as_str(), quoted_hash.as_str())
        },
        Response::Success => "{\"response_status\":\"success\"}".to_owned(),
        Response::KeyNotFound => "{\"response_status\":\"key not found\"}".to_owned(),
        Response::InvalidRequest => "{\"response_status\":\"invalid request\"}".to_owned(),
    }
}

/// Writes `greeting` as one frame.
pub fn encode_greeting(greeting: &Greeting) -> (text: String)
    ensures
        text@ == greeting_text(greeting.student_name@),
{
    let quoted_name = quote(greeting.student_name);
    greeting_frame(quoted_name.as_str())
}

/// Writes `update` as one frame.
pub fn encode_update(update: &PeerUpdate) -> (text: String)
    ensures
        text@ == update_text(update@),
{
    let quoted_key = quote(update.key.as_str());
    let quoted_hash = quote(update.hash.as_str());
    update_frame(quoted_key.as_str(), quoted_hash.as_str(), update.time)
}

/// No object is a request whose `request_type` is neither `"load"` nor
/// `"store"`, that has no string `key`, or that is to store and has no
/// string `hash`.
pub proof fn lemma_not_a_request(members: Map<Seq<char>, Content>)
    requires
        ({
            let kind = text_of(members, "request_type"@);
            ||| kind != Some("load"@) && kind != Some("store"@)
            ||| text_of(members, "key"@) is None
            ||| kind == Some("store"@) && text_of(members, "hash"@) is None
        }),
    ensures
        request_in(members) is None,
{
    reveal_strlit("load");
    reveal_strlit("store");
    assert("load"@.len() != "store"@.len());
}

} // verus!
