//! A server that stands alone: one table of hashes, no peers, no timestamps.

use crate::agent::{request_from, request_read, try_read_request, ReadError};
use crate::messages::{Greeting, Request, RequestModel, Response, ResponseModel};
use crate::storage::Key;
use vstd::hash_map::StringHashMap;
use vstd::prelude::*;

verus! {

/// The name in which the server greets its clients.
pub const STUDENT_NAME: &'static str = "Elina Safarova";

/// Clients that the server handles at once.
pub const MAX_CLIENTS: usize = 100;

/// The hashes that the server holds, by key.
pub struct Table {
    hash_map: StringHashMap<crate::storage::Hash>,
}

impl View for Table {
    type V = Map<Seq<char>, Seq<char>>;

    closed spec fn view(&self) -> Map<Seq<char>, Seq<char>> {
        self.hash_map@.map_values(|hash: String| hash@)
    }
}

/// What the handler of a connection does next.
#[derive(Debug, PartialEq, Eq)]
pub enum ConnectionStep {
    /// Send the response and read the next request.
    Reply { response: Response },
    /// The connection is lost: stop.
    Abort,
}

/// The next step of a handler as mathematical values.
pub enum ConnectionStepModel {
    Reply { response: ResponseModel },
    Abort,
}

impl View for ConnectionStep {
    type V = ConnectionStepModel;

    open spec fn view(&self) -> ConnectionStepModel {
        match *self {
            ConnectionStep::Reply { response } => ConnectionStepModel::Reply {
                response: response@,
            },
            ConnectionStep::Abort => ConnectionStepModel::Abort,
        }
    }
}

/// The table after `request`, and the response to it.
pub open spec fn formed(table: Map<Seq<char>, Seq<char>>, request: RequestModel) -> (
    Map<Seq<char>, Seq<char>>,
    ResponseModel,
) {
    match request {
        RequestModel::Store { key, hash } => (table.insert(key, hash), ResponseModel::Success),
        RequestModel::Load { key } => (
            table,
            if table.contains_key(key) {
                ResponseModel::Data { requested_key: key, requested_hash: table[key] }
            } else {
                ResponseModel::KeyNotFound
            },
        ),
    }
}

/// The table after a read from a client, and what the handler does next.
pub open spec fn handled(
    table: Map<Seq<char>, Seq<char>>,
    incoming: Result<RequestModel, ReadError>,
) -> (Map<Seq<char>, Seq<char>>, ConnectionStepModel) {
    match incoming {
        Ok(request) => (
            formed(table, request).0,
            ConnectionStepModel::Reply { response: formed(table, request).1 },
        ),
        Err(ReadError::Malformed) => (
            table,
            ConnectionStepModel::Reply { response: ResponseModel::InvalidRequest },
        ),
        Err(ReadError::Disconnected) => (table, ConnectionStepModel::Abort),
    }
}

/// An empty table.
pub fn create_storage() -> (storage: Table)
    ensures
        storage@ == Map::<Seq<char>, Seq<char>>::empty(),
{
    let storage = Table { hash_map: StringHashMap::new() };
    assert(storage@ =~= Map::<Seq<char>, Seq<char>>::empty());
    storage
}

/// The greeting that every client gets first.
pub fn greeting() -> (greeting: Greeting<'static>)
    ensures
        greeting.student_name@ == STUDENT_NAME@,
{
    Greeting { student_name: STUDENT_NAME }
}

/// Carries out `request` on the table and forms the response.
pub fn form_response(request: Request, storage: &mut Table) -> (response: Response)
    ensures
        (final(storage)@, response@) == formed(old(storage)@, request@),
{
    match request {
        Request::Store(store) => {
            let ghost key = store.key@;
            let ghost hash = store.hash@;
            storage.hash_map.insert(store.key, store.hash);
            assert(storage@ =~= old(storage)@.insert(key, hash));
            Response::Success
        },
        Request::Load(load) => {
            let key: Key = load.key;
            match storage.hash_map.get(key.as_str()) {
                Some(hash) => {
                    let requested_hash = hash.clone();
                    Response::Data { requested_key: key, requested_hash }
                },
                None => Response::KeyNotFound,
            }
        },
    }
}

/// One turn of a connection's handler: takes what was read from the client,
/// the next JSON value or the error that reading it gave, and says what to
/// do.
pub fn handle_connection(
    received: Result<serde_json::Value, serde_json::Error>,
    storage: &mut Table,
) -> (step: ConnectionStep)
    ensures
        match received {
            Ok(value) => (final(storage)@, step@) == handled(old(storage)@, request_from(value)),
            Err(_) => exists|error: ReadError|
                (final(storage)@, step@) == handled(old(storage)@, Err(error)),
        },
{
    let ghost given = received;
    let incoming = try_read_request(received);
    let ghost read = incoming;
    let step = turn(incoming, storage);
    assert(given is Err ==> (storage@, step@) == handled(old(storage)@, Err(read->Err_0)));
    step
}

/// One turn of a connection's handler, on what the read came to.
pub fn turn(incoming: Result<Request, ReadError>, storage: &mut Table) -> (step: ConnectionStep)
    ensures
        (final(storage)@, step@) == handled(old(storage)@, request_read(incoming)),
{
    match incoming {
        Ok(request) => ConnectionStep::Reply { response: form_response(request, storage) },
        Err(ReadError::Malformed) => ConnectionStep::Reply { response: Response::InvalidRequest },
        Err(ReadError::Disconnected) => ConnectionStep::Abort,
    }
}

} // verus!
