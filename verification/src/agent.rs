//! What a node makes of a read from one of its connections.
//!
//! A connection carries one JSON value per message. The program around this
//! crate reads the values off the socket; here a value becomes a message, and
//! a failed read is told apart: a value of the wrong shape is the sender's
//! mistake and the connection goes on, a stream that ended or broke does not.

use crate::json::{category, json_members, Category, Content};
use crate::messages::{
    decode_request, decode_update, request_in, update_in, PeerUpdate, Request, RequestModel,
    UpdateModel,
};
use vstd::prelude::*;

verus! {

/// Why no message was read.
#[derive(Clone, Copy, Debug, PartialEq, Eq, Structural)]
pub enum ReadError {
    /// What arrived is not a message. The connection still stands.
    Malformed,
    /// The stream ended or could not be read.
    Disconnected,
}

/// The failure that a category of error stands for.
pub open spec fn failure_of(category: Category) -> ReadError {
    match category {
        Category::Io | Category::Eof => ReadError::Disconnected,
        Category::Syntax | Category::Data => ReadError::Malformed,
    }
}

/// What a read of a request comes to, as mathematical values.
pub open spec fn request_read(outcome: Result<Request, ReadError>) -> Result<
    RequestModel,
    ReadError,
> {
    match outcome {
        Ok(request) => Ok(request@),
        Err(error) => Err(error),
    }
}

/// What a read of a peer update comes to, as mathematical values.
pub open spec fn update_read(outcome: Result<PeerUpdate, ReadError>) -> Result<
    UpdateModel,
    ReadError,
> {
    match outcome {
        Ok(update) => Ok(update@),
        Err(error) => Err(error),
    }
}

/// The request that an object with these members carries, or the complaint
/// that it is none.
pub open spec fn request_among(members: Map<Seq<char>, Content>) -> Result<
    RequestModel,
    ReadError,
> {
    match request_in(members) {
        Some(request) => Ok(request),
        None => Err(ReadError::Malformed),
    }
}

/// The update that an object with these members carries, or the complaint
/// that it is none.
pub open spec fn update_among(members: Map<Seq<char>, Content>) -> Result<
    UpdateModel,
    ReadError,
> {
    match update_in(members) {
        Some(update) => Ok(update),
        None => Err(ReadError::Malformed),
    }
}

/// What reading a request from a JSON value comes to.
pub open spec fn request_from(value: serde_json::Value) -> Result<RequestModel, ReadError> {
    request_among(json_members(value))
}

/// What reading an update from a JSON value comes to.
pub open spec fn update_from(value: serde_json::Value) -> Result<UpdateModel, ReadError> {
    update_among(json_members(value))
}

/// Tells a lost connection from a bad message.
pub fn read_failure(category: Category) -> (error: ReadError)
    ensures
        error == failure_of(category),
{
    match category {
        Category::Io => ReadError::Disconnected,
        Category::Eof => ReadError::Disconnected,
        Category::Syntax => ReadError::Malformed,
        Category::Data => ReadError::Malformed,
    }
}

/// Makes a request of what was read from a client: the next JSON value on
/// the stream, or the error that reading it gave.
pub fn try_read_request(received: Result<serde_json::Value, serde_json::Error>) -> (outcome:
    Result<Request, ReadError>)
    ensures
        match received {
            Ok(value) => request_read(outcome) == request_from(value),
            Err(_) => outcome is Err,
        },
{
    match received {
        Ok(value) => match decode_request(&value) {
            Some(request) => Ok(request),
            None => Err(ReadError::Malformed),
        },
        Err(error) => Err(read_failure(category(&error))),
    }
}

/// Makes an update of what was read from a peer: the next JSON value on the
/// stream, or the error that reading it gave.
pub fn try_read_update(received: Result<serde_json::Value, serde_json::Error>) -> (outcome:
    Result<PeerUpdate, ReadError>)
    ensures
        match received {
            Ok(value) => update_read(outcome) == update_from(value),
            Err(_) => outcome is Err,
        },
{
    match received {
        Ok(value) => match decode_update(&value) {
            Some(update) => Ok(update),
            None => Err(ReadError::Malformed),
        },
        Err(error) => Err(read_failure(category(&error))),
    }
}

} // verus!
