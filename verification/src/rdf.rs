//! Canonical Turtle: the prettifier that normalizes a payload, and the rules
//! by which a request to it is retried.

use oxigraph::io::RdfFormat;
use oxigraph::model::GraphNameRef;
use oxigraph::store::{LoaderError, SerializerError, StorageError, Store};
use vstd::prelude::*;

use crate::error::Error;

verus! {

/// The media type of Turtle, the one format of graphs.
pub const TURTLE: &'static str = "text/turtle";

/// The header that carries the key of a prettifier request.
pub const API_KEY_HEADER: &'static str = "X-API-KEY";

/// How often a request to the prettifier is sent before the call fails.
pub const RETRY_ATTEMPTS: u8 = 5;

/// Something that brings a Turtle payload into canonical form.
pub trait RdfPrettifier: Sized {
    /// A prettifier that is ready for use.
    fn new() -> Self;

    /// The canonical form of the Turtle payload `graph`, or the reason why
    /// there is none.
    fn prettify(&self, graph: &str) -> Result<String, Error>;
}

/// The prettifier that leaves every payload as it is.
#[derive(Clone, Copy, Debug)]
pub struct NoOpPrettifier {}

impl RdfPrettifier for NoOpPrettifier {
    fn new() -> NoOpPrettifier {
        NoOpPrettifier {  }
    }

    fn prettify(&self, graph: &str) -> (pretty: Result<String, Error>)
        ensures
            pretty matches Ok(text) && text@ == graph@,
    {
        Ok(String::from_str(graph))
    }
}

/// The body of a request to the prettifier service.
#[derive(Clone, Debug)]
pub struct PrettifyRequest {
    pub format: String,
    pub output_format: String,
    pub graph: String,
}

/// The request that asks for `graph` in canonical Turtle: Turtle in, Turtle
/// out.
pub fn prettify_request(graph: &str) -> (request: PrettifyRequest)
    ensures
        request.format@ == TURTLE@,
        request.output_format@ == TURTLE@,
        request.graph@ == graph@,
{
    PrettifyRequest {
        format: String::from_str(TURTLE),
        output_format: String::from_str(TURTLE),
        graph: String::from_str(graph),
    }
}

/// How one attempt to reach the prettifier service ended.
#[derive(Debug)]
pub enum Attempt {
    /// The service answered with this status code, status line and body.
    Response { code: u16, status: String, body: String },
    /// The request failed before an answer came.
    Failed { cause: String },
}

/// What follows an attempt.
#[derive(Debug)]
pub enum Step {
    /// Send the request once more, at once.
    Retry,
    /// The canonical text.
    Done(String),
    /// The call fails.
    GiveUp(Error),
}

/// Whether a status code says that the request succeeded.
pub open spec fn is_success(code: u16) -> bool {
    200 <= code < 300
}

/// The text of the error for an answer that is not `200 OK`.
pub open spec fn invalid_response_text(status: Seq<char>, body: Seq<char>) -> Seq<char> {
    "invalid response from pretty print api: "@ + status + " - "@ + body
}

/// Decides what follows the attempt number `attempts` (counted from 1) to
/// have a payload prettified.
///
/// `200 OK` ends the call with the body as the canonical text. A failure,
/// which is no answer or a status outside of 200 to 299, is retried at once
/// while fewer than [`RETRY_ATTEMPTS`] attempts were made. Everything else
/// ends the call with an error: a failure at the last attempt, and an answer
/// that is a success but not `200 OK`.
pub fn prettify_step(attempts: u8, attempt: Attempt) -> (step: Step)
    ensures
        match attempt {
            Attempt::Response { code, status, body } => if code == 200 {
                step matches Step::Done(text) && text@ == body@
            } else if !is_success(code) && attempts < RETRY_ATTEMPTS {
                step is Retry
            } else {
                step matches Step::GiveUp(Error::String(text)) && text@ == invalid_response_text(
                    status@,
                    body@,
                )
            },
            Attempt::Failed { cause } => if attempts < RETRY_ATTEMPTS {
                step is Retry
            } else {
                step matches Step::GiveUp(Error::String(text)) && text@ == cause@
            },
        },
{
    match attempt {
        Attempt::Response { code, status, body } => {
            if code == 200 {
                Step::Done(body)
            } else if (code < 200 || code >= 300) && attempts < RETRY_ATTEMPTS {
                Step::Retry
            } else {
                let mut text = String::from_str("invalid response from pretty print api: ");
                text.append(status.as_str());
                text.append(" - ");
                text.append(body.as_str());
                Step::GiveUp(Error::String(text))
            }
        },
        Attempt::Failed { cause } => {
            if attempts < RETRY_ATTEMPTS {
                Step::Retry
            } else {
                Step::GiveUp(Error::String(cause))
            }
        },
    }
}

/// The triple store of oxigraph, carried through as it is.
#[verifier::external_type_specification]
#[verifier::external_body]
pub struct ExStore(Store);

/// `Store::new` of oxigraph: an empty triple store in memory. It cannot
/// fail: its result is `Ok` of a store in memory on every path.
#[verifier::external_body]
fn store_new() -> (store: Result<Store, StorageError>)
    ensures
        store is Ok,
{
    Store::new()
}

/// Whether oxigraph's Turtle parser reads `text` to its end without an
/// error.
pub uninterp spec fn turtle_parses(text: Seq<char>) -> bool;

/// `Store::bulk_loader` of oxigraph with `BulkLoader::load_from_slice`, for
/// Turtle, and `BulkLoader::commit`: parses `text` and adds its triples to
/// the default graph of `store`. On a store in memory neither the load nor
/// the commit can fail, so the call fails exactly where the parser stops at
/// an error in `text`. Blank nodes get fresh names at each load, which is
/// why nothing is said of the triples.
#[verifier::external_body]
fn bulk_load_turtle(store: &Store, text: &str) -> (loaded: Result<(), LoaderError>)
    ensures
        loaded is Ok == turtle_parses(text@),
{
    let mut loader = store.bulk_loader();
    loader.load_from_slice(RdfFormat::Turtle, text)?;
    Ok(loader.commit()?)
}

/// `Store::dump_graph_to_writer` of oxigraph: the default graph of `store`
/// written as Turtle. The order of the triples is the store's own.
#[verifier::external_body]
fn dump_default_graph(store: &Store) -> (turtle: Result<Vec<u8>, SerializerError>) {
    store.dump_graph_to_writer(GraphNameRef::DefaultGraph, RdfFormat::Turtle, Vec::new())
}

/// A new triple store in memory, without triples.
pub fn empty_store() -> (store: Result<Store, Error>)
    ensures
        store is Ok,
{
    match store_new() {
        Ok(store) => Ok(store),
        Err(e) => Err(Error::StorageError(e)),
    }
}

/// Parses a Turtle document into a new triple store in memory, with the
/// bulk loader. Succeeds exactly where the document parses; a document that
/// does not is a `LoaderError`.
pub fn parse_turtle_bulk(text: &str) -> (store: Result<Store, Error>)
    ensures
        store is Ok == turtle_parses(text@),
        store matches Err(e) ==> e is LoaderError,
{
    let store = match store_new() {
        Ok(store) => store,
        Err(e) => {
            return Err(Error::StorageError(e));
        },
    };
    match bulk_load_turtle(&store, text) {
        Ok(_) => Ok(store),
        Err(e) => Err(Error::LoaderError(e)),
    }
}

/// Whether a dump gives a text: it did not fail, and its bytes are UTF-8.
pub open spec fn dump_is_text(dumped: Result<Vec<u8>, SerializerError>) -> bool {
    dumped matches Ok(bytes) && vstd::utf8::valid_utf8(bytes@)
}

/// The text of a dump: the characters that its bytes encode. A dump that
/// failed is a `SerializerError` with the dump's own error, and bytes that
/// are not UTF-8 are a `FromUtf8Error`.
pub fn turtle_text(dumped: Result<Vec<u8>, SerializerError>) -> (turtle: Result<String, Error>)
    ensures
        turtle is Ok == dump_is_text(dumped),
        turtle matches Ok(text) ==> (dumped matches Ok(bytes) && text@ == vstd::utf8::decode_utf8(
            bytes@,
        )),
        turtle matches Err(e) ==> match dumped {
            Ok(_) => e is FromUtf8Error,
            Err(cause) => e == Error::SerializerError(cause),
        },
{
    match dumped {
        Err(e) => Err(Error::SerializerError(e)),
        Ok(bytes) => match String::from_utf8(bytes) {
            Ok(text) => Ok(text),
            Err(e) => Err(Error::FromUtf8Error(e)),
        },
    }
}

/// The default graph of `store` as Turtle: the dump of the store, as
/// [`turtle_text`] reads it.
pub fn to_turtle(store: &Store) -> (turtle: Result<String, Error>)
    ensures
        turtle matches Err(e) ==> e is SerializerError || e is FromUtf8Error,
{
    turtle_text(dump_default_graph(store))
}

} // verus!
