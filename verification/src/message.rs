//! Requests and responses as plain values.
//!
//! A body is a list of chunks, in the order in which they arrive or leave. Its
//! content is the chunks joined; how it is cut matters only to a transport that
//! streams.

use vstd::prelude::*;
use crate::bytes::{chunk_views, concat, concat_chunks};

verus! {

/// The status of a response that carries what was asked for.
pub const STATUS_OK: u16 = 200;

/// The status of a response to a body that could not be read.
pub const STATUS_BAD_REQUEST: u16 = 400;

/// The status of a response to a request that no endpoint serves.
pub const STATUS_NOT_FOUND: u16 = 404;

/// The method of a request. The endpoints tell `GET` and `POST` from each
/// other and from all the rest.
#[derive(Clone, Copy, Debug, PartialEq, Eq, Structural)]
pub enum Method {
    Get,
    Post,
    Other,
}

/// The chunks that hold `bytes` as sent in one piece: a single chunk, and none
/// at all where there is nothing to send.
pub open spec fn once(bytes: Seq<u8>) -> Seq<Seq<u8>> {
    if bytes.len() == 0 {
        Seq::empty()
    } else {
        seq![bytes]
    }
}

/// The body of a request or a response.
#[derive(Clone, Debug, PartialEq, Eq)]
pub struct Body {
    pub chunks: Vec<Vec<u8>>,
}

impl View for Body {
    type V = Seq<Seq<u8>>;

    open spec fn view(&self) -> Seq<Seq<u8>> {
        chunk_views(self.chunks@)
    }
}

impl Body {
    /// A body without content.
    pub fn empty() -> (body: Body)
        ensures
            body@ == Seq::<Seq<u8>>::empty(),
    {
        let body = Body { chunks: Vec::new() };
        assert(body@ =~= Seq::<Seq<u8>>::empty());
        body
    }

    /// A body that holds `bytes` and is sent in one piece.
    pub fn from_bytes(bytes: Vec<u8>) -> (body: Body)
        ensures
            body@ == once(bytes@),
    {
        if bytes.len() == 0 {
            Body::empty()
        } else {
            let ghost content = bytes@;
            let mut chunks: Vec<Vec<u8>> = Vec::with_capacity(1);
            chunks.push(bytes);
            let body = Body { chunks };
            assert(body@ =~= seq![content]);
            body
        }
    }

    /// The content of the body: its chunks, joined.
    pub fn bytes(&self) -> (bytes: Vec<u8>)
        ensures
            bytes@ == concat(self@),
    {
        concat_chunks(&self.chunks)
    }
}

/// A request, as far as the endpoints look at one.
#[derive(Clone, Debug, PartialEq, Eq)]
pub struct Request {
    pub method: Method,
    pub path: String,
    pub body: Body,
}

/// What a request is to the contracts.
pub struct RequestView {
    pub method: Method,
    pub path: Seq<char>,
    pub body: Seq<Seq<u8>>,
}

impl View for Request {
    type V = RequestView;

    open spec fn view(&self) -> RequestView {
        RequestView { method: self.method, path: self.path@, body: self.body@ }
    }
}

/// A response: a status code and a body.
#[derive(Clone, Debug, PartialEq, Eq)]
pub struct Response {
    pub status: u16,
    pub body: Body,
}

/// What a response is to the contracts.
pub struct ResponseView {
    pub status: u16,
    pub body: Seq<Seq<u8>>,
}

impl View for Response {
    type V = ResponseView;

    open spec fn view(&self) -> ResponseView {
        ResponseView { status: self.status, body: self.body@ }
    }
}

impl Response {
    /// A response with `body` and the status that a response has unless told
    /// otherwise, 200.
    pub fn new(body: Body) -> (resp: Response)
        ensures
            resp@ == (ResponseView { status: STATUS_OK, body: body@ }),
    {
        Response { status: STATUS_OK, body }
    }

    /// A response with `body` and the status `status`.
    pub fn with_status(status: u16, body: Body) -> (resp: Response)
        ensures
            resp@ == (ResponseView { status, body: body@ }),
    {
        Response { status, body }
    }
}

impl Default for Response {
    /// The response that says nothing: status 200 and an empty body.
    fn default() -> (resp: Response)
        ensures
            resp@ == (ResponseView { status: STATUS_OK, body: Seq::empty() }),
    {
        Response::new(Body::empty())
    }
}

/// Joined, a body made of one piece is that piece.
pub proof fn lemma_concat_once(bytes: Seq<u8>)
    ensures
        concat(once(bytes)) == bytes,
{
    if bytes.len() == 0 {
        assert(concat(once(bytes)) =~= bytes);
    } else {
        seq![bytes].lemma_flatten_one_element();
        assert(seq![bytes].first() == bytes);
    }
}

} // verus!
