//! The endpoints: one function from a request to a response for each.
//!
//! Each comes with a spec function of the same shape that says what the
//! response is. The endpoints that read a body take it as it was delivered, in
//! chunks; `echo` and `uppercase` answer chunk for chunk, `reverse` and `json`
//! join the chunks first and answer in one piece.

use vstd::prelude::*;
use vstd::utf8::encode_utf8;
use crate::bytes::{concat, reverse_bytes, uppercase, uppercase_chunks, uppercase_each};
use crate::bytes::{lemma_reverse_involution, lemma_uppercase_chunks_concat};
use crate::json::{greeting_in, greeting_members, json_document, json_pretty, message_text};
use crate::json::{outcome_view, parse_greeting, Greet, GreetView, ParseError, ParseErrorView};
use crate::message::{lemma_concat_once, once, Body, Request, Response, ResponseView};
use crate::message::{STATUS_BAD_REQUEST, STATUS_NOT_FOUND, STATUS_OK};
use crate::text::text_bytes;

verus! {

/// The text that the root endpoint answers with.
pub open spec fn root_text() -> Seq<char> {
    "Try POSTing data to /echo"@
}

/// The response of the root endpoint: 200 and the instructions.
pub open spec fn root_reply() -> ResponseView {
    ResponseView { status: STATUS_OK, body: once(encode_utf8(root_text())) }
}

/// The response of `echo` to a body: 200 and the same chunks.
pub open spec fn echo_reply(body: Seq<Seq<u8>>) -> ResponseView {
    ResponseView { status: STATUS_OK, body }
}

/// The response of `uppercase` to a body: 200 and each chunk upper-cased.
pub open spec fn uppercase_reply(body: Seq<Seq<u8>>) -> ResponseView {
    ResponseView { status: STATUS_OK, body: uppercase_chunks(body) }
}

/// The response of `reverse` to a body: 200 and, in one piece, the bytes of the
/// whole body from the last to the first.
pub open spec fn reverse_reply(body: Seq<Seq<u8>>) -> ResponseView {
    ResponseView { status: STATUS_OK, body: once(concat(body).reverse()) }
}

/// The text that tells a client that its body was not a greeting.
pub open spec fn failure_text(error: ParseErrorView) -> Seq<char> {
    "JSON parsing error: "@ + message_text(error) + "!"@
}

/// The response of `json` once the body has been read: 200 and the greeting
/// written anew, or 400 and the reason.
pub open spec fn json_outcome_reply(outcome: Result<GreetView, ParseErrorView>) -> ResponseView {
    match outcome {
        Ok(greet) => ResponseView {
            status: STATUS_OK,
            body: once(encode_utf8(json_pretty(greeting_members(greet)))),
        },
        Err(error) => ResponseView {
            status: STATUS_BAD_REQUEST,
            body: once(encode_utf8(failure_text(error))),
        },
    }
}

/// The response of `json` to a body.
pub open spec fn json_reply(body: Seq<Seq<u8>>) -> ResponseView {
    json_outcome_reply(greeting_in(json_document(concat(body))))
}

/// The response to a request that no endpoint serves: 404 and nothing else.
pub open spec fn not_found_reply() -> ResponseView {
    ResponseView { status: STATUS_NOT_FOUND, body: Seq::empty() }
}

/// Answers with a short text that says what the service is for.
pub fn handle_root() -> (resp: Response)
    ensures
        resp@ == root_reply(),
{
    Response::new(Body::from_bytes(text_bytes("Try POSTing data to /echo")))
}

/// Hands the body of the request back as it came.
pub fn handle_echo(req: Request) -> (resp: Response)
    ensures
        resp@ == echo_reply(req@.body),
{
    Response::new(req.body)
}

/// Hands the body of the request back with its ASCII letters in upper case.
pub fn handle_uppercase(req: Request) -> (resp: Response)
    ensures
        resp@ == uppercase_reply(req@.body),
{
    Response::new(Body { chunks: uppercase_each(&req.body.chunks) })
}

/// Hands the body of the request back with its bytes in reverse order.
///
/// The order of bytes is turned, not that of characters: a body in a
/// multi-byte encoding comes back as bytes that no longer spell its text.
pub fn handle_reverse(req: Request) -> (resp: Response)
    ensures
        resp@ == reverse_reply(req@.body),
{
    let whole = req.body.bytes();
    Response::new(Body::from_bytes(reverse_bytes(whole.as_slice())))
}

/// The response of `json` for the outcome of reading its body.
pub fn json_response(outcome: Result<Greet, ParseError>) -> (resp: Response)
    ensures
        resp@ == json_outcome_reply(outcome_view(outcome)),
{
    match outcome {
        Ok(greet) => {
            let text = greet.to_pretty();
            Response::new(Body::from_bytes(text_bytes(text.as_str())))
        },
        Err(error) => {
            let mut text = "JSON parsing error: ".to_owned();
            let message = error.message();
            text.append(message.as_str());
            text.append("!");
            Response::with_status(STATUS_BAD_REQUEST, Body::from_bytes(text_bytes(text.as_str())))
        },
    }
}

/// Reads the body of the request as a greeting and hands it back written
/// anew, or says why it is none.
pub fn handle_json(req: Request) -> (resp: Response)
    ensures
        resp@ == json_reply(req@.body),
{
    let whole = req.body.bytes();
    json_response(parse_greeting(whole.as_slice()))
}

/// Answers a request that no endpoint serves.
pub fn handle_not_found() -> (resp: Response)
    ensures
        resp@ == not_found_reply(),
{
    Response::with_status(STATUS_NOT_FOUND, Body::empty())
}

/// What `echo` answers holds the bytes of the request, all of them and in
/// their order.
pub proof fn lemma_echo_keeps_bytes(body: Seq<Seq<u8>>)
    ensures
        echo_reply(body).status == STATUS_OK,
        echo_reply(body).body == body,
        concat(echo_reply(body).body) == concat(body),
{
}

/// What `uppercase` answers holds the bytes of the request upper-cased,
/// however the body was cut into chunks, and as many chunks as came.
pub proof fn lemma_uppercase_keeps_shape(body: Seq<Seq<u8>>)
    ensures
        uppercase_reply(body).status == STATUS_OK,
        uppercase_reply(body).body.len() == body.len(),
        concat(uppercase_reply(body).body) == uppercase(concat(body)),
        concat(uppercase_reply(body).body).len() == concat(body).len(),
{
    lemma_uppercase_chunks_concat(body);
}

/// Sent through `reverse` twice, a body comes back with the bytes it had.
pub proof fn lemma_reverse_twice_restores(body: Seq<Seq<u8>>)
    ensures
        concat(reverse_reply(reverse_reply(body).body).body) == concat(body),
{
    let turned = concat(body).reverse();
    lemma_concat_once(turned);
    lemma_concat_once(turned.reverse());
    lemma_reverse_involution(concat(body));
}

/// The status of what `json` answers tells whether the body was a greeting:
/// 200 where it was, 400 where it was not, and nothing else.
pub proof fn lemma_json_status(body: Seq<Seq<u8>>)
    ensures
        greeting_in(json_document(concat(body))) is Ok ==> json_reply(body).status == STATUS_OK,
        greeting_in(json_document(concat(body))) is Err ==> json_reply(body).status
            == STATUS_BAD_REQUEST,
{
}

} // verus!
