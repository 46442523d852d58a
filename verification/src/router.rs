//! From a request to the endpoint that serves it.
//!
//! The table is fixed. A path is matched as it stands, letter for letter, with
//! no pattern and no mending of slashes, and only under the method it is
//! listed with. What matches nothing is answered by the not-found endpoint.

use vstd::prelude::*;
use crate::handlers::{echo_reply, json_reply, not_found_reply, reverse_reply, root_reply};
use crate::handlers::{handle_echo, handle_json, handle_not_found, handle_reverse, handle_root};
use crate::handlers::{handle_uppercase, uppercase_reply};
use crate::message::{Method, Request, RequestView, Response, ResponseView, STATUS_NOT_FOUND};
use crate::text::same_text;

verus! {

/// The endpoints of the service.
#[derive(Clone, Copy, Debug, PartialEq, Eq, Structural)]
pub enum Route {
    Root,
    Echo,
    Uppercase,
    Reverse,
    Json,
    NotFound,
}

/// The endpoint that serves `path` under `method`.
pub open spec fn route_of(method: Method, path: Seq<char>) -> Route {
    if method == Method::Get && path == "/"@ {
        Route::Root
    } else if method == Method::Post && path == "/echo"@ {
        Route::Echo
    } else if method == Method::Post && path == "/echo/uppercase"@ {
        Route::Uppercase
    } else if method == Method::Post && path == "/echo/reverse"@ {
        Route::Reverse
    } else if method == Method::Post && path == "/echo/json"@ {
        Route::Json
    } else {
        Route::NotFound
    }
}

/// The response of the service to a request.
pub open spec fn respond(req: RequestView) -> ResponseView {
    match route_of(req.method, req.path) {
        Route::Root => root_reply(),
        Route::Echo => echo_reply(req.body),
        Route::Uppercase => uppercase_reply(req.body),
        Route::Reverse => reverse_reply(req.body),
        Route::Json => json_reply(req.body),
        Route::NotFound => not_found_reply(),
    }
}

/// Names the endpoint that serves `path` under `method`.
pub fn route(method: Method, path: &str) -> (r: Route)
    ensures
        r == route_of(method, path@),
{
    match method {
        Method::Get => {
            if same_text(path, "/") {
                Route::Root
            } else {
                Route::NotFound
            }
        },
        Method::Post => {
            if same_text(path, "/echo") {
                Route::Echo
            } else if same_text(path, "/echo/uppercase") {
                Route::Uppercase
            } else if same_text(path, "/echo/reverse") {
                Route::Reverse
            } else if same_text(path, "/echo/json") {
                Route::Json
            } else {
                Route::NotFound
            }
        },
        Method::Other => Route::NotFound,
    }
}

/// Answers a request: picks the endpoint and lets it respond.
pub fn router(req: Request) -> (resp: Response)
    ensures
        resp@ == respond(req@),
{
    match route(req.method, req.path.as_str()) {
        Route::Root => handle_root(),
        Route::Echo => handle_echo(req),
        Route::Uppercase => handle_uppercase(req),
        Route::Reverse => handle_reverse(req),
        Route::Json => handle_json(req),
        Route::NotFound => handle_not_found(),
    }
}

/// A request under a method other than `GET` and `POST` is answered 404 with
/// an empty body, whatever its path and body.
pub proof fn lemma_other_methods_not_found(req: RequestView)
    requires
        req.method == Method::Other,
    ensures
        respond(req).status == STATUS_NOT_FOUND,
        respond(req).body.len() == 0,
{
}

/// The body of a request plays no part in where the request goes.
pub proof fn lemma_route_ignores_body(a: RequestView, b: RequestView)
    requires
        a.method == b.method,
        a.path == b.path,
    ensures
        route_of(a.method, a.path) == route_of(b.method, b.path),
{
}

} // verus!
