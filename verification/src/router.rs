//! The router: from method and path to the handler that answers.

use vstd::prelude::*;
use crate::text::{ascii, bytes_equal, starts_with, tail, text_bytes};

verus! {

/// The handler that a request goes to, as contracts see it.
pub enum RouteModel {
    Root,
    Echo(Seq<u8>),
    UserAgent,
    FileRead(Seq<u8>),
    FileWrite(Seq<u8>),
    NotFound,
    NotFoundPlain,
}

/// The handler that a request goes to. The prefix routes carry the rest of
/// the path, as it stands: it may be empty and may hold further slashes.
#[derive(Clone, Debug, PartialEq, Eq)]
pub enum Route {
    /// `GET /`: the probe.
    Root,
    /// `GET /echo/<rest>`.
    Echo(Vec<u8>),
    /// `GET /user-agent`.
    UserAgent,
    /// `GET /files/<name>`.
    FileRead(Vec<u8>),
    /// `POST /files/<name>`.
    FileWrite(Vec<u8>),
    /// No route, answered without headers: an unknown path under `GET`, or
    /// an unknown method.
    NotFound,
    /// No route, answered as plain text: an unknown path under `POST`.
    NotFoundPlain,
}

impl View for Route {
    type V = RouteModel;

    open spec fn view(&self) -> RouteModel {
        match self {
            Route::Root => RouteModel::Root,
            Route::Echo(rest) => RouteModel::Echo(rest@),
            Route::UserAgent => RouteModel::UserAgent,
            Route::FileRead(name) => RouteModel::FileRead(name@),
            Route::FileWrite(name) => RouteModel::FileWrite(name@),
            Route::NotFound => RouteModel::NotFound,
            Route::NotFoundPlain => RouteModel::NotFoundPlain,
        }
    }
}

/// The prefix of the echo route.
pub open spec fn echo_prefix() -> Seq<u8> {
    ascii("/echo/"@)
}

/// The prefix of the file routes.
pub open spec fn files_prefix() -> Seq<u8> {
    ascii("/files/"@)
}

/// The route table. Literal paths are tried before prefixes, and the first
/// match wins. A method other than `GET` and `POST` has no route.
pub open spec fn routed(method: Seq<u8>, path: Seq<u8>) -> RouteModel {
    if method == ascii("GET"@) {
        if path == ascii("/"@) {
            RouteModel::Root
        } else if path == ascii("/user-agent"@) {
            RouteModel::UserAgent
        } else if echo_prefix().is_prefix_of(path) {
            RouteModel::Echo(path.skip(echo_prefix().len() as int))
        } else if files_prefix().is_prefix_of(path) {
            RouteModel::FileRead(path.skip(files_prefix().len() as int))
        } else {
            RouteModel::NotFound
        }
    } else if method == ascii("POST"@) {
        if files_prefix().is_prefix_of(path) {
            RouteModel::FileWrite(path.skip(files_prefix().len() as int))
        } else {
            RouteModel::NotFoundPlain
        }
    } else {
        RouteModel::NotFound
    }
}

/// Selects the handler for a method and a path.
pub fn route(method: &[u8], path: &[u8]) -> (r: Route)
    ensures
        r@ == routed(method@, path@),
{
    proof {
        reveal_strlit("GET");
        reveal_strlit("POST");
        reveal_strlit("/");
        reveal_strlit("/user-agent");
        reveal_strlit("/echo/");
        reveal_strlit("/files/");
    }
    let echo = text_bytes("/echo/");
    let files = text_bytes("/files/");
    if bytes_equal(method, text_bytes("GET").as_slice()) {
        if bytes_equal(path, text_bytes("/").as_slice()) {
            Route::Root
        } else if bytes_equal(path, text_bytes("/user-agent").as_slice()) {
            Route::UserAgent
        } else if starts_with(path, echo.as_slice()) {
            Route::Echo(tail(path, echo.len()))
        } else if starts_with(path, files.as_slice()) {
            Route::FileRead(tail(path, files.len()))
        } else {
            Route::NotFound
        }
    } else if bytes_equal(method, text_bytes("POST").as_slice()) {
        if starts_with(path, files.as_slice()) {
            Route::FileWrite(tail(path, files.len()))
        } else {
            Route::NotFoundPlain
        }
    } else {
        Route::NotFound
    }
}

/// The two literal routes lie under neither prefix, so the order in which
/// literals and prefixes are tried cannot change the result; and the two
/// prefixes never match the same path.
pub proof fn lemma_routes_disjoint(path: Seq<u8>)
    ensures
        path == ascii("/"@) || path == ascii("/user-agent"@) ==> !echo_prefix().is_prefix_of(path)
            && !files_prefix().is_prefix_of(path),
        !(echo_prefix().is_prefix_of(path) && files_prefix().is_prefix_of(path)),
{
    reveal_strlit("/");
    reveal_strlit("/user-agent");
    reveal_strlit("/echo/");
    reveal_strlit("/files/");
    if echo_prefix().is_prefix_of(path) {
        assert(path[1] == echo_prefix()[1]);
        assert(path[1] == 'e' as u8);
    }
    if files_prefix().is_prefix_of(path) {
        assert(path[1] == files_prefix()[1]);
        assert(path[1] == 'f' as u8);
    }
}

} // verus!
