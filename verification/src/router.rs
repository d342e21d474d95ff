//! The route table and its dispatch: maps (method, path) to the handler
//! that owns the request, with a wildcard capture for the static-file and
//! upload routes.  Anything else falls through to the not-found responder.
use crate::bytes::{bytes_eq, has_prefix, tail_from, text_bytes};
use vstd::prelude::*;
use vstd::utf8::encode_utf8;

verus! {

/// The bytes of the GET method token.
pub open spec fn get_token() -> Seq<u8> {
    encode_utf8("GET"@)
}

/// The bytes of the POST method token.
pub open spec fn post_token() -> Seq<u8> {
    encode_utf8("POST"@)
}

/// The path of the health-check route.
pub open spec fn ping_path() -> Seq<u8> {
    encode_utf8("/ping"@)
}

/// The path of the robots route.
pub open spec fn robots_path() -> Seq<u8> {
    encode_utf8("/robots.txt"@)
}

/// The path of the dump route.
pub open spec fn dump_path() -> Seq<u8> {
    encode_utf8("/dump"@)
}

/// The literal prefix of the static-file route; the capture is what follows it.
pub open spec fn static_prefix() -> Seq<u8> {
    encode_utf8("/static/"@)
}

/// The literal prefix of the upload route; the capture is what follows it.
pub open spec fn upload_prefix() -> Seq<u8> {
    encode_utf8("/upload/"@)
}

/// Whether `prefix` starts `path`.
pub open spec fn path_has_prefix(path: Seq<u8>, prefix: Seq<u8>) -> bool {
    path.len() >= prefix.len() && path.subrange(0, prefix.len() as int) == prefix
}

/// The outcome of dispatch, at the level of the model: which handler owns
/// the request, with the captured remainder of the path where the route
/// has a wildcard.
pub enum RouteModel {
    Ping,
    Robots,
    StaticFile(Seq<u8>),
    Upload(Seq<u8>),
    Dump,
    NotFound,
}

/// The single route that (method, path) selects.  The fixed route table has
/// no overlapping patterns apart from the literal routes winning over the
/// wildcard ones by their longer literal prefix.
pub open spec fn route_of(method: Seq<u8>, path: Seq<u8>) -> RouteModel {
    if method == get_token() {
        if path == ping_path() {
            RouteModel::Ping
        } else if path == robots_path() {
            RouteModel::Robots
        } else if path_has_prefix(path, static_prefix()) {
            RouteModel::StaticFile(path.skip(static_prefix().len() as int))
        } else {
            RouteModel::NotFound
        }
    } else if method == post_token() {
        if path == dump_path() {
            RouteModel::Dump
        } else if path_has_prefix(path, upload_prefix()) {
            RouteModel::Upload(path.skip(upload_prefix().len() as int))
        } else {
            RouteModel::NotFound
        }
    } else {
        RouteModel::NotFound
    }
}

/// The outcome of dispatch, carrying the captured path remainder for the
/// wildcard routes.
pub enum RouteMatch {
    Ping,
    Robots,
    StaticFile(Vec<u8>),
    Upload(Vec<u8>),
    Dump,
    NotFound,
}

impl RouteMatch {
    /// The model this dispatch outcome denotes.
    pub open spec fn model(self) -> RouteModel {
        match self {
            RouteMatch::Ping => RouteModel::Ping,
            RouteMatch::Robots => RouteModel::Robots,
            RouteMatch::StaticFile(c) => RouteModel::StaticFile(c@),
            RouteMatch::Upload(c) => RouteModel::Upload(c@),
            RouteMatch::Dump => RouteModel::Dump,
            RouteMatch::NotFound => RouteModel::NotFound,
        }
    }
}

/// Selects the single route for (method, path); anything unmatched is
/// the not-found outcome.
pub fn dispatch(method: &Vec<u8>, path: &Vec<u8>) -> (r: RouteMatch)
    ensures
        r.model() == route_of(method@, path@),
{
    let get = text_bytes("GET");
    let post = text_bytes("POST");
    if bytes_eq(method, &get) {
        let ping = text_bytes("/ping");
        let robots = text_bytes("/robots.txt");
        let stat = text_bytes("/static/");
        if bytes_eq(path, &ping) {
            RouteMatch::Ping
        } else if bytes_eq(path, &robots) {
            RouteMatch::Robots
        } else if has_prefix(path, &stat) {
            RouteMatch::StaticFile(tail_from(path, stat.len()))
        } else {
            RouteMatch::NotFound
        }
    } else if bytes_eq(method, &post) {
        let dump = text_bytes("/dump");
        let up = text_bytes("/upload/");
        if bytes_eq(path, &dump) {
            RouteMatch::Dump
        } else if has_prefix(path, &up) {
            RouteMatch::Upload(tail_from(path, up.len()))
        } else {
            RouteMatch::NotFound
        }
    } else {
        RouteMatch::NotFound
    }
}

} // verus!
