//! From a dispatched request to a plan: the fixed responders answer at once;
//! the static-file, upload and dump handlers yield the file path or transfer
//! the caller must carry out, with every path-safety decision already taken.
use crate::body_limit::admitted;
use crate::bytes::text_bytes;
use crate::http::{
    not_found, not_found_model, ok_empty, ping, ping_model, robots, robots_model, ReqModel,
    Request, RespModel, Response,
};
use crate::path_safety::{is_safe_rel_path, resolve_under_root, resolved};
use crate::router::{dispatch, route_of, RouteMatch, RouteModel};
use vstd::prelude::*;
use vstd::utf8::encode_utf8;

verus! {

/// The root directory that the static-file handler serves from.
pub open spec fn static_root() -> Seq<u8> {
    encode_utf8("./static"@)
}

/// The root directory that the upload handler writes under.
pub open spec fn upload_root() -> Seq<u8> {
    encode_utf8("./upload"@)
}

/// The static root, as bytes.
pub fn static_root_path() -> (r: Vec<u8>)
    ensures
        r@ == static_root(),
{
    text_bytes("./static")
}

/// The upload root, as bytes.
pub fn upload_root_path() -> (r: Vec<u8>)
    ensures
        r@ == upload_root(),
{
    text_bytes("./upload")
}

/// The file the static-file handler would serve for a capture: the capture
/// joined under the static root, or nothing when the capture is unsafe.
pub fn static_target(capture: &Vec<u8>) -> (r: Option<Vec<u8>>)
    ensures
        match r {
            Option::Some(v) => resolved(static_root(), capture@) == Option::Some(v@),
            Option::None => resolved(static_root(), capture@) is None,
        },
{
    let root = static_root_path();
    resolve_under_root(&root, capture)
}

/// The file the upload handler would write for a capture: the capture
/// joined under the upload root, or nothing when the capture is unsafe.
pub fn upload_target(capture: &Vec<u8>) -> (r: Option<Vec<u8>>)
    ensures
        match r {
            Option::Some(v) => resolved(upload_root(), capture@) == Option::Some(v@),
            Option::None => resolved(upload_root(), capture@) is None,
        },
{
    let root = upload_root_path();
    resolve_under_root(&root, capture)
}

/// What the server decides to do with a request, before any I/O: answer at
/// once, serve the bytes of a file, store the request body into a file, or
/// echo the request body to the process's output.
pub enum Plan {
    Reply(Response),
    SendFile(Vec<u8>),
    Store(Vec<u8>),
    Echo,
}

/// Ghost model of a plan.
pub enum PlanModel {
    Reply(RespModel),
    SendFile(Seq<u8>),
    Store(Seq<u8>),
    Echo,
}

impl Plan {
    /// The model this plan denotes.
    pub open spec fn model(self) -> PlanModel {
        match self {
            Plan::Reply(resp) => PlanModel::Reply(resp.model()),
            Plan::SendFile(p) => PlanModel::SendFile(p@),
            Plan::Store(p) => PlanModel::Store(p@),
            Plan::Echo => PlanModel::Echo,
        }
    }
}

/// The plan for a (method, path) pair.  Headers, body and origin play no
/// part in it.  An unsafe capture on the static or upload route is treated
/// exactly as an unmatched request: the fixed not-found answer.
pub open spec fn plan_of(method: Seq<u8>, path: Seq<u8>) -> PlanModel {
    match route_of(method, path) {
        RouteModel::Ping => PlanModel::Reply(ping_model()),
        RouteModel::Robots => PlanModel::Reply(robots_model()),
        RouteModel::StaticFile(c) => match resolved(static_root(), c) {
            Option::Some(fp) => PlanModel::SendFile(fp),
            Option::None => PlanModel::Reply(not_found_model()),
        },
        RouteModel::Upload(c) => match resolved(upload_root(), c) {
            Option::Some(fp) => PlanModel::Store(fp),
            Option::None => PlanModel::Reply(not_found_model()),
        },
        RouteModel::Dump => PlanModel::Echo,
        RouteModel::NotFound => PlanModel::Reply(not_found_model()),
    }
}

/// The plan for a whole request: it depends on the method and path alone.
pub open spec fn plan_of_request(r: ReqModel) -> PlanModel {
    plan_of(r.method, r.uri)
}

/// Decides the plan for a request.
pub fn plan_request(req: &Request) -> (r: Plan)
    ensures
        r.model() == plan_of_request(req.model()),
{
    match dispatch(&req.method, &req.uri) {
        RouteMatch::Ping => Plan::Reply(ping()),
        RouteMatch::Robots => Plan::Reply(robots()),
        RouteMatch::StaticFile(c) => match static_target(&c) {
            Option::Some(fp) => Plan::SendFile(fp),
            Option::None => Plan::Reply(not_found()),
        },
        RouteMatch::Upload(c) => match upload_target(&c) {
            Option::Some(fp) => Plan::Store(fp),
            Option::None => Plan::Reply(not_found()),
        },
        RouteMatch::Dump => Plan::Echo,
        RouteMatch::NotFound => Plan::Reply(not_found()),
    }
}

/// A completed upload or echo is answered with the empty success response;
/// a failed one with the generic server error.
pub fn transfer_response(succeeded: bool) -> (r: Response)
    ensures
        succeeded ==> r.model() == crate::http::ok_empty_model(),
        !succeeded ==> r.model() == crate::http::server_error_model(),
{
    if succeeded {
        ok_empty()
    } else {
        crate::http::server_error()
    }
}

/// Every request to GET `/ping` is answered at once with status 200 and the
/// body `OK\r\n`, whatever its headers or origin: any two such requests get
/// the one same answer.
pub proof fn lemma_ping_uniform(r1: ReqModel, r2: ReqModel)
    requires
        r1.method == crate::router::get_token(),
        r1.uri == crate::router::ping_path(),
        r2.method == crate::router::get_token(),
        r2.uri == crate::router::ping_path(),
    ensures
        plan_of_request(r1) == PlanModel::Reply(ping_model()),
        plan_of_request(r1) == plan_of_request(r2),
{
}

/// A capture with a parent-directory segment is never served: on the static
/// route it yields the fixed not-found answer, not a file.
pub proof fn lemma_traversal_rejected(r: ReqModel, capture: Seq<u8>)
    requires
        r.method == crate::router::get_token(),
        route_of(r.method, r.uri) == RouteModel::StaticFile(capture),
        crate::path_safety::has_dotdot_segment(capture),
    ensures
        plan_of_request(r) == PlanModel::Reply(not_found_model()),
{
    if is_safe_rel_path(capture) {
        crate::path_safety::lemma_safe_excludes_dotdot(capture);
    }
}

/// Every unmatched request — undefined path or method — is answered with
/// the one fixed not-found document: any two unmatched requests get
/// byte-identical answers.
pub proof fn lemma_not_found_uniform(r1: ReqModel, r2: ReqModel)
    requires
        route_of(r1.method, r1.uri) is NotFound,
        route_of(r2.method, r2.uri) is NotFound,
    ensures
        plan_of_request(r1) == PlanModel::Reply(not_found_model()),
        plan_of_request(r1) == plan_of_request(r2),
{
}

/// Round trip through the filesystem, modelled as a map from paths to file
/// contents: a body `b` within the cap, uploaded to a safe capture and then
/// fetched over the static route with the roots coinciding, comes back
/// byte-for-byte.  The upload stores the whole admitted body at the joined
/// path; the later fetch resolves the same path and reads that entry.
pub proof fn lemma_upload_then_fetch_round_trip(
    store: Map<Seq<u8>, Seq<u8>>,
    root: Seq<u8>,
    capture: Seq<u8>,
    body: Seq<u8>,
    cap: nat,
)
    requires
        is_safe_rel_path(capture),
        body.len() <= cap,
    ensures
        ({
            let target = resolved(root, capture);
            &&& target is Some
            &&& admitted(body, cap) == Option::<Seq<u8>>::Some(body)
            &&& store.insert(target->Some_0, body)[target->Some_0] == body
        }),
{
}

} // verus!
