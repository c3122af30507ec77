//! One exchange on a connection: read the request, find its handler, call
//! it, and put the response on the wire. Whatever comes in, one response goes
//! out.

use crate::message::{
    HttpRequest, HttpResponse, HttpStatus, ParseError, ParseFault, RequestModel, ResponseModel,
};
use crate::parse::parse;
use crate::router::{resolve, Resolution, Resolved, RouteModel, Router};
use crate::service::Service;
use crate::table::TableModel;
use vstd::prelude::*;

verus! {

/// The response to a request for a path that is not registered.
pub open spec fn not_found_reply() -> ResponseModel {
    ResponseModel::plain(HttpStatus::NotFound, "Page not found"@)
}

/// The response to a request whose method has no handler.
pub open spec fn method_not_allowed_reply() -> ResponseModel {
    ResponseModel::plain(HttpStatus::MethodNotAllowed, "Method not allowed"@)
}

/// The response that stands in for a handler that gave none.
pub open spec fn internal_error_reply() -> ResponseModel {
    ResponseModel::plain(HttpStatus::InternalServerError, "Internal server error"@)
}

/// The status that answers a request that could not be read: 405 where the
/// start line or its method is at fault, 400 otherwise.
pub open spec fn fault_status(fault: ParseFault) -> HttpStatus {
    match fault {
        ParseFault::MalformedStartLine => HttpStatus::MethodNotAllowed,
        ParseFault::UnknownMethod(_) => HttpStatus::MethodNotAllowed,
        ParseFault::MalformedHeader => HttpStatus::BadRequest,
        ParseFault::MalformedContentLength => HttpStatus::BadRequest,
        ParseFault::TruncatedBody => HttpStatus::BadRequest,
    }
}

/// The response to a request that could not be read.
pub open spec fn fault_reply(fault: ParseFault) -> ResponseModel {
    ResponseModel::plain(fault_status(fault), fault.text())
}

/// Whether `res` may answer what was read from a connection, given the
/// routes: a fault has its fixed response, an unknown path and a method
/// without handler have theirs, and otherwise the bound handler answers.
pub open spec fn answers_for(
    routes: TableModel<RouteModel>,
    read: Result<HttpRequest, ParseError>,
    res: HttpResponse,
) -> bool {
    match read {
        Err(e) => res@ == fault_reply(e@),
        Ok(req) => match resolve(routes, req@.path, req@.method) {
            Resolved::PathNotFound => res@ == not_found_reply(),
            Resolved::MethodNotAllowed => res@ == method_not_allowed_reply(),
            Resolved::Matched(service) => service.answers(&req, &res),
        },
    }
}

/// Whether `out` is what may go out on a connection on which `input` came
/// in: the wire form of a response that answers what `input` reads as.
pub open spec fn replies_to(routes: TableModel<RouteModel>, input: Seq<u8>, out: Seq<char>)
    -> bool {
    exists|read: Result<HttpRequest, ParseError>, res: HttpResponse|
        {
            &&& match read {
                Ok(req) => parse(input) matches Ok(found) && found.0 == req@,
                Err(e) => parse(input) == Err::<(RequestModel, int), _>(e@),
            }
            &&& #[trigger] answers_for(routes, read, res)
            &&& out == res@.wire()
        }
}

/// A request whose method is not known is answered with status 405 and the
/// fixed response to that fault, whatever the routes are: no handler has a
/// part in it.
pub proof fn unknown_method_is_refused(
    routes: TableModel<RouteModel>,
    input: Seq<u8>,
    out: Seq<char>,
)
    requires
        replies_to(routes, input, out),
        parse(input) matches Err(ParseFault::UnknownMethod(_)),
    ensures
        out == fault_reply(parse(input)->Err_0).wire(),
        fault_reply(parse(input)->Err_0).status == HttpStatus::MethodNotAllowed,
{
}

/// A request for a path under which nothing is registered is answered with
/// status 404, and no handler has a part in it.
pub proof fn unknown_path_is_not_found(
    routes: TableModel<RouteModel>,
    input: Seq<u8>,
    out: Seq<char>,
)
    requires
        replies_to(routes, input, out),
        parse(input) matches Ok(found) && routes.get(found.0.path) is None,
    ensures
        out == not_found_reply().wire(),
        not_found_reply().status == HttpStatus::NotFound,
{
}

/// A request for a registered path whose method has no handler there is
/// answered with status 405, and no handler has a part in it.
pub proof fn unbound_method_is_not_allowed(
    routes: TableModel<RouteModel>,
    input: Seq<u8>,
    out: Seq<char>,
)
    requires
        replies_to(routes, input, out),
        parse(input) matches Ok(found) && (routes.get(found.0.path) matches Some(route)
            && route.bound(found.0.method) is None),
    ensures
        out == method_not_allowed_reply().wire(),
        method_not_allowed_reply().status == HttpStatus::MethodNotAllowed,
{
}

/// A request whose path and method have a handler is answered by that
/// handler: what goes out is the wire form of one of its answers to a
/// request that reads as the input does.
pub proof fn bound_handler_answers(
    routes: TableModel<RouteModel>,
    input: Seq<u8>,
    out: Seq<char>,
)
    requires
        replies_to(routes, input, out),
        parse(input) matches Ok(found) && resolve(routes, found.0.path, found.0.method)
            is Matched,
    ensures
        exists|req: HttpRequest, res: HttpResponse|
            {
                &&& req@ == parse(input)->Ok_0.0
                &&& #[trigger] resolve(routes, req@.path, req@.method)->Matched_0.answers(
                    &req,
                    &res,
                )
                &&& out == res@.wire()
            },
{
    let (read, res) = choose|read: Result<HttpRequest, ParseError>, res: HttpResponse|
        {
            &&& match read {
                Ok(req) => parse(input) matches Ok(found) && found.0 == req@,
                Err(e) => parse(input) == Err::<(RequestModel, int), _>(e@),
            }
            &&& #[trigger] answers_for(routes, read, res)
            &&& out == res@.wire()
        };
    let req = read->Ok_0;
    assert(resolve(routes, req@.path, req@.method)->Matched_0.answers(&req, &res));
}

/// A plain-text response.
fn plain(status: HttpStatus, text: &str) -> (res: HttpResponse)
    ensures
        res@ == ResponseModel::plain(status, text@),
{
    let mut res = HttpResponse::new(status);
    res.set_header("Content-Type", "text/plain");
    res.set_body(text);
    res
}

/// The response to a request that could not be read.
pub fn refuse(error: &ParseError) -> (res: HttpResponse)
    ensures
        res@ == fault_reply(error@),
{
    let status = match error {
        ParseError::MalformedStartLine => HttpStatus::MethodNotAllowed,
        ParseError::UnknownMethod(_) => HttpStatus::MethodNotAllowed,
        _ => HttpStatus::BadRequest,
    };
    plain(status, error.message())
}

/// The response to send when a handler failed without giving one: status
/// 500 and a text that tells nothing of the failure.
pub fn internal_error() -> (res: HttpResponse)
    ensures
        res@ == internal_error_reply(),
{
    plain(HttpStatus::InternalServerError, "Internal server error")
}

/// Answers what was read from a connection. A request that could not be read
/// and a request without handler get their fixed responses, and no handler
/// is called for them; any other request goes to the handler that is bound
/// to its path and method, and to no other.
pub fn respond(router: &Router, read: Result<HttpRequest, ParseError>) -> (res: HttpResponse)
    ensures
        answers_for(router@, read, res),
{
    match read {
        Err(error) => refuse(&error),
        Ok(req) => match router.resolve(req.path().as_str(), req.method()) {
            Resolution::PathNotFound => plain(HttpStatus::NotFound, "Page not found"),
            Resolution::MethodNotAllowed => plain(
                HttpStatus::MethodNotAllowed,
                "Method not allowed",
            ),
            Resolution::Matched(service) => service.call(req),
        },
    }
}

/// The whole exchange: reads one request from `input`, answers it, and
/// gives the response as it goes on the wire.
pub fn exchange(router: &Router, input: &[u8]) -> (out: String)
    ensures
        replies_to(router@, input@, out@),
{
    let read = match HttpRequest::from_bytes(input) {
        Ok((req, _)) => Ok(req),
        Err(error) => Err(error),
    };
    let res = respond(router, read);
    res.serialize()
}

} // verus!
