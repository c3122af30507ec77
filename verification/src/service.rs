//! Handlers, and the one calling contract under which handlers of any shape
//! are kept in a routing table.

use crate::message::{HttpRequest, HttpResponse, IntoResponse};
use std::sync::Arc;
use vstd::prelude::*;

verus! {

/// Application logic for one kind of request: a function from a request to a
/// response, or any value that can be called like one. A call borrows the
/// handler, runs to its end, and always gives a response; a handler keeps no
/// state of one call for the next.
pub trait Handler: Send + Sync + Sized + 'static {
    /// The requests that the handler can be called with.
    spec fn accepts(&self, req: &HttpRequest) -> bool;

    /// Whether `res` is a response that the handler may give to `req`.
    spec fn answers(&self, req: &HttpRequest, res: &HttpResponse) -> bool;

    fn call(&self, req: HttpRequest) -> (res: HttpResponse)
        requires
            self.accepts(&req),
        ensures
            self.answers(&req, &res),
    ;
}

impl<F, R> Handler for F where
    F: Fn(HttpRequest) -> R + Send + Sync + 'static,
    R: IntoResponse,
 {
    open spec fn accepts(&self, req: &HttpRequest) -> bool {
        call_requires(*self, (*req,))
    }

    open spec fn answers(&self, req: &HttpRequest, res: &HttpResponse) -> bool {
        exists|r: R| call_ensures(*self, (*req,), r) && r.response() == res@
    }

    fn call(&self, req: HttpRequest) -> (res: HttpResponse) {
        let r = self(req);
        r.into_response()
    }
}

/// What being a handler means for a function: it accepts what it requires,
/// and it answers with what its results convert to.
pub proof fn function_as_handler<F, R>(f: F)
    where F: Fn(HttpRequest) -> R + Send + Sync + 'static, R: IntoResponse
    ensures
        forall|req: HttpRequest| #[trigger] f.accepts(&req) == call_requires(f, (req,)),
        forall|req: HttpRequest, res: HttpResponse| #[trigger]
            f.answers(&req, &res) == (exists|r: R|
                call_ensures(f, (req,), r) && r.response() == res@),
{
}

/// The calling contract under which the routing table keeps its handlers.
pub trait Service: Send + Sync {
    /// The requests that the service can be called with.
    spec fn accepts(&self, req: &HttpRequest) -> bool;

    /// Whether `res` is a response that the service may give to `req`.
    spec fn answers(&self, req: &HttpRequest, res: &HttpResponse) -> bool;

    fn call(&self, req: HttpRequest) -> (res: HttpResponse)
        requires
            self.accepts(&req),
        ensures
            self.answers(&req, &res),
    ;
}

/// Whether two services accept the same requests and give the same answers.
pub open spec fn alike<A: Service + ?Sized, B: Service + ?Sized>(a: &A, b: &B) -> bool {
    &&& forall|req: HttpRequest| #[trigger] a.accepts(&req) == b.accepts(&req)
    &&& forall|req: HttpRequest, res: HttpResponse| #[trigger]
        a.answers(&req, &res) == b.answers(&req, &res)
}

/// Whether a service can be called with every request.
pub open spec fn total<S: Service + ?Sized>(service: &S) -> bool {
    forall|req: HttpRequest| #[trigger] service.accepts(&req)
}

/// A handler as a service.
pub struct HandlerService<H> {
    handler: H,
}

impl<H> HandlerService<H> {
    /// The handler that the service calls.
    pub closed spec fn handler(&self) -> H {
        self.handler
    }

    pub fn new(handler: H) -> (service: Self)
        ensures
            service.handler() == handler,
    {
        Self { handler }
    }
}

impl<H: Clone> Clone for HandlerService<H> {
    fn clone(&self) -> (copy: Self)
        ensures
            cloned(self.handler(), copy.handler()),
    {
        Self { handler: self.handler.clone() }
    }
}

impl<H: Handler> Service for HandlerService<H> {
    open spec fn accepts(&self, req: &HttpRequest) -> bool {
        self.handler().accepts(req)
    }

    open spec fn answers(&self, req: &HttpRequest, res: &HttpResponse) -> bool {
        self.handler().answers(req, res)
    }

    fn call(&self, req: HttpRequest) -> (res: HttpResponse) {
        self.handler.call(req)
    }
}

/// A service behind a pointer, its type forgotten.
struct Erased(Box<dyn Service>);

/// Moves `service` to the heap by `Box::new` and forgets its type. The box
/// holds `service` itself, so a call through the box is a call of
/// `service`: both accept the same requests and give the same answers.
#[verifier::external_body]
fn erase<S: Service + 'static>(service: S) -> (erased: Erased)
    ensures
        alike(&*erased.0, &service),
{
    Erased(Box::new(service))
}

/// A second pointer to the same service, by `Arc::clone`.
#[verifier::external_body]
fn share(service: &Arc<Erased>) -> (shared: Arc<Erased>)
    ensures
        shared == *service,
{
    Arc::clone(service)
}

/// A service of any type, kept behind a shared pointer. A clone is a second
/// pointer to the same service.
pub struct BoxCloneService(Arc<Erased>);

impl BoxCloneService {
    pub fn new<S>(service: S) -> (boxed: Self) where S: Service + 'static
        ensures
            alike(&boxed, &service),
    {
        BoxCloneService(Arc::new(erase(service)))
    }
}

impl Service for BoxCloneService {
    closed spec fn accepts(&self, req: &HttpRequest) -> bool {
        self.0.0.accepts(req)
    }

    closed spec fn answers(&self, req: &HttpRequest, res: &HttpResponse) -> bool {
        self.0.0.answers(req, res)
    }

    fn call(&self, req: HttpRequest) -> (res: HttpResponse) {
        self.0.0.call(req)
    }
}

impl Clone for BoxCloneService {
    fn clone(&self) -> (copy: Self)
        ensures
            copy == *self,
    {
        BoxCloneService(share(&self.0))
    }
}

/// Services that can give out a copy of themselves with the type forgotten.
pub trait CloneService: Service + Clone {
    /// A clone of the service, with its type forgotten.
    fn clone_box(&self) -> (boxed: BoxCloneService)
        ensures
            exists|copy: Self| cloned(*self, copy) && #[trigger] alike(&boxed, &copy),
    ;
}

impl<S> CloneService for S where S: Service + Clone + 'static {
    fn clone_box(&self) -> (boxed: BoxCloneService) {
        let copy = self.clone();
        let boxed = BoxCloneService::new(copy);
        assert(cloned(*self, copy) && alike(&boxed, &copy));
        boxed
    }
}

} // verus!
