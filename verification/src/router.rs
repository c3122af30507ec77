//! The routing table: for each path the handlers that are bound to it, one
//! for each method at most. Paths are compared letter for letter.

use crate::message::{HttpMethod, HttpRequest, HttpResponse};
use crate::service::{alike, total, BoxCloneService, Handler, HandlerService, Service};
use crate::table::{Table, TableModel};
use vstd::prelude::*;

verus! {

/// The handlers that are bound under one path, as plain values.
pub struct RouteModel {
    pub get: Option<BoxCloneService>,
    pub post: Option<BoxCloneService>,
}

impl RouteModel {
    /// The route without handlers.
    pub open spec fn empty() -> Self {
        RouteModel { get: None, post: None }
    }

    /// The handler that is bound to `method`, if there is one.
    pub open spec fn bound(self, method: HttpMethod) -> Option<BoxCloneService> {
        match method {
            HttpMethod::Get => self.get,
            HttpMethod::Post => self.post,
        }
    }

    /// The route after `service` was bound to `method`, in place of what was
    /// bound to it before.
    pub open spec fn bind(self, method: HttpMethod, service: BoxCloneService) -> Self {
        match method {
            HttpMethod::Get => RouteModel { get: Some(service), ..self },
            HttpMethod::Post => RouteModel { post: Some(service), ..self },
        }
    }

    /// The route after the handlers of `later` were bound in it: where both
    /// bind a method, the handler of `later` stays.
    pub open spec fn merge(self, later: RouteModel) -> Self {
        RouteModel {
            get: if later.get is Some {
                later.get
            } else {
                self.get
            },
            post: if later.post is Some {
                later.post
            } else {
                self.post
            },
        }
    }

    /// The methods that have a handler: GET first, then POST.
    pub open spec fn methods(self) -> Seq<HttpMethod> {
        (if self.get is Some {
            seq![HttpMethod::Get]
        } else {
            Seq::empty()
        }) + (if self.post is Some {
            seq![HttpMethod::Post]
        } else {
            Seq::empty()
        })
    }

    /// Every handler of the route can be called with every request.
    pub open spec fn callable(self) -> bool {
        &&& self.get matches Some(service) ==> total(&service)
        &&& self.post matches Some(service) ==> total(&service)
    }

    /// Whether `handler` is what the route calls for `method`.
    pub open spec fn calls<H: Handler>(self, method: HttpMethod, handler: H) -> bool {
        match self.bound(method) {
            Some(service) => forall|req: HttpRequest, res: HttpResponse| #[trigger]
                service.answers(&req, &res) == handler.answers(&req, &res),
            None => false,
        }
    }
}

/// The handlers that are bound under one path.
pub struct Route {
    get: Option<BoxCloneService>,
    post: Option<BoxCloneService>,
}

impl View for Route {
    type V = RouteModel;

    closed spec fn view(&self) -> RouteModel {
        RouteModel { get: self.get, post: self.post }
    }
}

impl Route {
    /// Every handler in a route that code can hold can be called with every
    /// request.
    #[verifier::type_invariant]
    pub closed spec fn valid(&self) -> bool {
        self@.callable()
    }

    /// A route without handlers.
    pub fn new() -> (route: Self)
        ensures
            route@ == RouteModel::empty(),
    {
        Route { get: None, post: None }
    }

    /// The methods that have a handler: GET first, then POST.
    pub fn methods(&self) -> (found: Vec<HttpMethod>)
        ensures
            found@ == self@.methods(),
    {
        let mut found: Vec<HttpMethod> = Vec::new();
        if self.get.is_some() {
            found.push(HttpMethod::Get);
        }
        if self.post.is_some() {
            found.push(HttpMethod::Post);
        }
        assert(found@ =~= self@.methods());
        found
    }

    /// The handler that is bound to `method`, if there is one.
    pub fn handler(&self, method: &HttpMethod) -> (found: Option<&BoxCloneService>)
        ensures
            match found {
                Some(service) => self@.bound(*method) == Some(*service) && total(service),
                None => self@.bound(*method) is None,
            },
    {
        proof {
            use_type_invariant(self);
        }
        match method {
            HttpMethod::Get => self.get.as_ref(),
            HttpMethod::Post => self.post.as_ref(),
        }
    }

    /// Binds `service` to `method`.
    fn bind(self, method: HttpMethod, service: BoxCloneService) -> (route: Self)
        requires
            total(&service),
        ensures
            route@ == self@.bind(method, service),
    {
        proof {
            use_type_invariant(&self);
        }
        match method {
            HttpMethod::Get => Route { get: Some(service), post: self.post },
            HttpMethod::Post => Route { get: self.get, post: Some(service) },
        }
    }

    /// Binds `handler` to the method GET, in place of what was bound to it.
    pub fn get<H: Handler>(self, handler: H) -> (route: Self)
        requires
            forall|req: HttpRequest| #[trigger] handler.accepts(&req),
        ensures
            route@.calls(HttpMethod::Get, handler),
            route@.bound(HttpMethod::Post) == self@.bound(HttpMethod::Post),
    {
        let service = BoxCloneService::new(HandlerService::new(handler));
        self.bind(HttpMethod::Get, service)
    }

    /// Binds `handler` to the method POST, in place of what was bound to it.
    pub fn post<H: Handler>(self, handler: H) -> (route: Self)
        requires
            forall|req: HttpRequest| #[trigger] handler.accepts(&req),
        ensures
            route@.calls(HttpMethod::Post, handler),
            route@.bound(HttpMethod::Get) == self@.bound(HttpMethod::Get),
    {
        let service = BoxCloneService::new(HandlerService::new(handler));
        self.bind(HttpMethod::Post, service)
    }

    /// This route with the handlers of `later` bound in it.
    fn merge(&self, later: Route) -> (route: Self)
        ensures
            route@ == self@.merge(later@),
    {
        proof {
            use_type_invariant(self);
            use_type_invariant(&later);
        }
        let get = match later.get {
            Some(service) => Some(service),
            None => match &self.get {
                Some(service) => Some(service.clone()),
                None => None,
            },
        };
        let post = match later.post {
            Some(service) => Some(service),
            None => match &self.post {
                Some(service) => Some(service.clone()),
                None => None,
            },
        };
        Route { get, post }
    }
}

/// A route with `handler` bound to the method GET.
pub fn get<H: Handler>(handler: H) -> (route: Route)
    requires
        forall|req: HttpRequest| #[trigger] handler.accepts(&req),
    ensures
        route@.calls(HttpMethod::Get, handler),
        route@.bound(HttpMethod::Post) is None,
{
    Route::new().get(handler)
}

/// A route with `handler` bound to the method POST.
pub fn post<H: Handler>(handler: H) -> (route: Route)
    requires
        forall|req: HttpRequest| #[trigger] handler.accepts(&req),
    ensures
        route@.calls(HttpMethod::Post, handler),
        route@.bound(HttpMethod::Get) is None,
{
    Route::new().post(handler)
}

/// What looking up a path and a method gives, as a plain value.
pub enum Resolved {
    Matched(BoxCloneService),
    PathNotFound,
    MethodNotAllowed,
}

/// What `routes` hold for `path` and `method`: the handler that is bound to
/// both, or that the path is unknown, or that the path is known and the
/// method has no handler there.
pub open spec fn resolve(routes: TableModel<RouteModel>, path: Seq<char>, method: HttpMethod)
    -> Resolved {
    match routes.get(path) {
        None => Resolved::PathNotFound,
        Some(route) => match route.bound(method) {
            None => Resolved::MethodNotAllowed,
            Some(service) => Resolved::Matched(service),
        },
    }
}

/// The route under `path` after `later` was registered there.
pub open spec fn registered(routes: TableModel<RouteModel>, path: Seq<char>, later: RouteModel)
    -> RouteModel {
    match routes.get(path) {
        Some(route) => route.merge(later),
        None => later,
    }
}

/// The routes after `later` was registered under `path`.
pub open spec fn with_route(routes: TableModel<RouteModel>, path: Seq<char>, later: RouteModel)
    -> TableModel<RouteModel> {
    routes.insert(path, registered(routes, path, later))
}

/// Of two registrations for the same path and method the later one wins:
/// after both, the path and the method resolve to the handler of the second.
pub proof fn later_registration_wins(
    routes: TableModel<RouteModel>,
    path: Seq<char>,
    method: HttpMethod,
    first: RouteModel,
    second: RouteModel,
)
    requires
        second.bound(method) is Some,
    ensures
        resolve(with_route(with_route(routes, path, first), path, second), path, method)
            == Resolved::Matched(second.bound(method)->0),
{
}

/// A registration that binds no handler to a method leaves what is bound to
/// that method under the path.
pub proof fn registration_keeps_other_methods(
    routes: TableModel<RouteModel>,
    path: Seq<char>,
    method: HttpMethod,
    later: RouteModel,
)
    requires
        later.bound(method) is None,
        routes.get(path) is Some,
    ensures
        resolve(with_route(routes, path, later), path, method) == resolve(routes, path, method),
{
}

/// A registration under one path leaves every other path as it was.
pub proof fn registration_keeps_other_paths(
    routes: TableModel<RouteModel>,
    path: Seq<char>,
    later: RouteModel,
    other: Seq<char>,
    method: HttpMethod,
)
    requires
        other != path,
    ensures
        resolve(with_route(routes, path, later), other, method) == resolve(routes, other, method),
{
}

/// What looking up a path and a method gives.
pub enum Resolution<'a> {
    /// The handler that is bound to the path and the method.
    Matched(&'a BoxCloneService),
    /// Nothing is registered under the path.
    PathNotFound,
    /// The path is registered, but not with this method.
    MethodNotAllowed,
}

impl<'a> View for Resolution<'a> {
    type V = Resolved;

    open spec fn view(&self) -> Resolved {
        match self {
            Resolution::Matched(service) => Resolved::Matched(**service),
            Resolution::PathNotFound => Resolved::PathNotFound,
            Resolution::MethodNotAllowed => Resolved::MethodNotAllowed,
        }
    }
}

/// The routing table.
pub struct Router {
    routes: Table<Route>,
}

impl View for Router {
    type V = TableModel<RouteModel>;

    closed spec fn view(&self) -> TableModel<RouteModel> {
        self.routes@
    }
}

impl Router {
    /// A table without routes.
    pub fn new() -> (router: Self)
        ensures
            router@ == TableModel::<RouteModel>::empty(),
    {
        Router { routes: Table::new() }
    }

    /// Registers the handlers of `route` under `path`. Each replaces the
    /// handler that was registered for the same path and method; handlers of
    /// other methods under the path stay.
    pub fn route(self, path: &str, route: Route) -> (router: Self)
        ensures
            router@ == with_route(self@, path@, route@),
    {
        let mut routes = self.routes;
        let merged = match routes.get(path) {
            Some(known) => known.merge(route),
            None => route,
        };
        routes.insert(path.to_owned(), merged);
        Router { routes }
    }

    /// The routes by path.
    pub fn routes(&self) -> (routes: &Table<Route>)
        ensures
            routes@ == self@,
    {
        &self.routes
    }

    /// Looks up the handler for `path` and `method`.
    pub fn resolve(&self, path: &str, method: &HttpMethod) -> (found: Resolution<'_>)
        ensures
            found@ == resolve(self@, path@, *method),
            found matches Resolution::Matched(service) ==> total(service),
    {
        match self.routes.get(path) {
            None => Resolution::PathNotFound,
            Some(route) => match route.handler(method) {
                None => Resolution::MethodNotAllowed,
                Some(service) => Resolution::Matched(service),
            },
        }
    }
}

} // verus!
