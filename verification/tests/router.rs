use http_server::message::{HttpMethod, HttpRequest, HttpResponse, HttpStatus};
use http_server::router::{get, post, Resolution, Route, Router};
use http_server::service::{BoxCloneService, CloneService, Handler, HandlerService, Service};
use http_server::table::Table;
use std::sync::{Arc, Mutex};

fn request(method: HttpMethod, path: &str, body: &str) -> HttpRequest {
    HttpRequest::new(
        method,
        path.to_string(),
        "HTTP/1.1".to_string(),
        Table::new(),
        body.to_string(),
    )
}

fn answer(router: &Router, method: HttpMethod, path: &str) -> Option<String> {
    match router.resolve(path, &method) {
        Resolution::Matched(service) => {
            Some(service.call(request(method, path, "")).body().clone())
        }
        _ => None,
    }
}

fn named(
    name: &'static str,
) -> impl Fn(HttpRequest) -> &'static str + Clone + Send + Sync + 'static {
    move |_req: HttpRequest| name
}

fn counting(
    count: &Arc<Mutex<u32>>,
    name: &'static str,
) -> impl Fn(HttpRequest) -> &'static str + Send + Sync + 'static {
    let count = Arc::clone(count);
    move |_req: HttpRequest| {
        *count.lock().unwrap() += 1;
        name
    }
}

fn teapot(_req: HttpRequest) -> HttpResponse {
    let mut res = HttpResponse::new(HttpStatus::InternalServerError);
    res.set_body("short and stout");
    res
}

fn shareable<T: Send + Sync>(_value: &T) -> bool {
    true
}

#[test]
fn empty_router_knows_no_path() {
    let router = Router::new();
    assert_eq!(router.routes().len(), 0);
    assert!(matches!(router.resolve("/", &HttpMethod::Get), Resolution::PathNotFound));
    assert!(matches!(router.resolve("", &HttpMethod::Post), Resolution::PathNotFound));
}

#[test]
fn registered_pair_resolves_to_its_handler() {
    let router = Router::new().route("/", get(named("index"))).route("/lol", get(named("lol")));
    assert_eq!(answer(&router, HttpMethod::Get, "/"), Some("index".to_string()));
    assert_eq!(answer(&router, HttpMethod::Get, "/lol"), Some("lol".to_string()));
    assert_eq!(router.routes().len(), 2);
    assert_eq!(router.routes().key(0), "/");
    assert_eq!(router.routes().key(1), "/lol");
}

#[test]
fn unknown_path_and_unbound_method_differ() {
    let router = Router::new().route("/only-get", get(named("g")));
    assert!(matches!(router.resolve("/only-get", &HttpMethod::Get), Resolution::Matched(_)));
    assert!(matches!(
        router.resolve("/only-get", &HttpMethod::Post),
        Resolution::MethodNotAllowed
    ));
    assert!(matches!(router.resolve("/missing", &HttpMethod::Get), Resolution::PathNotFound));
    assert!(matches!(router.resolve("/missing", &HttpMethod::Post), Resolution::PathNotFound));
}

#[test]
fn paths_match_letter_for_letter() {
    let router = Router::new().route("/a", get(named("a")));
    for path in ["/a/", "/A", "a", "/a?x=1", "/a ", "//a", "/b", ""] {
        assert!(
            matches!(router.resolve(path, &HttpMethod::Get), Resolution::PathNotFound),
            "path {:?}",
            path
        );
    }
}

#[test]
fn one_route_holds_a_handler_for_each_method() {
    let router = Router::new().route("/mabar", get(named("got")).post(named("posted")));
    assert_eq!(answer(&router, HttpMethod::Get, "/mabar"), Some("got".to_string()));
    assert_eq!(answer(&router, HttpMethod::Post, "/mabar"), Some("posted".to_string()));
}

#[test]
fn second_handler_for_a_pair_replaces_the_first() {
    let first = Arc::new(Mutex::new(0));
    let second = Arc::new(Mutex::new(0));
    let router = Router::new()
        .route("/x", get(counting(&first, "A")))
        .route("/x", get(counting(&second, "B")));
    assert_eq!(answer(&router, HttpMethod::Get, "/x"), Some("B".to_string()));
    assert_eq!(*first.lock().unwrap(), 0);
    assert_eq!(*second.lock().unwrap(), 1);
    assert_eq!(router.routes().len(), 1);
}

#[test]
fn second_handler_in_one_route_replaces_the_first() {
    let route = get(named("old")).get(named("new"));
    let router = Router::new().route("/x", route);
    assert_eq!(answer(&router, HttpMethod::Get, "/x"), Some("new".to_string()));
}

#[test]
fn registering_again_keeps_the_other_methods() {
    let router = Router::new()
        .route("/x", get(named("got")).post(named("posted")))
        .route("/x", post(named("posted again")));
    assert_eq!(answer(&router, HttpMethod::Get, "/x"), Some("got".to_string()));
    assert_eq!(answer(&router, HttpMethod::Post, "/x"), Some("posted again".to_string()));
    let router = router.route("/x", Route::new());
    assert_eq!(answer(&router, HttpMethod::Get, "/x"), Some("got".to_string()));
    assert_eq!(answer(&router, HttpMethod::Post, "/x"), Some("posted again".to_string()));
}

#[test]
fn registering_leaves_other_paths_alone() {
    let router = Router::new()
        .route("/a", get(named("a")))
        .route("/b", post(named("b")))
        .route("/a", post(named("other")));
    assert_eq!(answer(&router, HttpMethod::Get, "/a"), Some("a".to_string()));
    assert_eq!(answer(&router, HttpMethod::Post, "/a"), Some("other".to_string()));
    assert_eq!(answer(&router, HttpMethod::Post, "/b"), Some("b".to_string()));
    assert!(matches!(router.resolve("/b", &HttpMethod::Get), Resolution::MethodNotAllowed));
}

#[test]
fn empty_route_makes_the_path_known() {
    let router = Router::new().route("/nothing", Route::new());
    assert!(matches!(
        router.resolve("/nothing", &HttpMethod::Get),
        Resolution::MethodNotAllowed
    ));
    assert!(matches!(
        router.resolve("/nothing", &HttpMethod::Post),
        Resolution::MethodNotAllowed
    ));
}

#[test]
fn route_lists_its_methods() {
    assert_eq!(Route::new().methods(), Vec::<HttpMethod>::new());
    assert_eq!(get(named("g")).methods(), vec![HttpMethod::Get]);
    assert_eq!(post(named("p")).methods(), vec![HttpMethod::Post]);
    assert_eq!(
        post(named("p")).get(named("g")).methods(),
        vec![HttpMethod::Get, HttpMethod::Post]
    );
}

#[test]
fn route_gives_the_handler_of_a_method() {
    let route = get(named("only"));
    assert!(route.handler(&HttpMethod::Post).is_none());
    let service = route.handler(&HttpMethod::Get).unwrap();
    assert_eq!(service.call(request(HttpMethod::Get, "/", "")).body(), "only");
}

#[test]
fn handler_sees_the_request() {
    let echo = |req: HttpRequest| req.body().clone();
    let router = Router::new().route("/echo", post(echo));
    match router.resolve("/echo", &HttpMethod::Post) {
        Resolution::Matched(service) => {
            let res = service.call(request(HttpMethod::Post, "/echo", "ping"));
            assert_eq!(res.status(), HttpStatus::OK);
            assert_eq!(res.body(), "ping");
        }
        _ => panic!("no handler"),
    }
}

#[test]
fn function_is_a_handler() {
    let res = Handler::call(&teapot, request(HttpMethod::Get, "/", ""));
    assert_eq!(res.status(), HttpStatus::InternalServerError);
    assert_eq!(res.body(), "short and stout");
}

#[test]
fn handler_service_calls_its_handler() {
    let service = HandlerService::new(|req: HttpRequest| format!("path {}", req.path()));
    let res = service.call(request(HttpMethod::Get, "/where", ""));
    assert_eq!(res.body(), "path /where");
    let copy = service.clone();
    assert_eq!(copy.call(request(HttpMethod::Get, "/there", "")).body(), "path /there");
}

#[test]
fn boxed_service_and_its_clones_call_the_same_handler() {
    let calls = Arc::new(Mutex::new(0));
    let handler = {
        let count = Arc::clone(&calls);
        move |req: HttpRequest| {
            *count.lock().unwrap() += 1;
            format!("{} {}", req.method().as_str(), req.path())
        }
    };
    let boxed = BoxCloneService::new(HandlerService::new(handler));
    let copy = boxed.clone();
    assert_eq!(boxed.call(request(HttpMethod::Get, "/one", "")).body(), "GET /one");
    assert_eq!(copy.call(request(HttpMethod::Post, "/two", "")).body(), "POST /two");
    drop(boxed);
    assert_eq!(copy.clone().call(request(HttpMethod::Get, "/three", "")).body(), "GET /three");
    assert_eq!(*calls.lock().unwrap(), 3);
}

#[test]
fn clone_box_forgets_the_type() {
    let service = HandlerService::new(named("boxed"));
    let boxed: BoxCloneService = service.clone_box();
    assert_eq!(boxed.call(request(HttpMethod::Get, "/", "")).body(), "boxed");
    let again: BoxCloneService = boxed.clone_box();
    assert_eq!(again.call(request(HttpMethod::Get, "/", "")).body(), "boxed");
}

#[test]
fn one_handler_under_many_routes() {
    let shared = named("shared");
    let router = Router::new().route("/a", get(shared.clone())).route("/b", post(shared));
    assert_eq!(answer(&router, HttpMethod::Get, "/a"), Some("shared".to_string()));
    assert_eq!(answer(&router, HttpMethod::Post, "/b"), Some("shared".to_string()));
}

#[test]
fn router_can_be_shared() {
    let router = Arc::new(Router::new().route("/", get(named("hi"))));
    assert!(shareable(&router));
    let other = Arc::clone(&router);
    assert_eq!(answer(&other, HttpMethod::Get, "/"), Some("hi".to_string()));
    assert_eq!(answer(&router, HttpMethod::Get, "/"), Some("hi".to_string()));
}
