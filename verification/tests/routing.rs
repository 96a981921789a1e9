use sfo_http::errors::{ErrorCode, HttpError, HttpResult};
use sfo_http::http_server::router::{decide, method_not_allowed, not_found_endpoint};
use sfo_http::http_server::{
    is_registrable, Endpoint, Found, HttpRouter, Method, Request, Response, Selection, Target,
};

struct Handler(Box<dyn Fn(Request) -> HttpResult<Response>>);

impl Endpoint for Handler {
    fn call(&self, req: Request) -> HttpResult<Response> {
        (self.0)(req)
    }
}

fn named(name: &'static str) -> Handler {
    Handler(Box::new(move |_req| {
        let mut response = Response::new(200);
        response.set_body(name.as_bytes().to_vec());
        Ok(response)
    }))
}

fn pair(name: &str, value: &str) -> (String, String) {
    (name.to_string(), value.to_string())
}

fn body_of(router: &HttpRouter<Handler>, method: Method, path: &str) -> (u16, String) {
    let response = match router.dispatch(Request::new(method, path)) {
        Ok(response) => response,
        Err(e) => panic!("dispatch failed: {}", e.msg),
    };
    (response.status, String::from_utf8(response.body).unwrap())
}

#[test]
fn routes_to_the_registered_endpoint_with_its_parameters() {
    let mut router = HttpRouter::new();
    router.add("/items/:id", Method::Get, named("item"));
    router.add("/users/:user/posts/:post", Method::Post, named("post"));
    router.add("/plain", Method::Put, named("plain"));

    let selection = router.route("/items/42", Method::Get);
    assert_eq!(selection.endpoint, Target::Endpoint(0));
    assert_eq!(selection.params, vec![pair("id", "42")]);

    let selection = router.route("/users/ann/posts/7", Method::Post);
    assert_eq!(selection.endpoint, Target::Endpoint(1));
    assert_eq!(selection.params, vec![pair("post", "7"), pair("user", "ann")]);

    let selection = router.route("/plain", Method::Put);
    assert_eq!(selection.endpoint, Target::Endpoint(2));
    assert!(selection.params.is_empty());
    assert_eq!(router.len(), 3);
}

#[test]
fn item_id_comes_back_as_text() {
    let mut router = HttpRouter::new();
    router.add(
        "/items/:id",
        Method::Get,
        Handler(Box::new(|req| {
            let id = req.param("id")?.to_string();
            let mut response = Response::new(200);
            response.insert_header("Content-Type", "text/plain");
            response.set_body(id.into_bytes());
            Ok(response)
        })),
    );
    let response = router.dispatch(Request::new(Method::Get, "/items/42")).unwrap();
    assert_eq!(response.status, 200);
    assert_eq!(response.body, b"42".to_vec());
    assert_eq!(response.headers, vec![pair("Content-Type", "text/plain")]);
}

#[test]
fn unmatched_path_is_not_found() {
    let mut router = HttpRouter::new();
    router.add("/items/:id", Method::Get, named("item"));
    let selection = router.route("/nothing/here", Method::Get);
    assert_eq!(selection.endpoint, Target::NotFound);
    assert!(selection.params.is_empty());
    assert_eq!(body_of(&router, Method::Get, "/nothing/here"), (404, String::new()));
    assert_eq!(body_of(&router, Method::Post, "/nothing/here"), (404, String::new()));
}

#[test]
fn empty_router_finds_nothing() {
    let router: HttpRouter<Handler> = HttpRouter::new();
    assert_eq!(router.route("/", Method::Get).endpoint, Target::NotFound);
    assert_eq!(router.route("", Method::Head).endpoint, Target::NotFound);
    assert!(router.endpoint(0).is_none());
    assert_eq!(router.len(), 0);
}

#[test]
fn other_method_is_not_allowed() {
    let mut router = HttpRouter::new();
    router.add("/items/:id", Method::Get, named("item"));
    let selection = router.route("/items/42", Method::Post);
    assert_eq!(selection.endpoint, Target::MethodNotAllowed);
    assert!(selection.params.is_empty());
    assert_eq!(body_of(&router, Method::Delete, "/items/42"), (405, String::new()));
}

#[test]
fn head_is_routed_as_get() {
    let mut router = HttpRouter::new();
    router.add("/items/:id", Method::Get, named("item"));
    let head = router.route("/items/42", Method::Head);
    let get = router.route("/items/42", Method::Get);
    assert_eq!(head.endpoint, Target::Endpoint(0));
    assert_eq!(head.endpoint, get.endpoint);
    assert_eq!(head.params, get.params);
    assert_eq!(body_of(&router, Method::Head, "/items/42"), (200, "item".to_string()));
}

#[test]
fn head_of_its_own_wins_over_get() {
    let mut router = HttpRouter::new();
    router.add("/items/:id", Method::Get, named("get"));
    router.add("/items/:id", Method::Head, named("head"));
    assert_eq!(router.route("/items/42", Method::Head).endpoint, Target::Endpoint(1));
}

#[test]
fn head_without_get_is_not_allowed_or_not_found() {
    let mut router = HttpRouter::new();
    router.add("/items", Method::Post, named("post"));
    assert_eq!(router.route("/items", Method::Head).endpoint, Target::MethodNotAllowed);
    assert_eq!(router.route("/other", Method::Head).endpoint, Target::NotFound);
}

#[test]
fn own_table_wins_over_the_table_for_every_method() {
    let mut router = HttpRouter::new();
    router.add_all("/items/:id", named("any"));
    router.add("/items/:id", Method::Get, named("get"));
    assert_eq!(router.route("/items/1", Method::Get).endpoint, Target::Endpoint(1));
    assert_eq!(router.route("/items/1", Method::Post).endpoint, Target::Endpoint(0));
    assert_eq!(router.route("/items/1", Method::Head).endpoint, Target::Endpoint(0));
    assert_eq!(router.route("/items/1", Method::Trace).params, vec![pair("id", "1")]);
}

#[test]
fn literal_segment_wins_over_parameter() {
    let mut router = HttpRouter::new();
    router.add("/posts/:id", Method::Get, named("id"));
    router.add("/posts/new", Method::Get, named("new"));
    assert_eq!(router.route("/posts/new", Method::Get).endpoint, Target::Endpoint(1));
    assert_eq!(router.route("/posts/1", Method::Get).endpoint, Target::Endpoint(0));
}

#[test]
fn later_registration_of_a_pattern_wins() {
    let mut router = HttpRouter::new();
    router.add("/same", Method::Get, named("first"));
    router.add("/same", Method::Get, named("second"));
    assert_eq!(router.route("/same", Method::Get).endpoint, Target::Endpoint(1));
    assert_eq!(body_of(&router, Method::Get, "/same"), (200, "second".to_string()));
}

#[test]
fn parameter_does_not_cross_segments_and_wildcard_does() {
    let mut router = HttpRouter::new();
    router.add("/a/:b", Method::Get, named("param"));
    router.add("/files/*path", Method::Get, named("wild"));
    assert_eq!(router.route("/a/x/y", Method::Get).endpoint, Target::NotFound);
    let selection = router.route("/files/x/y.txt", Method::Get);
    assert_eq!(selection.endpoint, Target::Endpoint(1));
    assert_eq!(selection.params, vec![pair("path", "x/y.txt")]);
    assert_eq!(router.route("/files", Method::Get).endpoint, Target::NotFound);
}

#[test]
fn path_with_nul_matches_nothing() {
    let mut router = HttpRouter::new();
    router.add("/items/:id", Method::Get, named("item"));
    router.add_all("/*all", named("all"));
    let selection = router.route("/items/\0", Method::Get);
    assert_eq!(selection.endpoint, Target::NotFound);
    assert!(selection.params.is_empty());
}

#[test]
fn registrable_patterns() {
    assert!(is_registrable("/items/:id"));
    assert!(is_registrable(""));
    assert!(!is_registrable("/caf\u{e9}"));
    assert!(!is_registrable("/a\0b"));
}

#[test]
fn decide_takes_the_first_answer_that_is_there() {
    let own = || Some(Found { handler: 1, params: vec![pair("a", "1")] });
    let any = || Some(Found { handler: 2, params: vec![pair("b", "2")] });
    let get = || Some(Selection { endpoint: Target::Endpoint(3), params: vec![pair("c", "3")] });

    let s = decide(own(), any(), get(), true);
    assert_eq!((s.endpoint, s.params), (Target::Endpoint(1), vec![pair("a", "1")]));
    let s = decide(None, any(), get(), true);
    assert_eq!((s.endpoint, s.params), (Target::Endpoint(2), vec![pair("b", "2")]));
    let s = decide(None, None, get(), true);
    assert_eq!((s.endpoint, s.params), (Target::Endpoint(3), vec![pair("c", "3")]));
    let s = decide(None, None, None, true);
    assert_eq!((s.endpoint, s.params), (Target::MethodNotAllowed, vec![]));
    let s = decide(None, None, None, false);
    assert_eq!((s.endpoint, s.params), (Target::NotFound, vec![]));
}

#[test]
fn built_in_endpoints_answer_with_bare_status() {
    let response = not_found_endpoint(Request::new(Method::Get, "/x")).unwrap();
    assert_eq!((response.status, response.headers.len(), response.body.len()), (404, 0, 0));
    let response = method_not_allowed(Request::new(Method::Get, "/x")).unwrap();
    assert_eq!((response.status, response.headers.len(), response.body.len()), (405, 0, 0));
}

#[test]
fn failing_endpoint_is_reported_by_dispatch() {
    let mut router = HttpRouter::new();
    router.add(
        "/fail",
        Method::Get,
        Handler(Box::new(|_req| Err(HttpError::new(ErrorCode::IOError, "disk")))),
    );
    let out = router.dispatch(Request::new(Method::Get, "/fail"));
    let e = out.unwrap_err();
    assert_eq!(e.code(), ErrorCode::IOError);
    assert_eq!(e.msg(), "disk");
}

#[test]
fn request_parameters_and_headers() {
    let mut req = Request::new(Method::Get, "/x");
    req.params = vec![pair("id", "7"), pair("id", "8")];
    req.headers = vec![pair("Accept", "a"), pair("Host", "h")];
    assert_eq!(req.param("id").unwrap(), "7");
    let e = req.param("missing").unwrap_err();
    assert_eq!(e.code, ErrorCode::InvalidParam);
    assert_eq!(req.header("Host"), Some("h"));
    assert_eq!(req.header("host"), None);
    assert_eq!(req.path(), "/x");
    assert_eq!(req.method(), Method::Get);
}

#[test]
fn error_codes_have_their_numbers() {
    let codes = [
        ErrorCode::Failed,
        ErrorCode::InvalidData,
        ErrorCode::ConnectFailed,
        ErrorCode::InvalidParam,
        ErrorCode::ServerError,
        ErrorCode::NotFound,
        ErrorCode::IOError,
        ErrorCode::BadRequest,
    ];
    for (i, code) in codes.iter().enumerate() {
        assert_eq!(code.number() as usize, i);
    }
}

#[test]
fn other_methods_share_a_table() {
    let mut router = HttpRouter::new();
    router.add("/items", Method::Get, named("get"));
    router.add_all("/any", named("any"));
    assert_eq!(router.route("/items", Method::Extension).endpoint, Target::MethodNotAllowed);
    assert_eq!(router.route("/any", Method::Extension).endpoint, Target::Endpoint(1));
    assert_eq!(router.route("/none", Method::Extension).endpoint, Target::NotFound);
    router.add("/items", Method::Extension, named("extension"));
    assert_eq!(router.route("/items", Method::Extension).endpoint, Target::Endpoint(2));
    assert_eq!(router.route("/items", Method::Get).endpoint, Target::Endpoint(0));
}
