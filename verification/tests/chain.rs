use std::sync::{Arc, Mutex};

use sfo_http::errors::{ErrorCode, HttpError, HttpResult};
use sfo_http::http_server::endpoint::{share_all, strip_prefix};
use sfo_http::http_server::middleware::settle;
use sfo_http::http_server::route::{join, Registered};
use sfo_http::http_server::{
    Endpoint, HttpRouter, Method, Middleware, MiddlewareEndpoint, Next, Request, Response, Route,
    StripPrefixEndpoint, Target,
};

type Log = Arc<Mutex<Vec<String>>>;

struct Handler(Box<dyn Fn(Request) -> HttpResult<Response>>);

impl Endpoint for Handler {
    fn call(&self, req: Request) -> HttpResult<Response> {
        (self.0)(req)
    }
}

enum Layer {
    Pass(Log, &'static str),
    Answer(Log, &'static str, u16),
    Fail(Log, &'static str),
    FailAfter(Log, &'static str),
}

impl<E: Endpoint> Middleware<E> for Layer {
    fn handle(&self, req: Request, next: Next<'_, E, Self>) -> HttpResult<Response> {
        match self {
            Layer::Pass(log, name) => {
                log.lock().unwrap().push(format!("{}-before", name));
                let response = next.run(req);
                log.lock().unwrap().push(format!("{}-after", name));
                Ok(response)
            }
            Layer::Answer(log, name, status) => {
                log.lock().unwrap().push(format!("{}-answers", name));
                Ok(Response::new(*status))
            }
            Layer::Fail(log, name) => {
                log.lock().unwrap().push(format!("{}-fails", name));
                Err(HttpError::new(ErrorCode::Failed, "layer"))
            }
            Layer::FailAfter(log, name) => {
                log.lock().unwrap().push(format!("{}-before", name));
                let _ = next.run(req);
                log.lock().unwrap().push(format!("{}-fails", name));
                Err(HttpError::new(ErrorCode::ServerError, "late"))
            }
        }
    }
}

fn logging(log: &Log, body: &'static str) -> Handler {
    let log = log.clone();
    Handler(Box::new(move |req| {
        log.lock().unwrap().push(format!("handler {}", req.path));
        let mut response = Response::new(200);
        response.set_body(body.as_bytes().to_vec());
        Ok(response)
    }))
}

fn entries(log: &Log) -> Vec<String> {
    log.lock().unwrap().clone()
}

fn run(router: &HttpRouter<Registered<Handler, Layer>>, method: Method, path: &str) -> Response {
    settle(router.dispatch(Request::new(method, path)))
}

#[test]
fn middleware_runs_around_the_handler_in_order() {
    let log: Log = Log::default();
    let mut router = HttpRouter::new();
    Route::new(&mut router, "/x".to_string())
        .with(Layer::Pass(log.clone(), "A"))
        .with(Layer::Pass(log.clone(), "B"))
        .get(logging(&log, "done"));
    let response = run(&router, Method::Get, "/x");
    assert_eq!(response.status, 200);
    assert_eq!(response.body, b"done".to_vec());
    assert_eq!(entries(&log), vec!["A-before", "B-before", "handler /x", "B-after", "A-after"]);
}

#[test]
fn next_runs_the_rest_of_the_chain() {
    let log: Log = Log::default();
    let endpoint = logging(&log, "e");
    let list = vec![Arc::new(Layer::Pass(log.clone(), "A")), Arc::new(Layer::Pass(log.clone(), "B"))];
    let next = Next { endpoint: &endpoint, next_middleware: &list[1..] };
    let response = next.run(Request::new(Method::Get, "/r"));
    assert_eq!(response.status, 200);
    assert_eq!(entries(&log), vec!["B-before", "handler /r", "B-after"]);
    let next = Next { endpoint: &endpoint, next_middleware: &list[2..] };
    next.run(Request::new(Method::Get, "/s"));
    assert_eq!(entries(&log).last().unwrap(), "handler /s");
}

#[test]
fn middleware_that_answers_stops_the_chain() {
    let log: Log = Log::default();
    let mut router = HttpRouter::new();
    Route::new(&mut router, "/x".to_string())
        .with(Layer::Pass(log.clone(), "A"))
        .with(Layer::Answer(log.clone(), "B", 429))
        .with(Layer::Pass(log.clone(), "C"))
        .get(logging(&log, "done"));
    let response = run(&router, Method::Get, "/x");
    assert_eq!(response.status, 429);
    assert!(response.body.is_empty());
    assert_eq!(entries(&log), vec!["A-before", "B-answers", "A-after"]);
}

#[test]
fn failing_handler_gives_500() {
    let log: Log = Log::default();
    let mut router = HttpRouter::new();
    Route::new(&mut router, "/x".to_string())
        .with(Layer::Pass(log.clone(), "A"))
        .get(Handler(Box::new(|_req| Err(HttpError::new(ErrorCode::IOError, "secret detail")))));
    let response = run(&router, Method::Get, "/x");
    assert_eq!(response.status, 500);
    assert!(response.body.is_empty());
    assert!(response.headers.is_empty());
    assert_eq!(entries(&log), vec!["A-before", "A-after"]);
}

#[test]
fn failing_middleware_gives_500() {
    let log: Log = Log::default();
    let mut router = HttpRouter::new();
    Route::new(&mut router, "/early".to_string())
        .with(Layer::Pass(log.clone(), "A"))
        .with(Layer::Fail(log.clone(), "B"))
        .get(logging(&log, "done"));
    Route::new(&mut router, "/late".to_string())
        .with(Layer::FailAfter(log.clone(), "C"))
        .get(logging(&log, "done"));
    let response = run(&router, Method::Get, "/early");
    assert_eq!((response.status, response.body.len()), (500, 0));
    assert_eq!(entries(&log), vec!["A-before", "B-fails", "A-after"]);
    log.lock().unwrap().clear();
    let response = run(&router, Method::Get, "/late");
    assert_eq!((response.status, response.body.len()), (500, 0));
    assert_eq!(entries(&log), vec!["C-before", "handler /late", "C-fails"]);
}

#[test]
fn endpoint_behind_middleware_never_fails() {
    let list = vec![Arc::new(Layer::Fail(Log::default(), "A"))];
    let wrapped = MiddlewareEndpoint::wrap_with_middleware(logging(&Log::default(), "x"), &list);
    let response = wrapped.call(Request::new(Method::Get, "/x")).unwrap();
    assert_eq!(response.status, 500);
    let bare: MiddlewareEndpoint<Handler, Layer> =
        MiddlewareEndpoint::wrap_with_middleware(logging(&Log::default(), "x"), &[]);
    let response = bare.call(Request::new(Method::Get, "/x")).unwrap();
    assert_eq!((response.status, response.body), (200, b"x".to_vec()));
}

#[test]
fn settle_keeps_a_response_and_hides_a_failure() {
    let mut ok = Response::new(201);
    ok.set_body(vec![1, 2, 3]);
    let response = settle(Ok(ok));
    assert_eq!((response.status, response.body), (201, vec![1, 2, 3]));
    let response = settle(Err(HttpError::new(ErrorCode::NotFound, "where")));
    assert_eq!(response.status, 500);
    assert!(response.headers.is_empty());
    assert!(response.body.is_empty());
}

#[test]
fn prefix_mount_answers_for_the_path_and_below() {
    let log: Log = Log::default();
    let mut router = HttpRouter::new();
    Route::new(&mut router, "/assets".to_string())
        .with(Layer::Pass(log.clone(), "A"))
        .serve_dir(logging(&log, "dir"));
    assert_eq!(router.len(), 2);
    let first = router.endpoint(0).unwrap();
    let second = router.endpoint(1).unwrap();
    assert!(Arc::ptr_eq(&first.endpoint.endpoint, &second.endpoint.endpoint));
    assert!(first.endpoint.strip && second.endpoint.strip);

    let bare = router.route("/assets", Method::Get);
    assert_eq!(bare.endpoint, Target::Endpoint(0));
    assert!(bare.params.is_empty());
    let below = router.route("/assets/x/y", Method::Get);
    assert_eq!(below.endpoint, Target::Endpoint(1));
    assert_eq!(below.params, vec![("rest".to_string(), "x/y".to_string())]);

    assert_eq!(run(&router, Method::Get, "/assets").status, 200);
    assert_eq!(run(&router, Method::Get, "/assets/x/y").status, 200);
    assert_eq!(run(&router, Method::Head, "/assets/x/y").status, 200);
    assert_eq!(run(&router, Method::Post, "/assets/x/y").status, 405);
    assert_eq!(run(&router, Method::Get, "/other").status, 404);
    assert_eq!(
        entries(&log),
        vec![
            "A-before", "handler ", "A-after", "A-before", "handler x/y", "A-after", "A-before",
            "handler x/y", "A-after",
        ]
    );
}

#[test]
fn strip_prefix_leaves_the_rest_as_path() {
    let mut req = Request::new(Method::Get, "/assets/x/y");
    req.params = vec![("rest".to_string(), "x/y".to_string())];
    req.query = "q=1".to_string();
    let inner = strip_prefix(req);
    assert_eq!(inner.path, "x/y");
    assert_eq!(inner.query, "q=1");
    assert_eq!(inner.params.len(), 1);
    let inner = strip_prefix(Request::new(Method::Get, "/assets"));
    assert_eq!(inner.path, "");
    let plain = StripPrefixEndpoint::plain(logging(&Log::default(), "p"));
    assert!(!plain.strip);
    assert!(StripPrefixEndpoint::new(logging(&Log::default(), "p")).strip);
}

#[test]
fn sub_routes_join_paths_and_copy_middleware() {
    let log: Log = Log::default();
    let mut router: HttpRouter<Registered<Handler, Layer>> = HttpRouter::new();
    let mut root = Route::new(&mut router, "/api".to_string());
    root.with(Layer::Pass(log.clone(), "A"));
    {
        let mut sub = root.at("v1");
        assert_eq!(sub.path(), "/api/v1");
        sub.with(Layer::Pass(log.clone(), "B"));
        sub.get(logging(&log, "v1"));
        let mut deeper = sub.at("/items/");
        assert_eq!(deeper.path(), "/api/v1/items/");
        assert_eq!(deeper.at("/").path(), "/api/v1/items/");
        assert_eq!(deeper.at("x").path(), "/api/v1/items/x");
        assert_eq!(deeper.at("/x").path(), "/api/v1/items//x");
        deeper.reset_middleware().post(logging(&log, "items"));
    }
    assert_eq!(root.path(), "/api");
    assert_eq!(root.middleware.len(), 1);
    root.all(logging(&log, "api"));

    assert_eq!(run(&router, Method::Get, "/api/v1").body, b"v1".to_vec());
    assert_eq!(entries(&log), vec!["A-before", "B-before", "handler /api/v1", "B-after", "A-after"]);
    log.lock().unwrap().clear();
    assert_eq!(run(&router, Method::Post, "/api/v1/items/").body, b"items".to_vec());
    assert_eq!(entries(&log), vec!["handler /api/v1/items/"]);
    log.lock().unwrap().clear();
    assert_eq!(run(&router, Method::Patch, "/api").body, b"api".to_vec());
    assert_eq!(entries(&log), vec!["A-before", "handler /api", "A-after"]);
}

#[test]
fn join_puts_one_separator() {
    assert_eq!(join("/a", "b"), "/a/b");
    assert_eq!(join("/a/", "b"), "/a/b");
    assert_eq!(join("/a", "/b"), "/a/b");
    assert_eq!(join("/a/", "/b"), "/a//b");
    assert_eq!(join("/a", "/"), "/a");
    assert_eq!(join("/a/", "/"), "/a/");
    assert_eq!(join("", "x"), "/x");
    assert_eq!(join("", ""), "/");
    assert_eq!(join("/a", "*rest"), "/a/*rest");
}

#[test]
fn each_method_has_its_shorthand() {
    let log: Log = Log::default();
    let mut router: HttpRouter<Registered<Handler, Layer>> = HttpRouter::new();
    {
        let mut route = Route::new(&mut router, "/m".to_string());
        route
            .get(logging(&log, "get"))
            .head(logging(&log, "head"))
            .put(logging(&log, "put"))
            .post(logging(&log, "post"))
            .delete(logging(&log, "delete"))
            .options(logging(&log, "options"))
            .connect(logging(&log, "connect"))
            .patch(logging(&log, "patch"))
            .trace(logging(&log, "trace"));
        route.at("file").serve_file(logging(&log, "file"));
        route.at("other").method(Method::Put, logging(&log, "other"));
    }
    let expected = [
        (Method::Get, "get"),
        (Method::Head, "head"),
        (Method::Put, "put"),
        (Method::Post, "post"),
        (Method::Delete, "delete"),
        (Method::Options, "options"),
        (Method::Connect, "connect"),
        (Method::Patch, "patch"),
        (Method::Trace, "trace"),
    ];
    for (method, body) in expected {
        assert_eq!(run(&router, method, "/m").body, body.as_bytes().to_vec());
    }
    assert_eq!(run(&router, Method::Get, "/m/file").body, b"file".to_vec());
    assert_eq!(run(&router, Method::Post, "/m/file").status, 405);
    assert_eq!(run(&router, Method::Put, "/m/other").body, b"other".to_vec());
}

#[test]
fn shared_list_leads_to_the_same_values() {
    let list = vec![Arc::new(5u32), Arc::new(6u32)];
    let copy = share_all(&list);
    assert_eq!(copy.len(), 2);
    assert!(Arc::ptr_eq(&list[0], &copy[0]));
    assert!(Arc::ptr_eq(&list[1], &copy[1]));
}
