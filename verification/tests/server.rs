use sfo_http::errors::{ErrorCode, HttpError, HttpResult};
use sfo_http::http_server::request::{
    find_cookie, find_first, find_first_listed, find_forwarded, find_last, has_prefix,
};
use sfo_http::http_server::server::{allowed_value, answer, cors_headers, decimal};
use sfo_http::http_server::text::{is_visible_ascii, split, trim};
use sfo_http::http_server::serve_dir::{file_response, Opened};
use sfo_http::http_server::{
    Endpoint, HttpServerConfig, HttpServerCore, Method, Middleware, Next, Request, Response,
    ServeDir,
};

struct Handler(Box<dyn Fn(Request) -> HttpResult<Response>>);

impl Endpoint for Handler {
    fn call(&self, req: Request) -> HttpResult<Response> {
        (self.0)(req)
    }
}

struct NoLayer;

impl<E: Endpoint> Middleware<E> for NoLayer {
    fn handle(&self, req: Request, next: Next<'_, E, Self>) -> HttpResult<Response> {
        Ok(next.run(req))
    }
}

fn pair(name: &str, value: &str) -> (String, String) {
    (name.to_string(), value.to_string())
}

fn list(items: &[&str]) -> Vec<String> {
    items.iter().map(|s| s.to_string()).collect()
}

#[test]
fn numbers_in_decimal() {
    assert_eq!(decimal(0), "0");
    assert_eq!(decimal(7), "7");
    assert_eq!(decimal(10), "10");
    assert_eq!(decimal(3600), "3600");
    assert_eq!(decimal(1234567890), "1234567890");
    assert_eq!(decimal(usize::MAX), usize::MAX.to_string());
}

#[test]
fn allowed_lists() {
    assert_eq!(allowed_value(&list(&[]), "ANY"), "");
    assert_eq!(allowed_value(&list(&["a"]), "ANY"), "a");
    assert_eq!(allowed_value(&list(&["a", "b", "c"]), "ANY"), "a, b, c");
    assert_eq!(allowed_value(&list(&["a", "*", "c"]), "ANY"), "ANY");
    assert_eq!(allowed_value(&list(&["*"]), "ANY"), "ANY");
    assert_eq!(allowed_value(&list(&["**"]), "ANY"), "**");
}

#[test]
fn cors_headers_of_the_settings() {
    let config = HttpServerConfig::new("127.0.0.1", 8080);
    assert_eq!(cors_headers(&config), vec![pair("access-control-max-age", "3600")]);

    let config = HttpServerConfig::new("127.0.0.1", 8080)
        .allow_any_methods()
        .allow_origins(list(&["https://a.example", "https://b.example"]))
        .allow_any_header()
        .expose_headers(list(&["x-a"]))
        .support_credentials(true)
        .max_age(60);
    assert_eq!(
        cors_headers(&config),
        vec![
            pair("access-control-allow-methods", "GET, POST, PUT, DELETE, OPTIONS"),
            pair("access-control-allow-origin", "https://a.example, https://b.example"),
            pair("access-control-allow-headers", "*"),
            pair("access-control-expose-headers", "x-a"),
            pair("access-control-allow-credentials", "true"),
            pair("access-control-max-age", "60"),
        ]
    );
    let config = HttpServerConfig::new("h", 1).allow_any_origin().allow_methods(list(&["GET"]));
    assert_eq!(
        cors_headers(&config),
        vec![
            pair("access-control-allow-methods", "GET"),
            pair("access-control-allow-origin", "*"),
            pair("access-control-max-age", "3600"),
        ]
    );
}

#[test]
fn server_answers_with_its_headers() {
    let config = HttpServerConfig::new("127.0.0.1", 8080).allow_any_origin().max_age(5);
    let mut server: HttpServerCore<Handler, NoLayer> = HttpServerCore::new(config);
    assert_eq!(server.config.port, 8080);
    server.serve(
        "/test1/:name",
        Method::Get,
        Handler(Box::new(|req| {
            let mut response = Response::new(200);
            response.insert_header("access-control-max-age", "1");
            response.set_body(req.param("name")?.as_bytes().to_vec());
            Ok(response)
        })),
    );
    server.serve(
        "/fail",
        Method::Post,
        Handler(Box::new(|_req| Err(HttpError::new(ErrorCode::Failed, "inner detail")))),
    );
    server.serve_file(
        "/file",
        Handler(Box::new(|_req| Ok(Response::new(204)))),
    );
    server.serve_dir(
        "/dir",
        Handler(Box::new(|req| {
            let mut response = Response::new(200);
            response.set_body(req.path.into_bytes());
            Ok(response)
        })),
    );

    let response = server.handle(Request::new(Method::Get, "/test1/test"));
    assert_eq!((response.status, response.body), (200, b"test".to_vec()));
    assert_eq!(
        response.headers,
        vec![pair("access-control-allow-origin", "*"), pair("access-control-max-age", "5")]
    );

    let response = server.handle(Request::new(Method::Post, "/fail"));
    assert_eq!(response.status, 500);
    assert_eq!(response.headers.len(), 2);
    assert!(response.body.is_empty());

    let response = server.handle(Request::new(Method::Get, "/nothing"));
    assert_eq!(response.status, 404);
    assert_eq!(response.headers.len(), 2);
    let response = server.handle(Request::new(Method::Get, "/fail"));
    assert_eq!(response.status, 405);
    assert_eq!(server.handle(Request::new(Method::Get, "/file")).status, 204);
    assert_eq!(server.handle(Request::new(Method::Get, "/dir")).body, b"".to_vec());
    assert_eq!(server.handle(Request::new(Method::Get, "/dir/a/b.txt")).body, b"a/b.txt".to_vec());
}

#[test]
fn answer_sets_headers_or_hides_the_failure() {
    let extra = vec![pair("a", "1"), pair("b", "2"), pair("a", "3")];
    let mut response = Response::new(201);
    response.insert_header("b", "0");
    response.insert_header("c", "9");
    let response = answer(Ok(response), &extra);
    assert_eq!(response.status, 201);
    assert_eq!(response.headers, vec![pair("c", "9"), pair("b", "2"), pair("a", "3")]);
    let response = answer(Err(HttpError::new(ErrorCode::IOError, "x")), &extra);
    assert_eq!((response.status, response.headers.len(), response.body.len()), (500, 0, 0));
}

#[test]
fn cookies_of_a_request() {
    let mut req = Request::new(Method::Get, "/");
    assert_eq!(req.get_cookie("a"), None);
    req.headers = vec![
        pair("cookie", "a=first"),
        pair("accept", "*/*"),
        pair("cookie", "a=1; b = two ;c=3=4; d; a=again;e="),
    ];
    assert_eq!(req.get_cookie("a"), Some("1".to_string()));
    assert_eq!(req.get_cookie("b"), Some("two".to_string()));
    assert_eq!(req.get_cookie("c"), None);
    assert_eq!(req.get_cookie("d"), None);
    assert_eq!(req.get_cookie("e"), Some(String::new()));
    assert_eq!(req.get_cookie("missing"), None);
    req.headers.push(pair("cookie", "a=caf\u{e9}"));
    assert_eq!(req.get_cookie("a"), None);
    req.headers.push(pair("Cookie", "a=upper"));
    assert_eq!(req.get_cookie("a"), None);
    req.headers.push(pair("cookie", "\ta\t=\tx y\t"));
    assert_eq!(req.get_cookie("a"), Some("x y".to_string()));
}

#[test]
fn cookie_text_is_cut_and_trimmed() {
    assert_eq!(find_cookie("k=v", "k"), Some("v".to_string()));
    assert_eq!(find_cookie("", "k"), None);
    assert_eq!(find_cookie("=v", ""), Some("v".to_string()));
    assert_eq!(find_cookie("k=v;k=w", "k"), Some("v".to_string()));
    assert_eq!(find_cookie("k=v=w;k=w", "k"), Some("w".to_string()));
    assert_eq!(split("a;b;;c", b';'), vec!["a", "b", "", "c"]);
    assert_eq!(split("", b';'), vec![""]);
    assert_eq!(split(";", b';'), vec!["", ""]);
    assert_eq!(split("abc", b'='), vec!["abc"]);
    assert_eq!(trim("  a b \t"), "a b");
    assert_eq!(trim(" \t\r\n"), "");
    assert_eq!(trim(""), "");
    assert_eq!(trim("x"), "x");
    assert!(is_visible_ascii("abc ~\t"));
    assert!(is_visible_ascii(""));
    assert!(!is_visible_ascii("a\nb"));
    assert!(!is_visible_ascii("a\u{7f}"));
    assert!(!is_visible_ascii("\u{e9}"));
}

#[test]
fn first_and_last_of_a_name() {
    let pairs = vec![pair("a", "1"), pair("b", "2"), pair("a", "3")];
    assert_eq!(find_first(&pairs, "a"), Some("1"));
    assert_eq!(find_last(&pairs, "a"), Some("3"));
    assert_eq!(find_first(&pairs, "b"), find_last(&pairs, "b"));
    assert_eq!(find_first(&pairs, "c"), None);
    assert_eq!(find_last(&pairs, "c"), None);
    assert_eq!(find_last(&vec![], "a"), None);
}

#[test]
fn body_is_taken_once() {
    let mut req = Request::new(Method::Post, "/");
    assert_eq!(req.body_bytes().unwrap_err().code, ErrorCode::InvalidData);
    req.body = Some(vec![1, 2]);
    req.headers.push(pair("content-type", "application/json"));
    req.peer_addr = Some("10.0.0.1:5000".to_string());
    assert_eq!(req.body_bytes().unwrap(), vec![1, 2]);
    assert_eq!(req.body_bytes().unwrap_err().code, ErrorCode::InvalidData);
    assert_eq!(req.content_type(), Some("application/json"));
    assert_eq!(req.peer_addr(), Some("10.0.0.1:5000"));
    assert_eq!(req.local_addr(), None);
}

#[test]
fn far_end_of_a_request() {
    let mut req = Request::new(Method::Get, "/");
    assert_eq!(req.remote(), None);
    req.peer_addr = Some("10.0.0.1:5000".to_string());
    assert_eq!(req.remote(), Some("10.0.0.1:5000".to_string()));
    req.headers.push(pair("x-forwarded-for", " 203.0.113.7 , 10.0.0.2"));
    req.headers.push(pair("x-forwarded-for", "198.51.100.1"));
    assert_eq!(req.remote(), Some("203.0.113.7".to_string()));
    req.headers.push(pair("forwarded", "by=proxy; proto=https"));
    assert_eq!(req.remote(), Some("203.0.113.7".to_string()));
    req.headers.insert(0, pair("forwarded", "by=proxy; for=192.0.2.60 ;for=other"));
    assert_eq!(req.remote(), Some("192.0.2.60".to_string()));
    req.headers.insert(0, pair("forwarded", "for=caf\u{e9}"));
    assert_eq!(req.remote(), Some("203.0.113.7".to_string()));
}

#[test]
fn host_of_a_request() {
    let mut req = Request::new(Method::Get, "/");
    assert_eq!(req.host(), None);
    req.authority = Some("authority.example:8080".to_string());
    assert_eq!(req.host(), Some("authority.example:8080".to_string()));
    req.headers.push(pair("host", "host.example"));
    assert_eq!(req.host(), Some("host.example".to_string()));
    req.headers.push(pair("x-forwarded-host", "first.example, second.example"));
    assert_eq!(req.host(), Some("first.example".to_string()));
    req.headers.push(pair("forwarded", "for=192.0.2.60;host=forwarded.example;proto=http"));
    assert_eq!(req.host(), Some("forwarded.example".to_string()));
    assert_eq!(req.remote(), Some("192.0.2.60".to_string()));
}

#[test]
fn forwarded_pieces_and_lists() {
    assert_eq!(find_forwarded("for=a;host=b", "host="), Some("b".to_string()));
    assert_eq!(find_forwarded("for=a; host=", "host="), Some(String::new()));
    assert_eq!(find_forwarded("for=a", "host="), None);
    assert_eq!(find_forwarded("", "for="), None);
    assert_eq!(find_forwarded("xfor=a;  for=b  ", "for="), Some("b".to_string()));
    assert_eq!(find_forwarded("For=a", "for="), None);
    assert_eq!(find_first_listed("a, b"), "a");
    assert_eq!(find_first_listed(""), "");
    assert_eq!(find_first_listed(" , b"), "");
    assert_eq!(find_first_listed("  only  "), "only");
    assert!(has_prefix("for=x", "for="));
    assert!(has_prefix("for=", "for="));
    assert!(has_prefix("x", ""));
    assert!(!has_prefix("fo", "for="));
    assert!(!has_prefix("fox=", "for="));
}

#[test]
fn hyper_server_test() {
    let mut server: HttpServerCore<Handler, NoLayer> =
        HttpServerCore::new(HttpServerConfig::new("127.0.0.1", 8082));
    server.serve(
        "/test1/:name",
        Method::Get,
        Handler(Box::new(|req| {
            let name = req.param("name").unwrap().to_string();
            let mut resp = Response::new(200);
            resp.set_content_type("application/text")?;
            resp.set_body(name.as_bytes().to_owned());
            Ok(resp)
        })),
    );
    server.serve(
        "/test2",
        Method::Post,
        Handler(Box::new(|mut req| {
            let query = req.query.clone();
            let body = req.body_bytes()?;
            assert_eq!(req.content_type(), Some("application/json"));
            let mut resp = Response::new(200);
            resp.set_body(query.into_bytes());
            resp.set_body(body);
            Ok(resp)
        })),
    );
    let manifest: &'static [u8] = b"[package]\nname = \"sfo-http\"\n";
    let served = ServeDir::new(vec![b"srv".to_vec()]);
    server.serve_dir(
        "/test3",
        Handler(Box::new(move |req| match served.resolve(req.path().as_bytes()) {
            Some(names) if names == vec![b"srv".to_vec(), b"Cargo.toml".to_vec()] => {
                file_response(true, Opened::Content(manifest.to_vec()))
            }
            Some(_) => file_response(true, Opened::Missing),
            None => file_response(false, Opened::Missing),
        })),
    );

    let mut post = Request::new(Method::Post, "/test2");
    post.query = "a=test&b=1".to_string();
    post.headers.push(pair("content-type", "application/json"));
    post.body = Some(b"{\"a\":\"test\",\"b\":1}".to_vec());
    let resp = server.handle(post);
    assert_eq!(resp.status, 200);
    assert_eq!(resp.body, b"{\"a\":\"test\",\"b\":1}".to_vec());

    let resp = server.handle(Request::new(Method::Get, "/test1/test"));
    assert_eq!(resp.status, 200);
    assert_eq!(resp.body, "test".as_bytes());
    assert!(resp.headers.contains(&pair("Content-Type", "application/text")));

    let resp = server.handle(Request::new(Method::Get, "/test3/Cargo.toml"));
    assert_eq!(resp.status, 200);
    assert_eq!(resp.body, manifest);
    assert_eq!(server.handle(Request::new(Method::Get, "/test3/missing.txt")).status, 404);
    assert_eq!(server.handle(Request::new(Method::Get, "/test3/../../etc/passwd")).status, 403);
}
