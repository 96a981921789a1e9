//! The settings of a server and the shape of its result envelope.

use vstd::prelude::*;
use vstd::string::{StrSliceExecFns, StringExecFns};
use crate::errors::{code_name, code_number, HttpError, HttpResult};
use super::request::Request;
use super::response::Response;

verus! {

/// The envelope in which a handler's result travels: an error number (zero on
/// success), a message, and the value on success.
pub struct HttpServerResult<T> {
    pub err: u16,
    pub msg: String,
    pub result: Option<T>,
}

impl<T> HttpServerResult<T> {
    /// The envelope of a handler's result. A value travels with the error
    /// number zero and an empty message. A failure travels with the number
    /// of its code and its message, or the name of its code where it has no
    /// message.
    pub fn from_result(ret: Result<T, HttpError>) -> (envelope: Self)
        ensures
            match ret {
                Ok(data) => envelope.err == 0 && envelope.msg@.len() == 0 && envelope.result
                    == Some(data),
                Err(e) => envelope.err == code_number(e.code) && envelope.result is None
                    && envelope.msg@ == (if e.msg@.len() == 0 {
                    code_name(e.code)
                } else {
                    e.msg@
                }),
            },
    {
        match ret {
            Ok(data) => HttpServerResult { err: 0, msg: String::new(), result: Some(data) },
            Err(e) => {
                let msg = if e.msg.as_str().unicode_len() == 0 {
                    String::from_str(e.code.name())
                } else {
                    e.msg
                };
                HttpServerResult { err: e.code.number(), msg, result: None }
            },
        }
    }
}

/// Where a server listens and what its cross-origin answer allows.
#[derive(Debug, Clone)]
pub struct HttpServerConfig {
    pub server_addr: String,
    pub port: u16,
    pub allow_origins: Vec<String>,
    pub allow_methods: Vec<String>,
    pub allow_headers: Vec<String>,
    pub expose_headers: Vec<String>,
    pub max_age: usize,
    pub support_credentials: bool,
}

/// The list that stands for "anything": the single entry `*`.
pub open spec fn is_any(list: Seq<String>) -> bool {
    list.len() == 1 && list[0]@ == "*"@
}

/// The list that stands for "anything".
fn any_list() -> (list: Vec<String>)
    ensures
        is_any(list@),
{
    let mut list: Vec<String> = Vec::new();
    list.push(String::from_str("*"));
    list
}

impl HttpServerConfig {
    /// The settings of a server on the given address and port: nothing is
    /// allowed across origins yet, credentials are not supported, and a
    /// preflight answer may be kept for 3600 seconds.
    pub fn new(server_addr: &str, port: u16) -> (config: Self)
        ensures
            config.server_addr@ == server_addr@,
            config.port == port,
            config.allow_origins@.len() == 0,
            config.allow_methods@.len() == 0,
            config.allow_headers@.len() == 0,
            config.expose_headers@.len() == 0,
            config.max_age == 3600,
            !config.support_credentials,
    {
        Self {
            server_addr: String::from_str(server_addr),
            port,
            allow_origins: Vec::new(),
            allow_methods: Vec::new(),
            allow_headers: Vec::new(),
            expose_headers: Vec::new(),
            max_age: 3600,
            support_credentials: false,
        }
    }

    /// The same settings with the given list of allowed origins.
    pub fn allow_origins(self, origin: Vec<String>) -> (config: Self)
        ensures
            config == (Self { allow_origins: origin, ..self }),
    {
        let mut config = self;
        config.allow_origins = origin;
        config
    }

    /// The same settings with every origin allowed.
    pub fn allow_any_origin(self) -> (config: Self)
        ensures
            is_any(config.allow_origins@),
            config == (Self { allow_origins: config.allow_origins, ..self }),
    {
        let mut config = self;
        config.allow_origins = any_list();
        config
    }

    /// The same settings with the given list of allowed methods.
    pub fn allow_methods(self, methods: Vec<String>) -> (config: Self)
        ensures
            config == (Self { allow_methods: methods, ..self }),
    {
        let mut config = self;
        config.allow_methods = methods;
        config
    }

    /// The same settings with every method allowed.
    pub fn allow_any_methods(self) -> (config: Self)
        ensures
            is_any(config.allow_methods@),
            config == (Self { allow_methods: config.allow_methods, ..self }),
    {
        let mut config = self;
        config.allow_methods = any_list();
        config
    }

    /// The same settings with the given list of allowed request headers.
    pub fn allow_headers(self, headers: Vec<String>) -> (config: Self)
        ensures
            config == (Self { allow_headers: headers, ..self }),
    {
        let mut config = self;
        config.allow_headers = headers;
        config
    }

    /// The same settings with every request header allowed.
    pub fn allow_any_header(self) -> (config: Self)
        ensures
            is_any(config.allow_headers@),
            config == (Self { allow_headers: config.allow_headers, ..self }),
    {
        let mut config = self;
        config.allow_headers = any_list();
        config
    }

    /// The same settings with the given list of exposed response headers.
    pub fn expose_headers(self, headers: Vec<String>) -> (config: Self)
        ensures
            config == (Self { expose_headers: headers, ..self }),
    {
        let mut config = self;
        config.expose_headers = headers;
        config
    }

    /// The same settings with every response header exposed.
    pub fn expose_any_header(self) -> (config: Self)
        ensures
            is_any(config.expose_headers@),
            config == (Self { expose_headers: config.expose_headers, ..self }),
    {
        let mut config = self;
        config.expose_headers = any_list();
        config
    }

    /// The same settings with the given lifetime of a preflight answer, in seconds.
    pub fn max_age(self, age: usize) -> (config: Self)
        ensures
            config == (Self { max_age: age, ..self }),
    {
        let mut config = self;
        config.max_age = age;
        config
    }

    /// The same settings with credentials supported or not.
    pub fn support_credentials(self, support: bool) -> (config: Self)
        ensures
            config == (Self { support_credentials: support, ..self }),
    {
        let mut config = self;
        config.support_credentials = support;
        config
    }
}

/// Something that answers a request with a response, or fails.
///
/// `may_answer` is the implementor's own account of its answers: it says
/// which outcomes `call` can have on a request. Left as it is, it holds of
/// every outcome and so tells nothing.
pub trait Endpoint {
    /// Whether `call` can have this outcome on this request.
    open spec fn may_answer(&self, req: Request, out: HttpResult<Response>) -> bool {
        true
    }

    /// Handles one request.
    fn call(&self, req: Request) -> (out: HttpResult<Response>)
        ensures
            self.may_answer(req, out),
    ;
}

} // verus!
