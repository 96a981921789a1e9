//! The dispatch core: settings, requests and responses, routing, the
//! middleware chain, and a server without its transport.

pub mod endpoint;
pub mod http_server;
pub mod middleware;
pub mod request;
pub mod response;
pub mod route;
pub mod router;
pub mod serve_dir;
pub mod server;
pub mod table;
pub mod text;

pub use endpoint::MiddlewareEndpoint;
pub use endpoint::StripPrefixEndpoint;
pub use http_server::Endpoint;
pub use http_server::HttpServerConfig;
pub use http_server::HttpServerResult;
pub use middleware::Middleware;
pub use middleware::Next;
pub use request::Request;
pub use response::Response;
pub use route::Route;
pub use router::HttpRouter;
pub use router::Method;
pub use router::Selection;
pub use router::Target;
pub use serve_dir::ServeDir;
pub use server::HttpServerCore;
pub use table::is_registrable;
pub use table::Found;
