//! A transport-agnostic HTTP dispatch core: a router that selects an endpoint
//! for a method and a path, a builder that registers endpoints under paths,
//! and the middleware chain that runs around a selected endpoint.

pub mod errors;
pub mod hash_sign;
pub mod http_server;
