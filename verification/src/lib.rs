//! A small HTTP/1.1 server core: request parsing, routing, the middleware
//! chain and response serialisation, each with a verified contract.
//!
//! The library computes on plain values. Reading a request from a connection,
//! opening files and writing the answer are left to the program that uses it:
//! it hands [`parser::parse_http_request`] the lines it read, lets
//! [`server::HttpServer::dispatch_request`] answer, and writes what
//! [`server::HttpServer::handler_response`] gives it.
pub mod datetime;
pub mod headers;
pub mod method;
pub mod middleware;
pub mod mime_type;
pub mod parser;
pub mod pool;
pub mod request;
pub mod response;
pub mod server;
pub mod text;
