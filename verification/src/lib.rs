//! A minimal HTTP/1.1 request handler: a request parser, a response model
//! with its wire format, and a router over a small set of routes.

pub mod application;
pub mod decimal;
pub mod entries;
pub mod handlers;
pub mod headers;
pub mod laws;
pub mod request;
pub mod response;
pub mod store;
pub mod strings;
pub mod text;
