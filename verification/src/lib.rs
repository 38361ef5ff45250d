//! The core of a small HTTP/1.1 server that answers one request per
//! connection: reading a request from the bytes that a client sent, choosing
//! what to answer, building the response, and writing it as bytes. Reading
//! from and writing to connections and files is left to the caller.

pub mod connection;
pub mod error;
pub mod handlers;
pub mod method;
pub mod request;
pub mod response;
pub mod response_builder;
pub mod round_trip;
pub mod status_code;
pub mod text;
