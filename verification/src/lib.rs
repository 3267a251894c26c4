//! A minimal HTTP/1.1 server core: request framing, routing, handlers and
//! response encoding, verified down to the wire bytes.
//!
//! The library covers everything that computes: splitting raw bytes into a
//! request line, headers and body, matching (method, path) to a handler,
//! producing a response descriptor, and serializing it with CRLF line endings
//! and an exact `Content-Length`. Socket and filesystem access stay outside;
//! callers hand in the bytes read from a connection and the outcome of a file
//! read or write, and get wire bytes back.

pub mod bytes;
pub mod handlers;
pub mod laws;
pub mod request;
pub mod response;
pub mod split;
