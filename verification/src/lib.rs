//! A minimal HTTP/1.1 responder.
//!
//! The library answers one request line with one complete response: the root page with
//! `200 OK` for `GET / HTTP/1.1`, an error page with `404 Not Found` for everything else. It
//! does no I/O. A server reads the line from a socket, hands it over, and writes back the
//! bytes it gets.
//!
//! - [`text`]: Unicode white space, trimming and comparison of text.
//! - [`decimal`]: decimal numerals, as the `Content-Length` header needs them.
//! - [`response`]: the response that a request line gets, and its bytes on the wire.
//! - [`connection`]: the life of one connection, as a state machine.

pub mod connection;
pub mod decimal;
pub mod response;
pub mod text;
