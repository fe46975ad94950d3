//! A pluggable HTTP transport abstraction.
//!
//! The discord layer speaks to the network only through these traits; a
//! concrete client implements them outside the library.

use vstd::prelude::*;
use crate::discord::AuthorizationToken;

verus! {

/// Hands out requests for a URL; implemented by a concrete HTTP client.
pub trait HttpClient {
    type Request: HttpRequest;

    fn get(&self, url: url::Url) -> Self::Request;
}

/// One request header the discord layer sets.
pub enum HttpHeader {
    Authorization(AuthorizationToken),
    UserAgent(String),
}

/// A request being assembled and sent.
pub trait HttpRequest {
    type Response: HttpResponse;

    type Error;

    fn header(self, header: HttpHeader) -> Self;

    fn body(self, body: &str) -> Self;

    fn send(self) -> Result<Self::Response, Self::Error>;
}

/// The status line of a response.
pub struct HttpStatus {
    pub code: u16,
    pub reason: String,
}

/// A received response.
pub trait HttpResponse {
    type Error;

    fn status(&self) -> HttpStatus;

    fn read_body(&mut self) -> Result<String, std::io::Error>;
}

} // verus!
