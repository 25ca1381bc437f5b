//! A request to the booking service, as the library builds it and the
//! program around it sends it.

use vstd::prelude::*;
use reqwest::header::HeaderMap;
use crate::headers::header_entries;
use crate::structs::PersonConfig;

verus! {

/// The HTTP method of a request.
#[derive(Debug, Clone, Copy, PartialEq, Eq, Structural)]
pub enum HttpMethod {
    Get,
    Post,
}

/// A request to send: method, address, headers, body, query, how long to
/// wait for the reply and whether to follow a redirect.
#[derive(Debug)]
pub struct HttpRequest {
    pub method: HttpMethod,
    pub url: String,
    pub headers: HeaderMap,
    pub body: Option<String>,
    pub query: Option<PersonConfig>,
    pub timeout_secs: Option<u64>,
    pub follow_redirects: bool,
}

/// What a request says, as text and header entries.
pub struct RequestView {
    pub method: HttpMethod,
    pub url: Seq<char>,
    pub headers: Map<Seq<char>, Seq<Seq<u8>>>,
    pub body: Option<Seq<char>>,
    pub query: Option<PersonConfig>,
    pub timeout_secs: Option<u64>,
    pub follow_redirects: bool,
}

impl View for HttpRequest {
    type V = RequestView;

    open spec fn view(&self) -> RequestView {
        RequestView {
            method: self.method,
            url: self.url@,
            headers: header_entries(self.headers),
            body: match self.body {
                Some(b) => Some(b@),
                None => None,
            },
            query: self.query,
            timeout_secs: self.timeout_secs,
            follow_redirects: self.follow_redirects,
        }
    }
}

} // verus!
