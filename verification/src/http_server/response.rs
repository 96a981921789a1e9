//! Responses: status, headers and body.

use vstd::prelude::*;
use vstd::string::StringExecFns;
use crate::errors::{ErrorCode, HttpError, HttpResult};
use super::text::{pairs_view, same_text, without};

verus! {

/// The status of the built-in answer to a path that nothing is registered for.
pub const NOT_FOUND: u16 = 404;

/// The status of the built-in answer to a path that is registered for other
/// methods only.
pub const METHOD_NOT_ALLOWED: u16 = 405;

/// The status that stands for a failure of an endpoint or a middleware.
pub const INTERNAL_SERVER_ERROR: u16 = 500;

/// A response: status, headers as pairs of name and value, and body.
#[derive(Debug)]
pub struct Response {
    pub status: u16,
    pub headers: Vec<(String, String)>,
    pub body: Vec<u8>,
}

/// A response as plain values.
pub struct ResponseView {
    pub status: u16,
    pub headers: Seq<(Seq<char>, Seq<char>)>,
    pub body: Seq<u8>,
}

impl View for Response {
    type V = ResponseView;

    open spec fn view(&self) -> ResponseView {
        ResponseView { status: self.status, headers: pairs_view(self.headers@), body: self.body@ }
    }
}

/// The texts that `http` takes as the value of a header: those without
/// control characters other than the tabulator.
pub open spec fn valid_header_value(text: Seq<char>) -> bool {
    forall|i: int|
        0 <= i < text.len() ==> ((#[trigger] text[i]) >= ' ' && text[i] != '\u{7f}') || text[i]
            == '\t'
}

/// Calls `http::HeaderValue::from_str` and says whether it took the text.
/// Trusted: it takes a text unless one of its bytes is below 32 and no
/// tabulator, or is 127; the bytes of a character beyond ASCII are all
/// above 127.
#[verifier::external_body]
fn header_value_accepted(text: &str) -> (ok: bool)
    ensures
        ok == valid_header_value(text@),
{
    http::HeaderValue::from_str(text).is_ok()
}

/// The response that has a status and nothing else.
pub open spec fn bare(status: u16) -> ResponseView {
    ResponseView { status, headers: Seq::empty(), body: Seq::empty() }
}

impl Response {
    /// A response with the given status, without headers or body.
    pub fn new(status: u16) -> (response: Self)
        ensures
            response@ == bare(status),
    {
        let response = Response { status, headers: Vec::new(), body: Vec::new() };
        assert(response@.headers =~= Seq::empty());
        response
    }

    /// Sets a header: the pairs with this name leave, and the new pair comes
    /// after those that stay. Names are compared as they are written.
    pub fn insert_header(&mut self, name: &str, value: &str)
        ensures
            final(self)@ == (ResponseView {
                headers: without(old(self)@.headers, name@).push((name@, value@)),
                ..old(self)@
            }),
    {
        let mut kept: Vec<(String, String)> = Vec::new();
        let mut i: usize = 0;
        let ghost before = pairs_view(self.headers@);
        while i < self.headers.len()
            invariant
                i <= self.headers@.len(),
                before == pairs_view(self.headers@),
                pairs_view(kept@) == without(before.take(i as int), name@),
            decreases self.headers@.len() - i,
        {
            proof {
                assert(before.take(i + 1).drop_last() =~= before.take(i as int));
                assert(before.take(i + 1).last() == before[i as int]);
            }
            if !same_text(self.headers[i].0.as_str(), name) {
                let ghost earlier = pairs_view(kept@);
                kept.push(
                    (
                        String::from_str(self.headers[i].0.as_str()),
                        String::from_str(self.headers[i].1.as_str()),
                    ),
                );
                assert(pairs_view(kept@) =~= earlier.push(before[i as int]));
            }
            i = i + 1;
        }
        proof {
            assert(before.take(i as int) =~= before);
        }
        let ghost stayed = pairs_view(kept@);
        kept.push((String::from_str(name), String::from_str(value)));
        assert(pairs_view(kept@) =~= stayed.push((name@, value@)));
        self.headers = kept;
    }

    /// Sets the header `Content-Type`. A text that `http` does not take as
    /// the value of a header is refused with the error `IOError`, and the
    /// response stays as it is.
    pub fn set_content_type(&mut self, content_type: &str) -> (done: HttpResult<()>)
        ensures
            match done {
                Ok(_) => valid_header_value(content_type@) && final(self)@ == (ResponseView {
                    headers: without(old(self)@.headers, "Content-Type"@).push(
                        ("Content-Type"@, content_type@),
                    ),
                    ..old(self)@
                }),
                Err(e) => !valid_header_value(content_type@) && e.code == ErrorCode::IOError
                    && *final(self) == *old(self),
            },
    {
        if header_value_accepted(content_type) {
            self.insert_header("Content-Type", content_type);
            Ok(())
        } else {
            Err(HttpError::new(ErrorCode::IOError, "invalid header value"))
        }
    }

    /// Replaces the body.
    pub fn set_body(&mut self, body: Vec<u8>)
        ensures
            final(self)@ == (ResponseView { body: body@, ..old(self)@ }),
    {
        self.body = body;
    }
}

} // verus!
