//! What a handler hands to the transport: a status, headers, and a body that
//! is either complete or produced while the response is under way.

use vstd::prelude::*;
use vstd::string::StringSliceAdditionalSpecFns;

verus! {

/// A complete body.
pub struct Bytes(pub Vec<u8>);

impl View for Bytes {
    type V = Seq<u8>;

    open spec fn view(&self) -> Seq<u8> {
        self.0@
    }
}

impl From<Vec<u8>> for Bytes {
    fn from(value: Vec<u8>) -> (bytes: Self) {
        Bytes(value)
    }
}

impl vstd::std_specs::convert::FromSpecImpl<Vec<u8>> for Bytes {
    open spec fn obeys_from_spec() -> bool {
        true
    }

    open spec fn from_spec(value: Vec<u8>) -> Self {
        Bytes(value)
    }
}

impl Bytes {
    /// The bytes of `text` in UTF-8.
    pub fn from_text(text: &str) -> (bytes: Self)
        ensures
            bytes@ == text.spec_bytes(),
    {
        Bytes(text.as_bytes_vec())
    }

    /// A copy of `slice`.
    pub fn from_slice(slice: &[u8]) -> (bytes: Self)
        ensures
            bytes@ == slice@,
    {
        Bytes(vstd::slice::slice_to_vec(slice))
    }

    /// Gives up the wrapper for the bytes.
    pub fn into_vec(self) -> (bytes: Vec<u8>)
        ensures
            bytes@ == self@,
    {
        self.0
    }
}

/// One header line.
pub struct Header {
    pub name: String,
    pub value: String,
}

impl View for Header {
    type V = (Seq<char>, Seq<char>);

    open spec fn view(&self) -> (Seq<char>, Seq<char>) {
        (self.name@, self.value@)
    }
}

impl Header {
    /// The header `name: value`.
    pub fn new(name: &str, value: &str) -> (header: Self)
        ensures
            header@ == (name@, value@),
    {
        Header { name: name.to_owned(), value: value.to_owned() }
    }
}

/// The header lines of `headers` as pairs of texts.
pub open spec fn header_lines(headers: Seq<Header>) -> Seq<(Seq<char>, Seq<char>)> {
    Seq::new(headers.len(), |i: int| headers[i]@)
}

/// Where the bytes of a streamed body come from.
pub enum Source {
    /// One frame per change notification, for as long as the client listens.
    ChangeEvents,
    /// The file at `path`, which holds `length` bytes.
    File { path: String, length: u64 },
}

/// A body: complete, or produced while the response is under way.
pub enum Body {
    Buffered(Bytes),
    Streamed(Source),
}

/// What a body is, mathematically.
pub enum BodyModel {
    Buffered(Seq<u8>),
    ChangeEvents,
    File { path: Seq<char>, length: u64 },
}

impl View for Body {
    type V = BodyModel;

    open spec fn view(&self) -> BodyModel {
        match self {
            Body::Buffered(bytes) => BodyModel::Buffered(bytes@),
            Body::Streamed(Source::ChangeEvents) => BodyModel::ChangeEvents,
            Body::Streamed(Source::File { path, length }) => BodyModel::File {
                path: path@,
                length: *length,
            },
        }
    }
}

/// A response, decided once and handed to the transport by value.
pub struct ResponseDescriptor {
    pub status: u16,
    pub headers: Vec<Header>,
    pub body: Body,
}

/// What a response is, mathematically.
pub struct ResponseModel {
    pub status: u16,
    pub headers: Seq<(Seq<char>, Seq<char>)>,
    pub body: BodyModel,
}

impl View for ResponseDescriptor {
    type V = ResponseModel;

    open spec fn view(&self) -> ResponseModel {
        ResponseModel {
            status: self.status,
            headers: header_lines(self.headers@),
            body: self.body@,
        }
    }
}

/// A response with a complete body of text.
pub open spec fn text_response(
    status: u16,
    headers: Seq<(Seq<char>, Seq<char>)>,
    body: Seq<char>,
) -> ResponseModel {
    ResponseModel { status, headers, body: BodyModel::Buffered(vstd::utf8::encode_utf8(body)) }
}

impl ResponseDescriptor {
    /// A response with the given headers and a complete body of text.
    pub fn text(status: u16, headers: Vec<Header>, body: &str) -> (response: Self)
        ensures
            response@ == text_response(status, header_lines(headers@), body@),
    {
        ResponseDescriptor { status, headers, body: Body::Buffered(Bytes::from_text(body)) }
    }

    /// A response with the given headers and a complete body of bytes.
    pub fn buffered(status: u16, headers: Vec<Header>, body: Vec<u8>) -> (response: Self)
        ensures
            response@ == (ResponseModel {
                status,
                headers: header_lines(headers@),
                body: BodyModel::Buffered(body@),
            }),
    {
        ResponseDescriptor { status, headers, body: Body::Buffered(Bytes(body)) }
    }

    /// Whether the body is produced while the response is under way.
    pub fn is_streamed(&self) -> (streamed: bool)
        ensures
            streamed == !(self@.body is Buffered),
    {
        match &self.body {
            Body::Buffered(_) => false,
            Body::Streamed(_) => true,
        }
    }
}

/// The response that stands in for a handler that failed: status 500 with
/// the failure's description as its body, so that the connection lives on.
pub fn handle_error(description: &str) -> (response: ResponseDescriptor)
    ensures
        response@ == text_response(500, Seq::empty(), description@),
{
    let response = ResponseDescriptor::text(500, Vec::new(), description);
    assert(header_lines(Seq::<Header>::empty()) =~= Seq::empty());
    response
}

} // verus!
