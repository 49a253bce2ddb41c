//! Planning a ranged file response.
//!
//! The serving pipeline is: open the file, read its size, parse the `Range`
//! header, seek, stream. Everything that decides — status code, offset and
//! length of the body, and the response headers — is computed here as a
//! `ResponsePlan`; the caller performs the file operations and feeds back
//! which of them failed.
use vstd::prelude::*;
use crate::numbers::{dec_str, push_dec};
use crate::range::{lemma_parse_within, spec_parse, HttpRange, RangeError};
use crate::text::string_of_chars;

verus! {

/// The HTTP status codes a ranged file response can carry.
#[derive(Debug, Clone, Copy, PartialEq, Eq, Structural)]
pub enum HttpStatus {
    /// 200: the whole resource is served.
    Success,
    /// 206: a sub-range of the resource is served.
    PartialContent,
    /// 404: the resource could not be opened.
    NotFound,
    /// 416: a `Range` header was sent but could not be satisfied.
    RangeNotSatisfiable,
    /// 500: reading the resource's size failed, or seeking in it failed.
    InternalServerError,
}

impl HttpStatus {
    /// The numeric status code.
    pub open spec fn spec_code(self) -> int {
        match self {
            HttpStatus::Success => 200,
            HttpStatus::PartialContent => 206,
            HttpStatus::NotFound => 404,
            HttpStatus::RangeNotSatisfiable => 416,
            HttpStatus::InternalServerError => 500,
        }
    }

    /// The numeric status code.
    pub fn code(&self) -> (c: u16)
        ensures
            c as int == self.spec_code(),
    {
        match self {
            HttpStatus::Success => 200,
            HttpStatus::PartialContent => 206,
            HttpStatus::NotFound => 404,
            HttpStatus::RangeNotSatisfiable => 416,
            HttpStatus::InternalServerError => 500,
        }
    }
}

/// Everything a ranged file response decides: the status, which bytes of the
/// file form the body, and the headers to emit. `Accept-Ranges: bytes` is
/// emitted on every response and is not recorded per plan.
pub struct ResponsePlan {
    /// The status code to respond with.
    pub status: HttpStatus,
    /// First byte of the file to serve.
    pub offset: u64,
    /// Number of bytes to serve.
    pub length: u64,
    /// The `Content-Range` header value, when one is owed.
    pub content_range: Option<String>,
    /// Whether to emit `Content-Encoding: identity`.
    pub content_encoding_identity: bool,
    /// Whether a body is attached at all.
    pub has_body: bool,
}

/// The `Content-Range` value `bytes {start}-{end}/{size}`.
pub open spec fn content_range_text(start: u64, end: u64, size: u64) -> Seq<char> {
    seq!['b', 'y', 't', 'e', 's', ' '] + dec_str(start as int) + seq!['-'] + dec_str(end as int)
        + seq!['/'] + dec_str(size as int)
}

/// The `Content-Range` value `bytes */{size}` sent with a 416.
pub open spec fn content_range_unsat_text(size: u64) -> Seq<char> {
    seq!['b', 'y', 't', 'e', 's', ' ', '*', '/'] + dec_str(size as int)
}

fn content_range_string(start: u64, end: u64, size: u64) -> (r: String)
    ensures
        r@ == content_range_text(start, end, size),
{
    let mut v: Vec<char> = Vec::new();
    v.push('b');
    v.push('y');
    v.push('t');
    v.push('e');
    v.push('s');
    v.push(' ');
    push_dec(&mut v, start);
    v.push('-');
    push_dec(&mut v, end);
    v.push('/');
    push_dec(&mut v, size);
    assert(v@ =~= content_range_text(start, end, size));
    string_of_chars(&v)
}

fn content_range_unsat_string(size: u64) -> (r: String)
    ensures
        r@ == content_range_unsat_text(size),
{
    let mut v: Vec<char> = Vec::new();
    v.push('b');
    v.push('y');
    v.push('t');
    v.push('e');
    v.push('s');
    v.push(' ');
    v.push('*');
    v.push('/');
    push_dec(&mut v, size);
    assert(v@ =~= content_range_unsat_text(size));
    string_of_chars(&v)
}

/// What `plan_response` decides for a readable resource of `size` bytes and
/// the given `Range` header text.
///
/// A header that fails to parse yields a 416 carrying `bytes */{size}`,
/// with the whole resource still attached as the body. A parse with no
/// ranges — no header, or a zero-length first range — serves the whole
/// resource with a 200 and no `Content-Range`. Otherwise the first parsed
/// range alone is served: the body is its bytes, `Content-Range` and
/// `Content-Encoding: identity` are emitted, and the status is 206 unless
/// the range covers the whole resource, which yields a 200.
pub open spec fn plan_matches(p: ResponsePlan, header: Seq<char>, size: u64) -> bool {
    match spec_parse(header, size) {
        Err(_) => {
            &&& p.status is RangeNotSatisfiable
            &&& p.offset == 0
            &&& p.length == size
            &&& match p.content_range {
                Some(cr) => cr@ == content_range_unsat_text(size),
                None => false,
            }
            &&& !p.content_encoding_identity
            &&& p.has_body
        },
        Ok(rs) => if rs.len() == 0 || rs[0].length == 0 {
            &&& p.status is Success
            &&& p.offset == 0
            &&& p.length == size
            &&& p.content_range is None
            &&& !p.content_encoding_identity
            &&& p.has_body
        } else {
            &&& p.offset == rs[0].start
            &&& p.length == rs[0].length
            &&& match p.content_range {
                Some(cr) => cr@ == content_range_text(
                    rs[0].start,
                    (rs[0].start + rs[0].length - 1) as u64,
                    size,
                ),
                None => false,
            }
            &&& p.content_encoding_identity
            &&& p.has_body
            &&& p.status == (if rs[0].start > 0 || rs[0].length < size {
                HttpStatus::PartialContent
            } else {
                HttpStatus::Success
            })
        },
    }
}

/// Plans the response for a resource that was opened and whose size is
/// known, from the raw `Range` header text (empty when none was sent).
pub fn plan_response(header: &str, size: u64) -> (p: ResponsePlan)
    ensures
        plan_matches(p, header@, size),
{
    match HttpRange::parse(header, size) {
        Err(_) => ResponsePlan {
            status: HttpStatus::RangeNotSatisfiable,
            offset: 0,
            length: size,
            content_range: Some(content_range_unsat_string(size)),
            content_encoding_identity: false,
            has_body: true,
        },
        Ok(rs) => {
            if rs.len() == 0 || rs[0].length == 0 {
                ResponsePlan {
                    status: HttpStatus::Success,
                    offset: 0,
                    length: size,
                    content_range: None,
                    content_encoding_identity: false,
                    has_body: true,
                }
            } else {
                let r0 = rs[0];
                proof {
                    lemma_parse_within(header@, size, rs@, 0);
                    assert(r0.within(size));
                }
                let end = r0.start + r0.length - 1;
                let status = if r0.start > 0 || r0.length < size {
                    HttpStatus::PartialContent
                } else {
                    HttpStatus::Success
                };
                ResponsePlan {
                    status,
                    offset: r0.start,
                    length: r0.length,
                    content_range: Some(content_range_string(r0.start, end, size)),
                    content_encoding_identity: true,
                    has_body: true,
                }
            }
        },
    }
}

/// Plans the response when the resource cannot be opened: a bare 404.
pub fn plan_not_found() -> (p: ResponsePlan)
    ensures
        p.status is NotFound,
        !p.has_body,
        p.content_range is None,
        !p.content_encoding_identity,
        p.offset == 0,
        p.length == 0,
{
    ResponsePlan {
        status: HttpStatus::NotFound,
        offset: 0,
        length: 0,
        content_range: None,
        content_encoding_identity: false,
        has_body: false,
    }
}

/// Plans the response when the resource opened but its size could not be
/// read: a bare 500.
pub fn plan_stat_failed() -> (p: ResponsePlan)
    ensures
        p.status is InternalServerError,
        !p.has_body,
        p.content_range is None,
        !p.content_encoding_identity,
        p.offset == 0,
        p.length == 0,
{
    ResponsePlan {
        status: HttpStatus::InternalServerError,
        offset: 0,
        length: 0,
        content_range: None,
        content_encoding_identity: false,
        has_body: false,
    }
}

/// Revises a plan after seeking to its offset failed: the status becomes
/// 500 and the body is abandoned; the headers already decided stay.
pub fn plan_seek_failed(p: ResponsePlan) -> (q: ResponsePlan)
    ensures
        q.status is InternalServerError,
        !q.has_body,
        q.offset == p.offset,
        q.length == p.length,
        q.content_range == p.content_range,
        q.content_encoding_identity == p.content_encoding_identity,
{
    ResponsePlan {
        status: HttpStatus::InternalServerError,
        offset: p.offset,
        length: p.length,
        content_range: p.content_range,
        content_encoding_identity: p.content_encoding_identity,
        has_body: false,
    }
}

/// The value of the `Accept-Ranges` header, emitted on every response.
pub fn accept_ranges_value() -> (r: String)
    ensures
        r@ == "bytes"@,
{
    String::from_str("bytes")
}

} // verus!
