//! HTTP `Range` header parsing.
//!
//! A header such as `bytes=0-499,9500-` is split into comma-separated pieces;
//! each piece is either a suffix form (`-500`, the last 500 bytes) or an
//! explicit form (`start-` or `start-end`). Whitespace around pieces and
//! around the `-` separator is tolerated, empty pieces are discarded, and a
//! piece whose start lies beyond the resource is dropped while parsing
//! continues. The parse fails only as `spec_parse` describes.
use vstd::prelude::*;
use crate::numbers::parse_signed;
use crate::numbers::parse_signed_range;
use crate::text::{chars_of, find_char, find_in, lemma_find_char_props, trim, trim_bounds};

verus! {

/// One contiguous byte range of a resource: `length` bytes starting at `start`.
#[derive(Debug, Clone, Copy, PartialEq, Eq, Structural)]
pub struct HttpRange {
    /// Start of range.
    pub start: u64,

    /// Length of range.
    pub length: u64,
}

/// Why a `Range` header failed to parse.
#[derive(Debug, Clone, Copy, PartialEq, Eq, Structural)]
pub enum RangeError {
    /// The header does not begin with the literal `bytes=`.
    MissingUnitPrefix,
    /// A piece has no `-` separator.
    InvalidRange,
    /// A start or end position is not a well-formed signed integer, or a
    /// suffix length is negative.
    ParsingError,
    /// An explicit range runs backwards.
    StartAfterEnd,
    /// An explicit start position is negative.
    StartIsNegative,
    /// A start lay beyond the resource and no piece produced a range.
    NoRanges,
}

/// What one trimmed piece of the header contributes.
pub enum Piece {
    /// The piece was blank and is discarded.
    Empty,
    /// The start lay at or beyond the resource size; the piece is dropped
    /// but the failed overlap is recorded.
    NoOverlap,
    /// The piece names this range.
    Found(HttpRange),
}

impl HttpRange {
    /// A range lies within a resource of `size` bytes.
    pub open spec fn within(self, size: u64) -> bool {
        self.start + self.length <= size
    }
}

/// A suffix piece `-N`: the last `N` bytes, clamped to the resource size.
/// `et` is the trimmed text after the `-`.
pub open spec fn parse_suffix(et: Seq<char>, size: u64) -> Result<Piece, RangeError> {
    match parse_signed(et) {
        None => Err(RangeError::ParsingError),
        Some(n) => if n < 0 {
            Err(RangeError::ParsingError)
        } else {
            let l = if n > size { size as int } else { n };
            Ok(Piece::Found(HttpRange { start: (size - l) as u64, length: l as u64 }))
        },
    }
}

/// An explicit piece `start-` or `start-end`: `st` and `et` are the trimmed
/// texts before and after the `-`. An absent end runs to the end of the
/// resource; a present end is clamped to the last byte.
pub open spec fn parse_explicit(st: Seq<char>, et: Seq<char>, size: u64) -> Result<
    Piece,
    RangeError,
> {
    match parse_signed(st) {
        None => Err(RangeError::ParsingError),
        Some(s0) => if s0 < 0 {
            Err(RangeError::StartIsNegative)
        } else if s0 >= size {
            Ok(Piece::NoOverlap)
        } else if et.len() == 0 {
            Ok(Piece::Found(HttpRange { start: s0 as u64, length: (size - s0) as u64 }))
        } else {
            match parse_signed(et) {
                None => Err(RangeError::ParsingError),
                Some(e) => if s0 > e {
                    Err(RangeError::StartAfterEnd)
                } else {
                    let e2 = if e >= size { size - 1 } else { e };
                    Ok(
                        Piece::Found(
                            HttpRange { start: s0 as u64, length: (e2 - s0 + 1) as u64 },
                        ),
                    )
                },
            }
        },
    }
}

/// What the trimmed piece `t` contributes to the parse.
pub open spec fn parse_piece(t: Seq<char>, size: u64) -> Result<Piece, RangeError> {
    if t.len() == 0 {
        Ok(Piece::Empty)
    } else {
        let i = find_char(t, '-');
        if i >= t.len() {
            Err(RangeError::InvalidRange)
        } else {
            let st = trim(t.subrange(0, i));
            let et = trim(t.subrange(i + 1, t.len() as int));
            if st.len() == 0 {
                parse_suffix(et, size)
            } else {
                parse_explicit(st, et, size)
            }
        }
    }
}

/// The ranges a piece contributes.
pub open spec fn piece_ranges(p: Piece) -> Seq<HttpRange> {
    match p {
        Piece::Found(r) => seq![r],
        _ => Seq::empty(),
    }
}

/// Parses the comma-separated pieces of `s` (the header text after `bytes=`)
/// in order. Returns the ranges found and whether any piece was dropped for
/// lying beyond the resource; the first piece that is in error fails the
/// whole parse.
pub open spec fn parse_tail(s: Seq<char>, size: u64) -> Result<
    (Seq<HttpRange>, bool),
    RangeError,
>
    decreases s.len(),
    via parse_tail_dec
{
    let i = find_char(s, ',');
    if i >= s.len() {
        match parse_piece(trim(s), size) {
            Err(e) => Err(e),
            Ok(p) => Ok((piece_ranges(p), p is NoOverlap)),
        }
    } else {
        match parse_piece(trim(s.subrange(0, i)), size) {
            Err(e) => Err(e),
            Ok(p) => match parse_tail(s.subrange(i + 1, s.len() as int), size) {
                Err(e) => Err(e),
                Ok(t) => Ok((piece_ranges(p) + t.0, (p is NoOverlap) || t.1)),
            },
        }
    }
}

#[via_fn]
proof fn parse_tail_dec(s: Seq<char>, size: u64) {
    lemma_find_char_props(s, ',');
}

/// The header begins with the literal `bytes=`.
pub open spec fn has_bytes_prefix(s: Seq<char>) -> bool {
    s.len() >= 6 && s[0] == 'b' && s[1] == 'y' && s[2] == 't' && s[3] == 'e' && s[4] == 's'
        && s[5] == '='
}

/// What `HttpRange::parse` returns for a header with the given text, against
/// a resource of `size` bytes. An empty header is no range request and
/// yields no ranges; a header without the `bytes=` prefix is refused; the
/// rest of the header parses as `parse_tail` describes, and a parse in which
/// a piece was dropped for lying beyond the resource while no piece produced
/// a range fails with `NoRanges`.
pub open spec fn spec_parse(header: Seq<char>, size: u64) -> Result<Seq<HttpRange>, RangeError> {
    if header.len() == 0 {
        Ok(Seq::empty())
    } else if !has_bytes_prefix(header) {
        Err(RangeError::MissingUnitPrefix)
    } else {
        match parse_tail(header.subrange(6, header.len() as int), size) {
            Err(e) => Err(e),
            Ok(t) => if t.1 && t.0.len() == 0 {
                Err(RangeError::NoRanges)
            } else {
                Ok(t.0)
            },
        }
    }
}

/// Parses the untrimmed piece `v[lo..hi]`, as `parse_piece` describes on its
/// trimmed text.
fn parse_piece_exec(v: &Vec<char>, lo: usize, hi: usize, size: u64) -> (r: Result<
    Piece,
    RangeError,
>)
    requires
        lo <= hi <= v@.len(),
    ensures
        r == parse_piece(trim(v@.subrange(lo as int, hi as int)), size),
{
    let ghost t = trim(v@.subrange(lo as int, hi as int));
    let (a, b) = trim_bounds(v, lo, hi);
    if a == b {
        return Ok(Piece::Empty);
    }
    let j = find_in(v, a, b, '-');
    if j == b {
        return Err(RangeError::InvalidRange);
    }
    proof {
        assert(t.subrange(0, j - a) =~= v@.subrange(a as int, j as int));
        assert(t.subrange(j - a + 1, t.len() as int) =~= v@.subrange(j + 1 as int, b as int));
    }
    let (a1, b1) = trim_bounds(v, a, j);
    let (a2, b2) = trim_bounds(v, j + 1, b);
    if a1 == b1 {
        match parse_signed_range(v, a2, b2) {
            None => Err(RangeError::ParsingError),
            Some(n) => {
                if n < 0 {
                    Err(RangeError::ParsingError)
                } else {
                    let nu = n as u64;
                    let l = if nu > size {
                        size
                    } else {
                        nu
                    };
                    Ok(Piece::Found(HttpRange { start: size - l, length: l }))
                }
            },
        }
    } else {
        match parse_signed_range(v, a1, b1) {
            None => Err(RangeError::ParsingError),
            Some(s0) => {
                if s0 < 0 {
                    Err(RangeError::StartIsNegative)
                } else if s0 as u64 >= size {
                    Ok(Piece::NoOverlap)
                } else {
                    let s0u = s0 as u64;
                    if a2 == b2 {
                        Ok(Piece::Found(HttpRange { start: s0u, length: size - s0u }))
                    } else {
                        match parse_signed_range(v, a2, b2) {
                            None => Err(RangeError::ParsingError),
                            Some(e) => {
                                if s0 > e {
                                    Err(RangeError::StartAfterEnd)
                                } else {
                                    let e2 = if e as u64 >= size {
                                        size - 1
                                    } else {
                                        e as u64
                                    };
                                    Ok(
                                        Piece::Found(
                                            HttpRange { start: s0u, length: e2 - s0u + 1 },
                                        ),
                                    )
                                }
                            },
                        }
                    }
                }
            },
        }
    }
}

/// Parses the comma-separated pieces of `v[from..]`, as `parse_tail`
/// describes.
fn parse_tail_exec(v: &Vec<char>, from: usize, size: u64) -> (r: Result<
    (Vec<HttpRange>, bool),
    RangeError,
>)
    requires
        from <= v@.len(),
    ensures
        match r {
            Ok(p) => parse_tail(v@.subrange(from as int, v@.len() as int), size) == Ok::<
                (Seq<HttpRange>, bool),
                RangeError,
            >((p.0@, p.1)),
            Err(e) => parse_tail(v@.subrange(from as int, v@.len() as int), size) == Err::<
                (Seq<HttpRange>, bool),
                RangeError,
            >(e),
        },
    decreases v@.len() - from,
{
    let ghost s = v@.subrange(from as int, v@.len() as int);
    let j = find_in(v, from, v.len(), ',');
    if j == v.len() {
        proof {
            assert(v@.subrange(from as int, v@.len() as int) =~= s);
        }
        match parse_piece_exec(v, from, v.len(), size) {
            Err(e) => Err(e),
            Ok(p) => {
                match p {
                    Piece::Empty => Ok((Vec::new(), false)),
                    Piece::NoOverlap => Ok((Vec::new(), true)),
                    Piece::Found(r0) => {
                        let mut rs: Vec<HttpRange> = Vec::new();
                        rs.push(r0);
                        assert(rs@ =~= piece_ranges(Piece::Found(r0)));
                        Ok((rs, false))
                    },
                }
            },
        }
    } else {
        proof {
            assert(s.subrange(0, j - from) =~= v@.subrange(from as int, j as int));
            assert(s.subrange(j - from + 1, s.len() as int) =~= v@.subrange(
                j + 1 as int,
                v@.len() as int,
            ));
        }
        match parse_piece_exec(v, from, j, size) {
            Err(e) => Err(e),
            Ok(p) => {
                match parse_tail_exec(v, j + 1, size) {
                    Err(e) => Err(e),
                    Ok((mut rs, f)) => {
                        match p {
                            Piece::Empty => Ok((rs, f)),
                            Piece::NoOverlap => Ok((rs, true)),
                            Piece::Found(r0) => {
                                let ghost pre = rs@;
                                rs.insert(0, r0);
                                assert(rs@ =~= piece_ranges(Piece::Found(r0)) + pre);
                                Ok((rs, f))
                            },
                        }
                    },
                }
            },
        }
    }
}

impl HttpRange {
    /// Parses a `Range` HTTP header against a resource of `size` bytes.
    ///
    /// `header` is the raw header value, or empty when no header was sent;
    /// the result is exactly what `spec_parse` names for it.
    pub fn parse(header: &str, size: u64) -> (r: Result<Vec<HttpRange>, RangeError>)
        ensures
            match r {
                Ok(v) => spec_parse(header@, size) == Ok::<Seq<HttpRange>, RangeError>(v@),
                Err(e) => spec_parse(header@, size) == Err::<Seq<HttpRange>, RangeError>(e),
            },
    {
        let v = chars_of(header);
        if v.len() == 0 {
            let r: Vec<HttpRange> = Vec::new();
            assert(r@ =~= Seq::<HttpRange>::empty());
            return Ok(r);
        }
        if !(v.len() >= 6 && v[0] == 'b' && v[1] == 'y' && v[2] == 't' && v[3] == 'e' && v[4]
            == 's' && v[5] == '=') {
            return Err(RangeError::MissingUnitPrefix);
        }
        match parse_tail_exec(&v, 6, size) {
            Err(e) => Err(e),
            Ok((rs, f)) => {
                if f && rs.len() == 0 {
                    Err(RangeError::NoRanges)
                } else {
                    Ok(rs)
                }
            },
        }
    }
}

/// Every range a single piece contributes lies within the resource.
proof fn lemma_piece_within(t: Seq<char>, size: u64)
    ensures
        match parse_piece(t, size) {
            Ok(Piece::Found(r)) => r.within(size),
            _ => true,
        },
{
}

/// Every range `parse_tail` returns lies within the resource.
proof fn lemma_tail_within(s: Seq<char>, size: u64, rs: Seq<HttpRange>, f: bool, i: int)
    requires
        parse_tail(s, size) == Ok::<(Seq<HttpRange>, bool), RangeError>((rs, f)),
        0 <= i < rs.len(),
    ensures
        rs[i].within(size),
    decreases s.len(),
{
    lemma_find_char_props(s, ',');
    let k = find_char(s, ',');
    if k >= s.len() {
        lemma_piece_within(trim(s), size);
    } else {
        lemma_piece_within(trim(s.subrange(0, k)), size);
        let rest = s.subrange(k + 1, s.len() as int);
        match parse_piece(trim(s.subrange(0, k)), size) {
            Ok(p) => {
                match parse_tail(rest, size) {
                    Ok(t) => {
                        if p is Found && i == 0 {
                        } else {
                            let shift = piece_ranges(p).len();
                            assert(rs[i] == t.0[i - shift]);
                            lemma_tail_within(rest, size, t.0, t.1, i - shift);
                        }
                    },
                    Err(_) => {},
                }
            },
            Err(_) => {},
        }
    }
}

/// Every range of a successful parse lies within the resource: its start
/// plus its length does not exceed the resource size.
pub proof fn lemma_parse_within(header: Seq<char>, size: u64, rs: Seq<HttpRange>, i: int)
    requires
        spec_parse(header, size) == Ok::<Seq<HttpRange>, RangeError>(rs),
        0 <= i < rs.len(),
    ensures
        rs[i].within(size),
{
    if header.len() > 0 && has_bytes_prefix(header) {
        match parse_tail(header.subrange(6, header.len() as int), size) {
            Ok(t) => {
                lemma_tail_within(header.subrange(6, header.len() as int), size, t.0, t.1, i);
            },
            Err(_) => {},
        }
    }
}

/// An empty header and a bare `bytes=` header both parse to no ranges at
/// all, whatever the resource size.
pub proof fn lemma_parse_trivial_headers(size: u64)
    ensures
        spec_parse(Seq::<char>::empty(), size) == Ok::<Seq<HttpRange>, RangeError>(
            Seq::<HttpRange>::empty(),
        ),
        spec_parse("bytes="@, size) == Ok::<Seq<HttpRange>, RangeError>(Seq::<HttpRange>::empty()),
{
    reveal_strlit("bytes=");
    let h = "bytes="@;
    assert(h.len() == 6);
    assert(has_bytes_prefix(h));
    let t = h.subrange(6, 6);
    assert(t.len() == 0);
    assert(find_char(t, ',') == 0);
    assert(trim(t) == t);
    assert(parse_piece(t, size) == Ok::<Piece, RangeError>(Piece::Empty));
    assert(parse_tail(t, size) == Ok::<(Seq<HttpRange>, bool), RangeError>(
        (Seq::<HttpRange>::empty(), false),
    ));
}

} // verus!
