//! SRT-to-WebVTT subtitle conversion, and unpacking of the gzipped SRT
//! files the subtitle database serves.
//!
//! The conversion is line-oriented: a line of digits (a cue index) is
//! dropped, a line containing a cue timing (`HH:MM:SS[,.]mmm --> ...`) has
//! its commas rewritten to periods, and every other line passes through
//! unchanged. The output starts with the `WEBVTT` header and ends every
//! line with a single newline.
use vstd::prelude::*;
use crate::numbers::all_digits;
use crate::text::{chars_of, find_char, find_in, is_digit, is_digit_char, lemma_find_char_props,
    string_of_chars};
use vstd::string::StringExecFns;

verus! {

/// The header that opens every WebVTT file: `WEBVTT` and a blank line.
pub open spec fn vtt_header() -> Seq<char> {
    seq!['W', 'E', 'B', 'V', 'T', 'T', '\n', '\n']
}

/// `l` without a single trailing carriage return, if it has one.
pub open spec fn strip_cr(l: Seq<char>) -> Seq<char> {
    if l.len() > 0 && l[l.len() - 1] == '\r' {
        l.drop_last()
    } else {
        l
    }
}

/// The lines of `s`: split at each newline, with a carriage return before
/// the newline dropped, and without a final empty line when `s` ends in a
/// newline.
pub open spec fn split_lines(s: Seq<char>) -> Seq<Seq<char>>
    decreases s.len(),
    via split_lines_dec
{
    if s.len() == 0 {
        Seq::empty()
    } else {
        let i = find_char(s, '\n');
        if i >= s.len() {
            seq![strip_cr(s)]
        } else {
            seq![strip_cr(s.subrange(0, i))] + split_lines(s.subrange(i + 1, s.len() as int))
        }
    }
}

#[via_fn]
proof fn split_lines_dec(s: Seq<char>) {
    lemma_find_char_props(s, '\n');
}

/// A cue-index line: nothing but digits, at least one.
pub open spec fn is_cue_index(l: Seq<char>) -> bool {
    l.len() > 0 && all_digits(l)
}

/// A timestamp `HH:MM:SS` starts at position `i` of `l`.
pub open spec fn ts_core(l: Seq<char>, i: int) -> bool {
    &&& 0 <= i
    &&& i + 8 <= l.len()
    &&& is_digit(l[i])
    &&& is_digit(l[i + 1])
    &&& l[i + 2] == ':'
    &&& is_digit(l[i + 3])
    &&& is_digit(l[i + 4])
    &&& l[i + 5] == ':'
    &&& is_digit(l[i + 6])
    &&& is_digit(l[i + 7])
}

/// A timestamp with milliseconds, `HH:MM:SS[,.]mmm`, starts at position `i`.
pub open spec fn ts_ms(l: Seq<char>, i: int) -> bool {
    &&& ts_core(l, i)
    &&& i + 12 <= l.len()
    &&& (l[i + 8] == ',' || l[i + 8] == '.')
    &&& is_digit(l[i + 9])
    &&& is_digit(l[i + 10])
    &&& is_digit(l[i + 11])
}

/// The arrow ` --> ` starts at position `j`.
pub open spec fn arrow_at(l: Seq<char>, j: int) -> bool {
    &&& 0 <= j
    &&& j + 5 <= l.len()
    &&& l[j] == ' '
    &&& l[j + 1] == '-'
    &&& l[j + 2] == '-'
    &&& l[j + 3] == '>'
    &&& l[j + 4] == ' '
}

/// A cue timing — two timestamps joined by ` --> `, milliseconds optional
/// on the left — occurs at position `i` of `l`.
pub open spec fn timeframe_at(l: Seq<char>, i: int) -> bool {
    (ts_core(l, i) && arrow_at(l, i + 8) && ts_core(l, i + 13)) || (ts_ms(l, i) && arrow_at(
        l,
        i + 12,
    ) && ts_core(l, i + 17))
}

/// The line contains a cue timing anywhere.
pub open spec fn is_timeframe(l: Seq<char>) -> bool {
    exists|i: int| timeframe_at(l, i)
}

/// `l` with every comma replaced by a period.
pub open spec fn commas_to_dots(l: Seq<char>) -> Seq<char> {
    Seq::new(
        l.len(),
        |i: int|
            if l[i] == ',' {
                '.'
            } else {
                l[i]
            },
    )
}

/// What one input line contributes to the output: nothing for a cue index,
/// the comma-rewritten line for a timing line, the line itself otherwise —
/// in each kept case followed by exactly one newline.
pub open spec fn convert_line(l: Seq<char>) -> Seq<char> {
    if is_cue_index(l) {
        Seq::empty()
    } else if is_timeframe(l) {
        commas_to_dots(l).push('\n')
    } else {
        l.push('\n')
    }
}

/// The concatenated conversions of a sequence of lines.
pub open spec fn convert_lines(ls: Seq<Seq<char>>) -> Seq<char>
    decreases ls.len(),
{
    if ls.len() == 0 {
        Seq::empty()
    } else {
        convert_line(ls[0]) + convert_lines(ls.drop_first())
    }
}

/// What `srt_to_vtt` returns: the WebVTT header, then every line of the
/// input converted by `convert_line`.
pub open spec fn spec_convert(s: Seq<char>) -> Seq<char> {
    vtt_header() + convert_lines(split_lines(s))
}

/// Whether `v[lo..hi]` is a cue-index line.
fn digits_only(v: &Vec<char>, lo: usize, hi: usize) -> (b: bool)
    requires
        lo <= hi <= v@.len(),
    ensures
        b == is_cue_index(v@.subrange(lo as int, hi as int)),
{
    let ghost s = v@.subrange(lo as int, hi as int);
    if lo == hi {
        return false;
    }
    let mut i = lo;
    while i < hi
        invariant
            lo <= i <= hi <= v@.len(),
            s == v@.subrange(lo as int, hi as int),
            forall|j: int| lo <= j < i ==> is_digit(v@[j]),
        decreases hi - i,
    {
        if !is_digit_char(v[i]) {
            proof {
                assert(s[i - lo] == v@[i as int]);
            }
            return false;
        }
        i = i + 1;
    }
    proof {
        assert forall|j: int| 0 <= j < s.len() implies is_digit(s[j]) by {
            assert(s[j] == v@[lo + j]);
        }
    }
    true
}

/// Whether a timestamp starts at absolute position `i` of `v[lo..hi]`.
fn ts_core_at(v: &Vec<char>, lo: usize, hi: usize, i: usize) -> (b: bool)
    requires
        lo <= i <= hi <= v@.len(),
    ensures
        b == ts_core(v@.subrange(lo as int, hi as int), i - lo),
{
    let ghost s = v@.subrange(lo as int, hi as int);
    proof {
        assert forall|k: int| 0 <= k < s.len() implies s[k] == v@[lo + k] by {}
    }
    if hi - i < 8 {
        return false;
    }
    is_digit_char(v[i]) && is_digit_char(v[i + 1]) && v[i + 2] == ':' && is_digit_char(v[i + 3])
        && is_digit_char(v[i + 4]) && v[i + 5] == ':' && is_digit_char(v[i + 6]) && is_digit_char(
        v[i + 7],
    )
}

/// Whether a timestamp with milliseconds starts at absolute position `i`.
fn ts_ms_at(v: &Vec<char>, lo: usize, hi: usize, i: usize) -> (b: bool)
    requires
        lo <= i <= hi <= v@.len(),
    ensures
        b == ts_ms(v@.subrange(lo as int, hi as int), i - lo),
{
    let ghost s = v@.subrange(lo as int, hi as int);
    proof {
        assert forall|k: int| 0 <= k < s.len() implies s[k] == v@[lo + k] by {}
    }
    if !ts_core_at(v, lo, hi, i) {
        return false;
    }
    if hi - i < 12 {
        return false;
    }
    (v[i + 8] == ',' || v[i + 8] == '.') && is_digit_char(v[i + 9]) && is_digit_char(v[i + 10])
        && is_digit_char(v[i + 11])
}

/// Whether ` --> ` starts at absolute position `j`.
fn arrow_at_exec(v: &Vec<char>, lo: usize, hi: usize, j: usize) -> (b: bool)
    requires
        lo <= j <= hi <= v@.len(),
    ensures
        b == arrow_at(v@.subrange(lo as int, hi as int), j - lo),
{
    let ghost s = v@.subrange(lo as int, hi as int);
    proof {
        assert forall|k: int| 0 <= k < s.len() implies s[k] == v@[lo + k] by {}
    }
    if hi - j < 5 {
        return false;
    }
    v[j] == ' ' && v[j + 1] == '-' && v[j + 2] == '-' && v[j + 3] == '>' && v[j + 4] == ' '
}

/// Whether a cue timing occurs at absolute position `i` of `v[lo..hi]`.
fn timeframe_at_exec(v: &Vec<char>, lo: usize, hi: usize, i: usize) -> (b: bool)
    requires
        lo <= i <= hi <= v@.len(),
    ensures
        b == timeframe_at(v@.subrange(lo as int, hi as int), i - lo),
{
    let mut found = false;
    if ts_core_at(v, lo, hi, i) {
        if arrow_at_exec(v, lo, hi, i + 8) {
            if ts_core_at(v, lo, hi, i + 13) {
                found = true;
            }
        }
    }
    if !found {
        if ts_ms_at(v, lo, hi, i) {
            if arrow_at_exec(v, lo, hi, i + 12) {
                if ts_core_at(v, lo, hi, i + 17) {
                    found = true;
                }
            }
        }
    }
    found
}

/// Whether `v[lo..hi]` contains a cue timing.
fn is_timeframe_exec(v: &Vec<char>, lo: usize, hi: usize) -> (b: bool)
    requires
        lo <= hi <= v@.len(),
    ensures
        b == is_timeframe(v@.subrange(lo as int, hi as int)),
{
    let ghost s = v@.subrange(lo as int, hi as int);
    let mut i = lo;
    while i < hi
        invariant
            lo <= i <= hi <= v@.len(),
            s == v@.subrange(lo as int, hi as int),
            forall|k: int| 0 <= k < i - lo ==> !timeframe_at(s, k),
        decreases hi - i,
    {
        if timeframe_at_exec(v, lo, hi, i) {
            proof {
                assert(timeframe_at(s, i - lo));
            }
            return true;
        }
        i = i + 1;
    }
    proof {
        assert forall|k: int| !timeframe_at(s, k) by {
            if 0 <= k < s.len() {
            }
        }
    }
    false
}

/// Appends `v[lo..hi]` to `out` unchanged.
fn push_plain(out: &mut Vec<char>, v: &Vec<char>, lo: usize, hi: usize)
    requires
        lo <= hi <= v@.len(),
    ensures
        final(out)@ == old(out)@ + v@.subrange(lo as int, hi as int),
{
    let mut i = lo;
    while i < hi
        invariant
            lo <= i <= hi <= v@.len(),
            out@ == old(out)@ + v@.subrange(lo as int, i as int),
        decreases hi - i,
    {
        out.push(v[i]);
        assert(out@ =~= old(out)@ + v@.subrange(lo as int, i + 1 as int));
        i = i + 1;
    }
}

/// Appends `v[lo..hi]` to `out` with every comma replaced by a period.
fn push_dots(out: &mut Vec<char>, v: &Vec<char>, lo: usize, hi: usize)
    requires
        lo <= hi <= v@.len(),
    ensures
        final(out)@ == old(out)@ + commas_to_dots(v@.subrange(lo as int, hi as int)),
{
    let ghost s = v@.subrange(lo as int, hi as int);
    let mut i = lo;
    while i < hi
        invariant
            lo <= i <= hi <= v@.len(),
            s == v@.subrange(lo as int, hi as int),
            out@ == old(out)@ + commas_to_dots(s).subrange(0, i - lo),
        decreases hi - i,
    {
        let c = v[i];
        if c == ',' {
            out.push('.');
        } else {
            out.push(c);
        }
        assert(out@ =~= old(out)@ + commas_to_dots(s).subrange(0, i + 1 - lo));
        i = i + 1;
    }
    assert(commas_to_dots(s).subrange(0, s.len() as int) =~= commas_to_dots(s));
}

/// Converts the lines of `v[from..]` and appends the result to `out`.
fn convert_from(v: &Vec<char>, from: usize, out: &mut Vec<char>)
    requires
        from <= v@.len(),
    ensures
        final(out)@ == old(out)@ + convert_lines(split_lines(v@.subrange(from as int, v@.len() as int))),
    decreases v@.len() - from,
{
    let ghost s = v@.subrange(from as int, v@.len() as int);
    if from == v.len() {
        assert(out@ =~= old(out)@ + convert_lines(split_lines(s)));
        return ;
    }
    let j = find_in(v, from, v.len(), '\n');
    let hi = if j > from && v[j - 1] == '\r' {
        j - 1
    } else {
        j
    };
    let ghost raw = s.subrange(0, j - from);
    let ghost line = v@.subrange(from as int, hi as int);
    proof {
        assert(raw =~= v@.subrange(from as int, j as int));
        if j > from && v@[j - 1] == '\r' {
            assert(raw.len() > 0 && raw[raw.len() - 1] == '\r');
            assert(strip_cr(raw) =~= line);
        } else {
            assert(strip_cr(raw) =~= line);
        }
    }
    let cue = digits_only(v, from, hi);
    if !cue {
        let tf = is_timeframe_exec(v, from, hi);
        if tf {
            push_dots(out, v, from, hi);
        } else {
            push_plain(out, v, from, hi);
        }
        out.push('\n');
    }
    assert(out@ =~= old(out)@ + convert_line(line));
    if j < v.len() {
        let ghost rest = s.subrange(j - from + 1, s.len() as int);
        proof {
            assert(rest =~= v@.subrange(j + 1 as int, v@.len() as int));
            assert(split_lines(s) == seq![line] + split_lines(rest));
            assert((seq![line] + split_lines(rest))[0] == line);
            assert((seq![line] + split_lines(rest)).drop_first() =~= split_lines(rest));
        }
        convert_from(v, j + 1, out);
        assert(out@ =~= old(out)@ + convert_lines(split_lines(s)));
    } else {
        proof {
            assert(s =~= raw);
            assert(split_lines(s) == seq![line]);
            assert(seq![line].drop_first() =~= Seq::<Seq<char>>::empty());
            assert(convert_lines(seq![line]) == convert_line(line) + convert_lines(
                Seq::<Seq<char>>::empty(),
            ));
            assert(out@ =~= old(out)@ + convert_lines(split_lines(s)));
        }
    }
}

/// Converts SRT subtitle text to WebVTT text, exactly as `spec_convert`
/// describes: the `WEBVTT` header, cue-index lines dropped, commas in cue
/// timing lines rewritten to periods, everything else unchanged.
pub fn srt_to_vtt(srt: &str) -> (r: String)
    ensures
        r@ == spec_convert(srt@),
{
    let v = chars_of(srt);
    let mut out: Vec<char> = Vec::new();
    out.push('W');
    out.push('E');
    out.push('B');
    out.push('V');
    out.push('T');
    out.push('T');
    out.push('\n');
    out.push('\n');
    assert(out@ =~= vtt_header());
    convert_from(&v, 0, &mut out);
    assert(v@.subrange(0, v@.len() as int) =~= v@);
    string_of_chars(&out)
}

/// What a byte buffer decompresses to as text, when it is a valid gzip
/// archive of valid text; `None` otherwise.
pub uninterp spec fn gunzipped_of(b: Seq<u8>) -> Option<Seq<char>>;

/// Relies on flate2's `bufread::GzDecoder`, driven by std's
/// `Read::read_to_string`: what a byte buffer decompresses to — or that it
/// fails to decompress — depends on the bytes alone.
#[verifier::external_body]
fn gunzip_to_string(b: &Vec<u8>) -> (r: Option<String>)
    ensures
        match r {
            Some(s) => gunzipped_of(b@) == Some(s@),
            None => gunzipped_of(b@) is None,
        },
{
    let mut gz = flate2::bufread::GzDecoder::new(b.as_slice());
    let mut out = String::new();
    match std::io::Read::read_to_string(&mut gz, &mut out) {
        Ok(_) => Some(out),
        Err(_) => None,
    }
}

/// The conversion is a pure function: two results that both meet
/// `srt_to_vtt`'s contract for the same input are the same text.
pub proof fn lemma_convert_deterministic(s: Seq<char>, r1: Seq<char>, r2: Seq<char>)
    requires
        r1 == spec_convert(s),
        r2 == spec_convert(s),
    ensures
        r1 == r2,
{
}

/// Decompresses a gzipped SRT subtitle file and converts it to WebVTT.
/// `None` exactly when the buffer does not decompress to text.
pub fn gz_subtitle_to_vtt(gz: &Vec<u8>) -> (r: Option<String>)
    ensures
        match r {
            Some(s) => gunzipped_of(gz@) matches Some(t) && s@ == spec_convert(t),
            None => gunzipped_of(gz@) is None,
        },
{
    match gunzip_to_string(gz) {
        Some(srt) => Some(srt_to_vtt(srt.as_str())),
        None => None,
    }
}

/// The fixed subtitle served when no real subtitle could be fetched: the
/// WebVTT header and a single placeholder cue over the first fifteen
/// seconds.
pub fn fallback_subtitle() -> (r: String)
    ensures
        r@ == "WEBVTT\n\n00:00:00.000 --> 00:00:15.000\nNo subtitles found\n"@,
{
    String::from_str("WEBVTT\n\n00:00:00.000 --> 00:00:15.000\nNo subtitles found\n")
}

} // verus!
