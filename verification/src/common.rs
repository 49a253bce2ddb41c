//! The escaped video reference the playback device sends.
//!
//! The device does not forward query parameters, so the browser passes the
//! video path as a path segment with `.` and `/` escaped; this module
//! undoes that escaping.
use vstd::prelude::*;
use crate::text::{chars_of, string_of_chars};

verus! {

/// `s` with each occurrence of the three-character pattern `a b c`
/// replaced by the single character `r`, left to right, non-overlapping.
pub open spec fn replace3(s: Seq<char>, a: char, b: char, c: char, r: char) -> Seq<char>
    decreases s.len(),
{
    if s.len() >= 3 && s[0] == a && s[1] == b && s[2] == c {
        seq![r] + replace3(s.subrange(3, s.len() as int), a, b, c, r)
    } else if s.len() == 0 {
        s
    } else {
        seq![s[0]] + replace3(s.drop_first(), a, b, c, r)
    }
}

/// Appends to `out` the replacement of the pattern `a b c` by `r` over
/// `v[from..]`.
fn replace3_from(
    v: &Vec<char>,
    from: usize,
    a: char,
    b: char,
    c: char,
    r: char,
    out: &mut Vec<char>,
)
    requires
        from <= v@.len(),
    ensures
        final(out)@ == old(out)@ + replace3(
            v@.subrange(from as int, v@.len() as int),
            a,
            b,
            c,
            r,
        ),
    decreases v@.len() - from,
{
    let ghost s = v@.subrange(from as int, v@.len() as int);
    if from == v.len() {
        assert(out@ =~= old(out)@ + replace3(s, a, b, c, r));
        return ;
    }
    proof {
        assert(s[0] == v@[from as int]);
        if s.len() >= 3 {
            assert(s[1] == v@[from + 1]);
            assert(s[2] == v@[from + 2]);
        }
    }
    if v.len() - from >= 3 && v[from] == a && v[from + 1] == b && v[from + 2] == c {
        out.push(r);
        proof {
            assert(s.subrange(3, s.len() as int) =~= v@.subrange(
                from + 3 as int,
                v@.len() as int,
            ));
        }
        replace3_from(v, from + 3, a, b, c, r, out);
        assert(out@ =~= old(out)@ + replace3(s, a, b, c, r));
    } else {
        out.push(v[from]);
        proof {
            assert(s.drop_first() =~= v@.subrange(from + 1 as int, v@.len() as int));
        }
        replace3_from(v, from + 1, a, b, c, r, out);
        assert(out@ =~= old(out)@ + replace3(s, a, b, c, r));
    }
}

/// A video reference as the playback device sends it: a path whose `.` and
/// `/` are escaped as `%2E` and `%2F`.
pub struct VideoRef {
    /// The escaped path text.
    pub escaped_path: String,
}

impl VideoRef {
    /// The path with every `%2E` unescaped to `.` and then every `%2F` to
    /// `/`, in that order.
    pub fn unescape(&self) -> (r: String)
        ensures
            r@ == replace3(
                replace3(self.escaped_path@, '%', '2', 'E', '.'),
                '%',
                '2',
                'F',
                '/',
            ),
    {
        let v = chars_of(self.escaped_path.as_str());
        let mut w1: Vec<char> = Vec::new();
        replace3_from(&v, 0, '%', '2', 'E', '.', &mut w1);
        proof {
            assert(v@.subrange(0, v@.len() as int) =~= v@);
        }
        let mut w2: Vec<char> = Vec::new();
        replace3_from(&w1, 0, '%', '2', 'F', '/', &mut w2);
        proof {
            assert(w1@.subrange(0, w1@.len() as int) =~= w1@);
        }
        string_of_chars(&w2)
    }
}

} // verus!
