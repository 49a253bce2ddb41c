//! Which directory entries the file browser ignores.
use vstd::prelude::*;
use crate::text::chars_of;

verus! {

/// The name starts with a dot.
pub open spec fn is_hidden(name: Seq<char>) -> bool {
    name.len() > 0 && name[0] == '.'
}

/// `s` ends with `suffix`.
pub open spec fn ends_with(s: Seq<char>, suffix: Seq<char>) -> bool {
    s.len() >= suffix.len() && s.subrange(s.len() - suffix.len(), s.len() as int) == suffix
}

/// The name ends in one of the video file extensions the browser lists.
pub open spec fn has_video_ext(name: Seq<char>) -> bool {
    ||| ends_with(name, seq!['.', 'a', 'v', 'i'])
    ||| ends_with(name, seq!['.', 'm', 'k', 'v'])
    ||| ends_with(name, seq!['.', 'm', 'p', '4'])
    ||| ends_with(name, seq!['.', 'w', 'e', 'b', 'm'])
}

/// The listing ignores an entry when it is hidden, or when it is a file
/// without a known video extension.
pub open spec fn spec_ignore(name: Seq<char>, is_file: bool) -> bool {
    is_hidden(name) || (is_file && !has_video_ext(name))
}

/// Whether `v` ends with the four characters given.
fn ends_with4(v: &Vec<char>, c0: char, c1: char, c2: char, c3: char) -> (b: bool)
    ensures
        b == ends_with(v@, seq![c0, c1, c2, c3]),
{
    let n = v.len();
    if n < 4 {
        return false;
    }
    let b = v[n - 4] == c0 && v[n - 3] == c1 && v[n - 2] == c2 && v[n - 1] == c3;
    proof {
        let suf = v@.subrange(n - 4, n as int);
        if b {
            assert(suf =~= seq![c0, c1, c2, c3]);
        } else {
            assert(suf[0] == v@[n - 4] && suf[1] == v@[n - 3] && suf[2] == v@[n - 2] && suf[3]
                == v@[n - 1]);
        }
    }
    b
}

/// Whether `v` ends with the five characters given.
fn ends_with5(v: &Vec<char>, c0: char, c1: char, c2: char, c3: char, c4: char) -> (b: bool)
    ensures
        b == ends_with(v@, seq![c0, c1, c2, c3, c4]),
{
    let n = v.len();
    if n < 5 {
        return false;
    }
    let b = v[n - 5] == c0 && v[n - 4] == c1 && v[n - 3] == c2 && v[n - 2] == c3 && v[n - 1]
        == c4;
    proof {
        let suf = v@.subrange(n - 5, n as int);
        if b {
            assert(suf =~= seq![c0, c1, c2, c3, c4]);
        } else {
            assert(suf[0] == v@[n - 5] && suf[1] == v@[n - 4] && suf[2] == v@[n - 3] && suf[3]
                == v@[n - 2] && suf[4] == v@[n - 1]);
        }
    }
    b
}

/// Whether the file browser ignores a directory entry with this name:
/// hidden entries always, and files without a video extension.
pub fn ignore(name: &str, is_file: bool) -> (b: bool)
    ensures
        b == spec_ignore(name@, is_file),
{
    let v = chars_of(name);
    if v.len() > 0 && v[0] == '.' {
        return true;
    }
    if !is_file {
        return false;
    }
    let ext = ends_with4(&v, '.', 'a', 'v', 'i') || ends_with4(&v, '.', 'm', 'k', 'v')
        || ends_with4(&v, '.', 'm', 'p', '4') || ends_with5(&v, '.', 'w', 'e', 'b', 'm');
    !ext
}

} // verus!
