//! Subtitle lookup by title metadata: building the search URL for a title,
//! with optional season and episode, in the form the subtitle database
//! expects.
use vstd::prelude::*;
use crate::text::{chars_of, string_of_chars};
use vstd::string::StringExecFns;

verus! {

/// `s` with every `.` and `/` replaced by a space, so that neither
/// punctuates the search query.
pub open spec fn spaced(s: Seq<char>) -> Seq<char> {
    Seq::new(
        s.len(),
        |i: int|
            if s[i] == '.' || s[i] == '/' {
                ' '
            } else {
                s[i]
            },
    )
}

/// What percent-encoding with the non-alphanumeric set makes of a string:
/// a function of the characters alone.
pub uninterp spec fn percent_encoded_of(s: Seq<char>) -> Seq<char>;

/// Relies on `percent_encoding::utf8_percent_encode` with the
/// `NON_ALPHANUMERIC` set: every non-alphanumeric byte of the UTF-8 text
/// becomes a `%XX` escape, a computation on the characters alone; an empty
/// string encodes to an empty string.
#[verifier::external_body]
fn percent_encode_non_alphanumeric(s: &str) -> (r: String)
    ensures
        r@ == percent_encoded_of(s@),
        s@.len() == 0 ==> r@.len() == 0,
{
    percent_encoding::utf8_percent_encode(s, percent_encoding::NON_ALPHANUMERIC).to_string()
}

/// Readies one query component for the search URL: `.` and `/` become
/// spaces, and the result is percent-encoded.
pub fn encode(input: &str) -> (r: String)
    ensures
        r@ == percent_encoded_of(spaced(input@)),
{
    let v = chars_of(input);
    let mut w: Vec<char> = Vec::new();
    let mut i: usize = 0;
    while i < v.len()
        invariant
            i <= v@.len(),
            v@ == input@,
            w@ == spaced(input@).subrange(0, i as int),
        decreases v@.len() - i,
    {
        let c = v[i];
        if c == '.' || c == '/' {
            w.push(' ');
        } else {
            w.push(c);
        }
        assert(w@ =~= spaced(input@).subrange(0, i + 1 as int));
        i = i + 1;
    }
    assert(spaced(input@).subrange(0, v@.len() as int) =~= spaced(input@));
    let sp = string_of_chars(&w);
    percent_encode_non_alphanumeric(sp.as_str())
}

/// The subtitle-database search URL for a title query in English, with the
/// season and the episode appended when given. Each component is encoded
/// by `encode`.
pub fn format_url(title: &str, season: Option<&str>, episode: Option<&str>) -> (r: String)
    ensures
        r@ == "https://rest.opensubtitles.org/search/query-"@ + percent_encoded_of(spaced(title@))
            + "/sublanguageid-eng"@ + (match season {
            Some(se) => "/season-"@ + percent_encoded_of(spaced(se@)),
            None => Seq::<char>::empty(),
        }) + (match episode {
            Some(ep) => "/episode-"@ + percent_encoded_of(spaced(ep@)),
            None => Seq::<char>::empty(),
        }),
{
    let mut s = String::from_str("https://rest.opensubtitles.org/search/query-");
    let t = encode(title);
    s.append(t.as_str());
    s.append("/sublanguageid-eng");
    match season {
        Some(se) => {
            s.append("/season-");
            let e = encode(se);
            s.append(e.as_str());
        },
        None => {},
    }
    match episode {
        Some(ep) => {
            s.append("/episode-");
            let e = encode(ep);
            s.append(e.as_str());
        },
        None => {},
    }
    assert(s@ =~= "https://rest.opensubtitles.org/search/query-"@ + percent_encoded_of(
        spaced(title@),
    ) + "/sublanguageid-eng"@ + (match season {
        Some(se) => "/season-"@ + percent_encoded_of(spaced(se@)),
        None => Seq::<char>::empty(),
    }) + (match episode {
        Some(ep) => "/episode-"@ + percent_encoded_of(spaced(ep@)),
        None => Seq::<char>::empty(),
    }));
    s
}

} // verus!
