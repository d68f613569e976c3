//! The submission record's closed value types, its rating and its content,
//! and how a content reference becomes an absolute URL, a file name and an
//! extension.

use vstd::prelude::*;
use crate::text::{after_last, find_after_last, last_index, lemma_last_index_bounds, same_text};

verus! {

/// The content rating of a submission; no other value can be represented.
#[derive(Clone, Copy, Debug, PartialEq, Eq)]
pub enum Rating {
    General,
    Mature,
    Adult,
}

/// The rating that the site's rating text names, if any.
pub open spec fn rating_named(name: Seq<char>) -> Option<Rating> {
    if name == seq!['G', 'e', 'n', 'e', 'r', 'a', 'l'] {
        Some(Rating::General)
    } else if name == seq!['M', 'a', 't', 'u', 'r', 'e'] {
        Some(Rating::Mature)
    } else if name == seq!['A', 'd', 'u', 'l', 't'] {
        Some(Rating::Adult)
    } else {
        None
    }
}

/// The one-letter code under which a rating is stored.
pub open spec fn rating_code(r: Rating) -> Seq<char> {
    match r {
        Rating::General => seq!['g'],
        Rating::Mature => seq!['m'],
        Rating::Adult => seq!['a'],
    }
}

impl Rating {
    pub fn parse(name: &str) -> (r: Option<Rating>)
        ensures
            r == rating_named(name@),
    {
        proof {
            reveal_strlit("General");
            reveal_strlit("Mature");
            reveal_strlit("Adult");
            assert("General"@ =~= seq!['G', 'e', 'n', 'e', 'r', 'a', 'l']);
            assert("Mature"@ =~= seq!['M', 'a', 't', 'u', 'r', 'e']);
            assert("Adult"@ =~= seq!['A', 'd', 'u', 'l', 't']);
        }
        if same_text(name, "General") {
            Some(Rating::General)
        } else if same_text(name, "Mature") {
            Some(Rating::Mature)
        } else if same_text(name, "Adult") {
            Some(Rating::Adult)
        } else {
            None
        }
    }

    pub fn serialize(&self) -> (r: String)
        ensures
            r@ == rating_code(*self),
    {
        proof {
            reveal_strlit("g");
            reveal_strlit("m");
            reveal_strlit("a");
        }
        match self {
            Rating::General => String::from_str("g"),
            Rating::Mature => String::from_str("m"),
            Rating::Adult => String::from_str("a"),
        }
    }
}

/// What a submission holds: a raster image, or an animation or other
/// embedded object. Each carries its absolute URL.
#[derive(Clone, Debug, PartialEq, Eq)]
pub enum Content {
    Image(String),
    Animation(String),
}

impl Content {
    pub open spec fn url_view(&self) -> Seq<char> {
        match self {
            Content::Image(u) => u@,
            Content::Animation(u) => u@,
        }
    }

    /// The URL of either kind of content.
    pub fn url(&self) -> (r: String)
        ensures
            r@ == self.url_view(),
    {
        match self {
            Content::Image(u) => u.clone(),
            Content::Animation(u) => u.clone(),
        }
    }
}

pub open spec fn https_prefix() -> Seq<char> {
    seq!['h', 't', 't', 'p', 's', ':']
}

/// A reference that starts with `//` names a host but no scheme.
pub open spec fn scheme_relative(r: Seq<char>) -> bool {
    r.len() >= 2 && r[0] == '/' && r[1] == '/'
}

/// The absolute URL of a reference: `https:` before a scheme-relative one.
pub open spec fn absolute_url(r: Seq<char>) -> Seq<char> {
    if scheme_relative(r) {
        https_prefix() + r
    } else {
        r
    }
}

/// The final path segment of a URL: what follows its last `/`.
pub open spec fn file_name_of(url: Seq<char>) -> Seq<char> {
    after_last(url, '/')
}

/// ASCII upper-case letters become lower-case; every other character stays.
pub open spec fn lower_char(c: char) -> char {
    if 'A' <= c && c <= 'Z' {
        ((c as u32) + 32) as char
    } else {
        c
    }
}

pub open spec fn ascii_lower(s: Seq<char>) -> Seq<char> {
    s.map_values(|c: char| lower_char(c))
}

/// The extension that stands for a file name without any `.`.
pub open spec fn placeholder_extension() -> Seq<char> {
    seq!['x']
}

/// The lower-case text after the last `.` of the URL's file name, or the
/// placeholder where the file name has no `.`.
pub open spec fn extension_of(url: Seq<char>) -> Seq<char> {
    let name = file_name_of(url);
    if last_index(name, '.') >= 0 {
        ascii_lower(after_last(name, '.'))
    } else {
        placeholder_extension()
    }
}

/// Copies `s` with ASCII letters `A`..`Z` made lower-case, as
/// `str::to_ascii_lowercase` does.
fn to_ascii_lower(s: &str) -> (r: String)
    ensures
        r@ == ascii_lower(s@),
{
    let letters = "abcdefghijklmnopqrstuvwxyz";
    proof {
        reveal_strlit("abcdefghijklmnopqrstuvwxyz");
    }
    let n = s.unicode_len();
    let mut out = String::new();
    let mut i: usize = 0;
    while i < n
        invariant
            i <= n,
            n == s@.len(),
            letters@ == "abcdefghijklmnopqrstuvwxyz"@,
            letters@.len() == 26,
            forall|k: int| 0 <= k < 26 ==> #[trigger] letters@[k] == ((k + 97) as u32) as char,
            out@ == ascii_lower(s@.subrange(0, i as int)),
        decreases n - i,
    {
        let c = s.get_char(i);
        let ghost before = out@;
        if 'A' <= c && c <= 'Z' {
            let k = (c as u32 - 'A' as u32) as usize;
            out.append(letters.substring_char(k, k + 1));
            assert(letters@.subrange(k as int, k + 1) =~= seq![lower_char(c)]);
        } else {
            out.append(s.substring_char(i, i + 1));
            assert(s@.subrange(i as int, i + 1) =~= seq![lower_char(c)]);
        }
        assert(ascii_lower(s@.subrange(0, i + 1)) =~= before + seq![lower_char(c)]);
        i = i + 1;
    }
    assert(s@.subrange(0, n as int) =~= s@);
    out
}

/// Resolves a content reference into its absolute URL, its extension and its
/// file name, all three taken from the same URL.
pub fn resolve_url(reference: &str) -> (r: (String, String, String))
    ensures
        r.0@ == absolute_url(reference@),
        r.1@ == extension_of(r.0@),
        r.2@ == file_name_of(r.0@),
{
    let n = reference.unicode_len();
    let url = if n >= 2 && reference.get_char(0) == '/' && reference.get_char(1) == '/' {
        proof {
            reveal_strlit("https:");
        }
        let mut u = String::from_str("https:");
        u.append(reference);
        u
    } else {
        reference.to_string()
    };
    let m = url.as_str().unicode_len();
    let slash = find_after_last(url.as_str(), '/');
    proof {
        lemma_last_index_bounds(url@, '/');
    }
    let filename = url.as_str().substring_char(slash, m).to_string();
    let dot = find_after_last(filename.as_str(), '.');
    proof {
        lemma_last_index_bounds(filename@, '.');
    }
    let extension = if dot > 0 {
        to_ascii_lower(filename.as_str().substring_char(dot, filename.as_str().unicode_len()))
    } else {
        proof {
            reveal_strlit("x");
        }
        String::from_str("x")
    };
    (url, extension, filename)
}

/// A file name and an extension resolved from one URL are both taken from
/// that URL's final path segment: the file name is that segment, and the
/// extension, where the segment holds a `.` and no upper-case ASCII letter
/// follows its last `.`, is a part of it that ends it.
pub proof fn lemma_resolved_parts_in_segment(reference: Seq<char>)
    requires
        last_index(file_name_of(absolute_url(reference)), '.') >= 0,
        forall|k: int|
            #![trigger after_last(file_name_of(absolute_url(reference)), '.')[k]]
            0 <= k < after_last(file_name_of(absolute_url(reference)), '.').len() ==> !(
            'A' <= after_last(file_name_of(absolute_url(reference)), '.')[k]
                && after_last(file_name_of(absolute_url(reference)), '.')[k] <= 'Z'),
    ensures
        ({
            let url = absolute_url(reference);
            let segment = after_last(url, '/');
            let start = last_index(segment, '.') + 1;
            &&& file_name_of(url) == segment
            &&& 0 < start <= segment.len()
            &&& extension_of(url) == segment.subrange(start, segment.len() as int)
        }),
{
    let url = absolute_url(reference);
    let segment = after_last(url, '/');
    lemma_last_index_bounds(segment, '.');
    let tail = after_last(segment, '.');
    assert(ascii_lower(tail) =~= tail);
}

} // verus!
