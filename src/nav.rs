//! Pagination links embedded in a submission's description.

use vstd::prelude::*;
use crate::document::{
    first_attribute, first_group, matched_texts, parse_fragment, pattern_group,
    select_attribute, select_inner_markup,
};
use crate::submission::Submission;
use crate::text::{find_text_from, i32_text, index_from, parse_i32};

verus! {

/// The submissions before, at the start of, and after this one in its series.
#[derive(Clone, Copy, Debug, PartialEq, Eq)]
pub struct NavLinks {
    pub prev: Option<i32>,
    pub first: Option<i32>,
    pub next: Option<i32>,
}

pub open spec fn as_int(o: Option<i32>) -> Option<int> {
    match o {
        Some(v) => Some(v as int),
        None => None,
    }
}

pub open spec fn separator() -> Seq<char> {
    seq!['|']
}

/// The first three parts of `s` split on `|`, if it has three.
pub open spec fn three_parts(s: Seq<char>) -> Option<(Seq<char>, Seq<char>, Seq<char>)> {
    let a = index_from(s, separator(), 0);
    let b = index_from(s, separator(), a + 1);
    let c = index_from(s, separator(), b + 1);
    let end = if c < 0 { s.len() as int } else { c };
    if a < 0 || b < 0 {
        None
    } else {
        Some((s.subrange(0, a), s.subrange(a + 1, b), s.subrange(b + 1, end)))
    }
}

/// The pattern of a link to a submission's view page.
pub open spec fn view_link_pattern() -> Seq<char> {
    "/view/(\\d+)"@
}

/// The submission that a part links to: the id in the `href` of its first
/// anchor. `None` where the part has no anchor, as on the first or last page.
pub open spec fn link_target(part: Seq<char>) -> Option<int> {
    match first_attribute(part, true, "a"@, "href"@) {
        Some(Some(h)) => match pattern_group(view_link_pattern(), h) {
            Some(d) => i32_text(d),
            None => None,
        },
        _ => None,
    }
}

/// The links in the markup of a pagination element.
pub open spec fn links_in(s: Seq<char>) -> Option<(Option<int>, Option<int>, Option<int>)> {
    match three_parts(s) {
        Some((a, b, c)) => Some((link_target(a), link_target(b), link_target(c))),
        None => None,
    }
}

/// The selector of the pagination element inside a description.
pub open spec fn nav_links_selector() -> Seq<char> {
    ".parsed_nav_links"@
}

fn get_link_if_exists(text: &str) -> (r: Option<i32>)
    ensures
        as_int(r) == link_target(text@),
{
    let fragment = parse_fragment(text);
    match select_attribute(&fragment, "a", "href") {
        Some(Some(href)) => match first_group("/view/(\\d+)", href.as_str()) {
            Some(digits) => parse_i32(digits.as_str()),
            None => None,
        },
        _ => None,
    }
}

/// Reads the three links out of the markup of a pagination element.
pub fn parse_nav_links(description: &str) -> (r: Option<NavLinks>)
    ensures
        match (r, links_in(description@)) {
            (None, None) => true,
            (Some(l), Some((p, f, n))) => as_int(l.prev) == p && as_int(l.first) == f && as_int(
                l.next,
            ) == n,
            _ => false,
        },
{
    let len = description.unicode_len();
    proof {
        reveal_strlit("|");
        assert("|"@ =~= separator());
    }
    let a = match find_text_from(description, "|", 0) {
        Some(a) => a,
        None => return None,
    };
    let b = match find_text_from(description, "|", a + 1) {
        Some(b) => b,
        None => return None,
    };
    let end = match find_text_from(description, "|", b + 1) {
        Some(c) => c,
        None => len,
    };
    let prev = get_link_if_exists(description.substring_char(0, a));
    let first = get_link_if_exists(description.substring_char(a + 1, b));
    let next = get_link_if_exists(description.substring_char(b + 1, end));
    Some(NavLinks { prev, first, next })
}

impl Submission {
    /// The pagination links of the description: `None` where it has no
    /// pagination element, else what `parse_nav_links` reads from that
    /// element's markup. The markup's attribute order is not fixed, so what
    /// is said of a result is that some markup gives exactly those links.
    pub fn nav_links(&self) -> (r: Option<NavLinks>)
        ensures
            matched_texts(self.description@, true, nav_links_selector()).len() == 0 ==> r is None,
            r is Some ==> matched_texts(self.description@, true, nav_links_selector()).len() > 0,
            r matches Some(l) ==> exists|m: Seq<char>|
                links_in(m) == Some((as_int(l.prev), as_int(l.first), as_int(l.next))),
    {
        let description = parse_fragment(self.description.as_str());
        match select_inner_markup(&description, ".parsed_nav_links") {
            Some(inner) => {
                let r = parse_nav_links(inner.as_str());
                if let Some(l) = r {
                    assert(links_in(inner@) == Some((as_int(l.prev), as_int(l.first), as_int(l.next))));
                }
                r
            },
            None => None,
        }
    }
}

} // verus!
