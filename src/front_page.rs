//! The site's front page: the newest submission's id and the counts of users
//! online.

use vstd::prelude::*;
use crate::document::{
    find_matches, first_attribute, matched_texts, parse_document, pattern_matches,
    select_attribute, select_texts,
};
use crate::error::Error;
use crate::queries::{current_layout, Queries, QueryTexts};
use crate::submission::Failure;
use crate::text::{i32_text, last_path_segment, last_segment, parse_i32, parse_usize, usize_text};

verus! {

/// How many users are online, by kind, as the front page states it.
#[derive(Clone, Copy, Debug, PartialEq, Eq)]
pub struct OnlineCounts {
    pub total: usize,
    pub guests: usize,
    pub registered: usize,
    pub other: usize,
}

/// The pattern of a run of digits.
pub open spec fn number_pattern() -> Seq<char> {
    "(\\d+)"@
}

/// The values of the runs that read as a `usize`, in order; the others are
/// passed over.
pub open spec fn usize_values(runs: Seq<Seq<char>>) -> Seq<int>
    decreases runs.len(),
{
    if runs.len() == 0 {
        Seq::empty()
    } else {
        let rest = usize_values(runs.drop_last());
        match usize_text(runs.last()) {
            Some(v) => rest.push(v),
            None => rest,
        }
    }
}

/// The `k`-th value, or zero where there are fewer.
pub open spec fn nth_or_zero(v: Seq<int>, k: int) -> int {
    if k < v.len() {
        v[k]
    } else {
        0
    }
}

/// The counts that a status text gives: its first four numbers, by position,
/// with zero for each that is missing.
pub open spec fn counts_in(c: OnlineCounts, text: Seq<char>) -> bool {
    let v = usize_values(pattern_matches(number_pattern(), text));
    &&& c.total == nth_or_zero(v, 0)
    &&& c.guests == nth_or_zero(v, 1)
    &&& c.registered == nth_or_zero(v, 2)
    &&& c.other == nth_or_zero(v, 3)
}

fn nth_or_zero_exec(v: &Vec<usize>, k: usize) -> (r: usize)
    ensures
        r == nth_or_zero(v@.map_values(|x: usize| x as int), k as int),
{
    if k < v.len() {
        v[k]
    } else {
        0
    }
}

/// Reads the counts of users online out of the front page's status text.
/// Never fails: a missing count is zero.
pub fn parse_online_counts(text: &str) -> (r: OnlineCounts)
    ensures
        counts_in(r, text@),
        text@.len() == 0 ==> r.total == 0 && r.guests == 0 && r.registered == 0 && r.other == 0,
{
    let runs = find_matches("(\\d+)", text);
    let ghost m = pattern_matches(number_pattern(), text@);
    let mut values: Vec<usize> = Vec::new();
    let mut i: usize = 0;
    while i < runs.len()
        invariant
            i <= runs@.len(),
            runs@.len() == m.len(),
            forall|k: int| 0 <= k < runs@.len() ==> #[trigger] runs@[k]@ == m[k],
            text@.len() == 0 ==> values@.len() == 0,
            forall|k: int| 0 <= k < runs@.len() ==> (#[trigger] runs@[k])@.len() <= text@.len(),
            values@.map_values(|x: usize| x as int) == usize_values(m.subrange(0, i as int)),
        decreases runs.len() - i,
    {
        assert(m.subrange(0, i + 1).drop_last() =~= m.subrange(0, i as int));
        let ghost before = values@;
        assert(runs@[i as int]@.len() <= text@.len());
        match parse_usize(runs[i].as_str()) {
            Some(v) => {
                values.push(v);
                assert(values@.map_values(|x: usize| x as int) =~= before.map_values(
                    |x: usize| x as int,
                ).push(v as int));
            },
            None => {},
        }
        i = i + 1;
    }
    assert(m.subrange(0, runs@.len() as int) =~= m);
    OnlineCounts {
        total: nth_or_zero_exec(&values, 0),
        guests: nth_or_zero_exec(&values, 1),
        registered: nth_or_zero_exec(&values, 2),
        other: nth_or_zero_exec(&values, 3),
    }
}

/// Where the status text has fewer than four numbers, the counts past the
/// last number are zero, and parsing still succeeds.
pub proof fn lemma_missing_counts_are_zero(c: OnlineCounts, text: Seq<char>)
    requires
        counts_in(c, text),
    ensures
        ({
            let n = usize_values(pattern_matches(number_pattern(), text)).len();
            &&& n <= 0 ==> c.total == 0
            &&& n <= 1 ==> c.guests == 0
            &&& n <= 2 ==> c.registered == 0
            &&& n <= 3 ==> c.other == 0
        }),
{
}

/// The status text of the front page: the first match's text, or nothing.
pub open spec fn status_text(src: Seq<char>, q: QueryTexts) -> Seq<char> {
    let m = matched_texts(src, false, q.online_stats);
    if m.len() > 0 {
        m[0]
    } else {
        Seq::empty()
    }
}

/// The id of the newest submission: the last non-empty path segment of the
/// link's `href`, read as a number.
pub open spec fn latest_of(src: Seq<char>, q: QueryTexts) -> Result<int, Failure> {
    match first_attribute(src, false, q.latest_submission, "href"@) {
        None => Err(("value not found"@, false)),
        Some(None) => Err(("href not found"@, false)),
        Some(Some(h)) => match last_segment(h) {
            None => Err(("part not found"@, false)),
            Some(p) => match i32_text(p) {
                Some(v) => Ok(v),
                None => Err(("value was not number"@, false)),
            },
        },
    }
}

/// Reads the newest submission's id and the online counts from the front page
/// with the given layout.
pub fn parse_front_page_with(q: &Queries, page: &str) -> (r: Result<(i32, OnlineCounts), Error>)
    ensures
        match r {
            Ok((id, c)) => latest_of(page@, q@) == Ok::<int, Failure>(id as int) && counts_in(
                c,
                status_text(page@, q@),
            ),
            Err(e) => latest_of(page@, q@) == Err::<int, Failure>((e.message@, e.retry)),
        },
        r matches Ok((_, c)) ==> (matched_texts(page@, false, q@.online_stats).len() == 0 ==> c.total
            == 0 && c.guests == 0 && c.registered == 0 && c.other == 0),
{
    proof {
        reveal_strlit("");
        assert(""@ =~= Seq::<char>::empty());
    }
    let doc = parse_document(page);
    let texts = select_texts(&doc, q.online_stats.as_str());
    let online = if texts.len() > 0 {
        parse_online_counts(texts[0].as_str())
    } else {
        parse_online_counts("")
    };
    let href = match select_attribute(&doc, q.latest_submission.as_str(), "href") {
        Some(Some(h)) => h,
        Some(None) => return Err(Error::new("href not found", false)),
        None => return Err(Error::new("value not found", false)),
    };
    let part = match last_path_segment(href.as_str()) {
        Some(p) => p,
        None => return Err(Error::new("part not found", false)),
    };
    match parse_i32(part.as_str()) {
        Some(id) => Ok((id, online)),
        None => Err(Error::new("value was not number", false)),
    }
}

/// Reads the front page in the site's current layout.
pub fn parse_front_page(page: &str) -> (r: Result<(i32, OnlineCounts), Error>)
    ensures
        match r {
            Ok((id, c)) => latest_of(page@, current_layout()) == Ok::<int, Failure>(id as int)
                && counts_in(c, status_text(page@, current_layout())),
            Err(e) => latest_of(page@, current_layout()) == Err::<int, Failure>(
                (e.message@, e.retry),
            ),
        },
        r matches Ok((_, c)) ==> (matched_texts(page@, false, current_layout().online_stats).len()
            == 0 ==> c.total == 0 && c.guests == 0 && c.registered == 0 && c.other == 0),
{
    let q = Queries::current();
    parse_front_page_with(&q, page)
}

} // verus!
