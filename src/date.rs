//! Normalisation of the site's date text into an absolute UTC instant.
//!
//! The text reads like `Mar 23rd, 2019 12:46 AM` or
//! `June 17, 2025 12:00:00 PM`, in a fixed offset five hours west of UTC.

use vstd::prelude::*;
use crate::error::Error;
use crate::text::is_digit;

verus! {

/// An instant, as whole seconds since 1970-01-01T00:00:00Z.
#[derive(Clone, Copy, Debug, PartialEq, Eq)]
pub struct Timestamp {
    pub seconds: i64,
}

/// How many seconds the site's local time lies behind UTC.
pub const SITE_OFFSET_SECONDS: i64 = 18000;

/// The two letters that may follow a day number: `st`, `nd`, `rd`, `th`.
pub open spec fn ordinal_pair(a: char, b: char) -> bool {
    (a == 's' && b == 't') || (a == 'n' && b == 'd') || (a == 'r' && b == 'd') || (a == 't'
        && b == 'h')
}

/// The length of the run of digits that ends the text kept so far, counted
/// up to three.
pub open spec fn next_run(run: nat, c: char) -> nat {
    if is_digit(c) {
        if run >= 3 {
            3
        } else {
            run + 1
        }
    } else {
        0
    }
}

/// `s` with every ordinal suffix dropped that follows a day number of one or
/// two digits, where `run` is the length of the run of digits that ends the
/// text kept so far (three standing for three or more).
pub open spec fn strip_from(s: Seq<char>, run: nat) -> Seq<char>
    decreases s.len(),
{
    if s.len() == 0 {
        Seq::empty()
    } else if 1 <= run <= 2 && s.len() >= 2 && ordinal_pair(s[0], s[1]) {
        strip_from(s.subrange(2, s.len() as int), run)
    } else {
        seq![s[0]] + strip_from(s.drop_first(), next_run(run, s[0]))
    }
}

/// The date text without ordinal suffixes: `23rd` becomes `23`, while
/// `2019th` stays as it is.
pub open spec fn strip_ordinals(s: Seq<char>) -> Seq<char> {
    strip_from(s, 0)
}

proof fn lemma_strip_first(s: Seq<char>)
    requires
        s.len() > 0,
    ensures
        strip_from(s, 0).len() > 0,
        strip_from(s, 0)[0] == s[0],
{
}

proof fn lemma_strip_from_idempotent(s: Seq<char>, run: nat)
    ensures
        strip_from(strip_from(s, run), run) == strip_from(s, run),
    decreases s.len(),
{
    if s.len() == 0 {
    } else if 1 <= run <= 2 && s.len() >= 2 && ordinal_pair(s[0], s[1]) {
        lemma_strip_from_idempotent(s.subrange(2, s.len() as int), run);
    } else {
        let rest = s.drop_first();
        let r = next_run(run, s[0]);
        let out = seq![s[0]] + strip_from(rest, r);
        lemma_strip_from_idempotent(rest, r);
        assert(out.drop_first() =~= strip_from(rest, r));
        if 1 <= run <= 2 && out.len() >= 2 && ordinal_pair(out[0], out[1]) {
            lemma_strip_first(rest);
            assert(false);
        }
    }
}

/// Stripping ordinal suffixes a second time changes nothing.
pub proof fn lemma_strip_ordinals_idempotent(s: Seq<char>)
    ensures
        strip_ordinals(strip_ordinals(s)) == strip_ordinals(s),
{
    lemma_strip_from_idempotent(s, 0);
}

/// Copies `date` without the ordinal suffixes that follow its day number.
pub fn strip_day_suffixes(date: &str) -> (r: String)
    ensures
        r@ == strip_ordinals(date@),
{
    let n = date.unicode_len();
    let mut out = String::new();
    let mut run: u8 = 0;
    let mut i: usize = 0;
    assert(date@.subrange(0, n as int) =~= date@);
    while i < n
        invariant
            i <= n,
            n == date@.len(),
            run <= 3,
            strip_ordinals(date@) == out@ + strip_from(date@.subrange(i as int, n as int), run as nat),
        decreases n - i,
    {
        let ghost rest = date@.subrange(i as int, n as int);
        let c = date.get_char(i);
        if 1 <= run && run <= 2 && i + 1 < n && ordinal_pair_char(c, date.get_char(i + 1)) {
            assert(rest.subrange(2, rest.len() as int) =~= date@.subrange(i + 2, n as int));
            i = i + 2;
        } else {
            assert(rest.drop_first() =~= date@.subrange(i + 1, n as int));
            let piece = date.substring_char(i, i + 1);
            assert(piece@ =~= seq![c]);
            let ghost before = out@;
            let ghost r = next_run(run as nat, c);
            out.append(piece);
            assert(before + (seq![c] + strip_from(rest.drop_first(), r)) =~= out@ + strip_from(
                rest.drop_first(),
                r,
            ));
            run = if '0' <= c && c <= '9' {
                if run >= 3 {
                    3
                } else {
                    run + 1
                }
            } else {
                0
            };
            i = i + 1;
        }
    }
    assert(out@ + strip_from(date@.subrange(n as int, n as int), run as nat) =~= out@);
    out
}

fn ordinal_pair_char(a: char, b: char) -> (r: bool)
    ensures
        r == ordinal_pair(a, b),
{
    (a == 's' && b == 't') || (a == 'n' && b == 'd') || (a == 'r' && b == 'd') || (a == 't'
        && b == 'h')
}

/// How many times `c` occurs in `s`.
pub open spec fn count_char(s: Seq<char>, c: char) -> nat
    decreases s.len(),
{
    if s.len() == 0 {
        0
    } else {
        count_char(s.drop_last(), c) + if s.last() == c { 1nat } else { 0nat }
    }
}

fn colons(s: &str) -> (r: usize)
    ensures
        r == count_char(s@, ':'),
{
    let n = s.unicode_len();
    let mut k: usize = 0;
    let mut i: usize = 0;
    while i < n
        invariant
            i <= n,
            n == s@.len(),
            k == count_char(s@.subrange(0, i as int), ':'),
            k <= i,
        decreases n - i,
    {
        assert(s@.subrange(0, i + 1).drop_last() =~= s@.subrange(0, i as int));
        if s.get_char(i) == ':' {
            k = k + 1;
        }
        i = i + 1;
    }
    assert(s@.subrange(0, n as int) =~= s@);
    k
}

/// The template of the later pages, with seconds.
pub open spec fn seconds_format() -> Seq<char> {
    "%B %e, %Y %I:%M:%S %p"@
}

/// The template of the earlier pages, without seconds. `%B` takes a month's
/// abbreviated or full name.
pub open spec fn minutes_format() -> Seq<char> {
    "%B %e, %Y %l:%M %p"@
}

/// The template that a cleaned date text is read with: the one with seconds
/// where its time has two `:`.
pub open spec fn format_for(cleaned: Seq<char>) -> Seq<char> {
    if count_char(cleaned, ':') >= 2 {
        seconds_format()
    } else {
        minutes_format()
    }
}

/// The seconds since the epoch of the wall-clock time that `text` spells in
/// `format`, read as if it were UTC; `None` where the text does not fit.
pub uninterp spec fn naive_seconds(text: Seq<char>, format: Seq<char>) -> Option<i64>;

/// Relies on `chrono::NaiveDateTime::parse_from_str`, then
/// `and_utc().timestamp()`: whether `text` fits `format`, and the instant
/// that it spells, depend on the two strings alone.
#[verifier::external_body]
fn read_local_time(text: &str, format: &str) -> (r: Option<i64>)
    ensures
        r == naive_seconds(text@, format@),
{
    chrono::NaiveDateTime::parse_from_str(text, format).ok().map(|d| d.and_utc().timestamp())
}

/// The UTC instant of a local wall-clock time read at the site's offset.
pub open spec fn site_time_to_utc(local: i64) -> Option<Timestamp> {
    if local + SITE_OFFSET_SECONDS <= i64::MAX {
        Some(Timestamp { seconds: (local + SITE_OFFSET_SECONDS) as i64 })
    } else {
        None
    }
}

/// What `parse_date` gives for a date text: `None` stands for the
/// non-retryable date error.
pub open spec fn date_of(text: Seq<char>) -> Option<Timestamp> {
    let cleaned = strip_ordinals(text);
    match naive_seconds(cleaned, format_for(cleaned)) {
        Some(local) => site_time_to_utc(local),
        None => None,
    }
}

pub open spec fn date_error() -> Seq<char> {
    "unable to parse date"@
}

/// Reads the site's date text as an instant in UTC.
pub fn parse_date(date: &str) -> (r: Result<Timestamp, Error>)
    ensures
        r matches Ok(t) ==> date_of(date@) == Some(t),
        r matches Err(e) ==> date_of(date@) is None && e.is(date_error(), false),
{
    let cleaned = strip_day_suffixes(date);
    let format = if colons(cleaned.as_str()) >= 2 {
        "%B %e, %Y %I:%M:%S %p"
    } else {
        "%B %e, %Y %l:%M %p"
    };
    match read_local_time(cleaned.as_str(), format) {
        Some(local) => {
            if local <= i64::MAX - SITE_OFFSET_SECONDS {
                Ok(Timestamp { seconds: local + SITE_OFFSET_SECONDS })
            } else {
                Err(Error::new("unable to parse date", false))
            }
        },
        None => Err(Error::new("unable to parse date", false)),
    }
}

/// A date text that fits its template is read as one instant, whenever it
/// is read: the wall-clock time it spells, five hours later, in UTC.
pub proof fn lemma_date_at_site_offset(text: Seq<char>, local: i64)
    requires
        naive_seconds(strip_ordinals(text), format_for(strip_ordinals(text))) == Some(local),
        local + SITE_OFFSET_SECONDS <= i64::MAX,
    ensures
        date_of(text) == Some(Timestamp { seconds: (local + SITE_OFFSET_SECONDS) as i64 }),
{
}

/// A day number of one or two digits followed by an ordinal suffix keeps
/// its digits and loses the suffix: `23rd` becomes `23`, `1st` becomes `1`.
pub proof fn lemma_strip_keeps_day(day: Seq<char>, a: char, b: char, rest: Seq<char>)
    requires
        1 <= day.len() <= 2,
        forall|k: int| 0 <= k < day.len() ==> is_digit(#[trigger] day[k]),
        ordinal_pair(a, b),
    ensures
        strip_ordinals(day + seq![a, b] + rest) == day + strip_from(rest, day.len()),
{
    let t = seq![a, b] + rest;
    assert(t[0] == a && t[1] == b);
    assert(t.subrange(2, t.len() as int) =~= rest);
    assert(strip_from(t, day.len()) == strip_from(rest, day.len()));
    lemma_strip_digits_prefix(day, t);
    assert(day + seq![a, b] + rest =~= day + t);
}

/// The digits of `s`, in order.
pub open spec fn digits_in(s: Seq<char>) -> Seq<char>
    decreases s.len(),
{
    if s.len() == 0 {
        Seq::empty()
    } else if is_digit(s[0]) {
        seq![s[0]] + digits_in(s.drop_first())
    } else {
        digits_in(s.drop_first())
    }
}

proof fn lemma_strip_from_keeps_digits(s: Seq<char>, run: nat)
    ensures
        digits_in(strip_from(s, run)) == digits_in(s),
    decreases s.len(),
{
    if s.len() == 0 {
    } else if 1 <= run <= 2 && s.len() >= 2 && ordinal_pair(s[0], s[1]) {
        lemma_strip_from_keeps_digits(s.subrange(2, s.len() as int), run);
        assert(s.drop_first().drop_first() =~= s.subrange(2, s.len() as int));
        assert(s.drop_first()[0] == s[1]);
        assert(digits_in(s) == digits_in(s.drop_first()));
        assert(digits_in(s.drop_first()) == digits_in(s.drop_first().drop_first()));
    } else {
        let rest = s.drop_first();
        let r = next_run(run, s[0]);
        lemma_strip_from_keeps_digits(rest, r);
        let out = seq![s[0]] + strip_from(rest, r);
        assert(out.drop_first() =~= strip_from(rest, r));
        assert(out[0] == s[0]);
    }
}

/// Stripping ordinal suffixes never removes a digit, nor changes their order.
pub proof fn lemma_strip_keeps_digits(s: Seq<char>)
    ensures
        digits_in(strip_ordinals(s)) == digits_in(s),
{
    lemma_strip_from_keeps_digits(s, 0);
}

proof fn lemma_strip_from_unchanged(s: Seq<char>, run: nat)
    requires
        forall|i: int| 0 <= i < s.len() - 1 ==> !ordinal_pair(#[trigger] s[i], s[i + 1]),
    ensures
        strip_from(s, run) == s,
    decreases s.len(),
{
    if s.len() > 0 {
        let rest = s.drop_first();
        assert forall|i: int| 0 <= i < rest.len() - 1 implies !ordinal_pair(
            #[trigger] rest[i],
            rest[i + 1],
        ) by {
            assert(rest[i] == s[i + 1] && rest[i + 1] == s[i + 2]);
        }
        if s.len() >= 2 {
            assert(!ordinal_pair(s[0], s[1]));
        }
        lemma_strip_from_unchanged(rest, next_run(run, s[0]));
        assert(seq![s[0]] + rest =~= s);
    }
}

/// A date text in which no ordinal suffix stands is left as it is, so a day
/// written without a suffix keeps all its digits: `23` stays `23`.
pub proof fn lemma_strip_leaves_plain_text(s: Seq<char>)
    requires
        forall|i: int| 0 <= i < s.len() - 1 ==> !ordinal_pair(#[trigger] s[i], s[i + 1]),
    ensures
        strip_ordinals(s) == s,
{
    lemma_strip_from_unchanged(s, 0);
}

/// A character that is neither a digit nor a letter of any ordinal suffix:
/// no suffix is stripped across it.
pub open spec fn neutral(c: char) -> bool {
    !is_digit(c) && c != 's' && c != 'n' && c != 'r' && c != 't' && c != 'd' && c != 'h'
}

proof fn lemma_strip_split(p: Seq<char>, x: Seq<char>, run: nat)
    requires
        p.len() > 0,
        neutral(p.last()),
    ensures
        strip_from(p + x, run) == strip_from(p, run) + strip_from(x, 0),
    decreases p.len(),
{
    let s = p + x;
    assert(s[0] == p[0]);
    if p.len() == 1 {
        assert(!ordinal_pair(s[0], s[1]));
        assert(s.drop_first() =~= x);
        assert(p.drop_first() =~= Seq::<char>::empty());
        assert(strip_from(p, run) == seq![p[0]] + strip_from(p.drop_first(), 0));
        assert(strip_from(p, run) =~= seq![p[0]]);
    } else {
        assert(s[1] == p[1]);
        if 1 <= run <= 2 && ordinal_pair(p[0], p[1]) {
            assert(p.len() >= 3);
            let q = p.subrange(2, p.len() as int);
            assert(q.last() == p.last());
            lemma_strip_split(q, x, run);
            assert(s.subrange(2, s.len() as int) =~= q + x);
        } else {
            let q = p.drop_first();
            let r = next_run(run, p[0]);
            assert(q.last() == p.last());
            lemma_strip_split(q, x, r);
            assert(s.drop_first() =~= q + x);
            assert(seq![p[0]] + (strip_from(q, r) + strip_from(x, 0)) =~= (seq![p[0]] + strip_from(
                q,
                r,
            )) + strip_from(x, 0));
        }
    }
}

proof fn lemma_strip_digits_prefix(day: Seq<char>, x: Seq<char>)
    requires
        1 <= day.len() <= 2,
        forall|k: int| 0 <= k < day.len() ==> is_digit(#[trigger] day[k]),
    ensures
        strip_from(day + x, 0) == day + strip_from(x, day.len()),
{
    let s = day + x;
    assert(is_digit(day[0]));
    assert(s[0] == day[0]);
    assert(strip_from(s, 0) == seq![s[0]] + strip_from(s.drop_first(), 1));
    if day.len() == 1 {
        assert(s.drop_first() =~= x);
        assert(seq![day[0]] + strip_from(x, 1) =~= day + strip_from(x, 1));
    } else {
        let s1 = s.drop_first();
        assert(is_digit(day[1]));
        assert(s1 =~= seq![day[1]] + x);
        assert(s1[0] == day[1]);
        assert(!ordinal_pair(s1[0], s1[1]));
        assert(s1.drop_first() =~= x);
        assert(strip_from(s1, 1) == seq![s1[0]] + strip_from(x, 2));
        assert(seq![day[0]] + (seq![day[1]] + strip_from(x, 2)) =~= day + strip_from(x, 2));
    }
}

/// Inside a date text, an ordinal suffix after a day of one or two digits
/// changes nothing: `Mar 23rd, 2019 12:46 AM` is cleaned to the same text as
/// `Mar 23, 2019 12:46 AM`, and the two read as the same instant. The day is
/// at the start or follows a character that no suffix can touch.
pub proof fn lemma_suffix_after_day_ignored(
    before: Seq<char>,
    day: Seq<char>,
    a: char,
    b: char,
    after: Seq<char>,
)
    requires
        before.len() == 0 || neutral(before.last()),
        1 <= day.len() <= 2,
        forall|k: int| 0 <= k < day.len() ==> is_digit(#[trigger] day[k]),
        ordinal_pair(a, b),
    ensures
        strip_ordinals(before + day + seq![a, b] + after) == strip_ordinals(before + day + after),
        date_of(before + day + seq![a, b] + after) == date_of(before + day + after),
{
    let with = day + (seq![a, b] + after);
    let without = day + after;
    let t = seq![a, b] + after;
    assert(t[0] == a && t[1] == b);
    assert(t.subrange(2, t.len() as int) =~= after);
    assert(strip_from(t, day.len()) == strip_from(after, day.len()));
    lemma_strip_digits_prefix(day, t);
    lemma_strip_digits_prefix(day, after);
    assert(before + day + seq![a, b] + after =~= before + with);
    assert(before + day + after =~= before + without);
    if before.len() == 0 {
        assert(before + with =~= with);
        assert(before + without =~= without);
    } else {
        lemma_strip_split(before, with, 0);
        lemma_strip_split(before, without, 0);
    }
}

} // verus!
