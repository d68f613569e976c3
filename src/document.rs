//! Parsed HTML documents and the structural queries run on them.
//!
//! An HTML tree is opaque here: what a query finds is named as a function of
//! the source text, whether it was read as a whole page or as a fragment, and
//! the query's own text. The extractor's contracts speak of those names.

use vstd::prelude::*;

verus! {

#[verifier::external_type_specification]
#[verifier::external_body]
pub struct ExHtml(scraper::Html);

/// A page or fragment of HTML together with the text it was parsed from.
pub(crate) struct Document {
    source: String,
    fragment: bool,
    tree: scraper::Html,
}

impl Document {
    /// The text that the document was parsed from.
    pub(crate) closed spec fn text(&self) -> Seq<char> {
        self.source@
    }

    /// Whether the text was read as a fragment rather than a whole page.
    pub(crate) closed spec fn is_fragment(&self) -> bool {
        self.fragment
    }
}

/// The text of each element that matches `selector`, in the order of the
/// parsed tree's node arena (the order in which the parser created the
/// nodes): all descendant text nodes joined, untrimmed. Empty where the selector does
/// not parse.
pub uninterp spec fn matched_texts(source: Seq<char>, fragment: bool, selector: Seq<char>) -> Seq<
    Seq<char>,
>;

/// The attribute `attr` of the first element matching `selector`: `None`
/// where nothing matches, `Some(None)` where that element lacks the attribute.
pub uninterp spec fn first_attribute(
    source: Seq<char>,
    fragment: bool,
    selector: Seq<char>,
    attr: Seq<char>,
) -> Option<Option<Seq<char>>>;

/// The text of each leftmost, non-overlapping match of `pattern` in `text`.
pub uninterp spec fn pattern_matches(pattern: Seq<char>, text: Seq<char>) -> Seq<Seq<char>>;

/// The first capture group of the first match of `pattern` in `text`.
pub uninterp spec fn pattern_group(pattern: Seq<char>, text: Seq<char>) -> Option<Seq<char>>;

/// Relies on `scraper::Html::parse_document`, which accepts any text.
#[verifier::external_body]
pub(crate) fn parse_document(page: &str) -> (d: Document)
    ensures
        d.text() == page@,
        !d.is_fragment(),
{
    Document { source: page.to_string(), fragment: false, tree: scraper::Html::parse_document(page) }
}

/// Relies on `scraper::Html::parse_fragment`, which accepts any text.
#[verifier::external_body]
pub(crate) fn parse_fragment(text: &str) -> (d: Document)
    ensures
        d.text() == text@,
        d.is_fragment(),
{
    Document { source: text.to_string(), fragment: true, tree: scraper::Html::parse_fragment(text) }
}

/// Relies on `scraper::Html::select` with a `Selector` parsed from
/// `selector`, and `ElementRef::text` on each match.
#[verifier::external_body]
pub(crate) fn select_texts(doc: &Document, selector: &str) -> (r: Vec<String>)
    ensures
        r@.len() == matched_texts(doc.text(), doc.is_fragment(), selector@).len(),
        forall|k: int|
            0 <= k < r@.len() ==> #[trigger] r@[k]@ == matched_texts(
                doc.text(),
                doc.is_fragment(),
                selector@,
            )[k],
{
    match scraper::Selector::parse(selector) {
        Ok(sel) => doc.tree.select(&sel).map(|e| e.text().collect::<String>()).collect(),
        Err(_) => Vec::new(),
    }
}

/// Relies on `scraper::Html::select` and `Element::attr` on the first match.
#[verifier::external_body]
pub(crate) fn select_attribute(doc: &Document, selector: &str, attr: &str) -> (r: Option<Option<String>>)
    ensures
        match (r, first_attribute(doc.text(), doc.is_fragment(), selector@, attr@)) {
            (None, None) => true,
            (Some(None), Some(None)) => true,
            (Some(Some(v)), Some(Some(w))) => v@ == w,
            _ => false,
        },
{
    match scraper::Selector::parse(selector) {
        Ok(sel) => doc.tree.select(&sel).next().map(|e| e.value().attr(attr).map(|v| v.to_string())),
        Err(_) => None,
    }
}

/// Relies on `scraper::Html::select` and `ElementRef::inner_html` on the
/// first match. Whether there is a match is the same question that
/// `select_texts` answers; the markup itself lists each element's attributes
/// in the order of a randomly seeded `HashMap`, so nothing is said of it.
#[verifier::external_body]
pub(crate) fn select_inner_markup(doc: &Document, selector: &str) -> (r: Option<String>)
    ensures
        r is Some <==> matched_texts(doc.text(), doc.is_fragment(), selector@).len() > 0,
{
    match scraper::Selector::parse(selector) {
        Ok(sel) => doc.tree.select(&sel).next().map(|e| e.inner_html()),
        Err(_) => None,
    }
}

/// Relies on `regex::Regex::find_iter`: the matched text of each match, each
/// a part of `text` and so no longer than it.
#[verifier::external_body]
pub(crate) fn find_matches(pattern: &str, text: &str) -> (r: Vec<String>)
    ensures
        r@.len() == pattern_matches(pattern@, text@).len(),
        forall|k: int|
            0 <= k < r@.len() ==> #[trigger] r@[k]@ == pattern_matches(pattern@, text@)[k],
        forall|k: int| 0 <= k < r@.len() ==> (#[trigger] r@[k])@.len() <= text@.len(),
{
    match regex::Regex::new(pattern) {
        Ok(re) => re.find_iter(text).map(|m| m.as_str().to_string()).collect(),
        Err(_) => Vec::new(),
    }
}

/// Relies on `regex::Regex::captures`: group 1 of the first match.
#[verifier::external_body]
pub(crate) fn first_group(pattern: &str, text: &str) -> (r: Option<String>)
    ensures
        match (r, pattern_group(pattern@, text@)) {
            (None, None) => true,
            (Some(v), Some(w)) => v@ == w,
            _ => false,
        },
{
    match regex::Regex::new(pattern) {
        Ok(re) => re.captures(text).and_then(|c| c.get(1)).map(|m| m.as_str().to_string()),
        Err(_) => None,
    }
}

} // verus!
