//! The submission record and its extraction from a submission's view page.

use vstd::prelude::*;
use crate::date::{date_error, date_of, parse_date, Timestamp};
use crate::document::{
    first_attribute, matched_texts, parse_document, select_attribute,
    select_inner_markup, select_texts, Document,
};
use crate::error::Error;
use crate::model::{absolute_url, extension_of, file_name_of, rating_named, resolve_url, Content, Rating};
use crate::queries::{Queries, QueryTexts};
use crate::text::{find_text, index_from, same_text, trim_whitespace, trimmed};

verus! {

/// The exact and the perceptual digest of a submission's raster image.
#[derive(Clone, Debug)]
pub struct Fingerprint {
    /// The perceptual hash, eight bytes.
    pub perceptual_hash: Vec<u8>,
    /// The perceptual hash in base64.
    pub perceptual_hash_base64: String,
    /// The perceptual hash read as a big-endian signed integer.
    pub perceptual_hash_numeric: i64,
    /// The SHA-256 digest of the payload, 32 bytes.
    pub content_digest: Vec<u8>,
    /// The payload's length in bytes.
    pub content_size: usize,
    /// The payload itself.
    pub raw_bytes: Option<Vec<u8>>,
}

/// One submission as its view page shows it.
#[derive(Clone, Debug)]
pub struct Submission {
    pub id: i32,
    pub title: String,
    /// The artist's handle, taken from the profile link.
    pub artist: String,
    pub content: Content,
    /// Lower-case extension of the content URL's file name.
    pub ext: String,
    /// Final path segment of the content URL.
    pub filename: String,
    pub rating: Rating,
    pub posted_at: Timestamp,
    /// In document order, duplicates kept.
    pub tags: Vec<String>,
    /// The description's markup.
    pub description: String,
    /// Absent until the image has been fingerprinted.
    pub fingerprint: Option<Fingerprint>,
}

/// A failure as a message and a retry flag.
pub type Failure = (Seq<char>, bool);

/// The trimmed text of the first element of the page that matches `selector`.
pub open spec fn first_text(src: Seq<char>, fragment: bool, selector: Seq<char>) -> Option<Seq<char>> {
    let m = matched_texts(src, fragment, selector);
    if m.len() > 0 {
        Some(trimmed(m[0]))
    } else {
        None
    }
}

/// The page says that the submission does not exist: its title is the
/// system error title, or it holds an error notice.
pub open spec fn page_absent(src: Seq<char>, q: QueryTexts) -> bool {
    first_text(src, false, q.page_title) == Some("System Error"@)
        || matched_texts(src, false, q.error_message).len() > 0
}

/// The marker before a user handle in a profile link.
pub open spec fn user_marker() -> Seq<char> {
    "/user/"@
}

/// The handle in a profile link: what follows the first `/user/`, without
/// one closing `/`.
pub open spec fn profile_handle(href: Seq<char>) -> Option<Seq<char>> {
    let i = index_from(href, user_marker(), 0);
    if i < 0 {
        None
    } else {
        let path = href.subrange(i + user_marker().len(), href.len() as int);
        Some(
            if path.len() > 0 && path.last() == '/' {
                path.drop_last()
            } else {
                path
            },
        )
    }
}

pub open spec fn artist_of(src: Seq<char>, q: QueryTexts) -> Option<Seq<char>> {
    match first_attribute(src, false, q.artist, "href"@) {
        Some(Some(h)) => profile_handle(h),
        _ => None,
    }
}

/// The content: whether it is an image, and its absolute URL.
pub open spec fn content_of(src: Seq<char>, q: QueryTexts) -> Result<(bool, Seq<char>), Failure> {
    match first_attribute(src, false, q.image, "src"@) {
        Some(Some(r)) => Ok((true, absolute_url(r))),
        Some(None) => Err(("missing image url"@, true)),
        None => match first_attribute(src, false, q.animation, "data"@) {
            Some(Some(r)) => Ok((false, absolute_url(r))),
            Some(None) => Err(("missing animation url"@, true)),
            None => Err(("invalid submission type"@, false)),
        },
    }
}

pub open spec fn rating_of(src: Seq<char>, q: QueryTexts) -> Result<Rating, Failure> {
    match first_text(src, false, q.rating) {
        None => Err(("unable to select submission rating"@, false)),
        Some(t) => match rating_named(t) {
            Some(r) => Ok(r),
            None => Err(("unrecognized rating"@, false)),
        },
    }
}

/// The date text of the submission.
pub open spec fn posted_text_of(src: Seq<char>, q: QueryTexts) -> Result<Seq<char>, Failure> {
    match first_attribute(src, false, q.posted_at, "title"@) {
        None => Err(("unable to select posted at"@, false)),
        Some(None) => Err(("missing posted at title"@, true)),
        Some(Some(t)) => Ok(t),
    }
}

/// The first failure of extraction, with the fields taken in page order.
pub open spec fn extraction_failure(src: Seq<char>, q: QueryTexts) -> Option<Failure> {
    if first_text(src, false, q.title) is None {
        Some(("unable to select title"@, false))
    } else if artist_of(src, q) is None {
        Some(("unable to select artist"@, false))
    } else if content_of(src, q) is Err {
        Some(content_of(src, q)->Err_0)
    } else if rating_of(src, q) is Err {
        Some(rating_of(src, q)->Err_0)
    } else if posted_text_of(src, q) is Err {
        Some(posted_text_of(src, q)->Err_0)
    } else if matched_texts(src, false, q.description).len() == 0 {
        Some(("unable to select description"@, false))
    } else if date_of(posted_text_of(src, q)->Ok_0) is None {
        Some((date_error(), false))
    } else {
        None
    }
}

/// `s` is the record that a page without failures describes.
pub open spec fn extracted(s: Submission, id: i32, src: Seq<char>, q: QueryTexts) -> bool {
    let (is_image, url) = content_of(src, q)->Ok_0;
    let m = matched_texts(src, false, q.tags);
    &&& s.id == id
    &&& Some(s.title@) == first_text(src, false, q.title)
    &&& Some(s.artist@) == artist_of(src, q)
    &&& (s.content is Image) == is_image
    &&& s.content.url_view() == url
    &&& s.ext@ == extension_of(url)
    &&& s.filename@ == file_name_of(url)
    &&& rating_of(src, q) == Ok::<Rating, Failure>(s.rating)
    &&& Some(s.posted_at) == date_of(posted_text_of(src, q)->Ok_0)
    &&& s.tags@.len() == m.len()
    &&& forall|k: int| 0 <= k < m.len() ==> #[trigger] s.tags@[k]@ == trimmed(m[k])
    &&& s.fingerprint is None
}

fn first_trimmed_text(doc: &Document, selector: &str) -> (r: Option<String>)
    ensures
        match (r, first_text(doc.text(), doc.is_fragment(), selector@)) {
            (None, None) => true,
            (Some(v), Some(w)) => v@ == w,
            _ => false,
        },
{
    let texts = select_texts(doc, selector);
    if texts.len() > 0 {
        Some(trim_whitespace(texts[0].as_str()))
    } else {
        None
    }
}

fn handle_in(href: &str) -> (r: Option<String>)
    ensures
        match (r, profile_handle(href@)) {
            (None, None) => true,
            (Some(v), Some(w)) => v@ == w,
            _ => false,
        },
{
    proof {
        reveal_strlit("/user/");
    }
    match find_text(href, "/user/") {
        None => None,
        Some(i) => {
            let n = href.unicode_len();
            let path = href.substring_char(i + 6, n);
            let m = path.unicode_len();
            if m > 0 && path.get_char(m - 1) == '/' {
                assert(path@.subrange(0, m - 1) =~= path@.drop_last());
                Some(path.substring_char(0, m - 1).to_string())
            } else {
                Some(path.to_string())
            }
        },
    }
}

/// Reads a submission's view page with the given layout. `Ok(None)` where
/// the page says the submission does not exist.
pub fn parse_submission_with(q: &Queries, id: i32, page: &str) -> (r: Result<Option<Submission>, Error>)
    ensures
        (r matches Ok(None)) <==> page_absent(page@, q@),
        r matches Err(e) ==> extraction_failure(page@, q@) == Some((e.message@, e.retry)),
        r matches Ok(Some(s)) ==> extraction_failure(page@, q@) is None && extracted(s, id, page@, q@),
{
    let doc = parse_document(page);
    let page_title = first_trimmed_text(&doc, q.page_title.as_str());
    if let Some(t) = page_title {
        if same_text(t.as_str(), "System Error") {
            return Ok(None);
        }
    }
    if select_texts(&doc, q.error_message.as_str()).len() > 0 {
        return Ok(None);
    }
    let title = match first_trimmed_text(&doc, q.title.as_str()) {
        Some(t) => t,
        None => return Err(Error::new("unable to select title", false)),
    };
    let artist = match select_attribute(&doc, q.artist.as_str(), "href") {
        Some(Some(href)) => handle_in(href.as_str()),
        _ => None,
    };
    let artist = match artist {
        Some(a) => a,
        None => return Err(Error::new("unable to select artist", false)),
    };
    let (content, ext, filename) = match select_attribute(&doc, q.image.as_str(), "src") {
        Some(Some(reference)) => {
            let (url, ext, filename) = resolve_url(reference.as_str());
            (Content::Image(url), ext, filename)
        },
        Some(None) => return Err(Error::new("missing image url", true)),
        None => match select_attribute(&doc, q.animation.as_str(), "data") {
            Some(Some(reference)) => {
                let (url, ext, filename) = resolve_url(reference.as_str());
                (Content::Animation(url), ext, filename)
            },
            Some(None) => return Err(Error::new("missing animation url", true)),
            None => return Err(Error::new("invalid submission type", false)),
        },
    };
    let rating = match first_trimmed_text(&doc, q.rating.as_str()) {
        Some(t) => match Rating::parse(t.as_str()) {
            Some(r) => r,
            None => return Err(Error::new("unrecognized rating", false)),
        },
        None => return Err(Error::new("unable to select submission rating", false)),
    };
    let posted_at = match select_attribute(&doc, q.posted_at.as_str(), "title") {
        Some(Some(t)) => t,
        Some(None) => return Err(Error::new("missing posted at title", true)),
        None => return Err(Error::new("unable to select posted at", false)),
    };
    let texts = select_texts(&doc, q.tags.as_str());
    let mut tags: Vec<String> = Vec::new();
    let mut i: usize = 0;
    while i < texts.len()
        invariant
            i <= texts@.len(),
            tags@.len() == i,
            forall|k: int| 0 <= k < i ==> #[trigger] tags@[k]@ == trimmed(texts@[k]@),
        decreases texts.len() - i,
    {
        tags.push(trim_whitespace(texts[i].as_str()));
        i = i + 1;
    }
    let description = match select_inner_markup(&doc, q.description.as_str()) {
        Some(d) => d,
        None => return Err(Error::new("unable to select description", false)),
    };
    let posted_at = parse_date(posted_at.as_str())?;
    Ok(Some(Submission {
        id,
        title,
        artist,
        content,
        ext,
        filename,
        rating,
        posted_at,
        tags,
        description,
        fingerprint: None,
    }))
}

/// Reads a submission's view page in the site's current layout.
pub fn parse_submission(id: i32, page: &str) -> (r: Result<Option<Submission>, Error>)
    ensures
        (r matches Ok(None)) <==> page_absent(page@, crate::queries::current_layout()),
        r matches Err(e) ==> extraction_failure(page@, crate::queries::current_layout()) == Some(
            (e.message@, e.retry),
        ),
        r matches Ok(Some(s)) ==> extraction_failure(page@, crate::queries::current_layout()) is None
            && extracted(s, id, page@, crate::queries::current_layout()),
{
    let q = Queries::current();
    parse_submission_with(&q, id, page)
}

/// The content is an image exactly where the page has the image marker; the
/// animation marker decides only where the image marker is missing.
pub proof fn lemma_image_marker_wins(src: Seq<char>, q: QueryTexts)
    requires
        content_of(src, q) is Ok,
    ensures
        content_of(src, q)->Ok_0.0 <==> first_attribute(src, false, q.image, "src"@) is Some,
        !content_of(src, q)->Ok_0.0 ==> first_attribute(src, false, q.animation, "data"@) is Some,
{
}

} // verus!
