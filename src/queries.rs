//! The structural queries that locate each field on the site's pages, kept
//! as configuration so that another page layout can be served by another set.

use vstd::prelude::*;

verus! {

/// The selectors of one page layout.
pub struct Queries {
    /// The page's `<title>`.
    pub page_title: String,
    /// The notice shown where a submission does not exist.
    pub error_message: String,
    /// The link to the artist's profile.
    pub artist: String,
    pub title: String,
    /// The raster image element; its `src` is the content reference.
    pub image: String,
    /// The embedded object element; its `data` is the content reference.
    pub animation: String,
    /// The element whose `title` holds the posting date.
    pub posted_at: String,
    pub tags: String,
    pub description: String,
    pub rating: String,
    /// On the front page, the link to the newest submission.
    pub latest_submission: String,
    /// On the front page, the text with the counts of users online.
    pub online_stats: String,
}

/// The selectors of a layout as plain text.
pub struct QueryTexts {
    pub page_title: Seq<char>,
    pub error_message: Seq<char>,
    pub artist: Seq<char>,
    pub title: Seq<char>,
    pub image: Seq<char>,
    pub animation: Seq<char>,
    pub posted_at: Seq<char>,
    pub tags: Seq<char>,
    pub description: Seq<char>,
    pub rating: Seq<char>,
    pub latest_submission: Seq<char>,
    pub online_stats: Seq<char>,
}

impl View for Queries {
    type V = QueryTexts;

    open spec fn view(&self) -> QueryTexts {
        QueryTexts {
            page_title: self.page_title@,
            error_message: self.error_message@,
            artist: self.artist@,
            title: self.title@,
            image: self.image@,
            animation: self.animation@,
            posted_at: self.posted_at@,
            tags: self.tags@,
            description: self.description@,
            rating: self.rating@,
            latest_submission: self.latest_submission@,
            online_stats: self.online_stats@,
        }
    }
}

/// The selectors of the site's current layout.
pub open spec fn current_layout() -> QueryTexts {
    QueryTexts {
        page_title: "title"@,
        error_message: ".error-message-box, div#standardpage section.notice-message p.link-override"@,
        artist: ".submission-id-sub-container .submission-title + span a"@,
        title: ".submission-title h2 p"@,
        image: "#submissionImg"@,
        animation: "#flash_embed"@,
        posted_at: ".submission-id-sub-container strong span.popup_date"@,
        tags: "section.tags-row a:not(.tag-block)"@,
        description: ".submission-content section"@,
        rating: ".stats-container .rating span"@,
        latest_submission: "#gallery-frontpage-submissions figure:first-child b u a"@,
        online_stats: ".online-stats"@,
    }
}

impl Queries {
    /// The selectors of the site's current layout.
    pub fn current() -> (q: Queries)
        ensures
            q@ == current_layout(),
    {
        Queries {
            page_title: "title".to_string(),
            error_message: ".error-message-box, div#standardpage section.notice-message p.link-override".to_string(),
            artist: ".submission-id-sub-container .submission-title + span a".to_string(),
            title: ".submission-title h2 p".to_string(),
            image: "#submissionImg".to_string(),
            animation: "#flash_embed".to_string(),
            posted_at: ".submission-id-sub-container strong span.popup_date".to_string(),
            tags: "section.tags-row a:not(.tag-block)".to_string(),
            description: ".submission-content section".to_string(),
            rating: ".stats-container .rating span".to_string(),
            latest_submission: "#gallery-frontpage-submissions figure:first-child b u a".to_string(),
            online_stats: ".online-stats".to_string(),
        }
    }
}

} // verus!
