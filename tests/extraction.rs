use chrono::TimeZone;
use furaffinity::{parse_submission, parse_submission_with, Content, Queries, Rating};

struct Page<'a> {
    title: &'a str,
    artist_href: &'a str,
    media: &'a str,
    rating: &'a str,
    posted: &'a str,
    tags: &'a str,
}

impl<'a> Page<'a> {
    fn standard() -> Self {
        Page {
            title: "<div class=\"submission-title\"><h2><p> Bilberry fox </p></h2></div>",
            artist_href: "<span>by <a href=\"/user/deadrussiansoul/\"><strong>DeadRussianSoul</strong></a></span>",
            media: "<img id=\"submissionImg\" src=\"//d.furaffinity.net/art/deadrussiansoul/1555431774/1555431774.deadrussiansoul_Скан_20190411__7_.png\">",
            rating: "<div class=\"stats-container\"><div class=\"rating\"><span> General </span></div></div>",
            posted: "<strong><span class=\"popup_date\" title=\"Apr 16th, 2019 12:22 PM\">3 years ago</span></strong>",
            tags: "<section class=\"tags-row\"><span class=\"tags\"><a href=\"/search/@keywords fox\">fox</a></span> <span class=\"tags\"><a href=\"/search/@keywords bilberry\"> bilberry </a></span> <a class=\"tag-block\" href=\"#\">hidden</a> <span class=\"tags\"><a href=\"/search/@keywords male\">male</a></span></section>",
        }
    }

    fn render(&self) -> String {
        format!(
            "<html><head><title>Bilberry fox by deadrussiansoul -- Fur Affinity</title></head><body>\
<div class=\"submission-id-sub-container\">{}{}{}</div>{}{}{}\
<div class=\"submission-content\"><section><div class=\"submission-description\">A <b>fox</b>.</div></section></div>\
</body></html>",
            self.title, self.artist_href, self.posted, self.media, self.rating, self.tags
        )
    }
}

#[test]
fn test_load_submission() {
    let page = Page::standard().render();
    let sub = parse_submission(31209021, &page)
        .expect("unable to load test submission")
        .expect("submission did not exist");

    assert_eq!(sub.id, 31209021);
    assert_eq!(sub.title, "Bilberry fox");
    assert_eq!(sub.artist, "deadrussiansoul");
    assert_eq!(sub.content, Content::Image("https://d.furaffinity.net/art/deadrussiansoul/1555431774/1555431774.deadrussiansoul_Скан_20190411__7_.png".into()));
    assert_eq!(sub.tags, vec!["fox", "bilberry", "male"]);
    assert_eq!(sub.ext, "png");
    assert_eq!(sub.filename, "1555431774.deadrussiansoul_Скан_20190411__7_.png");
    assert_eq!(sub.rating, Rating::General);
    assert_eq!(
        sub.posted_at.seconds,
        chrono::Utc.with_ymd_and_hms(2019, 4, 16, 17, 22, 0).unwrap().timestamp()
    );
    assert!(sub.description.contains("submission-description"));
    assert!(sub.description.contains("<b>fox</b>"));
    assert!(sub.fingerprint.is_none());

    let sub = parse_submission(34426892, "<html><head><title>System Error</title></head><body></body></html>")
        .expect("unable to load submission");
    assert!(sub.is_none());

    let sub = parse_submission(34999322, "<html><body><div class=\"error-message-box\">removed</div></body></html>")
        .expect("unable to load submission");
    assert!(sub.is_none());
}

#[test]
fn system_error_title_means_no_submission() {
    let page = "<html><head><title>System Error</title></head><body><p>The submission you are trying to find is not in our database.</p></body></html>";
    assert!(parse_submission(34426892, page).unwrap().is_none());
}

#[test]
fn notice_message_means_no_submission() {
    let page = "<html><head><title>Fur Affinity</title></head><body><div id=\"standardpage\"><section class=\"notice-message\"><p class=\"link-override\">This submission has been deleted.</p></section></div></body></html>";
    assert!(parse_submission(34999322, page).unwrap().is_none());
    let page = "<html><head><title>x</title></head><body><div class=\"error-message-box\">Gone</div></body></html>";
    assert!(parse_submission(1, page).unwrap().is_none());
}

#[test]
fn animation_when_only_the_embed_is_present() {
    let mut p = Page::standard();
    p.media = "<object id=\"flash_embed\" data=\"//d.furaffinity.net/art/someone/1/1.someone_movie.SWF\"></object>";
    let sub = parse_submission(2, &p.render()).unwrap().unwrap();
    assert_eq!(
        sub.content,
        Content::Animation("https://d.furaffinity.net/art/someone/1/1.someone_movie.SWF".into())
    );
    assert_eq!(sub.ext, "swf");
    assert_eq!(sub.filename, "1.someone_movie.SWF");
}

#[test]
fn image_wins_when_both_markers_are_present() {
    let mut p = Page::standard();
    p.media = "<object id=\"flash_embed\" data=\"//d.example.net/a.swf\"></object><img id=\"submissionImg\" src=\"//d.example.net/b.gif\">";
    let sub = parse_submission(3, &p.render()).unwrap().unwrap();
    assert_eq!(sub.content, Content::Image("https://d.example.net/b.gif".into()));
}

#[test]
fn missing_title_is_a_structural_error() {
    let mut p = Page::standard();
    p.title = "<div class=\"submission-title\"></div>";
    let err = parse_submission(4, &p.render()).unwrap_err();
    assert_eq!(err.message, "unable to select title");
    assert!(!err.retry);
}

#[test]
fn missing_artist_is_a_structural_error() {
    let mut p = Page::standard();
    p.artist_href = "<span>by <a href=\"/gallery/someone/\">someone</a></span>";
    let err = parse_submission(5, &p.render()).unwrap_err();
    assert_eq!(err.message, "unable to select artist");
    assert!(!err.retry);
}

#[test]
fn missing_both_markers_is_invalid_type() {
    let mut p = Page::standard();
    p.media = "";
    let err = parse_submission(6, &p.render()).unwrap_err();
    assert_eq!(err.message, "invalid submission type");
    assert!(!err.retry);
}

#[test]
fn missing_image_reference_is_retryable() {
    let mut p = Page::standard();
    p.media = "<img id=\"submissionImg\">";
    let err = parse_submission(7, &p.render()).unwrap_err();
    assert_eq!(err.message, "missing image url");
    assert!(err.retry);
    p.media = "<object id=\"flash_embed\"></object>";
    let err = parse_submission(7, &p.render()).unwrap_err();
    assert_eq!(err.message, "missing animation url");
    assert!(err.retry);
}

#[test]
fn unknown_rating_is_not_retryable() {
    let mut p = Page::standard();
    p.rating = "<div class=\"stats-container\"><div class=\"rating\"><span>Extreme</span></div></div>";
    let err = parse_submission(8, &p.render()).unwrap_err();
    assert_eq!(err.message, "unrecognized rating");
    assert!(!err.retry);
    p.rating = "";
    let err = parse_submission(8, &p.render()).unwrap_err();
    assert_eq!(err.message, "unable to select submission rating");
    assert!(!err.retry);
}

#[test]
fn posted_at_errors() {
    let mut p = Page::standard();
    p.posted = "";
    let err = parse_submission(9, &p.render()).unwrap_err();
    assert_eq!(err.message, "unable to select posted at");
    assert!(!err.retry);
    p.posted = "<strong><span class=\"popup_date\">3 years ago</span></strong>";
    let err = parse_submission(9, &p.render()).unwrap_err();
    assert_eq!(err.message, "missing posted at title");
    assert!(err.retry);
    p.posted = "<strong><span class=\"popup_date\" title=\"sometime\">3 years ago</span></strong>";
    let err = parse_submission(9, &p.render()).unwrap_err();
    assert_eq!(err.message, "unable to parse date");
    assert!(!err.retry);
}

#[test]
fn missing_description_is_a_structural_error() {
    let page = Page::standard().render().replace("submission-content", "elsewhere");
    let err = parse_submission(10, &page).unwrap_err();
    assert_eq!(err.message, "unable to select description");
    assert!(!err.retry);
}

#[test]
fn no_tags_is_an_empty_list_and_duplicates_stay() {
    let mut p = Page::standard();
    p.tags = "";
    let sub = parse_submission(11, &p.render()).unwrap().unwrap();
    assert!(sub.tags.is_empty());
    p.tags = "<section class=\"tags-row\"><a>fox</a><a>fox</a></section>";
    let sub = parse_submission(11, &p.render()).unwrap().unwrap();
    assert_eq!(sub.tags, vec!["fox", "fox"]);
}

#[test]
fn other_layouts_use_their_own_queries() {
    let mut q = Queries::current();
    q.title = "h1.name".to_string();
    let page = Page::standard()
        .render()
        .replace("<body>", "<body><h1 class=\"name\">Other title</h1>");
    let sub = parse_submission_with(&q, 12, &page).unwrap().unwrap();
    assert_eq!(sub.title, "Other title");
}
