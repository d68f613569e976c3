use furaffinity::{parse_front_page, parse_online_counts};

fn front(stats: &str, link: &str) -> String {
    format!(
        "<html><body><div class=\"online-stats\">{}</div>\
<section id=\"gallery-frontpage-submissions\"><figure><b><u>{}</u></b></figure>\
<figure><b><u><a href=\"/view/1/\">older</a></u></b></figure></section></body></html>",
        stats, link
    )
}

#[test]
fn test_latest_id() {
    let page = front(
        "15312 <strong>Users online</strong> — 1130 guests, 3100 registered and 11082 other",
        "<a href=\"/view/49012345/\">newest</a>",
    );
    let (id, online) = parse_front_page(&page).expect("unable to get latest id");
    assert_eq!(id, 49012345);
    assert_eq!(online.total, 15312);
    assert_eq!(online.guests, 1130);
    assert_eq!(online.registered, 3100);
    assert_eq!(online.other, 11082);
}

#[test]
fn missing_counts_default_to_zero() {
    let c = parse_online_counts("12 users, 5 guests");
    assert_eq!((c.total, c.guests, c.registered, c.other), (12, 5, 0, 0));
    let c = parse_online_counts("nobody here");
    assert_eq!((c.total, c.guests, c.registered, c.other), (0, 0, 0, 0));
    let c = parse_online_counts("1 2 3 4 5 6");
    assert_eq!((c.total, c.guests, c.registered, c.other), (1, 2, 3, 4));
}

#[test]
fn front_page_without_stats_still_has_an_id() {
    let page = "<html><body><section id=\"gallery-frontpage-submissions\"><figure><b><u><a href=\"/view/77\">x</a></u></b></figure></section></body></html>";
    let (id, online) = parse_front_page(page).unwrap();
    assert_eq!(id, 77);
    assert_eq!(online.total, 0);
    assert_eq!(online.other, 0);
}

#[test]
fn front_page_failures_are_not_retryable() {
    let err = parse_front_page("<html><body></body></html>").unwrap_err();
    assert_eq!(err.message, "value not found");
    assert!(!err.retry);
    let err = parse_front_page(&front("1", "<a>no link</a>")).unwrap_err();
    assert_eq!(err.message, "href not found");
    let err = parse_front_page(&front("1", "<a href=\"///\">x</a>")).unwrap_err();
    assert_eq!(err.message, "part not found");
    let err = parse_front_page(&front("1", "<a href=\"/view/abc/\">x</a>")).unwrap_err();
    assert_eq!(err.message, "value was not number");
    assert!(!err.retry);
}

#[test]
fn no_status_element_gives_zero_counts() {
    let page = "<html><body><section id=\"gallery-frontpage-submissions\"><figure><b><u><a href=\"/view/5/\">x</a></u></b></figure></section></body></html>";
    let (_, c) = parse_front_page(page).unwrap();
    assert_eq!((c.total, c.guests, c.registered, c.other), (0, 0, 0, 0));
}
