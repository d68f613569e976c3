use furaffinity::text::{parse_i32, parse_usize, trim_whitespace};
use furaffinity::{build_cookie, cookie_header, resolve_url, server_error, Content, Error, Rating};

#[test]
fn urls_resolve_to_name_and_extension() {
    let (url, ext, name) = resolve_url("//d.furaffinity.net/art/a/1555431774/1555431774.a_Pic.Final.PNG");
    assert_eq!(url, "https://d.furaffinity.net/art/a/1555431774/1555431774.a_Pic.Final.PNG");
    assert_eq!(ext, "png");
    assert_eq!(name, "1555431774.a_Pic.Final.PNG");
    assert!(url.ends_with(&name));
}

#[test]
fn url_without_dot_in_name_gets_placeholder_extension() {
    let (url, ext, name) = resolve_url("//d.example.net/art/a/file");
    assert_eq!(url, "https://d.example.net/art/a/file");
    assert_eq!(ext, "x");
    assert_eq!(name, "file");
}

#[test]
fn absolute_url_is_kept() {
    let (url, ext, name) = resolve_url("https://cdn.example.org/x/y.jpeg");
    assert_eq!(url, "https://cdn.example.org/x/y.jpeg");
    assert_eq!(ext, "jpeg");
    assert_eq!(name, "y.jpeg");
}

#[test]
fn ratings_parse_and_serialize() {
    assert_eq!(Rating::parse("General"), Some(Rating::General));
    assert_eq!(Rating::parse("Mature"), Some(Rating::Mature));
    assert_eq!(Rating::parse("Adult"), Some(Rating::Adult));
    assert_eq!(Rating::parse("adult"), None);
    assert_eq!(Rating::General.serialize(), "g");
    assert_eq!(Rating::Mature.serialize(), "m");
    assert_eq!(Rating::Adult.serialize(), "a");
}

#[test]
fn content_url_of_either_kind() {
    assert_eq!(Content::Image("https://a/b.png".into()).url(), "https://a/b.png");
    assert_eq!(Content::Animation("https://a/b.swf".into()).url(), "https://a/b.swf");
}

#[test]
fn error_carries_message_and_retry() {
    let e = Error::new("got server error: 503", true);
    assert_eq!(e.message, "got server error: 503");
    assert!(e.retry);
}

#[test]
fn cookies_join_in_order() {
    assert_eq!(build_cookie("a", "1"), "a=1");
    let pairs = vec![("a".to_string(), "x".to_string()), ("b".to_string(), "y".to_string())];
    assert_eq!(cookie_header(&pairs), "a=x;b=y");
    assert_eq!(cookie_header(&Vec::new()), "");
}

#[test]
fn numbers_parse_as_std_does() {
    for s in ["0", "42", "+7", "-7", "", "+", "-", "12a", "4294967296", "2147483647", "-2147483648", "2147483648", "١٢"] {
        assert_eq!(parse_i32(s), s.parse::<i32>().ok(), "{}", s);
        assert_eq!(parse_usize(s), s.parse::<usize>().ok(), "{}", s);
    }
    assert_eq!(parse_usize("18446744073709551615"), Some(usize::MAX));
    assert_eq!(parse_usize("18446744073709551616"), None);
}

#[test]
fn trimming_matches_std() {
    for s in ["  a b  ", "\n\tx\u{a0}", "", "   ", "\u{3000}y\u{2009}"] {
        assert_eq!(trim_whitespace(s), s.trim());
    }
}

#[test]
fn server_errors_are_retryable() {
    let e = server_error(503, "503 Service Unavailable").unwrap();
    assert_eq!(e.message, "got server error: 503 Service Unavailable");
    assert!(e.retry);
    assert!(server_error(500, "500").is_some());
    assert!(server_error(599, "599").is_some());
    assert!(server_error(404, "404 Not Found").is_none());
    assert!(server_error(200, "200 OK").is_none());
    assert!(server_error(600, "600").is_none());
    let t = Error::transport("connection reset".to_string());
    assert!(t.retry);
    assert_eq!(t.message, "connection reset");
}

#[test]
fn extensions_are_lower_cased() {
    let (_, ext, _) = resolve_url("//h/a/b.JpEg");
    assert_eq!(ext, "jpeg");
    let (_, ext, _) = resolve_url("//h/a/b.Ä1Z");
    assert_eq!(ext, "Ä1z");
}
