use furaffinity::{be_i64, fingerprint_submission, hash_image, parse_submission, Submission};

fn png_bytes() -> Vec<u8> {
    let mut picture = image::RgbImage::new(32, 32);
    for (x, y, pixel) in picture.enumerate_pixels_mut() {
        *pixel = image::Rgb([(x * 8) as u8, (y * 8) as u8, ((x + y) * 4) as u8]);
    }
    let mut out = Vec::new();
    image::DynamicImage::ImageRgb8(picture)
        .write_to(&mut out, image::ImageOutputFormat::Png)
        .unwrap();
    out
}

fn page(media: &str) -> String {
    format!(
        "<html><head><title>t</title></head><body><div class=\"submission-id-sub-container\">\
<div class=\"submission-title\"><h2><p>Title</p></h2></div><span><a href=\"/user/artist/\">Artist</a></span>\
<strong><span class=\"popup_date\" title=\"June 17, 2025 12:00:00 PM\">x</span></strong></div>{}\
<div class=\"stats-container\"><div class=\"rating\"><span>Mature</span></div></div>\
<div class=\"submission-content\"><section>d</section></div></body></html>",
        media
    )
}

fn image_submission() -> Submission {
    parse_submission(1, &page("<img id=\"submissionImg\" src=\"//d.example.net/art/a/1.a_pic.png\">"))
        .unwrap()
        .unwrap()
}

#[test]
fn test_hashing() {
    let sub = image_submission();
    assert!(sub.fingerprint.is_none(), "file was downloaded before expected");
    let bytes = png_bytes();
    let sub = fingerprint_submission(sub, bytes.clone()).expect("unable to calculate image hash");
    let f = sub.fingerprint.expect("fingerprint was not computed");
    let file = f.raw_bytes.expect("file was not downloaded");
    assert!(file.len() > 0, "file data was not populated");
    assert_eq!(file, bytes);
    assert_eq!(f.content_size, bytes.len());
    assert_eq!(f.perceptual_hash.len(), 8);
    let mut eight = [0u8; 8];
    eight.copy_from_slice(&f.perceptual_hash);
    assert_eq!(f.perceptual_hash_numeric, i64::from_be_bytes(eight));
    let expected: Vec<u8> = <sha2::Sha256 as sha2::Digest>::digest(&bytes).to_vec();
    assert_eq!(f.content_digest, expected);
    assert_eq!(f.content_digest.len(), 32);
    assert_eq!(f.perceptual_hash_base64.len(), 12);
    assert_ne!(f.perceptual_hash_base64.as_bytes(), &f.perceptual_hash[..]);
    assert_eq!(sub.title, "Title");
    assert_eq!(sub.artist, "artist");
}

#[test]
fn fingerprinting_is_stable() {
    let bytes = png_bytes();
    let a = fingerprint_submission(image_submission(), bytes.clone()).unwrap().fingerprint.unwrap();
    let b = fingerprint_submission(image_submission(), bytes.clone()).unwrap().fingerprint.unwrap();
    assert_eq!(a.content_digest, b.content_digest);
    assert_eq!(a.perceptual_hash, b.perceptual_hash);
    assert_eq!(a.perceptual_hash_numeric, b.perceptual_hash_numeric);
    assert_eq!(a.perceptual_hash_base64, b.perceptual_hash_base64);
    assert_eq!(hash_image(&bytes).unwrap(), a.perceptual_hash);
}

#[test]
fn animation_is_left_without_fingerprint() {
    let sub = parse_submission(2, &page("<object id=\"flash_embed\" data=\"//d.example.net/m.swf\"></object>"))
        .unwrap()
        .unwrap();
    let out = fingerprint_submission(sub.clone(), b"not a picture".to_vec()).unwrap();
    assert!(out.fingerprint.is_none());
    assert_eq!(out.content, sub.content);
    assert_eq!(out.filename, sub.filename);
}

#[test]
fn corrupt_payload_is_not_retryable() {
    let err = fingerprint_submission(image_submission(), b"\x89PNG broken".to_vec()).unwrap_err();
    assert!(!err.retry);
    assert!(!err.message.is_empty());
    assert!(hash_image(b"").is_err());
}

#[test]
fn big_endian_reading() {
    assert_eq!(be_i64(&[0, 0, 0, 0, 0, 0, 0, 1]), 1);
    assert_eq!(be_i64(&[0x80, 0, 0, 0, 0, 0, 0, 0]), i64::MIN);
    assert_eq!(be_i64(&[0xff; 8]), -1);
    assert_eq!(be_i64(&[0x7f, 0xff, 0xff, 0xff, 0xff, 0xff, 0xff, 0xff]), i64::MAX);
    assert_eq!(be_i64(&[1, 2, 3, 4, 5, 6, 7, 8]), 0x0102030405060708);
}

#[test]
fn decode_error_carries_the_decoder_text() {
    let bytes = b"\x89PNG broken".to_vec();
    let expected = image::load_from_memory(&bytes).unwrap_err().to_string();
    let err = hash_image(&bytes).unwrap_err();
    assert_eq!(err.message, expected);
    assert!(!err.retry);
}
