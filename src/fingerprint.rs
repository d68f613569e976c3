//! Fingerprints of a submission's image: an exact SHA-256 digest of the
//! payload and a perceptual hash of the decoded picture.

use vstd::prelude::*;
use crate::error::Error;
use crate::model::Content;
use crate::submission::{Fingerprint, Submission};

verus! {

#[verifier::external_type_specification]
#[verifier::external_body]
pub struct ExImageError(image::ImageError);

/// The SHA-256 digest of `data`.
pub uninterp spec fn sha256_of(data: Seq<u8>) -> Seq<u8>;

#[verifier::external_type_specification]
#[verifier::external_body]
pub struct ExDynamicImage(image::DynamicImage);

/// The width and height of the picture that `data` decodes to; `None` where
/// `data` is not a picture.
pub uninterp spec fn picture_size(data: Seq<u8>) -> Option<(u32, u32)>;

/// The 8-byte gradient hash, over an 8 by 8 grid after a DCT, of the picture
/// that `data` decodes to.
pub uninterp spec fn perceptual_of(data: Seq<u8>) -> Seq<u8>;

/// A decoded picture with the bytes it was decoded from.
pub(crate) struct Picture {
    source: Vec<u8>,
    width: u32,
    height: u32,
    pixels: image::DynamicImage,
}

impl Picture {
    pub(crate) closed spec fn data(&self) -> Seq<u8> {
        self.source@
    }

    pub(crate) closed spec fn size(&self) -> (u32, u32) {
        (self.width, self.height)
    }

    pub(crate) fn width(&self) -> (r: u32)
        ensures
            r == self.size().0,
    {
        self.width
    }

    pub(crate) fn height(&self) -> (r: u32)
        ensures
            r == self.size().1,
    {
        self.height
    }
}

/// Why `data` could not be decoded, as the decoder's error displays it.
pub uninterp spec fn decode_error_text(data: Seq<u8>) -> Seq<char>;

/// A decoder's error with the bytes it was given.
pub(crate) struct DecodeFailure {
    source: Vec<u8>,
    error: image::ImageError,
}

impl DecodeFailure {
    pub(crate) closed spec fn data(&self) -> Seq<u8> {
        self.source@
    }
}

/// Relies on `image::load_from_memory`, which guesses the format and decodes,
/// and on `GenericImageView::dimensions` of the result.
#[verifier::external_body]
fn decode_picture(data: &[u8]) -> (r: Result<Picture, DecodeFailure>)
    ensures
        match r {
            Ok(p) => p.data() == data@ && picture_size(data@) == Some(p.size()),
            Err(f) => f.data() == data@ && picture_size(data@) is None,
        },
{
    let pixels = match image::load_from_memory(data) {
        Ok(pixels) => pixels,
        Err(error) => return Err(DecodeFailure { source: data.to_vec(), error }),
    };
    let (width, height) = image::GenericImageView::dimensions(&pixels);
    Ok(Picture { source: data.to_vec(), width, height, pixels })
}

/// Relies on an `img_hash::Hasher` over `[u8; 8]` with the gradient
/// algorithm, an 8 by 8 grid and DCT preprocessing, whose
/// `ImageHash::as_bytes` is 8 bytes. Its resize indexes past the picture
/// where the width or height is zero, so those are left out.
#[verifier::external_body]
fn gradient_hash(picture: &Picture) -> (r: Vec<u8>)
    requires
        picture.size().0 > 0,
        picture.size().1 > 0,
    ensures
        r@ == perceptual_of(picture.data()),
        r@.len() == 8,
{
    let hasher = img_hash::HasherConfig::with_bytes_type::<[u8; 8]>()
        .hash_alg(img_hash::HashAlg::Gradient)
        .hash_size(8, 8)
        .preproc_dct()
        .to_hasher();
    hasher.hash_image(&picture.pixels).as_bytes().to_vec()
}

/// The standard base64 text of `data`.
pub uninterp spec fn base64_of(data: Seq<u8>) -> Seq<char>;

/// Relies on `sha2::Sha256`: a 32-byte digest that depends on `data` alone.
#[verifier::external_body]
fn sha256(data: &[u8]) -> (r: Vec<u8>)
    ensures
        r@ == sha256_of(data@),
        r@.len() == 32,
{
    let digest: [u8; 32] = <sha2::Sha256 as sha2::Digest>::digest(data).into();
    digest.to_vec()
}

/// Relies on `img_hash::ImageHash::to_base64`, after `ImageHash::from_bytes`,
/// which takes the eight bytes of a hash of this size.
#[verifier::external_body]
fn hash_base64(hash: &[u8]) -> (r: String)
    requires
        hash@.len() == 8,
    ensures
        r@ == base64_of(hash@),
{
    img_hash::ImageHash::<[u8; 8]>::from_bytes(hash).unwrap().to_base64()
}

/// Relies on the `Display` of `image::ImageError`: decoding the same bytes
/// fails in the same way, so the text depends on those bytes alone.
#[verifier::external_body]
fn image_error_text(f: &DecodeFailure) -> (r: String)
    ensures
        r@ == decode_error_text(f.data()),
{
    f.error.to_string()
}

/// The unsigned value of bytes read most significant first.
pub open spec fn be_unsigned(b: Seq<u8>) -> int
    decreases b.len(),
{
    if b.len() == 0 {
        0
    } else {
        be_unsigned(b.drop_last()) * 256 + b.last() as int
    }
}

/// Eight bytes read as a big-endian two's complement `i64`.
pub open spec fn be_signed(b: Seq<u8>) -> int {
    let u = be_unsigned(b);
    if u >= 0x8000_0000_0000_0000 {
        u - 0x1_0000_0000_0000_0000
    } else {
        u
    }
}

proof fn lemma_be_bound(b: Seq<u8>)
    ensures
        0 <= be_unsigned(b) < pow256(b.len()),
    decreases b.len(),
{
    if b.len() > 0 {
        lemma_be_bound(b.drop_last());
        let u = be_unsigned(b.drop_last());
        let p = pow256((b.len() - 1) as nat);
        assert(u * 256 + b.last() < p * 256) by (nonlinear_arith)
            requires
                u < p,
                0 <= b.last() < 256,
        ;
    }
}

pub open spec fn pow256(n: nat) -> int
    decreases n,
{
    if n == 0 {
        1
    } else {
        pow256((n - 1) as nat) * 256
    }
}

/// Reads eight bytes as a big-endian signed integer, as `i64::from_be_bytes`.
pub fn be_i64(b: &[u8]) -> (r: i64)
    requires
        b@.len() == 8,
    ensures
        r == be_signed(b@),
{
    let mut acc: u64 = 0;
    let mut i: usize = 0;
    while i < 8
        invariant
            i <= 8,
            b@.len() == 8,
            acc == be_unsigned(b@.subrange(0, i as int)),
        decreases 8 - i,
    {
        assert(b@.subrange(0, i + 1).drop_last() =~= b@.subrange(0, i as int));
        proof {
            lemma_be_bound(b@.subrange(0, i as int));
            assert(pow256(i as nat) <= 0x100_0000_0000_0000) by {
                assert(pow256(0) == 1);
                assert(pow256(1) == 256);
                assert(pow256(2) == 0x1_0000);
                assert(pow256(3) == 0x100_0000);
                assert(pow256(4) == 0x1_0000_0000);
                assert(pow256(5) == 0x100_0000_0000);
                assert(pow256(6) == 0x1_0000_0000_0000);
                assert(pow256(7) == 0x100_0000_0000_0000);
            }
        }
        acc = acc * 256 + b[i] as u64;
        i = i + 1;
    }
    assert(b@.subrange(0, 8) =~= b@);
    if acc >= 0x8000_0000_0000_0000 {
        let low = (acc - 0x8000_0000_0000_0000) as i64;
        low - 0x7fff_ffff_ffff_ffff - 1
    } else {
        acc as i64
    }
}

/// `data` decodes to a picture with at least one pixel.
pub open spec fn hashable(data: Seq<u8>) -> bool {
    picture_size(data) matches Some((w, h)) && w > 0 && h > 0
}

/// Why `data` has no perceptual hash: the decoder's error, or a picture
/// without pixels.
pub open spec fn hash_failure_text(data: Seq<u8>) -> Seq<char> {
    if picture_size(data) is None {
        decode_error_text(data)
    } else {
        "image has no pixels"@
    }
}

/// Computes the perceptual hash of an image payload.
pub fn hash_image(data: &[u8]) -> (r: Result<Vec<u8>, Error>)
    ensures
        r is Ok <==> hashable(data@),
        r matches Ok(h) ==> h@ == perceptual_of(data@) && h@.len() == 8,
        r matches Err(e) ==> !e.retry,
        r matches Err(e) ==> e.message@ == hash_failure_text(data@),
{
    match decode_picture(data) {
        Ok(picture) => {
            if picture.width() == 0 || picture.height() == 0 {
                Err(Error::new("image has no pixels", false))
            } else {
                Ok(gradient_hash(&picture))
            }
        },
        Err(f) => Err(Error { message: image_error_text(&f), retry: false }),
    }
}

/// `f` is the fingerprint of the payload `data`.
pub open spec fn fingerprint_of(f: Fingerprint, data: Seq<u8>) -> bool {
    &&& hashable(data)
    &&& perceptual_of(data) == f.perceptual_hash@
    &&& f.perceptual_hash@.len() == 8
    &&& f.perceptual_hash_base64@ == base64_of(f.perceptual_hash@)
    &&& f.perceptual_hash_numeric == be_signed(f.perceptual_hash@)
    &&& f.content_digest@ == sha256_of(data)
    &&& f.content_digest@.len() == 32
    &&& f.content_size == data.len()
    &&& f.raw_bytes matches Some(b) && b@ == data
}

/// `a` and `b` agree on every field but the fingerprint.
pub open spec fn same_but_fingerprint(a: Submission, b: Submission) -> bool {
    &&& a.id == b.id
    &&& a.title == b.title
    &&& a.artist == b.artist
    &&& a.content == b.content
    &&& a.ext == b.ext
    &&& a.filename == b.filename
    &&& a.rating == b.rating
    &&& a.posted_at == b.posted_at
    &&& a.tags == b.tags
    &&& a.description == b.description
}

/// Adds the fingerprint of the image payload `data` to `sub`. An animation
/// has none: its record comes back as it was.
pub fn fingerprint_submission(sub: Submission, data: Vec<u8>) -> (r: Result<Submission, Error>)
    ensures
        sub.content is Animation ==> r == Ok::<Submission, Error>(sub),
        sub.content is Image ==> (r is Ok <==> hashable(data@)),
        sub.content is Image ==> match r {
            Ok(s) => same_but_fingerprint(s, sub) && (s.fingerprint matches Some(f)
                && fingerprint_of(f, data@)),
            Err(e) => !e.retry && e.message@ == hash_failure_text(data@),
        },
{
    if let Content::Animation(_) = &sub.content {
        return Ok(sub);
    }
    let digest = sha256(data.as_slice());
    let hash = hash_image(data.as_slice())?;
    let numeric = be_i64(hash.as_slice());
    let base64 = hash_base64(hash.as_slice());
    let size = data.len();
    let fingerprint = Fingerprint {
        perceptual_hash: hash,
        perceptual_hash_base64: base64,
        perceptual_hash_numeric: numeric,
        content_digest: digest,
        content_size: size,
        raw_bytes: Some(data),
    };
    Ok(Submission { fingerprint: Some(fingerprint), ..sub })
}

/// Fingerprints of one payload agree: the same bytes give the same digest and
/// the same perceptual hash, in every form.
pub proof fn lemma_fingerprint_stable(a: Fingerprint, b: Fingerprint, data: Seq<u8>)
    requires
        fingerprint_of(a, data),
        fingerprint_of(b, data),
    ensures
        a.content_digest@ == b.content_digest@,
        a.perceptual_hash@ == b.perceptual_hash@,
        a.perceptual_hash_numeric == b.perceptual_hash_numeric,
        a.perceptual_hash_base64@ == b.perceptual_hash_base64@,
        a.content_size == b.content_size,
{
}

} // verus!
