//! Thumbnails: where the shared thumbnail cache keeps a file's thumbnail
//! (named by the MD5 of its URI), which files get one, and the scaled-down
//! pixels of an image.
use md5::{Digest, Md5};
use vstd::prelude::*;
use vstd::utf8::encode_utf8;

use crate::mime::{guess_mime, mime_of_path};
use crate::text::{str_equals, string_from_chars};

verus! {

/// The MD5 digest of `bytes`.
pub uninterp spec fn md5_digest(bytes: Seq<u8>) -> Seq<u8>;

/// Calls `Md5::digest` (crate `md-5`) on `data`. The contract claims the
/// result is [`md5_digest`] of the bytes and, as the crate's output size
/// says, 16 bytes long.
#[verifier::external_body]
fn md5_bytes(data: &[u8]) -> (r: Vec<u8>)
    ensures
        r@ == md5_digest(data@),
        r@.len() == 16,
{
    Md5::digest(data).to_vec()
}

/// The lower-case hexadecimal digit for `d` (below 16).
pub open spec fn hex_digit(d: nat) -> char {
    if d < 10 {
        ((d + 48) as u8) as char
    } else {
        ((d + 87) as u8) as char
    }
}

/// Bytes written as two lower-case hexadecimal digits each.
pub open spec fn hex_text(bytes: Seq<u8>) -> Seq<char>
    decreases bytes.len(),
{
    if bytes.len() == 0 {
        Seq::empty()
    } else {
        let b = bytes.last();
        hex_text(bytes.drop_last()) + seq![hex_digit((b / 16) as nat), hex_digit((b % 16) as nat)]
    }
}

fn hex_char(d: u8) -> (c: char)
    requires
        d < 16,
    ensures
        c == hex_digit(d as nat),
{
    if d < 10 {
        (d + 48) as char
    } else {
        (d + 87) as char
    }
}

/// The file name under which the thumbnail cache keeps the thumbnail of
/// `path`: the MD5 of its URI (`file://` and the path, in UTF-8) in
/// hexadecimal, and `.png`.
pub open spec fn cache_name(path: Seq<char>) -> Seq<char> {
    hex_text(md5_digest(encode_utf8("file://"@ + path))) + ".png"@
}

/// Executable [`cache_name`].
pub fn thumbnail_cache_name(path: &str) -> (s: String)
    ensures
        s@ == cache_name(path@),
        s@.len() == 36,
{
    let uri = String::from_str("file://").concat(path);
    let digest = md5_bytes(uri.as_str().as_bytes());
    let mut out: Vec<char> = Vec::new();
    let n = digest.len();
    for i in 0..n
        invariant
            n == digest@.len(),
            out@ == hex_text(digest@.take(i as int)),
            out@.len() == 2 * i,
    {
        let b = digest[i];
        out.push(hex_char(b / 16));
        out.push(hex_char(b % 16));
        proof {
            let t = digest@.take(i + 1);
            assert(t.drop_last() =~= digest@.take(i as int));
            assert(t.last() == b);
        }
    }
    assert(digest@.take(n as int) =~= digest@);
    proof {
        reveal_strlit(".png");
    }
    let mut w = out;
    w.push('.');
    w.push('p');
    w.push('n');
    w.push('g');
    assert(w@ =~= hex_text(digest@) + ".png"@);
    string_from_chars(&w)
}

/// Where a file's thumbnail comes from, when it is not in the cache.
#[derive(Clone, Copy, Debug, PartialEq, Eq, Structural)]
pub enum ThumbSource {
    /// Decode the file as an image.
    Image,
    /// Render the first page of the PDF document.
    Pdf,
    /// Decode the first frame of the video.
    Video,
    /// The file gets no thumbnail.
    Nothing,
}

/// The source of a thumbnail for a file of MIME type `mime`: images first,
/// then any PDF subtype, then videos.
pub open spec fn source_of(mime: (Seq<char>, Seq<char>)) -> ThumbSource {
    if mime.0 == "image"@ {
        ThumbSource::Image
    } else if mime.1 == "pdf"@ {
        ThumbSource::Pdf
    } else if mime.0 == "video"@ {
        ThumbSource::Video
    } else {
        ThumbSource::Nothing
    }
}

/// How the thumbnail of `path` is made, from the MIME type guessed from its
/// extension.
pub fn thumbnail_source(path: &str) -> (s: ThumbSource)
    ensures
        s == source_of(mime_of_path(path@)),
{
    let (t, sub) = guess_mime(path);
    if str_equals(t.as_str(), "image") {
        ThumbSource::Image
    } else if str_equals(sub.as_str(), "pdf") {
        ThumbSource::Pdf
    } else if str_equals(t.as_str(), "video") {
        ThumbSource::Video
    } else {
        ThumbSource::Nothing
    }
}

/// The side of the square that thumbnails fit in, in pixels.
pub const THUMB_SIZE: u32 = 256;

/// Whether `image::load_from_memory` decodes `bytes`: they are an image of
/// a format it reads (guessed from the bytes themselves), whole and valid.
pub uninterp spec fn image_decodes(bytes: Seq<u8>) -> bool;

/// The thumbnail that the `image` crate makes of the image that `bytes`
/// decode to, fitting in `max` by `max`: its width, height and RGBA pixels
/// (`load_from_memory`, then `DynamicImage::thumbnail(max, max)` and
/// `into_rgba8`).
pub uninterp spec fn thumbnail_of(bytes: Seq<u8>, max: u32) -> (u32, u32, Seq<u8>);

/// Calls `image::load_from_memory` on `bytes` and, when that decodes, makes
/// the image's thumbnail with `DynamicImage::thumbnail(max, max)` and turns
/// it into RGBA bytes (`into_rgba8`, `dimensions`, `into_raw`). The contract
/// claims that it decodes exactly when [`image_decodes`] says so, that the
/// thumbnail is [`thumbnail_of`] the bytes, and what the crate documents
/// and its `resize_dimensions` shows: the thumbnail fits within `max` by
/// `max` (for `max` of at least 1; it never makes a side of 0) and has
/// four bytes per pixel.
#[verifier::external_body]
fn decode_thumbnail(bytes: &[u8], max: u32) -> (r: Option<(u32, u32, Vec<u8>)>)
    requires
        max > 0,
    ensures
        r is Some <==> image_decodes(bytes@),
        r matches Some(t) ==> (t.0, t.1, t.2@) == thumbnail_of(bytes@, max),
        r matches Some(t) ==> t.0 <= max && t.1 <= max && t.2@.len() == t.0 * t.1 * 4,
{
    match image::load_from_memory(bytes) {
        Ok(img) => {
            let t = img.thumbnail(max, max).into_rgba8();
            let (w, h) = t.dimensions();
            Some((w, h, t.into_raw()))
        },
        Err(_) => None,
    }
}

/// The thumbnail of an image file's contents: its width, height and RGBA
/// pixels ([`thumbnail_of`] the contents), at most [`THUMB_SIZE`] on each
/// side; none when the contents do not decode as an image
/// ([`image_decodes`]).
pub fn image_thumbnail(bytes: &[u8]) -> (r: Option<(u32, u32, Vec<u8>)>)
    ensures
        r is Some <==> image_decodes(bytes@),
        r matches Some(t) ==> (t.0, t.1, t.2@) == thumbnail_of(bytes@, THUMB_SIZE),
        r matches Some((w, h, px)) ==> w <= THUMB_SIZE && h <= THUMB_SIZE && px@.len() == w * h * 4,
{
    decode_thumbnail(bytes, THUMB_SIZE)
}

} // verus!
