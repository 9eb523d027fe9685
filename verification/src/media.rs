//! Attachments for the prompt composer: recognising images by their first
//! bytes, encoding them, and naming their cached copies.

use crate::text::{chars_of, owned, push_str_chars, string_of};
use base64::Engine;
use sha2::{Digest, Sha256};
use vstd::prelude::*;

verus! {

/// An attachment waiting to be sent with the next prompt.
#[derive(Debug, Clone, PartialEq, Eq)]
pub enum PendingAttachment {
    /// An image, cached under `cached_path`, with its type and base64 content.
    Image { cached_path: String, media_type: String, base64_data: String, display_name: String },
    /// Any other file, sent by path.
    File { path: String, display_name: String },
}

/// The image formats the composer accepts.
#[derive(Debug, Clone, Copy, PartialEq, Eq, Structural)]
pub enum ImageKind {
    Png,
    Jpeg,
    Gif,
    Webp,
}

pub open spec fn bytes_at(b: Seq<u8>, i: int, s: Seq<u8>) -> bool {
    0 <= i && i + s.len() <= b.len() && b.subrange(i, i + s.len()) == s
}

pub open spec fn png_magic() -> Seq<u8> {
    seq![0x89u8, 0x50u8, 0x4Eu8, 0x47u8, 0x0Du8, 0x0Au8, 0x1Au8, 0x0Au8]
}

pub open spec fn jpeg_magic() -> Seq<u8> {
    seq![0xFFu8, 0xD8u8, 0xFFu8]
}

/// "GIF87a" or "GIF89a" (`version` is '7' or '9').
pub open spec fn gif_magic(version: u8) -> Seq<u8> {
    seq![0x47u8, 0x49u8, 0x46u8, 0x38u8, version, 0x61u8]
}

pub open spec fn riff_magic() -> Seq<u8> {
    seq![0x52u8, 0x49u8, 0x46u8, 0x46u8]
}

pub open spec fn webp_magic() -> Seq<u8> {
    seq![0x57u8, 0x45u8, 0x42u8, 0x50u8]
}

/// The image format the first bytes announce, checked in the order PNG,
/// JPEG, GIF, WEBP.
pub open spec fn sniff(b: Seq<u8>) -> Option<ImageKind> {
    if bytes_at(b, 0, png_magic()) {
        Some(ImageKind::Png)
    } else if bytes_at(b, 0, jpeg_magic()) {
        Some(ImageKind::Jpeg)
    } else if bytes_at(b, 0, gif_magic(0x37)) || bytes_at(b, 0, gif_magic(0x39)) {
        Some(ImageKind::Gif)
    } else if bytes_at(b, 0, riff_magic()) && bytes_at(b, 8, webp_magic()) {
        Some(ImageKind::Webp)
    } else {
        None
    }
}

pub open spec fn media_type_text(k: ImageKind) -> Seq<char> {
    match k {
        ImageKind::Png => "image/png"@,
        ImageKind::Jpeg => "image/jpeg"@,
        ImageKind::Gif => "image/gif"@,
        ImageKind::Webp => "image/webp"@,
    }
}

fn matches_at(b: &[u8], i: usize, s: &[u8]) -> (r: bool)
    ensures
        r == bytes_at(b@, i as int, s@),
{
    if i > b.len() || s.len() > b.len() - i {
        return false;
    }
    let mut k: usize = 0;
    while k < s.len()
        invariant
            i + s.len() <= b.len(),
            k <= s.len(),
            forall|j: int| 0 <= j < k ==> b@[i + j] == s@[j],
        decreases s.len() - k,
    {
        if b[i + k] != s[k] {
            assert(b@.subrange(i as int, i + s.len())[k as int] != s@[k as int]);
            return false;
        }
        k += 1;
    }
    assert(b@.subrange(i as int, i + s.len()) =~= s@);
    true
}

/// The image format announced by the first bytes of a file, if it is one
/// the composer accepts.
pub fn image_kind_of(bytes: &[u8]) -> (r: Option<ImageKind>)
    ensures
        r == sniff(bytes@),
{
    let png: [u8; 8] = [0x89, 0x50, 0x4E, 0x47, 0x0D, 0x0A, 0x1A, 0x0A];
    let jpeg: [u8; 3] = [0xFF, 0xD8, 0xFF];
    let gif7: [u8; 6] = [0x47, 0x49, 0x46, 0x38, 0x37, 0x61];
    let gif9: [u8; 6] = [0x47, 0x49, 0x46, 0x38, 0x39, 0x61];
    let riff: [u8; 4] = [0x52, 0x49, 0x46, 0x46];
    let webp: [u8; 4] = [0x57, 0x45, 0x42, 0x50];
    assert(png@ =~= png_magic());
    assert(jpeg@ =~= jpeg_magic());
    assert(gif7@ =~= gif_magic(0x37));
    assert(gif9@ =~= gif_magic(0x39));
    assert(riff@ =~= riff_magic());
    assert(webp@ =~= webp_magic());
    if matches_at(bytes, 0, png.as_slice()) {
        Some(ImageKind::Png)
    } else if matches_at(bytes, 0, jpeg.as_slice()) {
        Some(ImageKind::Jpeg)
    } else if matches_at(bytes, 0, gif7.as_slice()) || matches_at(bytes, 0, gif9.as_slice()) {
        Some(ImageKind::Gif)
    } else if matches_at(bytes, 0, riff.as_slice()) && matches_at(bytes, 8, webp.as_slice()) {
        Some(ImageKind::Webp)
    } else {
        None
    }
}

/// Whether the bytes of a file are a PNG, JPEG, GIF or WEBP image.
pub fn is_image_bytes(bytes: &[u8]) -> (r: bool)
    ensures
        r == sniff(bytes@).is_some(),
{
    image_kind_of(bytes).is_some()
}

/// The MIME type of an image format.
pub fn media_type_of(k: ImageKind) -> (r: String)
    ensures
        r@ == media_type_text(k),
{
    match k {
        ImageKind::Png => owned("image/png"),
        ImageKind::Jpeg => owned("image/jpeg"),
        ImageKind::Gif => owned("image/gif"),
        ImageKind::Webp => owned("image/webp"),
    }
}

/// The standard base64 encoding (with padding) of `bytes`.
pub uninterp spec fn base64_standard(bytes: Seq<u8>) -> Seq<char>;

/// The SHA-256 digest of `bytes` in lower-case hexadecimal.
pub uninterp spec fn sha256_hex(bytes: Seq<u8>) -> Seq<char>;

/// `base64::engine::general_purpose::STANDARD.encode`. Claimed: the result
/// is `base64_standard(bytes)`.
#[verifier::external_body]
fn encode_standard(bytes: &[u8]) -> (r: String)
    ensures
        r@ == base64_standard(bytes@),
{
    base64::engine::general_purpose::STANDARD.encode(bytes)
}

/// `sha2::Sha256::digest`, printed with `{:x}`. Claimed: the result is
/// `sha256_hex(bytes)`.
#[verifier::external_body]
fn digest_hex(bytes: &[u8]) -> (r: String)
    ensures
        r@ == sha256_hex(bytes@),
{
    format!("{:x}", Sha256::digest(bytes))
}

/// Why an attachment cannot be sent as an image.
#[derive(Debug, Clone, PartialEq, Eq)]
pub enum MediaError {
    /// The magic bytes match none of PNG, JPEG, GIF or WEBP.
    UnsupportedImageFormat,
}

/// The MIME type and base64 content of an image file's bytes.
pub fn encode_base64(bytes: &[u8]) -> (r: Result<(String, String), MediaError>)
    ensures
        match r {
            Ok((t, data)) => sniff(bytes@) matches Some(k) && t@ == media_type_text(k) && data@
                == base64_standard(bytes@),
            Err(e) => sniff(bytes@) is None && e == MediaError::UnsupportedImageFormat,
        },
{
    match image_kind_of(bytes) {
        Some(k) => Ok((media_type_of(k), encode_standard(bytes))),
        None => Err(MediaError::UnsupportedImageFormat),
    }
}

/// The name a cached image is stored under: its SHA-256 digest, and the
/// source file's extension after a dot when it has one.
pub open spec fn cached_name(bytes: Seq<u8>, extension: Option<Seq<char>>) -> Seq<char> {
    sha256_hex(bytes) + match extension {
        Some(e) => "."@ + e,
        None => seq![],
    }
}

pub open spec fn opt_str(o: Option<&str>) -> Option<Seq<char>> {
    match o {
        Some(s) => Some(s@),
        None => None,
    }
}

/// The cache file name of an image with these bytes and this extension.
pub fn cached_file_name(bytes: &[u8], extension: Option<&str>) -> (r: String)
    ensures
        r@ == cached_name(bytes@, opt_str(extension)),
{
    let h = digest_hex(bytes);
    let mut v = chars_of(h.as_str());
    match extension {
        Some(e) => {
            push_str_chars(&mut v, ".");
            push_str_chars(&mut v, e);
        },
        None => {},
    }
    assert(v@ =~= cached_name(bytes@, opt_str(extension)));
    string_of(v.as_slice())
}

/// The name an attachment is shown by.
pub open spec fn display_name_of(a: PendingAttachment) -> Seq<char> {
    match a {
        PendingAttachment::Image { display_name, .. } => display_name@,
        PendingAttachment::File { display_name, .. } => display_name@,
    }
}

/// The chips of the composer, one per attachment in order: its name, and
/// whether it is an image (drawn with a thumbnail of the cached file).
pub fn attachment_chips(atts: &[PendingAttachment]) -> (r: Vec<(String, bool)>)
    ensures
        r@.len() == atts@.len(),
        forall|i: int|
            0 <= i < atts@.len() ==> (#[trigger] r@[i]).0@ == display_name_of(atts@[i]) && r@[i].1 == (
            atts@[i] is Image),
{
    let mut out: Vec<(String, bool)> = Vec::new();
    let mut i: usize = 0;
    while i < atts.len()
        invariant
            i <= atts.len(),
            out@.len() == i,
            forall|k: int|
                0 <= k < i ==> (#[trigger] out@[k]).0@ == display_name_of(atts@[k]) && out@[k].1 == (
                atts@[k] is Image),
        decreases atts.len() - i,
    {
        let chip = match &atts[i] {
            PendingAttachment::Image { display_name, .. } => (display_name.clone(), true),
            PendingAttachment::File { display_name, .. } => (display_name.clone(), false),
        };
        out.push(chip);
        i += 1;
    }
    out
}

} // verus!
