//! The bytes the automation server hands over: a screenshot of the current
//! frame as a PNG in base64, and file bodies in base64 for reads and writes
//! under a mount.

use vstd::prelude::*;
use base64::Engine;
use crate::engine::{EngineFrame, PixelFormat};
use crate::mounts::{MountManager, fs_target};
use crate::rendering::swz;
use crate::text::owned;
use crate::urls::{parse_url, url_parse_result};

verus! {

/// What standard base64 with padding writes for `bytes`.
pub uninterp spec fn base64_text(bytes: Seq<u8>) -> Seq<char>;

/// What standard base64 with padding reads back from `text`, or none when
/// `text` is not valid base64.
pub uninterp spec fn base64_bytes(text: Seq<char>) -> Option<Seq<u8>>;

/// What the PNG encoder of the `image` crate writes for an RGBA image of
/// the given size read from `pixels`, or the text of the error
/// it reports.
pub uninterp spec fn png_encoding(width: u32, height: u32, pixels: Seq<u8>) -> Result<Seq<u8>, Seq<char>>;

/// The length of the padded base64 text of `n` bytes: four characters for
/// each started group of three.
pub open spec fn base64_len(n: nat) -> nat {
    4 * ((n + 2) / 3)
}

/// Encodes with `base64::engine::general_purpose::STANDARD.encode`, which
/// writes four characters for each started group of three bytes and panics
/// only when that length does not fit in a `usize`.
#[verifier::external_body]
fn encode_base64(bytes: &[u8]) -> (r: String)
    requires
        base64_len(bytes@.len()) <= usize::MAX,
    ensures
        r@ == base64_text(bytes@),
        r@.len() == base64_len(bytes@.len()),
{
    base64::engine::general_purpose::STANDARD.encode(bytes)
}

/// Decodes with `base64::engine::general_purpose::STANDARD.decode`; its
/// error becomes none.
#[verifier::external_body]
fn decode_base64(text: &str) -> (r: Option<Vec<u8>>)
    ensures
        match r {
            Some(b) => base64_bytes(text@) == Some(b@),
            None => base64_bytes(text@) is None,
        },
{
    match base64::engine::general_purpose::STANDARD.decode(text.as_bytes()) {
        Ok(b) => Some(b),
        Err(_) => None,
    }
}

/// Builds an RGBA image with `image::RgbaImage::from_raw` and writes it as
/// PNG with `write_to`. `from_raw` gives none exactly when `pixels` holds
/// fewer than four bytes for each of the `width * height` pixels; the
/// written PNG, like any `Vec`, holds at most `isize::MAX` bytes.
#[verifier::external_body]
fn encode_png_rgba(width: u32, height: u32, pixels: Vec<u8>) -> (r: Option<Result<Vec<u8>, String>>)
    ensures
        match r {
            None => 4 * width * height > pixels@.len(),
            Some(Ok(b)) => 4 * width * height <= pixels@.len()
                && png_encoding(width, height, pixels@) == Ok::<Seq<u8>, Seq<char>>(b@)
                && b@.len() <= isize::MAX,
            Some(Err(e)) => 4 * width * height <= pixels@.len()
                && png_encoding(width, height, pixels@) == Err::<Seq<u8>, Seq<char>>(e@),
        },
{
    match image::RgbaImage::from_raw(width, height, pixels) {
        None => None,
        Some(img) => {
            let mut out: Vec<u8> = Vec::new();
            let written = img.write_to(&mut std::io::Cursor::new(&mut out), image::ImageFormat::Png);
            match written {
                Ok(()) => Some(Ok(out)),
                Err(e) => Some(Err(e.to_string())),
            }
        }
    }
}

/// The samples the PNG encoder gets from a frame: an RGBA frame's bytes as
/// they are; for a BGRA frame, each complete four-byte pixel with red and
/// blue swapped, and no byte after the last complete pixel.
pub open spec fn rgba_samples(frame: EngineFrame) -> Seq<u8> {
    match frame.pixel_format {
        PixelFormat::Rgba8 => frame.pixels@,
        PixelFormat::Bgra8 => Seq::new(
            (frame.pixels@.len() / 4 * 4) as nat,
            |i: int| frame.pixels@[swz(i, true)],
        ),
    }
}

/// The answer to a screenshot request: the frame as a PNG in base64, or
/// why it could not be made.
pub open spec fn screenshot_answer(frame: EngineFrame) -> Result<Seq<char>, Seq<char>> {
    let samples = rgba_samples(frame);
    if 4 * frame.width * frame.height > samples.len() {
        Err("Failed to create image from raw pixels"@)
    } else {
        match png_encoding(frame.width, frame.height, samples) {
            Ok(png) => Ok(base64_text(png)),
            Err(e) => Err(e),
        }
    }
}

/// Copies the complete pixels of a BGRA frame with red and blue swapped.
fn bgra_to_rgba(pixels: &Vec<u8>) -> (r: Vec<u8>)
    ensures
        r@.len() == pixels@.len() / 4 * 4,
        forall|i: int| 0 <= i < r@.len() ==> #[trigger] r@[i] == pixels@[swz(i, true)],
{
    let n = pixels.len();
    let whole = n / 4;
    let mut out: Vec<u8> = Vec::new();
    let mut k: usize = 0;
    while k < whole
        invariant
            n == pixels@.len(),
            whole == n / 4,
            k <= whole,
            out@.len() == 4 * k,
            forall|i: int| 0 <= i < out@.len() ==> #[trigger] out@[i] == pixels@[swz(i, true)],
        decreases whole - k,
    {
        assert(4 * k + 3 < pixels@.len()) by (nonlinear_arith)
            requires
                k < whole,
                whole == pixels@.len() / 4;
        let base = 4 * k;
        out.push(pixels[base + 2]);
        out.push(pixels[base + 1]);
        out.push(pixels[base]);
        out.push(pixels[base + 3]);
        proof {
            assert forall|i: int| 4 * k <= i < 4 * k + 4 implies #[trigger] out@[i] == pixels@[swz(i, true)] by {
                assert(i % 4 == i - 4 * k);
            }
        }
        k = k + 1;
    }
    out
}

/// Encodes the current frame as a PNG in base64 for a screenshot request.
pub fn screenshot_payload(frame: &EngineFrame) -> (r: Result<String, String>)
    ensures
        match r {
            Ok(s) => screenshot_answer(*frame) == Ok::<Seq<char>, Seq<char>>(s@),
            Err(e) => screenshot_answer(*frame) == Err::<Seq<char>, Seq<char>>(e@),
        },
{
    let samples = match frame.pixel_format {
        PixelFormat::Rgba8 => frame.pixels.clone(),
        PixelFormat::Bgra8 => bgra_to_rgba(&frame.pixels),
    };
    assert(samples@ =~= rgba_samples(*frame));
    match encode_png_rgba(frame.width, frame.height, samples) {
        None => Err(owned("Failed to create image from raw pixels")),
        Some(Ok(png)) => Ok(encode_base64(png.as_slice())),
        Some(Err(e)) => Err(e),
    }
}

/// Where an automation read of `url` goes: the local path under the mount
/// it names, or why there is none.
pub open spec fn fs_read_answer(mounts: Seq<crate::mounts::MountView>, url: Seq<char>) -> Result<Seq<char>, Seq<char>> {
    match url_parse_result(url) {
        Err(_) => Err("invalid url"@),
        Ok(parts) => match fs_target(mounts, parts, None) {
            None => Err("mount not found"@),
            Some((_m, path)) => Ok(path),
        },
    }
}

/// Where an automation write to `url` goes and the bytes it writes, or why
/// it cannot.
pub open spec fn fs_write_answer(mounts: Seq<crate::mounts::MountView>, url: Seq<char>, body: Seq<char>) -> Result<(Seq<char>, Seq<u8>), Seq<char>> {
    match url_parse_result(url) {
        Err(_) => Err("invalid url"@),
        Ok(parts) => match fs_target(mounts, parts, None) {
            None => Err("mount not found"@),
            Some((m, path)) => if m.2 {
                Err("mount is read-only"@)
            } else {
                match base64_bytes(body) {
                    None => Err("invalid base64"@),
                    Some(bytes) => Ok((path, bytes)),
                }
            },
        },
    }
}

/// Resolves the local path an automation read of `url` goes to.
pub fn fs_read_target(mounts: &MountManager, url: &str) -> (r: Result<String, String>)
    ensures
        match r {
            Ok(p) => fs_read_answer(mounts.mounts(), url@) == Ok::<Seq<char>, Seq<char>>(p@),
            Err(e) => fs_read_answer(mounts.mounts(), url@) == Err::<Seq<char>, Seq<char>>(e@),
        },
{
    match parse_url(url) {
        Err(_) => Err(owned("invalid url")),
        Ok(parts) => match mounts.resolve_fs_target(&parts) {
            None => Err(owned("mount not found")),
            Some((_m, path, _rest)) => Ok(path),
        },
    }
}

/// Resolves the local path an automation write to `url` goes to and
/// decodes the body it writes.
pub fn fs_write_target(mounts: &MountManager, url: &str, body_base64: &str) -> (r: Result<(String, Vec<u8>), String>)
    ensures
        match r {
            Ok((p, b)) => fs_write_answer(mounts.mounts(), url@, body_base64@) == Ok::<(Seq<char>, Seq<u8>), Seq<char>>((p@, b@)),
            Err(e) => fs_write_answer(mounts.mounts(), url@, body_base64@) == Err::<(Seq<char>, Seq<u8>), Seq<char>>(e@),
        },
{
    match parse_url(url) {
        Err(_) => Err(owned("invalid url")),
        Ok(parts) => match mounts.resolve_fs_target(&parts) {
            None => Err(owned("mount not found")),
            Some((m, path, _rest)) => {
                if m.read_only {
                    Err(owned("mount is read-only"))
                } else {
                    match decode_base64(body_base64) {
                        None => Err(owned("invalid base64")),
                        Some(bytes) => Ok((path, bytes)),
                    }
                }
            },
        },
    }
}

/// The body of a file read, in base64.
pub fn fs_read_body(bytes: &[u8]) -> (r: String)
    requires
        base64_len(bytes@.len()) <= usize::MAX,
    ensures
        r@ == base64_text(bytes@),
{
    encode_base64(bytes)
}

} // verus!
