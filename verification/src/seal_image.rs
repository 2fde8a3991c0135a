//! The seal image drawn in a signature's appearance: the PNG decoded to
//! RGBA, split into an RGB image and an alpha mask, both compressed for PDF
//! (`FlateDecode`).

use vstd::prelude::*;
use crate::errors::SignBatchError;
use crate::text;

verus! {

/// What `image::load_from_memory(..).to_rgba8()` gives for some bytes: the
/// width, the height and the RGBA samples row by row (`None` when the
/// bytes do not decode).
pub uninterp spec fn decoded_rgba(png: Seq<u8>) -> Option<(u32, u32, Seq<u8>)>;

/// What a default-level zlib stream of the bytes is (`flate2::write::ZlibEncoder`).
pub uninterp spec fn zlib_compressed(data: Seq<u8>) -> Seq<u8>;

/// A decoded RGBA image.
#[derive(Debug)]
pub struct RgbaPixels {
    pub width: u32,
    pub height: u32,
    pub samples: Vec<u8>,
}

/// `image::load_from_memory` then `to_rgba8`: the error's text when the
/// bytes do not decode. The samples hold four bytes per pixel, as
/// `ImageBuffer` lays them out.
#[verifier::external_body]
fn decode_png_rgba(png: &[u8]) -> (r: Result<RgbaPixels, String>)
    ensures
        match r {
            Ok(p) => decoded_rgba(png@) == Some((p.width, p.height, p.samples@)) && p.samples@.len() == 4
                * p.width * p.height,
            Err(_) => decoded_rgba(png@) is None,
        },
{
    match image::load_from_memory(png) {
        Ok(img) => {
            let rgba = img.to_rgba8();
            Ok(RgbaPixels { width: rgba.width(), height: rgba.height(), samples: rgba.into_raw() })
        },
        Err(e) => Err(e.to_string()),
    }
}

/// Compresses bytes with zlib at the default level (`flate2`). Writing into
/// a `Vec` with default settings does not fail: the inner writer never does,
/// and miniz_oxide's buffer status counts as progress, so the result is
/// always the compressed stream.
#[verifier::external_body]
fn zlib_compress(data: &[u8]) -> (r: Result<Vec<u8>, String>)
    ensures
        r is Ok,
        r matches Ok(v) ==> v@ == zlib_compressed(data@),
{
    let mut z = flate2::write::ZlibEncoder::new(Vec::new(), flate2::Compression::default());
    match <flate2::write::ZlibEncoder<Vec<u8>> as std::io::Write>::write_all(&mut z, data) {
        Ok(()) => z.finish().map_err(|e| e.to_string()),
        Err(e) => Err(e.to_string()),
    }
}

/// The RGB samples of a pixel: white where it is fully transparent.
pub open spec fn rgb_of(r: u8, g: u8, b: u8, a: u8) -> Seq<u8> {
    if a == 0 {
        seq![255u8, 255, 255]
    } else {
        seq![r, g, b]
    }
}

/// The RGB samples of the first `n` pixels.
pub open spec fn rgb_plane(s: Seq<u8>, n: nat) -> Seq<u8>
    decreases n,
{
    if n == 0 {
        seq![]
    } else {
        let k = (n - 1) as int;
        rgb_plane(s, (n - 1) as nat) + rgb_of(s[4 * k], s[4 * k + 1], s[4 * k + 2], s[4 * k + 3])
    }
}

/// The alpha samples of the first `n` pixels.
pub open spec fn alpha_plane(s: Seq<u8>, n: nat) -> Seq<u8> {
    Seq::new(n, |i: int| s[4 * i + 3])
}

/// The alpha sample of pixel `i`.
pub open spec fn alpha_at(s: Seq<u8>, i: int) -> u8 {
    s[4 * i + 3]
}

/// Some pixel among the first `n` is not fully opaque.
pub open spec fn has_transparency(s: Seq<u8>, n: nat) -> bool {
    exists|i: int| 0 <= i < n && #[trigger] alpha_at(s, i) < 255
}

/// Splits RGBA samples into RGB (transparent pixels white) and alpha.
pub fn split_rgba(samples: &[u8]) -> (r: (Vec<u8>, Vec<u8>, bool))
    requires
        samples@.len() % 4 == 0,
    ensures
        r.0@ == rgb_plane(samples@, samples@.len() / 4),
        r.1@ == alpha_plane(samples@, samples@.len() / 4),
        r.2 == has_transparency(samples@, samples@.len() / 4),
{
    let n = samples.len() / 4;
    let mut rgb: Vec<u8> = Vec::new();
    let mut alpha: Vec<u8> = Vec::new();
    let mut has_alpha = false;
    let mut i: usize = 0;
    while i < n
        invariant
            n == samples@.len() / 4,
            samples@.len() % 4 == 0,
            samples@.len() <= usize::MAX,
            i <= n,
            rgb@ == rgb_plane(samples@, i as nat),
            alpha@ == alpha_plane(samples@, i as nat),
            has_alpha == has_transparency(samples@, i as nat),
        decreases n - i,
    {
        assert(4 * i + 3 < samples@.len()) by (nonlinear_arith)
            requires
                i < n,
                n == samples@.len() / 4,
                samples@.len() % 4 == 0,
        ;
        let r = samples[4 * i];
        let g = samples[4 * i + 1];
        let b = samples[4 * i + 2];
        let a = samples[4 * i + 3];
        if a < 255 {
            has_alpha = true;
        }
        if a == 0 {
            rgb.push(255);
            rgb.push(255);
            rgb.push(255);
        } else {
            rgb.push(r);
            rgb.push(g);
            rgb.push(b);
        }
        alpha.push(a);
        proof {
            assert(rgb@ =~= rgb_plane(samples@, (i + 1) as nat));
            assert(alpha@ =~= alpha_plane(samples@, (i + 1) as nat));
            assert(alpha_at(samples@, i as int) == a);
            if has_transparency(samples@, (i + 1) as nat) && !has_transparency(samples@, i as nat) {
                let j = choose|j: int| 0 <= j < i + 1 && #[trigger] alpha_at(samples@, j) < 255;
                assert(j == i);
            }
        }
        i += 1;
    }
    (rgb, alpha, has_alpha)
}

/// The image objects of a seal: its size, the compressed RGB samples and,
/// when some pixel is not opaque, the compressed alpha mask.
#[derive(Debug)]
pub struct SealImage {
    pub width: u32,
    pub height: u32,
    pub rgb_compressed: Vec<u8>,
    pub alpha_compressed: Option<Vec<u8>>,
}

pub open spec fn pades_message(e: SignBatchError) -> Option<Seq<char>> {
    match e {
        SignBatchError::Pades(m) => Some(m@),
        _ => None,
    }
}

/// Decodes a seal PNG and prepares its image objects. It succeeds exactly
/// when the PNG decodes to a non-empty image; otherwise the error says that
/// it does not decode (`imagen sello: …`) or that it is empty.
pub fn seal_image_streams(png: &[u8]) -> (r: Result<SealImage, SignBatchError>)
    ensures
        match r {
            Ok(img) => match decoded_rgba(png@) {
                Some((w, h, s)) => {
                    &&& img.width == w && img.height == h && w > 0 && h > 0
                    &&& img.rgb_compressed@ == zlib_compressed(rgb_plane(s, (w * h) as nat))
                    &&& (has_transparency(s, (w * h) as nat) ==> (img.alpha_compressed matches Some(a) && a@
                        == zlib_compressed(alpha_plane(s, (w * h) as nat))))
                    &&& (!has_transparency(s, (w * h) as nat) ==> img.alpha_compressed is None)
                },
                None => false,
            },
            Err(e) => match decoded_rgba(png@) {
                None => pades_message(e) matches Some(m) && text::starts_with(m, "imagen sello: "@),
                Some((w, h, _)) => (w == 0 || h == 0) && pades_message(e) == Some("imagen sello vacía"@),
            },
        },
{
    let px = match decode_png_rgba(png) {
        Ok(p) => p,
        Err(e) => {
            return Err(prefixed_error("imagen sello: ", e.as_str()));
        },
    };
    if px.width == 0 || px.height == 0 {
        return Err(SignBatchError::Pades(String::from_str("imagen sello vacía")));
    }
    proof {
        let k: int = px.width as int * px.height as int;
        assert(px.samples@.len() == 4 * k) by (nonlinear_arith)
            requires
                px.samples@.len() == 4 * px.width * px.height,
                k == px.width as int * px.height as int,
        ;
        assert(px.samples@.len() % 4 == 0);
        assert(px.samples@.len() / 4 == k);
    }
    let (rgb, alpha, has_alpha) = split_rgba(&px.samples);
    let rgb_compressed = match zlib_compress(&rgb) {
        Ok(v) => v,
        Err(_) => Vec::new(),
    };
    let alpha_compressed = if has_alpha {
        match zlib_compress(&alpha) {
            Ok(v) => Some(v),
            Err(_) => None,
        }
    } else {
        None
    };
    Ok(SealImage { width: px.width, height: px.height, rgb_compressed, alpha_compressed })
}

fn prefixed_error(prefix: &str, e: &str) -> (r: SignBatchError)
    ensures
        pades_message(r) == Some(prefix@ + e@),
        text::starts_with(prefix@ + e@, prefix@),
{
    let mut v = text::chars_of(prefix);
    text::append_chars(&mut v, &text::chars_of(e));
    assert((prefix@ + e@).subrange(0, prefix@.len() as int) =~= prefix@);
    SignBatchError::Pades(text::string_of(&v))
}

/// The size of a seal image (`image::load_from_memory(..).dimensions()`).
pub fn seal_png_dimensions(png: &[u8]) -> (r: Result<(u32, u32), SignBatchError>)
    ensures
        match r {
            Ok((w, h)) => decoded_rgba(png@) matches Some((dw, dh, _)) && w == dw && h == dh,
            Err(e) => decoded_rgba(png@) is None && (pades_message(e) matches Some(m) && text::starts_with(
                m,
                "imagen sello: "@,
            )),
        },
{
    match decode_png_rgba(png) {
        Ok(p) => Ok((p.width, p.height)),
        Err(e) => Err(prefixed_error("imagen sello: ", e.as_str())),
    }
}

/// The content stream that draws the seal image over the whole widget `rect`.
pub open spec fn image_appearance_text(rect: [i64; 4]) -> Seq<char> {
    "q "@ + text::decimal(crate::pades_fields::abs(rect[2] - rect[0]) as nat) + " 0 0 "@ + text::decimal(
        crate::pades_fields::abs(rect[3] - rect[1]) as nat,
    ) + " 0 0 cm /img1 Do Q"@
}

pub fn image_appearance_content(rect: [i64; 4]) -> (r: String)
    requires
        crate::pades_fields::abs(rect[2] - rect[0]) <= 0x20000000000000,
        crate::pades_fields::abs(rect[3] - rect[1]) <= 0x20000000000000,
    ensures
        r@ == image_appearance_text(rect),
{
    let dx: i64 = rect[2] - rect[0];
    let dy: i64 = rect[3] - rect[1];
    let w: i64 = if dx < 0 { -dx } else { dx };
    let h: i64 = if dy < 0 { -dy } else { dy };
    let mut v = text::chars_of("q ");
    text::append_chars(&mut v, &text::decimal_chars(w as u64));
    text::append_chars(&mut v, &text::chars_of(" 0 0 "));
    text::append_chars(&mut v, &text::decimal_chars(h as u64));
    text::append_chars(&mut v, &text::chars_of(" 0 0 cm /img1 Do Q"));
    text::string_of(&v)
}

} // verus!
