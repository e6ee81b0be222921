//! Deterministic placeholder icons.
//!
//! When a server provides no favicon (or the caller asks for it), a
//! placeholder image is generated from the protocol and address alone, so
//! it is stable for a given server. The outside generator, PNG encoder
//! and Base64 encoder are relied upon through named results; the
//! background-to-transparency rewrite between them is verified.

use crate::probe::ProtocolType;
use image::ImageEncoder;
use vstd::prelude::*;

verus! {

/// What the outside identicon generator returns for a seed and settings:
/// RGBA pixel data with its width and height, or nothing when generation
/// fails. It depends on its arguments alone.
pub uninterp spec fn identicon_rgba_of(seed: Seq<char>, size: u32, scale: u32, border: u32) -> Option<
    (Seq<u8>, u32, u32),
>;

/// What the outside PNG encoder returns for RGBA pixel data of the given
/// dimensions, or nothing when encoding fails. It depends on its
/// arguments alone.
pub uninterp spec fn png_of(rgba: Seq<u8>, width: u32, height: u32) -> Option<Seq<u8>>;

/// What the outside Base64 encoder (standard alphabet) returns for the
/// given bytes. It depends on its argument alone.
pub uninterp spec fn base64_of(b: Seq<u8>) -> Seq<char>;

/// The input used to generate an identicon.
pub struct IdenticonInput<'a> {
    /// The protocol the identicon is keyed on.
    pub protocol_type: ProtocolType,
    /// The address the identicon is keyed on.
    pub address: &'a str,
}

impl<'a> IdenticonInput<'a> {
    /// The seed string fed to the generator: the protocol name, then the
    /// address.
    pub fn to_string(&self) -> (r: String)
        ensures
            r@ == self.spec_seed(),
    {
        let mut s = String::from_str(self.protocol_type.tag());
        s.append(self.address);
        s
    }

    /// What `to_string` returns.
    pub open spec fn spec_seed(&self) -> Seq<char> {
        self.protocol_type.spec_tag() + self.address@
    }
}

/// Relies on `identicon_rs::Identicon`: the generated image is a pure
/// function of the seed and the size, scale and border settings, and an
/// image buffer holds exactly four bytes per pixel, so the returned data
/// has length `4 * width * height`. The bounds on the settings keep the
/// generator's own `u32` arithmetic (the squared grid size and the
/// bordered image size) in range, so it cannot overflow.
#[verifier::external_body]
fn identicon_rgba(seed: &str, size: u32, scale: u32, border: u32) -> (r: Option<(Vec<u8>, u32, u32)>)
    requires
        size <= 4096,
        scale <= 4096,
        border <= 4096,
    ensures
        match r {
            None => identicon_rgba_of(seed@, size, scale, border) is None,
            Some(t) => identicon_rgba_of(seed@, size, scale, border) == Some((t.0@, t.1, t.2))
                && t.0@.len() == 4 * (t.1 as int) * (t.2 as int),
        },
{
    let mut icon = identicon_rs::Identicon::new(seed);
    icon.set_size(size).ok()?;
    icon.set_scale(scale).ok()?;
    icon.set_border(border);
    let img = icon.generate_image().ok()?.to_rgba8();
    let (width, height) = (img.width(), img.height());
    Some((img.into_raw(), width, height))
}

/// Relies on `image::codecs::png::PngEncoder`: PNG encoding is a pure
/// function of the pixel data, dimensions and color type. The encoder
/// insists that the buffer holds exactly four bytes per pixel and panics
/// otherwise, so that is required here.
#[verifier::external_body]
fn png_encode(rgba: &Vec<u8>, width: u32, height: u32) -> (r: Option<Vec<u8>>)
    requires
        rgba@.len() == 4 * (width as int) * (height as int),
    ensures
        match r {
            None => png_of(rgba@, width, height) is None,
            Some(v) => png_of(rgba@, width, height) == Some(v@),
        },
{
    let mut buffer = Vec::new();
    image::codecs::png::PngEncoder::new(&mut buffer)
        .write_image(rgba.as_slice(), width, height, image::ExtendedColorType::Rgba8)
        .ok()?;
    Some(buffer)
}

/// Relies on base64's standard-alphabet engine: encoding is a pure
/// function of the input bytes.
#[verifier::external_body]
fn base64_encode(data: &Vec<u8>) -> (r: String)
    ensures
        r@ == base64_of(data@),
{
    base64::Engine::encode(&base64::engine::general_purpose::STANDARD, data.as_slice())
}

/// Whether the four bytes of pixel group `g` are the generator's opaque
/// light-grey background color.
pub open spec fn bg_at(s: Seq<u8>, g: int) -> bool {
    &&& 0 <= 4 * g
    &&& 4 * g + 3 < s.len()
    &&& s[4 * g] == 240
    &&& s[4 * g + 1] == 240
    &&& s[4 * g + 2] == 240
    &&& s[4 * g + 3] == 255
}

/// The pixel data with every background pixel replaced by a fully
/// transparent one; other bytes are unchanged.
pub open spec fn spec_transparent(s: Seq<u8>) -> Seq<u8> {
    Seq::new(
        s.len(),
        |i: int|
            if bg_at(s, i / 4) {
                0u8
            } else {
                s[i]
            },
    )
}

/// Replace every opaque background pixel of the RGBA data with a fully
/// transparent one, so the host can draw its own background behind the
/// icon.
pub fn make_transparent(pixels: &mut Vec<u8>)
    ensures
        final(pixels)@ == spec_transparent(old(pixels)@),
{
    let ghost orig = pixels@;
    let mut i: usize = 0;
    while pixels.len() - i >= 4
        invariant
            0 <= i <= orig.len(),
            i % 4 == 0,
            pixels@.len() == orig.len(),
            forall|k: int| i <= k < orig.len() ==> pixels@[k] == orig[k],
            forall|k: int| 0 <= k < i ==> pixels@[k] == spec_transparent(orig)[k],
        decreases orig.len() - i,
    {
        let b0 = pixels[i];
        let b1 = pixels[i + 1];
        let b2 = pixels[i + 2];
        let b3 = pixels[i + 3];
        let ghost q = i as int / 4;
        proof {
            vstd::arithmetic::div_mod::lemma_fundamental_div_mod(i as int, 4);
            assert(4 * q == i as int);
            assert(bg_at(orig, q) == (b0 == 240 && b1 == 240 && b2 == 240 && b3 == 255));
        }
        if b0 == 240 && b1 == 240 && b2 == 240 && b3 == 255 {
            pixels.set(i, 0);
            pixels.set(i + 1, 0);
            pixels.set(i + 2, 0);
            pixels.set(i + 3, 0);
        }
        proof {
            assert forall|k: int| 0 <= k < i + 4 implies pixels@[k] == spec_transparent(
                orig,
            )[k] by {
                if i <= k {
                    vstd::arithmetic::div_mod::lemma_fundamental_div_mod_converse(k, 4, q, k - 4
                        * q);
                    assert(k / 4 == q);
                }
            }
        }
        i = i + 4;
    }
    proof {
        assert forall|k: int| 0 <= k < orig.len() implies pixels@[k] == spec_transparent(
            orig,
        )[k] by {
            if k >= i {
                // The loop stopped, so this trailing byte has no full
                // pixel group and is left unchanged.
                let q = i as int / 4;
                vstd::arithmetic::div_mod::lemma_fundamental_div_mod(i as int, 4);
                assert(4 * q == i as int);
                vstd::arithmetic::div_mod::lemma_fundamental_div_mod_converse(k, 4, q, k - 4 * q);
                assert(k / 4 == q);
                assert(4 * (k / 4) + 3 >= orig.len());
                assert(!bg_at(orig, k / 4));
            }
        }
        assert(pixels@ =~= spec_transparent(orig));
    }
}

/// What the composed generation yields for a seed: the generated image
/// with its background made transparent, PNG-encoded, then
/// Base64-encoded; `None` when the generator or the encoder fails.
pub open spec fn spec_generated_icon(seed: Seq<char>) -> Option<Seq<char>> {
    match identicon_rgba_of(seed, 9, 54, 6) {
        None => None,
        Some(t) => match png_of(spec_transparent(t.0), t.1, t.2) {
            None => None,
            Some(png) => Some(base64_of(png)),
        },
    }
}

/// Generate the Base64-encoded PNG identicon for the given input;
/// deterministic for identical inputs, `None` when generation fails.
pub fn make_base64_identicon(input: IdenticonInput) -> (r: Option<String>)
    ensures
        match r {
            None => spec_generated_icon(input.spec_seed()) is None,
            Some(s) => spec_generated_icon(input.spec_seed()) == Some(s@),
        },
{
    let seed = input.to_string();
    match identicon_rgba(seed.as_str(), 9, 54, 6) {
        None => None,
        Some((data, width, height)) => {
            let mut data = data;
            make_transparent(&mut data);
            match png_encode(&data, width, height) {
                None => None,
                Some(png) => Some(base64_encode(&png)),
            }
        },
    }
}

} // verus!
