use vstd::prelude::*;

use crate::errors::EncodeError;
use crate::request::FileType;

verus! {

/// The PNG compression level used unless the request overrides it.
pub const DEFAULT_PNG_LEVEL: u8 = 6;

/// The JPEG quality used unless the request overrides it.
pub const DEFAULT_JPEG_QUALITY: u8 = 80;

/// The PNG bytes the image encoder produces for an RGBA buffer at a
/// given compression level. The encoding is a pure function of its
/// inputs; its value is not modelled further.
pub uninterp spec fn png_encoding(data: Seq<u8>, width: u32, height: u32, level: u8) -> Seq<u8>;

/// The JPEG bytes the image encoder produces for an RGB buffer at a
/// given quality. A pure function of its inputs, not modelled further.
pub uninterp spec fn jpeg_encoding(data: Seq<u8>, width: u32, height: u32, quality: u8) -> Seq<u8>;

/// Relies on `image::codecs::png::PngEncoder::new_with_quality` and
/// `image::ImageEncoder::write_image`: levels 0–9 map one-to-one onto the
/// encoder's detailed deflate levels, with the encoder's default adaptive
/// filtering. `write_image` panics unless the buffer is exactly 4 bytes
/// per pixel, so that is required here. For such a buffer written into
/// memory the underlying PNG writer fails only on a zero width or
/// height, so success is promised for positive dimensions.
#[verifier::external_body]
fn png_encode_rgba(data: &Vec<u8>, width: u32, height: u32, level: u8) -> (r: Result<
    Vec<u8>,
    String,
>)
    requires
        data@.len() == 4 * width * height,
        level <= 9,
    ensures
        r matches Ok(b) ==> b@ == png_encoding(data@, width, height, level),
        width > 0 && height > 0 ==> r is Ok,
{
    let mut out: Vec<u8> = Vec::new();
    let encoder = image::codecs::png::PngEncoder::new_with_quality(
        std::io::Cursor::new(&mut out),
        image::codecs::png::CompressionType::Level(level),
        image::codecs::png::FilterType::Adaptive,
    );
    match image::ImageEncoder::write_image(encoder, data, width, height, image::ExtendedColorType::Rgba8) {
        Ok(()) => Ok(out),
        Err(e) => Err(e.to_string()),
    }
}

/// Relies on `image::codecs::jpeg::JpegEncoder::new_with_quality` and
/// `JpegEncoder::encode`: the encoder clamps quality into 1–100 itself,
/// and `encode` panics unless the buffer is exactly 3 bytes per pixel,
/// so that is required here. For such a buffer written into memory its
/// only failure is a dimension outside 1–65535, so success is promised
/// inside that range.
#[verifier::external_body]
fn jpeg_encode_rgb(data: &Vec<u8>, width: u32, height: u32, quality: u8) -> (r: Result<
    Vec<u8>,
    String,
>)
    requires
        data@.len() == 3 * width * height,
    ensures
        r matches Ok(b) ==> b@ == jpeg_encoding(data@, width, height, quality),
        1 <= width <= 65535 && 1 <= height <= 65535 ==> r is Ok,
{
    let mut out: Vec<u8> = Vec::new();
    let mut encoder = image::codecs::jpeg::JpegEncoder::new_with_quality(
        std::io::Cursor::new(&mut out),
        quality,
    );
    match encoder.encode(data, width, height, image::ExtendedColorType::Rgb8) {
        Ok(()) => Ok(out),
        Err(e) => Err(e.to_string()),
    }
}

/// The RGB bytes of an RGBA buffer: the first three bytes of every
/// four-byte pixel, in order.
pub open spec fn rgb_of_rgba(data: Seq<u8>) -> Seq<u8> {
    Seq::new((data.len() / 4) * 3, |i: int| data[(i / 3) * 4 + (i % 3)])
}

/// Strip the alpha channel from an RGBA buffer.
pub fn rgba_to_rgb(data: &Vec<u8>) -> (r: Vec<u8>)
    ensures
        r@ == rgb_of_rgba(data@),
{
    let n: usize = data.len() / 4;
    let mut out: Vec<u8> = Vec::new();
    let mut p: usize = 0;
    while p < n
        invariant
            n == data@.len() / 4,
            data@.len() <= usize::MAX,
            p <= n,
            out@.len() == 3 * p,
            forall|i: int| 0 <= i < out@.len() ==> out@[i] == data@[(i / 3) * 4 + (i % 3)],
        decreases n - p,
    {
        proof {
            assert(4 * p + 3 <= 4 * n <= data@.len()) by (nonlinear_arith)
                requires
                    p < n,
                    n == data@.len() / 4,
            ;
            assert(((3 * p) / 3 == p && (3 * p) % 3 == 0) && ((3 * p + 1) / 3 == p && (3 * p + 1)
                % 3 == 1) && ((3 * p + 2) / 3 == p && (3 * p + 2) % 3 == 2)) by (nonlinear_arith)
                requires
                    p >= 0,
            ;
        }
        out.push(data[4 * p]);
        out.push(data[4 * p + 1]);
        out.push(data[4 * p + 2]);
        p += 1;
    }
    proof {
        assert(out@ =~= rgb_of_rgba(data@));
    }
    out
}

/// Decimal digit bytes of `n`, most significant first.
pub open spec fn dec_bytes(n: int) -> Seq<u8>
    decreases n,
{
    if n < 10 {
        seq![(0x30 + n) as u8]
    } else {
        dec_bytes(n / 10).push((0x30 + n % 10) as u8)
    }
}

fn push_dec_bytes(out: &mut Vec<u8>, n: u32)
    ensures
        final(out)@ == old(out)@ + dec_bytes(n as int),
    decreases n,
{
    if n < 10 {
        out.push(0x30 + n as u8);
        proof {
            assert(final(out)@ =~= old(out)@ + dec_bytes(n as int));
        }
    } else {
        push_dec_bytes(out, n / 10);
        out.push(0x30 + (n % 10) as u8);
        proof {
            assert(final(out)@ =~= old(out)@ + dec_bytes(n as int));
        }
    }
}

/// The PPM (P6) encoding of an RGBA buffer: magic, decimal dimensions,
/// maximum sample value 255, then the RGB bytes with the alpha channel
/// dropped. Quality and compression parameters play no part.
pub open spec fn ppm_encoding(data: Seq<u8>, width: u32, height: u32) -> Seq<u8> {
    seq![0x50u8, 0x36u8, 0x0au8] + dec_bytes(width as int) + seq![0x20u8] + dec_bytes(
        height as int,
    ) + seq![0x0au8, 0x32u8, 0x35u8, 0x35u8, 0x0au8] + rgb_of_rgba(data)
}

/// Encode an RGBA buffer as binary PPM.
pub fn encode_ppm(data: &Vec<u8>, width: u32, height: u32) -> (r: Vec<u8>)
    ensures
        r@ == ppm_encoding(data@, width, height),
{
    let mut out: Vec<u8> = Vec::new();
    out.push(0x50);
    out.push(0x36);
    out.push(0x0a);
    push_dec_bytes(&mut out, width);
    out.push(0x20);
    push_dec_bytes(&mut out, height);
    out.push(0x0a);
    out.push(0x32);
    out.push(0x35);
    out.push(0x35);
    out.push(0x0a);
    let mut rgb = rgba_to_rgb(data);
    out.append(&mut rgb);
    proof {
        assert(out@ =~= ppm_encoding(data@, width, height));
    }
    out
}

/// How the router invokes an encoder: through the convenience entry
/// point at the documented default, or the explicit-parameter entry
/// point otherwise. PPM takes no parameters at all.
#[derive(Clone, Copy, Debug, PartialEq, Eq, Structural)]
pub enum EncoderChoice {
    PngDefault,
    PngLevel(u8),
    Ppm,
    JpegDefault,
    JpegQuality(u8),
}

/// The ranges an encoder invocation must respect: a PNG level is 0–9.
pub open spec fn choice_wf(choice: EncoderChoice) -> bool {
    match choice {
        EncoderChoice::PngLevel(l) => l <= 9,
        _ => true,
    }
}

/// The encoder invocation for a file type and its parameters: the
/// convenience entry point exactly when the parameter equals its
/// documented default (PNG level 6, JPEG quality 80), the explicit
/// entry point otherwise.
pub open spec fn encoder_choice_spec(filetype: FileType, quality: u8, level: u8) -> EncoderChoice {
    match filetype {
        FileType::Png => if level == DEFAULT_PNG_LEVEL {
            EncoderChoice::PngDefault
        } else {
            EncoderChoice::PngLevel(level)
        },
        FileType::Ppm => EncoderChoice::Ppm,
        FileType::Jpeg => if quality == DEFAULT_JPEG_QUALITY {
            EncoderChoice::JpegDefault
        } else {
            EncoderChoice::JpegQuality(quality)
        },
    }
}

/// Select the encoder invocation: default-value bypass for PNG level 6
/// and JPEG quality 80, the explicit entry point otherwise.
pub fn choose_encoder(filetype: FileType, quality: u8, level: u8) -> (r: EncoderChoice)
    ensures
        r == encoder_choice_spec(filetype, quality, level),
{
    match filetype {
        FileType::Png => if level == DEFAULT_PNG_LEVEL {
            EncoderChoice::PngDefault
        } else {
            EncoderChoice::PngLevel(level)
        },
        FileType::Ppm => EncoderChoice::Ppm,
        FileType::Jpeg => if quality == DEFAULT_JPEG_QUALITY {
            EncoderChoice::JpegDefault
        } else {
            EncoderChoice::JpegQuality(quality)
        },
    }
}

/// The dimensions each encoder accepts for a well-sized buffer: the PNG
/// writer rejects only a zero width or height, the JPEG encoder needs
/// both within 1–65535, and the PPM writer takes anything.
pub open spec fn encoder_accepts(choice: EncoderChoice, width: u32, height: u32) -> bool {
    match choice {
        EncoderChoice::Ppm => true,
        EncoderChoice::PngDefault => width > 0 && height > 0,
        EncoderChoice::PngLevel(_) => width > 0 && height > 0,
        EncoderChoice::JpegDefault => 1 <= width <= 65535 && 1 <= height <= 65535,
        EncoderChoice::JpegQuality(_) => 1 <= width <= 65535 && 1 <= height <= 65535,
    }
}

/// The bytes each encoder invocation produces from an RGBA buffer.
pub open spec fn encoded_bytes(
    choice: EncoderChoice,
    data: Seq<u8>,
    width: u32,
    height: u32,
) -> Seq<u8> {
    match choice {
        EncoderChoice::PngDefault => png_encoding(data, width, height, DEFAULT_PNG_LEVEL),
        EncoderChoice::PngLevel(l) => png_encoding(data, width, height, l),
        EncoderChoice::Ppm => ppm_encoding(data, width, height),
        EncoderChoice::JpegDefault => jpeg_encoding(
            rgb_of_rgba(data),
            width,
            height,
            DEFAULT_JPEG_QUALITY,
        ),
        EncoderChoice::JpegQuality(q) => jpeg_encoding(rgb_of_rgba(data), width, height, q),
    }
}

/// The default-value bypass is invisible in the output: the convenience
/// path and the explicit path produce byte-identical encodings at PNG
/// level 6, and likewise at JPEG quality 80, for every buffer.
pub proof fn lemma_default_bypass_identical(data: Seq<u8>, width: u32, height: u32)
    ensures
        encoded_bytes(EncoderChoice::PngDefault, data, width, height) == encoded_bytes(
            EncoderChoice::PngLevel(DEFAULT_PNG_LEVEL),
            data,
            width,
            height,
        ),
        encoded_bytes(EncoderChoice::JpegDefault, data, width, height) == encoded_bytes(
            EncoderChoice::JpegQuality(DEFAULT_JPEG_QUALITY),
            data,
            width,
            height,
        ),
{
}

/// Encode an RGBA buffer through the chosen encoder invocation.
///
/// A buffer whose length does not match the dimensions is rejected with
/// the exact sizes. On success the bytes are exactly the chosen
/// invocation's encoding, and success is owed whenever the encoder
/// accepts the dimensions: PPM always, PNG for positive dimensions,
/// JPEG within 1–65535.
pub fn encode_capture(data: &Vec<u8>, width: u32, height: u32, choice: EncoderChoice) -> (r: Result<
    Vec<u8>,
    EncodeError,
>)
    requires
        choice_wf(choice),
    ensures
        r matches Ok(b) ==> data@.len() == 4 * width * height && b@ == encoded_bytes(
            choice,
            data@,
            width,
            height,
        ),
        data@.len() != 4 * width * height ==> (r matches Err(
            EncodeError::BufferSizeMismatch { expected, got },
        ) && expected == 4 * width * height && got == data@.len()),
        r matches Err(EncodeError::BufferSizeMismatch { .. }) ==> data@.len() != 4 * width * height,
        data@.len() == 4 * width * height && encoder_accepts(choice, width, height) ==> r is Ok,
{
    proof {
        assert((4 * (width as int)) * (height as int) < 0x100000000000000000) by (nonlinear_arith)
            requires
                width as int <= 0xffffffff,
                height as int <= 0xffffffff,
        ;
    }
    let expected: u128 = 4u128 * (width as u128) * (height as u128);
    let got: u128 = data.len() as u128;
    if got != expected {
        return Err(EncodeError::BufferSizeMismatch { expected, got });
    }
    match choice {
        EncoderChoice::PngDefault => match png_encode_rgba(data, width, height, DEFAULT_PNG_LEVEL) {
            Ok(b) => Ok(b),
            Err(m) => Err(EncodeError::EncoderFailure(m)),
        },
        EncoderChoice::PngLevel(l) => match png_encode_rgba(data, width, height, l) {
            Ok(b) => Ok(b),
            Err(m) => Err(EncodeError::EncoderFailure(m)),
        },
        EncoderChoice::Ppm => Ok(encode_ppm(data, width, height)),
        EncoderChoice::JpegDefault => {
            let rgb = rgba_to_rgb(data);
            proof {
                assert(rgb@.len() == 3 * width * height) by (nonlinear_arith)
                    requires
                        rgb@.len() == (data@.len() / 4) * 3,
                        data@.len() == 4 * width * height,
                ;
            }
            match jpeg_encode_rgb(&rgb, width, height, DEFAULT_JPEG_QUALITY) {
                Ok(b) => Ok(b),
                Err(m) => Err(EncodeError::EncoderFailure(m)),
            }
        },
        EncoderChoice::JpegQuality(q) => {
            let rgb = rgba_to_rgb(data);
            proof {
                assert(rgb@.len() == 3 * width * height) by (nonlinear_arith)
                    requires
                        rgb@.len() == (data@.len() / 4) * 3,
                        data@.len() == 4 * width * height,
                ;
            }
            match jpeg_encode_rgb(&rgb, width, height, q) {
                Ok(b) => Ok(b),
                Err(m) => Err(EncodeError::EncoderFailure(m)),
            }
        },
    }
}

} // verus!

