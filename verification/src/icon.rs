use vstd::prelude::*;

verus! {

/// Icon variant for different states.
#[derive(Debug, Clone, Copy, PartialEq, Eq, Structural)]
pub enum IconVariant {
    /// Outline arrows - no active ports.
    Inactive,
    /// Filled arrows - ports are active.
    Active,
}

/// The color layout of a decoded frame, one sample a byte.
#[derive(Debug, Clone, Copy, PartialEq, Eq, Structural)]
pub enum PngColorKind {
    Rgba,
    Rgb,
    GrayscaleAlpha,
    Grayscale,
    Indexed,
}

/// A decoded image, four bytes a pixel.
#[derive(Debug, Clone)]
pub struct RgbaImage {
    pub rgba: Vec<u8>,
    pub width: u32,
    pub height: u32,
}

/// Why a byte stream yields no menu-bar icon.
#[derive(Debug, Clone, Copy, PartialEq, Eq, Structural)]
pub enum IconDecodeError {
    /// The png decoder rejected the stream.
    Malformed,
    /// Indexed color, which the menu bar icon does not take.
    IndexedUnsupported,
}

/// What the png crate decodes a stream to — frame bytes, width, height and
/// color layout — a function of the bytes alone; None when it rejects them.
pub uninterp spec fn png_frame(data: Seq<u8>) -> Option<(Seq<u8>, u32, u32, PngColorKind)>;

/// Relies on the png crate: Decoder::new over the bytes, read_info, and
/// next_frame into a buffer of the reader's output_buffer_size, cut to the
/// frame's buffer_size; the frame's color kind is told apart arm by arm.
#[verifier::external_body]
fn decode_png_frame(data: &[u8]) -> (r: Option<(Vec<u8>, u32, u32, PngColorKind)>)
    ensures
        match r {
            Option::Some(f) => png_frame(data@) == Option::Some((f.0@, f.1, f.2, f.3)),
            Option::None => png_frame(data@) is None,
        },
{
    let mut reader = png::Decoder::new(std::io::Cursor::new(data)).read_info().ok()?;
    let mut buf = vec![0u8; reader.output_buffer_size()?];
    let info = reader.next_frame(&mut buf).ok()?;
    buf.truncate(info.buffer_size());
    let kind = match info.color_type {
        png::ColorType::Rgba => PngColorKind::Rgba,
        png::ColorType::Rgb => PngColorKind::Rgb,
        png::ColorType::GrayscaleAlpha => PngColorKind::GrayscaleAlpha,
        png::ColorType::Grayscale => PngColorKind::Grayscale,
        png::ColorType::Indexed => PngColorKind::Indexed,
    };
    Some((buf, info.width, info.height, kind))
}

// ---------------------------------------------------------------------------
// Verified conversion of a frame to RGBA.
// ---------------------------------------------------------------------------

/// Three samples a pixel become four: each triple gains full opacity.
pub open spec fn rgb_to_rgba(s: Seq<u8>) -> Seq<u8>
    decreases s.len(),
{
    if s.len() == 0 {
        Seq::<u8>::empty()
    } else if s.len() >= 3 {
        s.take(3) + seq![255u8] + rgb_to_rgba(s.skip(3))
    } else {
        s + seq![255u8]
    }
}

/// Gray-and-alpha pairs become four samples: the gray three times, then
/// the alpha; a trailing half pair keeps full opacity.
pub open spec fn gray_alpha_to_rgba(s: Seq<u8>) -> Seq<u8>
    decreases s.len(),
{
    if s.len() == 0 {
        Seq::<u8>::empty()
    } else if s.len() >= 2 {
        seq![s[0], s[0], s[0], s[1]] + gray_alpha_to_rgba(s.skip(2))
    } else {
        seq![s[0], s[0], s[0], 255u8]
    }
}

/// Each gray sample becomes an opaque gray pixel.
pub open spec fn gray_to_rgba(s: Seq<u8>) -> Seq<u8>
    decreases s.len(),
{
    if s.len() == 0 {
        Seq::<u8>::empty()
    } else {
        seq![s[0], s[0], s[0], 255u8] + gray_to_rgba(s.skip(1))
    }
}

/// A frame's bytes as RGBA, by its color layout.
pub open spec fn spec_frame_rgba(bytes: Seq<u8>, kind: PngColorKind) -> Seq<u8> {
    match kind {
        PngColorKind::Rgba => bytes,
        PngColorKind::Rgb => rgb_to_rgba(bytes),
        PngColorKind::GrayscaleAlpha => gray_alpha_to_rgba(bytes),
        PngColorKind::Grayscale => gray_to_rgba(bytes),
        PngColorKind::Indexed => Seq::<u8>::empty(),
    }
}

fn rgb_frame_to_rgba(bytes: &Vec<u8>) -> (r: Vec<u8>)
    ensures
        r@ == rgb_to_rgba(bytes@),
{
    let mut out: Vec<u8> = Vec::new();
    let mut i: usize = 0;
    proof {
        assert(bytes@.skip(0) =~= bytes@);
        assert(Seq::<u8>::empty() + rgb_to_rgba(bytes@) =~= rgb_to_rgba(bytes@));
    }
    while i < bytes.len() && bytes.len() - i >= 3
        invariant
            i <= bytes@.len(),
            out@ + rgb_to_rgba(bytes@.skip(i as int)) == rgb_to_rgba(bytes@),
        decreases bytes@.len() - i,
    {
        let ghost before = bytes@.skip(i as int);
        out.push(bytes[i]);
        out.push(bytes[i + 1]);
        out.push(bytes[i + 2]);
        out.push(255);
        proof {
            assert(before.take(3) =~= seq![
                bytes@[i as int],
                bytes@[i + 1 as int],
                bytes@[i + 2 as int],
            ]);
            assert(before.skip(3) =~= bytes@.skip(i + 3 as int));
            assert(rgb_to_rgba(before) == before.take(3) + seq![255u8] + rgb_to_rgba(
                before.skip(3),
            ));
            assert(out@ + rgb_to_rgba(bytes@.skip(i + 3 as int)) =~= rgb_to_rgba(bytes@));
        }
        i = i + 3;
    }
    if i < bytes.len() {
        let ghost base = out@;
        let mut k: usize = i;
        while k < bytes.len()
            invariant
                i <= k <= bytes@.len(),
                out@ == base + bytes@.subrange(i as int, k as int),
            decreases bytes@.len() - k,
        {
            out.push(bytes[k]);
            proof {
                assert(base + bytes@.subrange(i as int, k as int).push(bytes@[k as int]) =~= base
                    + bytes@.subrange(i as int, k + 1 as int));
            }
            k = k + 1;
        }
        out.push(255);
        proof {
            assert(bytes@.subrange(i as int, bytes@.len() as int) =~= bytes@.skip(i as int));
            assert(out@ =~= rgb_to_rgba(bytes@));
        }
    } else {
        proof {
            assert(bytes@.skip(i as int) =~= Seq::<u8>::empty());
            assert(out@ =~= rgb_to_rgba(bytes@));
        }
    }
    out
}

fn gray_alpha_frame_to_rgba(bytes: &Vec<u8>) -> (r: Vec<u8>)
    ensures
        r@ == gray_alpha_to_rgba(bytes@),
{
    let mut out: Vec<u8> = Vec::new();
    let mut i: usize = 0;
    proof {
        assert(bytes@.skip(0) =~= bytes@);
        assert(Seq::<u8>::empty() + gray_alpha_to_rgba(bytes@) =~= gray_alpha_to_rgba(bytes@));
    }
    while i < bytes.len() && bytes.len() - i >= 2
        invariant
            i <= bytes@.len(),
            out@ + gray_alpha_to_rgba(bytes@.skip(i as int)) == gray_alpha_to_rgba(bytes@),
        decreases bytes@.len() - i,
    {
        let ghost before = bytes@.skip(i as int);
        let gray = bytes[i];
        let alpha = bytes[i + 1];
        out.push(gray);
        out.push(gray);
        out.push(gray);
        out.push(alpha);
        proof {
            assert(before[0] == bytes@[i as int]);
            assert(before[1] == bytes@[i + 1 as int]);
            assert(before.skip(2) =~= bytes@.skip(i + 2 as int));
            assert(out@ + gray_alpha_to_rgba(bytes@.skip(i + 2 as int)) =~= gray_alpha_to_rgba(
                bytes@,
            ));
        }
        i = i + 2;
    }
    if i < bytes.len() {
        let gray = bytes[i];
        out.push(gray);
        out.push(gray);
        out.push(gray);
        out.push(255);
        proof {
            assert(bytes@.skip(i as int)[0] == bytes@[i as int]);
            assert(bytes@.skip(i as int).len() == 1);
            assert(out@ =~= gray_alpha_to_rgba(bytes@));
        }
    } else {
        proof {
            assert(bytes@.skip(i as int) =~= Seq::<u8>::empty());
            assert(out@ =~= gray_alpha_to_rgba(bytes@));
        }
    }
    out
}

fn gray_frame_to_rgba(bytes: &Vec<u8>) -> (r: Vec<u8>)
    ensures
        r@ == gray_to_rgba(bytes@),
{
    let mut out: Vec<u8> = Vec::new();
    let mut i: usize = 0;
    proof {
        assert(bytes@.skip(0) =~= bytes@);
        assert(Seq::<u8>::empty() + gray_to_rgba(bytes@) =~= gray_to_rgba(bytes@));
    }
    while i < bytes.len()
        invariant
            i <= bytes@.len(),
            out@ + gray_to_rgba(bytes@.skip(i as int)) == gray_to_rgba(bytes@),
        decreases bytes@.len() - i,
    {
        let gray = bytes[i];
        out.push(gray);
        out.push(gray);
        out.push(gray);
        out.push(255);
        proof {
            assert(bytes@.skip(i as int)[0] == bytes@[i as int]);
            assert(bytes@.skip(i as int).skip(1) =~= bytes@.skip(i + 1 as int));
            assert(out@ + gray_to_rgba(bytes@.skip(i + 1 as int)) =~= gray_to_rgba(bytes@));
        }
        i = i + 1;
    }
    proof {
        assert(bytes@.skip(i as int) =~= Seq::<u8>::empty());
        assert(out@ =~= gray_to_rgba(bytes@));
    }
    out
}

/// A decoded frame's bytes as RGBA; indexed color is refused.
pub fn frame_to_rgba(bytes: &Vec<u8>, kind: PngColorKind) -> (r: Result<Vec<u8>, IconDecodeError>)
    ensures
        match r {
            Result::Ok(v) => kind != PngColorKind::Indexed && v@ == spec_frame_rgba(bytes@, kind),
            Result::Err(e) => kind == PngColorKind::Indexed && e
                == IconDecodeError::IndexedUnsupported,
        },
{
    match kind {
        PngColorKind::Rgba => Ok(bytes.clone()),
        PngColorKind::Rgb => Ok(rgb_frame_to_rgba(bytes)),
        PngColorKind::GrayscaleAlpha => Ok(gray_alpha_frame_to_rgba(bytes)),
        PngColorKind::Grayscale => Ok(gray_frame_to_rgba(bytes)),
        PngColorKind::Indexed => Err(IconDecodeError::IndexedUnsupported),
    }
}

/// Decodes a png stream and converts whatever color layout it carries to
/// RGBA, four bytes a pixel.
pub fn decode_png_to_rgba(png_data: &[u8]) -> (r: Result<RgbaImage, IconDecodeError>)
    ensures
        match png_frame(png_data@) {
            Option::None => r == Result::<RgbaImage, IconDecodeError>::Err(
                IconDecodeError::Malformed,
            ),
            Option::Some(f) => {
                if f.3 == PngColorKind::Indexed {
                    r == Result::<RgbaImage, IconDecodeError>::Err(
                        IconDecodeError::IndexedUnsupported,
                    )
                } else {
                    match r {
                        Result::Ok(img) => img.rgba@ == spec_frame_rgba(f.0, f.3) && img.width
                            == f.1 && img.height == f.2,
                        Result::Err(_) => false,
                    }
                }
            },
        },
{
    let (buf, width, height, kind) = match decode_png_frame(png_data) {
        Some(f) => f,
        None => {
            return Err(IconDecodeError::Malformed);
        },
    };
    match frame_to_rgba(&buf, kind) {
        Ok(rgba) => Ok(RgbaImage { rgba, width, height }),
        Err(e) => Err(e),
    }
}

} // verus!
