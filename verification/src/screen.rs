use vstd::prelude::*;
use vstd::string::*;

use crate::error::Error;
use crate::playtools::{bgr_to_rgba, bgr_to_rgba_spec, Frame};
use crate::text::{nat_text, push_str, write_u64};

verus! {

broadcast use vstd::string::group_string_axioms;

/// Which coordinates a point is given in.
#[derive(Clone, Copy, PartialEq, Eq, Structural)]
pub enum CoordSpace {
    Screenshot,
    Device,
}

/// The coordinate space named by `s`: "screenshot" or "device".
pub fn parse_coord_space(s: &str) -> (r: Option<CoordSpace>)
    ensures
        s@ == "screenshot"@ ==> r == Some(CoordSpace::Screenshot),
        s@ != "screenshot"@ && s@ == "device"@ ==> r == Some(CoordSpace::Device),
        s@ != "screenshot"@ && s@ != "device"@ ==> r is None,
{
    if crate::text::str_eq(s, "screenshot") {
        Some(CoordSpace::Screenshot)
    } else if crate::text::str_eq(s, "device") {
        Some(CoordSpace::Device)
    } else {
        None
    }
}

/// The sizes of the device's input space and of the screenshots taken of it.
#[derive(Clone, Copy)]
pub struct Geometry {
    pub device: (u32, u32),
    pub screenshot: (u32, u32),
}

/// `n / d` rounded to the nearest integer, ties to the even one (`d > 0`).
pub open spec fn div_round_half_even(n: int, d: int) -> int
    recommends
        d > 0,
{
    let q = n / d;
    let r = n % d;
    if 2 * r < d {
        q
    } else if 2 * r > d {
        q + 1
    } else if q % 2 == 0 {
        q
    } else {
        q + 1
    }
}

/// One coordinate scaled from a space of size `from` to one of size `to`, rounded half
/// to even; a zero `from` gives `i32::MAX` for a positive numerator and 0 otherwise, and
/// results beyond `i32::MAX` are held at it.
pub open spec fn scale_coord(v: u32, to: u32, from: u32) -> i32 {
    if from == 0 {
        if v * to > 0 {
            i32::MAX
        } else {
            0
        }
    } else {
        let q = div_round_half_even(v * to, from as int);
        if q > i32::MAX {
            i32::MAX
        } else {
            q as i32
        }
    }
}

fn scale_coord_exec(v: u32, to: u32, from: u32) -> (r: i32)
    ensures
        r == scale_coord(v, to, from),
{
    proof {
        assert(v * to <= 0xffff_ffffu64 * 0xffff_ffffu64) by (nonlinear_arith)
            requires
                v <= 0xffff_ffffu64,
                to <= 0xffff_ffffu64,
        ;
    }
    let num: u64 = (v as u64) * (to as u64);
    if from == 0 {
        return if num > 0 {
            i32::MAX
        } else {
            0
        };
    }
    let d = from as u64;
    let q = num / d;
    let r = num % d;
    proof {
        assert(q <= num) by (nonlinear_arith)
            requires
                q == num / d,
                d >= 1,
        ;
    }
    let rounded: u64 = if 2 * r < d {
        q
    } else if 2 * r > d {
        q + 1
    } else if q % 2 == 0 {
        q
    } else {
        q + 1
    };
    if rounded > 2147483647 {
        i32::MAX
    } else {
        rounded as i32
    }
}

/// A whole coordinate as an `i32`, held at `i32::MAX` beyond it.
pub open spec fn clamp_i32(v: u32) -> i32 {
    if v > i32::MAX {
        i32::MAX
    } else {
        v as i32
    }
}

fn clamp_i32_exec(v: u32) -> (r: i32)
    ensures
        r == clamp_i32(v),
{
    if v > 2147483647 {
        i32::MAX
    } else {
        v as i32
    }
}

impl Geometry {
    /// A screenshot point in device coordinates, or a device point unchanged; whole
    /// numbers scaled exactly and rounded half to even.
    pub fn point_to_device(&self, x: u32, y: u32, space: CoordSpace) -> (r: (i32, i32))
        ensures
            r == match space {
                CoordSpace::Device => (clamp_i32(x), clamp_i32(y)),
                CoordSpace::Screenshot => (
                    scale_coord(x, self.device.0, self.screenshot.0),
                    scale_coord(y, self.device.1, self.screenshot.1),
                ),
            },
    {
        match space {
            CoordSpace::Device => (clamp_i32_exec(x), clamp_i32_exec(y)),
            CoordSpace::Screenshot => (
                scale_coord_exec(x, self.device.0, self.screenshot.0),
                scale_coord_exec(y, self.device.1, self.screenshot.1),
            ),
        }
    }

    /// A device point in screenshot coordinates, or a screenshot point unchanged; whole
    /// numbers scaled exactly and rounded half to even.
    pub fn point_to_screenshot(&self, x: u32, y: u32, space: CoordSpace) -> (r: (i32, i32))
        ensures
            r == match space {
                CoordSpace::Screenshot => (clamp_i32(x), clamp_i32(y)),
                CoordSpace::Device => (
                    scale_coord(x, self.screenshot.0, self.device.0),
                    scale_coord(y, self.screenshot.1, self.device.1),
                ),
            },
    {
        match space {
            CoordSpace::Screenshot => (clamp_i32_exec(x), clamp_i32_exec(y)),
            CoordSpace::Device => (
                scale_coord_exec(x, self.screenshot.0, self.device.0),
                scale_coord_exec(y, self.screenshot.1, self.device.1),
            ),
        }
    }
}

/// The image formats a capture can be returned in.
#[derive(Clone, Copy, PartialEq, Eq, Structural)]
pub enum ImageFormat {
    Png,
    Jpeg,
}

/// The format named by `s`: "png" or "jpeg".
pub fn parse_image_format(s: &str) -> (r: Option<ImageFormat>)
    ensures
        s@ == "png"@ ==> r == Some(ImageFormat::Png),
        s@ != "png"@ && s@ == "jpeg"@ ==> r == Some(ImageFormat::Jpeg),
        s@ != "png"@ && s@ != "jpeg"@ ==> r is None,
{
    if crate::text::str_eq(s, "png") {
        Some(ImageFormat::Png)
    } else if crate::text::str_eq(s, "jpeg") {
        Some(ImageFormat::Jpeg)
    } else {
        None
    }
}

/// The MIME type of a format.
pub open spec fn mime_text(f: ImageFormat) -> Seq<char> {
    match f {
        ImageFormat::Png => "image/png"@,
        ImageFormat::Jpeg => "image/jpeg"@,
    }
}

impl ImageFormat {
    /// The format's MIME type.
    pub fn mime(&self) -> (r: &'static str)
        ensures
            r@ == mime_text(*self),
    {
        match self {
            ImageFormat::Png => "image/png",
            ImageFormat::Jpeg => "image/jpeg",
        }
    }
}

/// An encoded image with its MIME type and size.
pub struct Encoded {
    pub bytes: Vec<u8>,
    pub mime: String,
    pub width: u32,
    pub height: u32,
}

/// What the `image` crate's PNG encoder writes for an RGBA image of this size.
pub uninterp spec fn png_rgba(width: u32, height: u32, rgba: Seq<u8>) -> Seq<u8>;

/// `PngEncoder::write_image` into a byte vector, as 8-bit RGBA. The bytes written are
/// named `png_rgba`. A zero width or height is refused (the `png` crate's header check);
/// any other size, with a buffer of the matching length, is written (a `Vec` takes every
/// write). The error's text is not stated.
#[verifier::external_body]
fn encode_png_rgba(width: u32, height: u32, rgba: &[u8]) -> (r: Result<Vec<u8>, String>)
    requires
        rgba@.len() == width * height * 4,
    ensures
        r matches Ok(b) ==> b@ == png_rgba(width, height, rgba@),
        width == 0 || height == 0 ==> r is Err,
        width > 0 && height > 0 ==> r is Ok,
{
    let mut out = Vec::new();
    let encoder = image::codecs::png::PngEncoder::new(&mut out);
    match image::ImageEncoder::write_image(encoder, rgba, width, height, image::ExtendedColorType::Rgba8) {
        Ok(()) => Ok(out),
        Err(e) => Err(e.to_string()),
    }
}

/// The width and height the `image` crate reads from an encoded image's header, when it
/// recognises the format and can read them.
pub uninterp spec fn image_dims(bytes: Seq<u8>) -> Option<(u32, u32)>;

/// `ImageReader::with_guessed_format` then `into_dimensions` on the bytes: the size is
/// named `image_dims`; the error's text is not stated.
#[verifier::external_body]
fn read_image_dims(bytes: &[u8]) -> (r: Result<(u32, u32), String>)
    ensures
        match r {
            Ok(d) => image_dims(bytes@) == Some(d),
            Err(_) => image_dims(bytes@) is None,
        },
{
    match image::ImageReader::new(std::io::Cursor::new(bytes)).with_guessed_format() {
        Ok(reader) => match reader.into_dimensions() {
            Ok(d) => Ok(d),
            Err(e) => Err(e.to_string()),
        },
        Err(e) => Err(e.to_string()),
    }
}

/// The width and height of an encoded image; see `image_dims`.
pub fn png_dimensions(png: &[u8]) -> (r: Result<(u32, u32), Error>)
    ensures
        match r {
            Ok(d) => image_dims(png@) == Some(d),
            Err(e) => image_dims(png@) is None && e is Image,
        },
{
    match read_image_dims(png) {
        Ok(d) => Ok(d),
        Err(e) => {
            let mut m = String::from_str("could not read dimensions: ");
            m.append(e.as_str());
            Err(Error::Image(m))
        },
    }
}

/// A PNG returned as it is, at its own size: what encoding at scale 1 as PNG gives. An
/// image whose size cannot be read is refused.
pub fn encode_png_passthrough(png: &[u8]) -> (r: Result<Encoded, Error>)
    ensures
        match r {
            Ok(e) => image_dims(png@) == Some((e.width, e.height)) && e.bytes@ == png@ && e.mime@
                == "image/png"@,
            Err(e) => image_dims(png@) is None && e is Image,
        },
{
    match png_dimensions(png) {
        Ok(d) => {
            let mut bytes: Vec<u8> = Vec::new();
            let mut i: usize = 0;
            while i < png.len()
                invariant
                    i <= png@.len(),
                    bytes@ == png@.subrange(0, i as int),
                decreases png.len() - i,
            {
                bytes.push(png[i]);
                i = i + 1;
            }
            proof {
                assert(png@.subrange(0, png@.len() as int) =~= png@);
            }
            Ok(Encoded { bytes, mime: String::from_str("image/png"), width: d.0, height: d.1 })
        },
        Err(e) => Err(e),
    }
}

/// The message for a frame whose pixels do not fill its size.
pub open spec fn frame_size_text(width: u32, height: u32, len: nat) -> Seq<char> {
    "frame dimensions "@ + nat_text(width as nat) + "x"@ + nat_text(height as nat)
        + " do not match "@ + nat_text(len) + " bytes"@
}

impl Frame {
    /// The frame as a PNG: its whole pixels turned to opaque RGBA and encoded. A frame
    /// with fewer pixels than its size says, or with no pixels at all, is refused.
    pub fn to_png(&self) -> (r: Result<Vec<u8>, Error>)
        requires
            self.width * self.height * 4 <= u32::MAX,
            self.bgr@.len() / 3 <= self.width * self.height,
        ensures
            (self.width * self.height == self.bgr@.len() / 3) || (r matches Err(Error::Image(m))
                && m@ == frame_size_text(self.width, self.height, self.bgr@.len())),
            r is Ok <==> (self.width * self.height == self.bgr@.len() / 3 && self.width > 0
                && self.height > 0),
            r matches Ok(b) ==> b@ == png_rgba(
                self.width,
                self.height,
                bgr_to_rgba_spec(self.bgr@),
            ),
            r is Err ==> r matches Err(Error::Image(_)),
    {
        let rgba = bgr_to_rgba(self.bgr.as_slice());
        let need: u64 = (self.width as u64) * (self.height as u64) * 4;
        if (rgba.len() as u64) < need {
            let mut m = String::from_str("frame dimensions ");
            write_u64(&mut m, self.width as u64);
            push_str(&mut m, "x");
            write_u64(&mut m, self.height as u64);
            push_str(&mut m, " do not match ");
            write_u64(&mut m, self.bgr.len() as u64);
            push_str(&mut m, " bytes");
            return Err(Error::Image(m));
        }
        proof {
            assert(rgba@.len() == (self.bgr@.len() / 3) * 4);
        }
        match encode_png_rgba(self.width, self.height, rgba.as_slice()) {
            Ok(b) => Ok(b),
            Err(e) => {
                let mut m = String::from_str("PNG encode failed: ");
                m.append(e.as_str());
                Err(Error::Image(m))
            },
        }
    }
}

} // verus!
