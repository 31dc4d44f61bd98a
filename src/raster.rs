use vstd::prelude::*;

verus! {

/// What decoding an encoded image yields: width, height and the RGB samples,
/// three per pixel in row-major order; `None` when the bytes are not an image.
pub uninterp spec fn decoded_rgb(bytes: Seq<u8>) -> Option<(u32, u32, Seq<u8>)>;

#[verifier::external_type_specification]
#[verifier::external_body]
pub struct ExImageError(image::ImageError);

/// Relies on `image::load_from_memory`, then `DynamicImage::to_rgb8` and
/// `ImageBuffer::into_raw`: the decoded picture as 8-bit RGB samples, whose
/// buffer holds exactly three samples for each of `width * height` pixels.
#[verifier::external_body]
fn load_rgb(bytes: &[u8]) -> (r: Result<(u32, u32, Vec<u8>), image::ImageError>)
    ensures
        match r {
            Ok((w, h, data)) => decoded_rgb(bytes@) == Some((w, h, data@)) && data@.len() == 3
                * w * h,
            Err(_) => decoded_rgb(bytes@) is None,
        },
{
    let rgb = image::load_from_memory(bytes)?.to_rgb8();
    Ok((rgb.width(), rgb.height(), rgb.into_raw()))
}

/// Why a single frame could not be shown.
#[derive(Debug, Clone, Copy, PartialEq, Eq, Structural)]
pub enum FrameError {
    /// The frame's bytes are not a decodable raster image.
    Decode,
}

/// A decoded image: `width * height` pixels, each three samples (red, green,
/// blue) in `rgb`, rows top to bottom.
#[derive(Debug)]
pub struct RasterFrame {
    pub width: u32,
    pub height: u32,
    pub rgb: Vec<u8>,
}

impl RasterFrame {
    pub open spec fn wf(&self) -> bool {
        self.rgb@.len() == 3 * self.width * self.height
    }

    /// A frame over the given samples, or `None` when there are not exactly
    /// three samples per pixel.
    pub fn from_rgb(width: u32, height: u32, rgb: Vec<u8>) -> (r: Option<RasterFrame>)
        ensures
            r is Some <==> rgb@.len() == 3 * width * height,
            r matches Some(f) ==> f.width == width && f.height == height && f.rgb@ == rgb@,
    {
        assert((width as int) * (height as int) <= 0xffff_ffff * 0xffff_ffff) by (nonlinear_arith)
            requires
                width <= 0xffff_ffff,
                height <= 0xffff_ffff,
        ;
        let wh: u128 = (width as u128) * (height as u128);
        let n: u128 = 3 * wh;
        assert(n == 3 * width * height) by (nonlinear_arith)
            requires
                n == 3 * wh,
                wh == width * height,
        ;
        if rgb.len() as u128 == n {
            Some(RasterFrame { width, height, rgb })
        } else {
            None
        }
    }

    /// Decodes an encoded image (PNG and the other formats the decoder knows).
    pub fn decode(bytes: &[u8]) -> (r: Result<RasterFrame, FrameError>)
        ensures
            r is Ok <==> decoded_rgb(bytes@) is Some,
            r matches Ok(f) ==> f.wf() && decoded_rgb(bytes@) == Some((f.width, f.height, f.rgb@)),
            r matches Err(e) ==> e == FrameError::Decode,
    {
        match load_rgb(bytes) {
            Ok((width, height, rgb)) => Ok(RasterFrame { width, height, rgb }),
            Err(_) => Err(FrameError::Decode),
        }
    }
}

} // verus!
