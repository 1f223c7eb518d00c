//! Rendering without a window: the image that comes out.
//!
//! A rendered sheet is an RGBA8 image, rows from top to bottom, four bytes
//! per pixel. It can be read pixel by pixel and encoded as PNG. Drawing it
//! needs a GPU and is done by the renderer; writing the PNG to a file is
//! done by the platform code.

use vstd::prelude::*;

use image::ImageEncoder;

verus! {

#[verifier::external_type_specification]
#[verifier::external_body]
pub struct ExImageError(image::ImageError);

#[verifier::external_type_specification]
#[verifier::external_body]
pub struct ExIoError(std::io::Error);

/// The PNG file that the `image` crate's PNG encoder produces for an RGBA8
/// image of `width` × `height` with these bytes (`None` when it refuses
/// it). Compression is deterministic, so this depends on the arguments
/// alone.
pub uninterp spec fn png_encoding(width: u32, height: u32, rgba: Seq<u8>) -> Option<Seq<u8>>;

/// Encodes an RGBA8 image as PNG with the `image` crate
/// (`PngEncoder::write_image`). The result is exactly [`png_encoding`] of
/// the arguments. The encoder panics unless the buffer holds exactly
/// `width * height * 4` bytes, hence the precondition.
#[verifier::external_body]
fn encode_png(width: u32, height: u32, rgba: &[u8]) -> (r: Result<Vec<u8>, image::ImageError>)
    requires
        rgba@.len() == 4 * width * height,
    ensures
        match r {
            Ok(b) => png_encoding(width, height, rgba@) == Some(b@),
            Err(_) => png_encoding(width, height, rgba@) is None,
        },
{
    let mut out: Vec<u8> = Vec::new();
    let res = image::codecs::png::PngEncoder::new(&mut out).write_image(
        rgba,
        width,
        height,
        image::ExtendedColorType::Rgba8,
    );
    res.map(|()| out)
}

/// The text of an I/O error (its `Display`).
#[verifier::external_body]
fn io_error_text(e: &std::io::Error) -> String {
    format!("{e}")
}

/// Why rendering or writing an image failed.
#[derive(Debug)]
pub enum RenderError {
    /// No GPU could be had (CI containers, remote terminals). Reported
    /// rather than producing a blank sheet.
    NoGpu,
    /// Reading the rendered image back failed.
    Readback,
    /// Encoding as PNG failed.
    Encode,
    /// Writing the file failed.
    Io(std::io::Error),
}

impl RenderError {
    /// The message for the user. For a failed write it is a fixed prefix
    /// followed by the I/O error's own text (which the platform words).
    pub fn message(&self) -> (m: String)
        ensures
            self is NoGpu ==> m@ == "GPU が取れないので画面外に描けない"@,
            self is Readback ==> m@ == "描いた結果を読み戻せなかった"@,
            self is Encode ==> m@ == "PNG に符号化できなかった"@,
            self is Io ==> m@.len() >= "書き出しに失敗した: "@.len() && m@.subrange(
                0,
                "書き出しに失敗した: "@.len() as int,
            ) == "書き出しに失敗した: "@,
    {
        match self {
            RenderError::NoGpu => "GPU が取れないので画面外に描けない".to_owned(),
            RenderError::Readback => "描いた結果を読み戻せなかった".to_owned(),
            RenderError::Encode => "PNG に符号化できなかった".to_owned(),
            RenderError::Io(e) => {
                let mut m = "書き出しに失敗した: ".to_owned();
                let ghost prefix = m@;
                let t = io_error_text(e);
                m.append(t.as_str());
                assert(m@.subrange(0, prefix.len() as int) =~= prefix);
                m
            },
        }
    }
}

/// A rendered image: RGBA8, rows top to bottom.
#[derive(Clone, Debug)]
pub struct Rendered {
    pub width: u32,
    pub height: u32,
    /// `width * height * 4` bytes.
    pub rgba: Vec<u8>,
}

/// The buffer holds every pixel of the image.
pub open spec fn holds_pixels(r: Rendered) -> bool {
    r.rgba@.len() >= 4 * r.width * r.height
}

/// Byte offset of pixel `(x, y)`.
pub open spec fn pixel_offset(width: u32, x: u32, y: u32) -> int {
    (y * width + x) * 4
}

impl Rendered {
    /// The pixel at `(x, y)`, or `None` outside the image.
    pub fn pixel(&self, x: u32, y: u32) -> (p: Option<[u8; 4]>)
        requires
            holds_pixels(*self),
        ensures
            (x >= self.width || y >= self.height) ==> p is None,
            (x < self.width && y < self.height) ==> ({
                let i = pixel_offset(self.width, x, y);
                p == Some(
                    [self.rgba@[i], self.rgba@[i + 1], self.rgba@[i + 2], self.rgba@[i + 3]],
                )
            }),
    {
        if x >= self.width || y >= self.height {
            return None;
        }
        let w = self.width as usize;
        let len = self.rgba.len();
        proof {
            assert((y + 1) * self.width <= self.height * self.width) by (nonlinear_arith)
                requires
                    y < self.height,
            ;
            assert(4 * self.width * self.height == 4 * (self.height * self.width)) by (nonlinear_arith);
            assert(y * self.width + x < self.height * self.width) by (nonlinear_arith)
                requires
                    x < self.width,
                    (y + 1) * self.width <= self.height * self.width,
            ;
            assert(self.rgba@.len() == len);
            assert((y * self.width + x) * 4 + 3 < 4 * (self.height * self.width)) by (nonlinear_arith)
                requires
                    y * self.width + x < self.height * self.width,
            ;
            assert(y * self.width <= y * self.width + x);
        }
        let row = (y as usize) * w;
        let i = (row + x as usize) * 4;
        Some([self.rgba[i], self.rgba[i + 1], self.rgba[i + 2], self.rgba[i + 3]])
    }

    /// Encodes the image as PNG. Fails with [`RenderError::Encode`] when the
    /// buffer is shorter than `width * height * 4` bytes (or that size does
    /// not fit in memory) or when the encoder refuses the image; extra bytes
    /// past the image are ignored.
    pub fn to_png(&self) -> (r: Result<Vec<u8>, RenderError>)
        ensures
            ({
                let n = 4 * self.width * self.height;
                let fits = n <= usize::MAX && n <= self.rgba@.len();
                match r {
                    Ok(b) => fits && png_encoding(
                        self.width,
                        self.height,
                        self.rgba@.subrange(0, n),
                    ) == Some(b@),
                    Err(e) => e is Encode && (!fits || png_encoding(
                        self.width,
                        self.height,
                        self.rgba@.subrange(0, n),
                    ) is None),
                }
            }),
    {
        let w = self.width as u64;
        let h = self.height as u64;
        assert(w * h <= 0xFFFF_FFFE_0000_0001) by (nonlinear_arith)
            requires
                w <= 0xFFFF_FFFF,
                h <= 0xFFFF_FFFF,
        ;
        assert(4 * self.width * self.height == 4 * (w * h)) by (nonlinear_arith)
            requires
                w == self.width,
                h == self.height,
        ;
        let wh = w * h;
        if wh > (usize::MAX / 4) as u64 {
            return Err(RenderError::Encode);
        }
        let n = (4 * wh) as usize;
        if n > self.rgba.len() {
            return Err(RenderError::Encode);
        }
        let mut prefix: Vec<u8> = Vec::new();
        let mut i: usize = 0;
        while i < n
            invariant
                i <= n,
                n <= self.rgba@.len(),
                prefix@ == self.rgba@.subrange(0, i as int),
            decreases n - i,
        {
            prefix.push(self.rgba[i]);
            assert(prefix@ =~= self.rgba@.subrange(0, (i + 1) as int));
            i += 1;
        }
        match encode_png(self.width, self.height, prefix.as_slice()) {
            Ok(bytes) => Ok(bytes),
            Err(_) => Err(RenderError::Encode),
        }
    }
}

} // verus!
