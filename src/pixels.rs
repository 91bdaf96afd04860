//! Validation of a raw RGBA pixel buffer and extraction of its pixels.
use vstd::prelude::*;

verus! {

/// Bytes per pixel of the canonical RGBA layout: red, green, blue, alpha.
pub const RGBA_BYTES: usize = 4;

/// An image's raw pixels with the layout they claim.
pub struct PixelBuffer {
    pub width: usize,
    pub height: usize,
    /// Bytes from the start of one row to the start of the next.
    pub pitch: usize,
    pub bytes_per_pixel: usize,
    pub pixels: Vec<u8>,
}

/// One pixel: red, green, blue and alpha bytes.
#[derive(Clone, Copy, Debug, PartialEq, Eq, Structural)]
pub struct Rgba8 {
    pub red: u8,
    pub green: u8,
    pub blue: u8,
    pub alpha: u8,
}

/// Why a pixel buffer was refused.
#[derive(Clone, Copy, Debug, PartialEq, Eq, Structural)]
pub enum ExtractError {
    /// The pixels are not four bytes each.
    UnsupportedFormat { bytes_per_pixel: usize },
    /// The row pitch is not the width times four bytes.
    LayoutMismatch { expected: u128, actual: usize },
    /// There are no pixel bytes at all.
    EmptyBuffer,
    /// Fewer bytes than `pitch * height`.
    Truncated { expected: u128, actual: usize },
}

/// The pixel whose four bytes start at `4 * i`.
pub open spec fn pixel_at(bytes: Seq<u8>, i: int) -> Rgba8 {
    Rgba8 {
        red: bytes[4 * i],
        green: bytes[4 * i + 1],
        blue: bytes[4 * i + 2],
        alpha: bytes[4 * i + 3],
    }
}

/// The first `n` pixels of `bytes`, in order.
pub open spec fn pixels_of(bytes: Seq<u8>, n: nat) -> Seq<Rgba8> {
    Seq::new(n, |i: int| pixel_at(bytes, i))
}

/// What extracting `b` gives: the first error that applies, or every pixel of
/// the image in row-major order.
pub open spec fn extract_spec(b: PixelBuffer) -> Result<Seq<Rgba8>, ExtractError> {
    let len = b.pixels@.len();
    if b.bytes_per_pixel != RGBA_BYTES {
        Err(ExtractError::UnsupportedFormat { bytes_per_pixel: b.bytes_per_pixel })
    } else if b.pitch != b.width * 4 {
        Err(ExtractError::LayoutMismatch { expected: (b.width * 4) as u128, actual: b.pitch })
    } else if len == 0 {
        Err(ExtractError::EmptyBuffer)
    } else if len < b.pitch * b.height {
        Err(ExtractError::Truncated { expected: (b.pitch * b.height) as u128, actual: len as usize })
    } else {
        Ok(pixels_of(b.pixels@, (b.width * b.height) as nat))
    }
}

proof fn lemma_rows_fit(len: int, pitch: int, height: int)
    requires
        pitch > 0,
        height >= 0,
        len >= 0,
    ensures
        (height <= len / pitch) <==> (pitch * height <= len),
{
    assert((height <= len / pitch) <==> (pitch * height <= len)) by (nonlinear_arith)
        requires
            pitch > 0,
            height >= 0,
            len >= 0,
    {
        let q = len / pitch;
        assert(len == pitch * q + len % pitch);
        assert(0 <= len % pitch < pitch);
        if height <= q {
            assert(pitch * height <= pitch * q);
        } else {
            assert(pitch * height >= pitch * (q + 1));
        }
    }
}

proof fn lemma_product_fits_u128(a: int, b: int)
    requires
        0 <= a <= usize::MAX,
        0 <= b <= usize::MAX,
    ensures
        a * b <= u128::MAX,
{
    assert(a * b <= (usize::MAX as int) * (usize::MAX as int)) by (nonlinear_arith)
        requires
            0 <= a <= usize::MAX,
            0 <= b <= usize::MAX,
    ;
    assert((usize::MAX as int) * (usize::MAX as int) <= u128::MAX) by (nonlinear_arith);
}

impl PixelBuffer {
    /// Checks the layout of the buffer and reads its pixels.
    ///
    /// The buffer must be in the four-byte RGBA layout, its pitch must be the
    /// width times four, it must hold some bytes, and at least `pitch * height`
    /// of them. The pixels come out in row-major order from the top left, one
    /// for each of the `width * height` positions, each read from its four
    /// consecutive bytes.
    pub fn extract(&self) -> (r: Result<Vec<Rgba8>, ExtractError>)
        ensures
            match r {
                Ok(v) => extract_spec(*self) == Ok::<Seq<Rgba8>, ExtractError>(v@),
                Err(e) => extract_spec(*self) == Err::<Seq<Rgba8>, ExtractError>(e),
            },
    {
        if self.bytes_per_pixel != RGBA_BYTES {
            return Err(ExtractError::UnsupportedFormat { bytes_per_pixel: self.bytes_per_pixel });
        }
        let expected: u128 = self.width as u128 * 4;
        if expected != self.pitch as u128 {
            return Err(ExtractError::LayoutMismatch { expected, actual: self.pitch });
        }
        let len = self.pixels.len();
        if len == 0 {
            return Err(ExtractError::EmptyBuffer);
        }
        let pitch = self.pitch;
        let height = self.height;
        if pitch > 0 && height > len / pitch {
            proof {
                lemma_rows_fit(len as int, pitch as int, height as int);
                lemma_product_fits_u128(pitch as int, height as int);
            }
            return Err(
                ExtractError::Truncated {
                    expected: pitch as u128 * height as u128,
                    actual: len,
                },
            );
        }
        proof {
            if pitch > 0 {
                lemma_rows_fit(len as int, pitch as int, height as int);
            }
            assert(4 * (self.width * height) == pitch * height) by (nonlinear_arith)
                requires
                    pitch == self.width * 4,
            ;
        }
        let n: usize = self.width * height;
        let mut out: Vec<Rgba8> = Vec::with_capacity(n);
        let mut i: usize = 0;
        while i < n
            invariant
                n == self.width * self.height,
                4 * n <= len,
                len == self.pixels@.len(),
                i <= n,
                out@ == pixels_of(self.pixels@, i as nat),
            decreases n - i,
        {
            let base: usize = 4 * i;
            let px = Rgba8 {
                red: self.pixels[base],
                green: self.pixels[base + 1],
                blue: self.pixels[base + 2],
                alpha: self.pixels[base + 3],
            };
            out.push(px);
            i = i + 1;
            assert(out@ =~= pixels_of(self.pixels@, i as nat));
        }
        Ok(out)
    }
}

} // verus!
