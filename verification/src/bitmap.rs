//! Raster bitmaps of the template preview renderer.
//!
//! The template's first page is rasterized through a native PDF
//! library for the on-screen preview. The raster side of that
//! interface is modeled here: pixel formats, error codes, and bitmap
//! creation with the validation the native calls perform. A bitmap owns its byte buffer;
//! rows are `stride` bytes apart and a row holds `width` pixels of
//! `bytes_per_pixel` bytes each.

use vstd::prelude::*;

verus! {

/// Error codes of the native rasterizer.
#[derive(Clone, Copy, Debug, PartialEq, Eq, Structural)]
pub enum PdfiumError {
    /// Unknown error.
    Unknown,
    /// File not found or could not be opened.
    BadFile,
    /// File not in the expected format, or corrupted.
    BadFormat,
    /// Password required or incorrect password.
    BadPassword,
    /// Unsupported security scheme.
    UnsupportedSecurityScheme,
    /// Page not found or content error.
    BadPage,
}

/// The error a native error code stands for: 0 reports success, 1
/// through 6 name the known failures, and any other code counts as
/// unknown.
pub open spec fn spec_error_for_code(code: u32) -> Option<PdfiumError> {
    if code == 0 {
        None
    } else if code == 1 {
        Some(PdfiumError::Unknown)
    } else if code == 2 {
        Some(PdfiumError::BadFile)
    } else if code == 3 {
        Some(PdfiumError::BadFormat)
    } else if code == 4 {
        Some(PdfiumError::BadPassword)
    } else if code == 5 {
        Some(PdfiumError::UnsupportedSecurityScheme)
    } else if code == 6 {
        Some(PdfiumError::BadPage)
    } else {
        Some(PdfiumError::Unknown)
    }
}

impl PdfiumError {
    /// Decodes a native error code; `None` reports success.
    pub fn from_code(code: u32) -> (err: Option<PdfiumError>)
        ensures
            err == spec_error_for_code(code),
    {
        match code {
            0 => None,
            1 => Some(PdfiumError::Unknown),
            2 => Some(PdfiumError::BadFile),
            3 => Some(PdfiumError::BadFormat),
            4 => Some(PdfiumError::BadPassword),
            5 => Some(PdfiumError::UnsupportedSecurityScheme),
            6 => Some(PdfiumError::BadPage),
            _ => Some(PdfiumError::Unknown),
        }
    }
}

/// The format of pixels in a bitmap.
#[derive(Clone, Copy, Debug, PartialEq, Eq, Structural)]
pub enum BitmapFormat {
    /// Gray scale bitmap, one byte per pixel.
    GreyScale,
    /// 3 bytes per pixel, byte order: blue, green, red.
    BGR,
    /// 4 bytes per pixel, byte order: blue, green, red, unused.
    BGRx,
    /// 4 bytes per pixel, byte order: blue, green, red, alpha.
    BGRA,
}

impl BitmapFormat {
    /// How many bytes one pixel of this format occupies.
    pub open spec fn spec_bytes_per_pixel(self) -> int {
        match self {
            BitmapFormat::GreyScale => 1,
            BitmapFormat::BGR => 3,
            BitmapFormat::BGRx => 4,
            BitmapFormat::BGRA => 4,
        }
    }

    /// The native code of this format.
    pub open spec fn spec_code(self) -> i32 {
        match self {
            BitmapFormat::GreyScale => 1,
            BitmapFormat::BGR => 2,
            BitmapFormat::BGRx => 3,
            BitmapFormat::BGRA => 4,
        }
    }

    /// How many bytes one pixel of this format occupies.
    pub fn bytes_per_pixel(&self) -> (n: usize)
        ensures
            n as int == self.spec_bytes_per_pixel(),
    {
        match *self {
            BitmapFormat::GreyScale => 1,
            BitmapFormat::BGR => 3,
            BitmapFormat::BGRx => 4,
            BitmapFormat::BGRA => 4,
        }
    }

    /// Decodes a native format code.
    pub fn from_i32(number: i32) -> (format: Option<BitmapFormat>)
        ensures
            match format {
                Some(f) => f.spec_code() == number,
                None => number != 1 && number != 2 && number != 3 && number != 4,
            },
    {
        match number {
            1 => Some(BitmapFormat::GreyScale),
            2 => Some(BitmapFormat::BGR),
            3 => Some(BitmapFormat::BGRx),
            4 => Some(BitmapFormat::BGRA),
            _ => None,
        }
    }
}

/// Orientation to render a page in.
#[derive(Clone, Copy, Debug, PartialEq, Eq, Structural)]
pub enum PageOrientation {
    /// Normal.
    Normal,
    /// Rotated 90 degrees clockwise.
    Clockwise,
    /// Rotated 180 degrees.
    Flip,
    /// Rotated 90 degrees counter-clockwise.
    CounterClockwise,
}

impl PageOrientation {
    /// The native code of this orientation.
    pub fn code(&self) -> (n: i32)
        ensures
            n == match *self {
                PageOrientation::Normal => 0i32,
                PageOrientation::Clockwise => 1i32,
                PageOrientation::Flip => 2i32,
                PageOrientation::CounterClockwise => 3i32,
            },
    {
        match *self {
            PageOrientation::Normal => 0,
            PageOrientation::Clockwise => 1,
            PageOrientation::Flip => 2,
            PageOrientation::CounterClockwise => 3,
        }
    }
}

/// A raster buffer with its layout: rows are `stride` bytes apart, each
/// holding `width` pixels of the format's size; the buffer covers every
/// row and may be longer (a caller-provided buffer keeps its length).
#[derive(Debug)]
pub struct BitmapHandle {
    /// Width in pixels, at least 1.
    pub width: usize,
    /// Height in pixels (number of rows), at least 1.
    pub height: usize,
    /// The pixel format.
    pub format: BitmapFormat,
    /// Distance in bytes between the starts of consecutive rows.
    pub stride: usize,
    /// The raster bytes.
    pub data: Vec<u8>,
}

impl BitmapHandle {
    /// The layout invariant every created bitmap satisfies.
    pub open spec fn wf(&self) -> bool {
        &&& self.width >= 1
        &&& self.height >= 1
        &&& self.stride >= self.width * self.format.spec_bytes_per_pixel()
        &&& self.data@.len() >= self.stride * self.height
    }
}

/// Why creating a bitmap over a caller-provided buffer fails: a buffer
/// too short for the rows, a row shorter than its pixels, or dimensions
/// the native library refuses; `None` when creation succeeds.
pub open spec fn buffer_create_error(
    width: int,
    height: int,
    bytes_per_pixel: int,
    stride: int,
    buffer_len: int,
) -> Option<PdfiumError> {
    if buffer_len < height * stride {
        Some(PdfiumError::BadFormat)
    } else if stride < width * bytes_per_pixel {
        Some(PdfiumError::BadFormat)
    } else if width == 0 || height == 0 {
        Some(PdfiumError::Unknown)
    } else {
        None
    }
}

/// Why creating a self-allocated bitmap fails: zero dimensions, or a
/// raster too large to address; `None` when creation succeeds.
pub open spec fn alloc_create_error(
    width: int,
    height: int,
    bytes_per_pixel: int,
    max_len: int,
) -> Option<PdfiumError> {
    if width == 0 || height == 0 {
        Some(PdfiumError::Unknown)
    } else if width * bytes_per_pixel > max_len || width * bytes_per_pixel * height > max_len {
        Some(PdfiumError::Unknown)
    } else {
        None
    }
}

/// A handle to the rasterizer. At most one exists per process:
/// initialization is guarded by a process-wide flag, whose state the
/// caller reports to the constructor.
pub struct Library {
    initialized: bool,
}

impl Library {
    /// Initializes the rasterizer, unless one is already initialized in
    /// this process.
    pub fn init_library(already_initialized: bool) -> (library: Option<Library>)
        ensures
            library is Some <==> !already_initialized,
    {
        if already_initialized {
            None
        } else {
            Some(Library { initialized: true })
        }
    }

    /// The pending error. This model performs no native calls that
    /// record an error code, so the unknown error stands for every
    /// failure, as it does natively when no code was recorded.
    pub fn last_error(&self) -> (err: PdfiumError)
        ensures
            err == PdfiumError::Unknown,
    {
        PdfiumError::Unknown
    }

    /// Creates a bitmap with its own zeroed buffer, packed rows, and the
    /// given dimensions; refuses zero or unaddressably large dimensions.
    pub fn create_bitmap(&self, width: usize, height: usize, format: BitmapFormat) -> (created:
        Result<BitmapHandle, PdfiumError>)
        ensures
            match alloc_create_error(
                width as int,
                height as int,
                format.spec_bytes_per_pixel(),
                usize::MAX as int,
            ) {
                Some(failure) => created == Err::<BitmapHandle, PdfiumError>(failure),
                None => created matches Ok(b) && b.wf() && b.width == width && b.height == height
                    && b.format == format && b.stride as int == width as int
                    * format.spec_bytes_per_pixel() && b.data@.len() == b.stride * height && forall|
                    j: int,
                |
                    0 <= j < b.data@.len() ==> b.data@[j] == 0,
            },
    {
        if width == 0 || height == 0 {
            return Err(PdfiumError::Unknown);
        }
        let stride = match width.checked_mul(format.bytes_per_pixel()) {
            Some(stride) => stride,
            None => {
                return Err(PdfiumError::Unknown);
            },
        };
        let total = match stride.checked_mul(height) {
            Some(total) => total,
            None => {
                proof {
                    assert(width as int * format.spec_bytes_per_pixel() * height as int
                        == stride as int * height as int) by (nonlinear_arith)
                        requires
                            stride as int == width as int * format.spec_bytes_per_pixel(),
                    ;
                }
                return Err(PdfiumError::Unknown);
            },
        };
        proof {
            assert(width as int * format.spec_bytes_per_pixel() * height as int == stride as int
                * height as int) by (nonlinear_arith)
                requires
                    stride as int == width as int * format.spec_bytes_per_pixel(),
            ;
        }
        let mut data: Vec<u8> = Vec::new();
        let mut k: usize = 0;
        while k < total
            invariant
                k <= total,
                data@.len() == k,
                forall|j: int| 0 <= j < k ==> data@[j] == 0,
            decreases total - k,
        {
            data.push(0);
            k = k + 1;
        }
        Ok(BitmapHandle { width, height, format, stride, data })
    }

    /// Creates a bitmap over a caller-provided buffer with the given row
    /// stride; the buffer must cover every row and the stride must cover
    /// a row of pixels.
    pub fn create_bitmap_from_buffer(
        &self,
        width: usize,
        height: usize,
        format: BitmapFormat,
        buffer: Vec<u8>,
        height_stride: usize,
    ) -> (created: Result<BitmapHandle, PdfiumError>)
        ensures
            match buffer_create_error(
                width as int,
                height as int,
                format.spec_bytes_per_pixel(),
                height_stride as int,
                buffer@.len() as int,
            ) {
                Some(failure) => created == Err::<BitmapHandle, PdfiumError>(failure),
                None => created matches Ok(b) && b.wf() && b.width == width && b.height == height
                    && b.format == format && b.stride == height_stride && b.data == buffer,
            },
    {
        let available = buffer.len();
        let needed = match height.checked_mul(height_stride) {
            Some(needed) => needed,
            None => {
                proof {
                    assert(available < height as int * height_stride as int);
                }
                return Err(PdfiumError::BadFormat);
            },
        };
        if available < needed {
            return Err(PdfiumError::BadFormat);
        }
        let line = match width.checked_mul(format.bytes_per_pixel()) {
            Some(line) => line,
            None => {
                return Err(PdfiumError::BadFormat);
            },
        };
        if height_stride < line {
            return Err(PdfiumError::BadFormat);
        }
        if width == 0 || height == 0 {
            return Err(PdfiumError::Unknown);
        }
        let handle = BitmapHandle { width, height, format, stride: height_stride, data: buffer };
        proof {
            assert(height_stride as int * height as int == height as int * height_stride as int)
                by (nonlinear_arith);
            assert(buffer_create_error(
                width as int,
                height as int,
                format.spec_bytes_per_pixel(),
                height_stride as int,
                handle.data@.len() as int,
            ) is None);
            assert(handle.wf());
        }
        Ok(handle)
    }

    /// Reorders four-byte blue-green-red-alpha pixels into
    /// red-green-blue-alpha, as the preview renderer does before handing
    /// a rendered page to the display; trailing bytes short of a whole
    /// pixel are dropped.
    pub fn bgra_to_rgba(&self, bgra: &Vec<u8>) -> (rgba: Vec<u8>)
        ensures
            rgba@.len() == 4 * (bgra@.len() / 4),
            forall|k: int|
                0 <= k && 4 * k + 3 < bgra@.len() ==> {
                    &&& #[trigger] rgba@[4 * k] == bgra@[4 * k + 2]
                    &&& rgba@[4 * k + 1] == bgra@[4 * k + 1]
                    &&& rgba@[4 * k + 2] == bgra@[4 * k]
                    &&& rgba@[4 * k + 3] == bgra@[4 * k + 3]
                },
    {
        let mut rgba: Vec<u8> = Vec::new();
        let len = bgra.len();
        let pixels = len / 4;
        let mut k: usize = 0;
        while k < pixels
            invariant
                k <= pixels,
                pixels == bgra@.len() / 4,
                len == bgra@.len(),
                rgba@.len() == 4 * k,
                forall|j: int|
                    0 <= j < k ==> {
                        &&& #[trigger] rgba@[4 * j] == bgra@[4 * j + 2]
                        &&& rgba@[4 * j + 1] == bgra@[4 * j + 1]
                        &&& rgba@[4 * j + 2] == bgra@[4 * j]
                        &&& rgba@[4 * j + 3] == bgra@[4 * j + 3]
                    },
            decreases pixels - k,
        {
            let ghost before = rgba@;
            rgba.push(bgra[4 * k + 2]);
            rgba.push(bgra[4 * k + 1]);
            rgba.push(bgra[4 * k]);
            rgba.push(bgra[4 * k + 3]);
            proof {
                assert forall|j: int| 0 <= j < k + 1 implies {
                    &&& #[trigger] rgba@[4 * j] == bgra@[4 * j + 2]
                    &&& rgba@[4 * j + 1] == bgra@[4 * j + 1]
                    &&& rgba@[4 * j + 2] == bgra@[4 * j]
                    &&& rgba@[4 * j + 3] == bgra@[4 * j + 3]
                } by {
                    if j < k {
                        assert(rgba@[4 * j] == before[4 * j]);
                        assert(rgba@[4 * j + 1] == before[4 * j + 1]);
                        assert(rgba@[4 * j + 2] == before[4 * j + 2]);
                        assert(rgba@[4 * j + 3] == before[4 * j + 3]);
                    }
                }
            }
            k = k + 1;
        }
        proof {
            assert(bgra@.len() < 4 * pixels + 4) by (nonlinear_arith)
                requires
                    pixels == bgra@.len() / 4,
                    bgra@.len() >= 0,
            ;
        }
        rgba
    }

    /// The number of addressable raster bytes: full rows for all but the
    /// last row, which counts only its pixels.
    pub fn get_bitmap_buffer_length(&self, bitmap: &BitmapHandle) -> (length: usize)
        requires
            bitmap.wf(),
        ensures
            length as int == bitmap.stride as int * bitmap.height as int - (bitmap.stride as int
                - bitmap.width as int * bitmap.format.spec_bytes_per_pixel()),
    {
        let stride = bitmap.stride;
        let available = bitmap.data.len();
        let line_width = bitmap.width * bitmap.format.bytes_per_pixel();
        proof {
            assert(bitmap.stride as int * bitmap.height as int <= available);
            assert(bitmap.stride as int * 1 <= bitmap.stride as int * bitmap.height as int)
                by (nonlinear_arith)
                requires
                    bitmap.height >= 1,
                    bitmap.stride >= 0,
            ;
        }
        stride * bitmap.height - (stride - line_width)
    }
}

} // verus!
