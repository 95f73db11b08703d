use vstd::prelude::*;
use crate::geometry::{CapturedFrame, WindowRect, WindowSnapshot};

verus! {

/// What the detection loop does after a capture backend reported an error.
#[derive(Clone, Copy, Debug, PartialEq, Eq, Structural)]
pub enum CaptureErrorAction {
    /// Skip this frame and try again on the next tick.
    Retry,
    /// Drop the connection and reconnect.
    Reconnect,
    /// Capturing cannot work; stop.
    Stop,
}

/// Byte layout of a captured 32-bit image.
#[derive(Clone, Copy, Debug, PartialEq, Eq, Structural)]
pub struct PixelLayout {
    /// Bytes from the start of one source row to the next.
    pub stride: usize,
    /// Bytes of the padded source image.
    pub size: usize,
    /// Bytes of the packed BGRA frame.
    pub frame_len: usize,
}

/// The layout of a `width` x `height` image with 32 bits per pixel and rows padded
/// to `scanline_pad` bits, when the server reports a supported format: rows of
/// exactly `4 * width` bytes (32-bit pixels never need padding), provided that the
/// row size in bits fits in `u32` and the image size in bytes fits in `usize`.
pub open spec fn spec_calculate_layout(width: u32, height: u32, bits_per_pixel: u8, scanline_pad: u8) -> Option<PixelLayout> {
    if width == 0 || height == 0 || bits_per_pixel != 32
        || !(scanline_pad == 8 || scanline_pad == 16 || scanline_pad == 32)
        || width * 32 > u32::MAX || width * 4 * height > usize::MAX {
        None
    } else {
        Some(PixelLayout {
            stride: (width * 4) as usize,
            size: (width * 4 * height) as usize,
            frame_len: (width * 4 * height) as usize,
        })
    }
}

/// Computes the image layout, with every step checked for overflow.
pub fn calculate_layout(width: u32, height: u32, bits_per_pixel: u8, scanline_pad: u8) -> (res: Option<PixelLayout>)
    ensures
        res == spec_calculate_layout(width, height, bits_per_pixel, scanline_pad),
{
    if width == 0 || height == 0 || bits_per_pixel != 32
        || !(scanline_pad == 8 || scanline_pad == 16 || scanline_pad == 32) {
        return None;
    }
    let pad: u32 = scanline_pad as u32;
    let row_bits = match width.checked_mul(bits_per_pixel as u32) {
        Some(v) => v,
        None => return None,
    };
    let padded = match row_bits.checked_add(pad - 1) {
        Some(v) => v,
        None => return None,
    };
    proof {
        assert(row_bits == width * 32);
        assert((width * 32) % (pad as int) == 0) by (nonlinear_arith)
            requires pad == 8 || pad == 16 || pad == 32;
        assert(padded / pad == row_bits / pad) by (nonlinear_arith)
            requires padded == row_bits + pad - 1, row_bits % pad == 0, pad > 0, row_bits >= 0;
        assert((row_bits / pad) * pad == row_bits) by (nonlinear_arith)
            requires row_bits % pad == 0, pad > 0;
    }
    let stride_bits = (padded / pad) * pad;
    let stride: usize = (stride_bits / 8) as usize;
    let row: usize = match (width as usize).checked_mul(4) {
        Some(v) => v,
        None => return None,
    };
    if stride < row {
        return None;
    }
    let h: usize = height as usize;
    let size = match stride.checked_mul(h) {
        Some(v) => v,
        None => return None,
    };
    let frame_len = match row.checked_mul(h) {
        Some(v) => v,
        None => return None,
    };
    Some(PixelLayout { stride, size, frame_len })
}

/// X11 `ImageOrder::LSB_FIRST`.
pub const IMAGE_ORDER_LSB_FIRST: u8 = 0;

/// X11 `VisualClass::TRUE_COLOR`.
pub const VISUAL_CLASS_TRUE_COLOR: u8 = 4;

/// Capture accepts only native little-endian BGRA true-colour pixels: depth 24 or
/// 32, 32 bits per pixel, and red, green, blue in bytes 2, 1, 0.
pub fn pixel_format_supported(
    depth: u8,
    bits_per_pixel: u8,
    image_order: u8,
    visual_class: u8,
    red_mask: u32,
    green_mask: u32,
    blue_mask: u32,
) -> (res: bool)
    ensures
        res == ((depth == 24 || depth == 32) && bits_per_pixel == 32
            && image_order == IMAGE_ORDER_LSB_FIRST && visual_class == VISUAL_CLASS_TRUE_COLOR
            && red_mask == 0x00ff_0000 && green_mask == 0x0000_ff00 && blue_mask == 0x0000_00ff),
{
    (depth == 24 || depth == 32) && bits_per_pixel == 32 && image_order == IMAGE_ORDER_LSB_FIRST
        && visual_class == VISUAL_CLASS_TRUE_COLOR && red_mask == 0x00ff_0000
        && green_mask == 0x0000_ff00 && blue_mask == 0x0000_00ff
}

/// How the bound capture target changes when a new target is requested.
#[derive(Clone, Copy, Debug, PartialEq, Eq, Structural)]
pub enum TargetTransition {
    Keep,
    Clear,
    Replace(u32),
}

/// Requesting the current target keeps it; requesting none clears it; anything
/// else replaces it.
pub fn target_transition(current: Option<u32>, requested: Option<u32>) -> (res: TargetTransition)
    ensures
        res == (if current == requested {
            TargetTransition::Keep
        } else {
            match requested {
                None => TargetTransition::Clear,
                Some(w) => TargetTransition::Replace(w),
            }
        }),
{
    let same = match (current, requested) {
        (Some(a), Some(b)) => a == b,
        (None, None) => true,
        _ => false,
    };
    if same {
        TargetTransition::Keep
    } else {
        match requested {
            None => TargetTransition::Clear,
            Some(w) => TargetTransition::Replace(w),
        }
    }
}

/// Why a window snapshot cannot be used as an X11 capture target.
#[derive(Clone, Copy, Debug, PartialEq, Eq, Structural)]
pub enum SnapshotWindowError {
    /// The window ID does not fit in 32 bits.
    OutOfRange(u64),
    /// The window ID is zero.
    Zero,
}

/// The X11 window of a snapshot: none for no snapshot, an error for an ID that is
/// zero or does not fit in 32 bits.
pub fn snapshot_window(target: Option<WindowSnapshot>) -> (res: Result<Option<u32>, SnapshotWindowError>)
    ensures
        res == (match target {
            None => Ok(None),
            Some(s) => if s.window > u32::MAX {
                Err(SnapshotWindowError::OutOfRange(s.window))
            } else if s.window == 0 {
                Err(SnapshotWindowError::Zero)
            } else {
                Ok(Some(s.window as u32))
            },
        }),
{
    match target {
        None => Ok(None),
        Some(s) => {
            if s.window > 0xffff_ffffu64 {
                Err(SnapshotWindowError::OutOfRange(s.window))
            } else if s.window == 0 {
                Err(SnapshotWindowError::Zero)
            } else {
                Ok(Some(s.window as u32))
            }
        },
    }
}

/// The packed frame made from a padded image of `height` rows, `stride` bytes
/// apart: each row keeps its first `4 * width` bytes, and every pixel becomes
/// opaque.
pub open spec fn spec_packed_byte(map: Seq<u8>, stride: int, row: int, i: int) -> u8 {
    if i % 4 == 3 {
        255u8
    } else {
        map[(i / row) * stride + i % row]
    }
}

/// Packs the first `height` rows of `map` into `out`, `4 * width` bytes per row,
/// with every alpha byte set to 255.
pub fn pack_rows(map: &[u8], stride: usize, width: u16, height: u16, out: &mut Vec<u8>)
    requires
        width > 0,
        stride >= width * 4,
        map@.len() >= stride * height,
    ensures
        final(out)@.len() == width * 4 * height,
        forall|i: int| 0 <= i < width * 4 * height ==> #[trigger] final(out)@[i]
            == spec_packed_byte(map@, stride as int, width * 4, i),
{
    let row: usize = (width as usize) * 4;
    let h: usize = height as usize;
    let map_len: usize = map.len();
    proof {
        assert(row * h <= stride * h) by (nonlinear_arith)
            requires row <= stride, h >= 0;
    }
    let total: usize = row * h;
    out.clear();
    let mut y: usize = 0;
    while y < h
        invariant
            row == width * 4,
            row > 0,
            h == height,
            total == row * h,
            stride >= row,
            map@.len() >= stride * h,
            map_len == map@.len(),
            y <= h,
            out@.len() == y * row,
            forall|i: int| 0 <= i < y * row ==> #[trigger] out@[i]
                == spec_packed_byte(map@, stride as int, row as int, i),
        decreases h - y,
    {
        proof {
            assert((y + 1) * stride <= h * stride) by (nonlinear_arith)
                requires y + 1 <= h, stride >= 0;
            assert(y * stride + stride == (y + 1) * stride) by (nonlinear_arith);
            assert((y + 1) * row <= h * row) by (nonlinear_arith)
                requires y + 1 <= h, row >= 0;
            assert(y * row + row == (y + 1) * row) by (nonlinear_arith);
        }
        let base: usize = y * stride;
        let mut x: usize = 0;
        while x < row
            invariant
                row == width * 4,
                row > 0,
                h == height,
                stride >= row,
                y < h,
                base == y * stride,
                base + stride <= map@.len(),
                map_len == map@.len(),
                x <= row,
                out@.len() == y * row + x,
                y * row + row <= total,
                total == row * h,
                forall|i: int| 0 <= i < y * row + x ==> #[trigger] out@[i]
                    == spec_packed_byte(map@, stride as int, row as int, i),
            decreases row - x,
        {
            let v: u8 = if x % 4 == 3 { 255u8 } else { map[base + x] };
            proof {
                let i = y * row + x;
                vstd::arithmetic::div_mod::lemma_fundamental_div_mod_converse(i as int, row as int, y as int, x as int);
                assert(y * row == (y * width) * 4) by (nonlinear_arith)
                    requires row == width * 4;
                assert(i % 4 == x % 4);
            }
            out.push(v);
            x += 1;
        }
        y += 1;
    }
    proof {
        assert(h * row == width * 4 * height) by (nonlinear_arith)
            requires h == height, row == width * 4;
    }
}

/// How a step of the X11 capture failed.
#[derive(Clone, Debug)]
pub enum CaptureFailure {
    /// The window may come back (it is unmapped, resized, being redirected).
    Transient(String),
    /// Capturing cannot go on with this connection.
    Permanent(String),
}

/// The message of a failure.
pub open spec fn failure_message(f: CaptureFailure) -> Seq<char> {
    match f {
        CaptureFailure::Transient(m) => m@,
        CaptureFailure::Permanent(m) => m@,
    }
}

/// Keeps the first failure of a series of cleanup steps: `first` is filled with
/// the failure of `result` only where it is still empty.
pub fn remember_failure(first: &mut Option<CaptureFailure>, result: Result<(), CaptureFailure>)
    ensures
        match (*old(first), result) {
            (None, Err(e)) => *final(first) == Some(e),
            _ => *final(first) == *old(first),
        },
{
    if first.is_none() {
        if let Err(error) = result {
            *first = Some(error);
        }
    }
}

/// The error to report when a step failed with `step_error` and the cleanup
/// after it gave `cleanup`: a failed cleanup wins, since it leaves the
/// connection in a worse state.
pub fn prefer_cleanup_error(step_error: CaptureFailure, cleanup: Result<(), CaptureFailure>) -> (res:
    CaptureFailure)
    ensures
        match cleanup {
            Err(e) => res == e,
            Ok(()) => res == step_error,
        },
{
    match cleanup {
        Err(e) => e,
        Ok(()) => step_error,
    }
}

/// The error state of the X11 capture backend: a fatal error, once latched,
/// ends all capturing; a transient error is kept until a capture succeeds.
pub struct CaptureErrorState {
    fatal: Option<String>,
    transient: Option<String>,
}

impl CaptureErrorState {
    /// The fatal error, if one was latched.
    pub closed spec fn fatal(&self) -> Option<Seq<char>> {
        match self.fatal {
            Some(m) => Some(m@),
            None => None,
        }
    }

    /// The transient error being reported, if any.
    pub closed spec fn transient(&self) -> Option<Seq<char>> {
        match self.transient {
            Some(m) => Some(m@),
            None => None,
        }
    }

    /// The state after connecting: fatal where the connection failed.
    pub fn new(init_error: Option<String>) -> (res: Self)
        ensures
            res.fatal() == match init_error {
                Some(m) => Some(m@),
                None => None,
            },
            res.transient() is None,
    {
        CaptureErrorState { fatal: init_error, transient: None }
    }

    /// The fatal error, which every later request reports.
    pub fn fatal_error(&self) -> (res: Option<String>)
        ensures
            match res {
                Some(m) => self.fatal() == Some(m@),
                None => self.fatal() is None,
            },
    {
        match &self.fatal {
            Some(m) => Some(m.clone()),
            None => None,
        }
    }

    /// Latches `message` as the fatal error and returns it. The caller releases
    /// the window binding.
    pub fn latch(&mut self, message: String) -> (res: String)
        ensures
            final(self).fatal() == Some(message@),
            final(self).transient() is None,
            res@ == message@,
    {
        self.transient = None;
        let out = message.clone();
        self.fatal = Some(message);
        out
    }

    /// Takes in how retargeting went: a transient failure is remembered and not
    /// reported, a permanent one is latched and reported.
    pub fn finish_set_target(&mut self, result: Result<Option<String>, CaptureFailure>) -> (res:
        Result<(), String>)
        ensures
            match result {
                Ok(t) => {
                    &&& res is Ok
                    &&& final(self).fatal() == old(self).fatal()
                    &&& final(self).transient() == match t {
                        Some(m) => Some(m@),
                        None => None,
                    }
                },
                Err(CaptureFailure::Transient(m)) => {
                    &&& res is Ok
                    &&& final(self).fatal() == old(self).fatal()
                    &&& final(self).transient() == Some(m@)
                },
                Err(CaptureFailure::Permanent(m)) => {
                    &&& res matches Err(e) && e@ == m@
                    &&& final(self).fatal() == Some(m@)
                    &&& final(self).transient() is None
                },
            },
    {
        match result {
            Ok(transient) => {
                self.transient = transient;
                Ok(())
            },
            Err(CaptureFailure::Transient(error)) => {
                self.transient = Some(error);
                Ok(())
            },
            Err(CaptureFailure::Permanent(error)) => Err(self.latch(error)),
        }
    }

    /// Takes in how a capture went: success clears the transient error; a
    /// transient failure reports the transient error already being reported, or
    /// this one; a permanent failure is latched and reported.
    pub fn finish_capture(&mut self, result: Result<(), CaptureFailure>) -> (res: Result<(), String>)
        ensures
            match result {
                Ok(()) => {
                    &&& res is Ok
                    &&& final(self).fatal() == old(self).fatal()
                    &&& final(self).transient() is None
                },
                Err(CaptureFailure::Transient(m)) => {
                    let kept = match old(self).transient() {
                        Some(t) => t,
                        None => m@,
                    };
                    &&& res matches Err(e) && e@ == kept
                    &&& final(self).fatal() == old(self).fatal()
                    &&& final(self).transient() == Some(kept)
                },
                Err(CaptureFailure::Permanent(m)) => {
                    &&& res matches Err(e) && e@ == m@
                    &&& final(self).fatal() == Some(m@)
                    &&& final(self).transient() is None
                },
            },
    {
        match result {
            Ok(()) => {
                self.transient = None;
                Ok(())
            },
            Err(CaptureFailure::Transient(error)) => {
                let error = match &self.transient {
                    Some(t) => t.clone(),
                    None => error,
                };
                self.transient = Some(error.clone());
                Err(error)
            },
            Err(CaptureFailure::Permanent(error)) => Err(self.latch(error)),
        }
    }
}

/// The capture backend of X11 sessions without the composite extension, which
/// captures nothing yet.
pub struct X11CaptureEngine;

/// The message of every capture of `X11CaptureEngine`.
pub open spec fn x11_unimplemented() -> Seq<char> {
    "X11 capture is not implemented yet"@
}

impl X11CaptureEngine {
    /// The backend; making it cannot fail.
    pub fn new() -> (res: Result<Self, String>)
        ensures
            res is Ok,
    {
        Ok(X11CaptureEngine)
    }

    /// Captures `rect` into `out_frame`: always fails, leaving the frame alone.
    pub fn capture_bgra_inplace(&mut self, rect: WindowRect, out_frame: &mut CapturedFrame) -> (res:
        Result<(), String>)
        ensures
            res matches Err(e) && e@ == x11_unimplemented(),
            *final(out_frame) == *old(out_frame),
    {
        Err(String::from_str("X11 capture is not implemented yet"))
    }

    /// Captures `rect`: always fails.
    pub fn capture_bgra(&mut self, rect: WindowRect) -> (res: Result<CapturedFrame, String>)
        ensures
            res matches Err(e) && e@ == x11_unimplemented(),
    {
        let mut frame = CapturedFrame { width: 0, height: 0, bgra: Vec::new() };
        match self.capture_bgra_inplace(rect, &mut frame) {
            Ok(()) => Ok(frame),
            Err(e) => Err(e),
        }
    }

    /// What the detection loop does after an error of this backend: try again.
    pub fn error_action(&self) -> (res: CaptureErrorAction)
        ensures
            res == CaptureErrorAction::Retry,
    {
        CaptureErrorAction::Retry
    }
}

} // verus!
