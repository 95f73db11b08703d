use vstd::prelude::*;
use crate::geometry::WindowRect;
use crate::text::to_ascii_lower;

verus! {

/// The UTF-16 code units of one character.
pub open spec fn utf16_units(c: char) -> Seq<u16> {
    let v = c as u32;
    if v < 0x10000 {
        seq![v as u16]
    } else {
        let w = v - 0x10000;
        seq![(0xd800 + w / 1024) as u16, (0xdc00 + w % 1024) as u16]
    }
}

/// The UTF-16 encoding of a text.
pub open spec fn encode_utf16(s: Seq<char>) -> Seq<u16>
    decreases s.len(),
{
    if s.len() == 0 {
        Seq::empty()
    } else {
        encode_utf16(s.drop_last()) + utf16_units(s.last())
    }
}

/// A text as the wide-character Windows API takes it: UTF-16, ended by a zero unit.
pub fn encode_wide(value: &str) -> (res: Vec<u16>)
    ensures
        res@ == encode_utf16(value@).push(0u16),
{
    let n = value.unicode_len();
    let mut out: Vec<u16> = Vec::new();
    let mut i: usize = 0;
    while i < n
        invariant
            n == value@.len(),
            i <= n,
            out@ == encode_utf16(value@.subrange(0, i as int)),
        decreases n - i,
    {
        let c = value.get_char(i);
        let v = c as u32;
        assert(value@.subrange(0, i + 1).drop_last() == value@.subrange(0, i as int));
        let ghost before = out@;
        if v < 0x10000 {
            out.push(v as u16);
        } else {
            let w = v - 0x10000;
            out.push((0xd800 + w / 1024) as u16);
            out.push((0xdc00 + w % 1024) as u16);
        }
        assert(out@ == before + utf16_units(c));
        i += 1;
    }
    assert(value@.subrange(0, n as int) == value@);
    out.push(0);
    out
}

/// The capture backend a user asks for.
#[derive(Clone, Copy, Debug, PartialEq, Eq, Structural)]
pub enum PreferredCaptureEngine {
    Gdi,
    Dxgi,
    Auto,
}

impl Default for PreferredCaptureEngine {
    fn default() -> (res: Self)
        ensures
            res == PreferredCaptureEngine::Gdi,
    {
        PreferredCaptureEngine::Gdi
    }
}

/// The backend a setting names: `dxgi` or `auto` in any case of ASCII letters;
/// anything else names GDI.
pub open spec fn spec_preferred_engine(s: Seq<char>) -> PreferredCaptureEngine {
    let lower = s.map_values(|c: char| to_ascii_lower(c));
    if lower == "dxgi"@ {
        PreferredCaptureEngine::Dxgi
    } else if lower == "auto"@ {
        PreferredCaptureEngine::Auto
    } else {
        PreferredCaptureEngine::Gdi
    }
}

fn ascii_lower_eq(s: &str, lower: &str) -> (res: bool)
    ensures
        res == (s@.map_values(|c: char| to_ascii_lower(c)) == lower@),
{
    let n = s.unicode_len();
    if n != lower.unicode_len() {
        return false;
    }
    let mut i: usize = 0;
    while i < n
        invariant
            n == s@.len(),
            n == lower@.len(),
            i <= n,
            forall|j: int| 0 <= j < i ==> to_ascii_lower(#[trigger] s@[j]) == lower@[j],
        decreases n - i,
    {
        let c = s.get_char(i);
        let l = if 'A' <= c && c <= 'Z' {
            (((c as u32) + 32) as u8) as char
        } else {
            c
        };
        assert(l == to_ascii_lower(c));
        if l != lower.get_char(i) {
            assert(s@.map_values(|c: char| to_ascii_lower(c))[i as int] != lower@[i as int]);
            return false;
        }
        i += 1;
    }
    assert(s@.map_values(|c: char| to_ascii_lower(c)) =~= lower@);
    true
}

impl PreferredCaptureEngine {
    /// The backend that the setting `s` names.
    pub fn parse(s: &str) -> (res: Self)
        ensures
            res == spec_preferred_engine(s@),
    {
        if ascii_lower_eq(s, "dxgi") {
            PreferredCaptureEngine::Dxgi
        } else if ascii_lower_eq(s, "auto") {
            PreferredCaptureEngine::Auto
        } else {
            PreferredCaptureEngine::Gdi
        }
    }
}

impl std::str::FromStr for PreferredCaptureEngine {
    type Err = std::convert::Infallible;

    fn from_str(s: &str) -> (res: Result<Self, Self::Err>)
        ensures
            res == Ok::<Self, std::convert::Infallible>(spec_preferred_engine(s@)),
    {
        Ok(PreferredCaptureEngine::parse(s))
    }
}

/// The desktop rectangle of a display output, its right and bottom edges excluded.
#[derive(Clone, Copy, Debug, PartialEq, Eq, Structural)]
pub struct OutputBounds {
    pub left: i32,
    pub top: i32,
    pub right: i32,
    pub bottom: i32,
}

/// Half of `x`, rounded toward zero as integer division does.
pub open spec fn half(x: int) -> int {
    if x >= 0 {
        x / 2
    } else {
        -((-x) / 2)
    }
}

/// The centre of `rect` lies on the output `bounds`.
pub open spec fn spec_center_inside(rect: WindowRect, bounds: OutputBounds) -> bool {
    let cx = rect.left + half(rect.width as int);
    let cy = rect.top + half(rect.height as int);
    bounds.left <= cx < bounds.right && bounds.top <= cy < bounds.bottom
}

/// Whether the game window's centre lies on the output being duplicated; where it
/// does not, the capture moves to the output that holds the window.
pub fn output_contains_center(rect: WindowRect, bounds: OutputBounds) -> (res: bool)
    requires
        i32::MIN <= rect.left + half(rect.width as int) <= i32::MAX,
        i32::MIN <= rect.top + half(rect.height as int) <= i32::MAX,
    ensures
        res == spec_center_inside(rect, bounds),
{
    let center_x = rect.left + rect.width / 2;
    let center_y = rect.top + rect.height / 2;
    center_x >= bounds.left && center_x < bounds.right && center_y >= bounds.top && center_y
        < bounds.bottom
}


/// The output to duplicate among `outputs`: the first whose desktop holds the
/// centre of the game window `rect`; where none does, or no window is known, the
/// first output; none without outputs.
pub fn select_output(outputs: &[OutputBounds], rect: Option<WindowRect>) -> (res: Option<usize>)
    requires
        rect matches Some(r) ==> i32::MIN <= r.left + half(r.width as int) <= i32::MAX,
        rect matches Some(r) ==> i32::MIN <= r.top + half(r.height as int) <= i32::MAX,
    ensures
        match res {
            Some(i) => i < outputs@.len() && match rect {
                Some(r) => if exists|k: int| 0 <= k < outputs@.len() && spec_center_inside(r, #[trigger] outputs@[k]) {
                    spec_center_inside(r, outputs@[i as int])
                        && forall|j: int| 0 <= j < i ==> !spec_center_inside(r, #[trigger] outputs@[j])
                } else {
                    i == 0
                },
                None => i == 0,
            },
            None => outputs@.len() == 0,
        },
{
    if outputs.len() == 0 {
        return None;
    }
    if let Some(r) = rect {
        let mut i: usize = 0;
        while i < outputs.len()
            invariant
                i <= outputs@.len(),
                rect == Some(r),
                i32::MIN <= r.left + half(r.width as int) <= i32::MAX,
                i32::MIN <= r.top + half(r.height as int) <= i32::MAX,
                forall|j: int| 0 <= j < i ==> !spec_center_inside(r, #[trigger] outputs@[j]),
            decreases outputs@.len() - i,
        {
            if output_contains_center(r, outputs[i]) {
                assert(spec_center_inside(r, outputs@[i as int]));
                return Some(i);
            }
            i += 1;
        }
    }
    Some(0)
}

/// The `HRESULT` of `DXGI_ERROR_WAIT_TIMEOUT`: no new desktop frame arrived.
pub const DXGI_ERROR_WAIT_TIMEOUT: u32 = 0x887a_0027;

/// How long to wait for a desktop frame: 50 ms until a first frame was captured,
/// then not at all.
pub fn acquire_timeout_ms(frame_is_empty: bool) -> (res: u32)
    ensures
        res == if frame_is_empty { 50u32 } else { 0u32 },
{
    if frame_is_empty {
        50
    } else {
        0
    }
}

/// What a failed frame acquisition means.
#[derive(Clone, Copy, Debug, PartialEq, Eq, Structural)]
pub enum AcquireFailure {
    /// The screen did not change: hand out the last frame again.
    KeepLastFrame,
    /// No first frame arrived in time.
    InitialTimeout,
    /// Duplication failed with this `HRESULT`.
    Failed(u32),
}

/// The meaning of the `HRESULT` of a failed frame acquisition.
pub fn classify_acquire_error(code: u32, frame_is_empty: bool) -> (res: AcquireFailure)
    ensures
        res == if code == DXGI_ERROR_WAIT_TIMEOUT {
            if frame_is_empty {
                AcquireFailure::InitialTimeout
            } else {
                AcquireFailure::KeepLastFrame
            }
        } else {
            AcquireFailure::Failed(code)
        },
{
    if code == DXGI_ERROR_WAIT_TIMEOUT {
        if frame_is_empty {
            AcquireFailure::InitialTimeout
        } else {
            AcquireFailure::KeepLastFrame
        }
    } else {
        AcquireFailure::Failed(code)
    }
}

/// The two staging textures of the GPU atlas: the GPU copies into one while the
/// CPU reads the other, so that reading never waits for the copy just queued.
pub struct AtlasStaging {
    write_idx: usize,
    frames_captured: u64,
}

impl AtlasStaging {
    #[verifier::type_invariant]
    spec fn two_buffers(self) -> bool {
        self.write_idx < 2
    }

    /// The texture the next copy goes into.
    pub closed spec fn spec_write_index(&self) -> int {
        self.write_idx as int
    }

    /// Frames copied since the output was (re)opened.
    pub closed spec fn spec_frames(&self) -> int {
        self.frames_captured as int
    }

    /// Nothing copied yet; the first copy goes into texture 0.
    pub fn new() -> (res: Self)
        ensures
            res.spec_write_index() == 0,
            res.spec_frames() == 0,
    {
        AtlasStaging { write_idx: 0, frames_captured: 0 }
    }

    /// Forgets the copies, as when capture moves to another output.
    pub fn reset(&mut self)
        ensures
            final(self).spec_write_index() == 0,
            final(self).spec_frames() == 0,
    {
        self.write_idx = 0;
        self.frames_captured = 0;
    }

    /// The texture the next copy goes into.
    pub fn write_index(&self) -> (res: usize)
        ensures
            res == self.spec_write_index(),
            res < 2,
    {
        proof {
            use_type_invariant(self);
        }
        self.write_idx
    }

    /// A copy into the write texture was queued: the next copy goes into the other
    /// texture, and the texture to read is the one just written for the very first
    /// copy, and otherwise the one written on the previous tick.
    pub fn after_copy(&mut self) -> (read_idx: usize)
        requires
            old(self).spec_frames() < u64::MAX,
        ensures
            final(self).spec_write_index() == 1 - old(self).spec_write_index(),
            final(self).spec_frames() == old(self).spec_frames() + 1,
            read_idx == if old(self).spec_frames() == 0 {
                old(self).spec_write_index()
            } else {
                1 - old(self).spec_write_index()
            },
            read_idx < 2,
    {
        proof {
            use_type_invariant(&*self);
        }
        let write = self.write_idx;
        let prev = 1 - write;
        self.frames_captured = self.frames_captured + 1;
        self.write_idx = prev;
        if self.frames_captured == 1 {
            write
        } else {
            prev
        }
    }

    /// No new frame arrived: the texture to read again is the last one written,
    /// or the write texture where nothing was copied yet.
    pub fn without_new_frame(&self) -> (read_idx: usize)
        ensures
            read_idx == if self.spec_frames() == 0 {
                self.spec_write_index()
            } else {
                1 - self.spec_write_index()
            },
            read_idx < 2,
    {
        proof {
            use_type_invariant(self);
        }
        if self.frames_captured == 0 {
            self.write_idx
        } else {
            1 - self.write_idx
        }
    }
}


/// Nanoseconds between two attempts to start the DXGI backend.
pub const DXGI_INIT_RETRY_NS: u64 = 3_000_000_000;

/// What the adaptive capture engine was asked for: a backend, and whether the
/// DXGI backend should crop on the GPU.
#[derive(Clone, Copy, Debug, PartialEq, Eq, Structural)]
pub struct CaptureEngineSettings {
    pub preferred_engine: PreferredCaptureEngine,
    pub enable_gpu_atlas: bool,
}

impl CaptureEngineSettings {
    /// GDI, without the GPU atlas.
    pub fn new() -> (res: Self)
        ensures
            res.preferred_engine == PreferredCaptureEngine::Gdi,
            !res.enable_gpu_atlas,
    {
        CaptureEngineSettings { preferred_engine: PreferredCaptureEngine::Gdi, enable_gpu_atlas: false }
    }

    pub fn set_preferred_engine(&mut self, preferred: PreferredCaptureEngine)
        ensures
            final(self).preferred_engine == preferred,
            final(self).enable_gpu_atlas == old(self).enable_gpu_atlas,
    {
        self.preferred_engine = preferred;
    }

    pub fn preferred_engine(&self) -> (res: PreferredCaptureEngine)
        ensures
            res == self.preferred_engine,
    {
        self.preferred_engine
    }

    /// Sets the GPU atlas flag; a running DXGI backend is given the same flag.
    pub fn set_enable_gpu_atlas(&mut self, enable: bool)
        ensures
            final(self).enable_gpu_atlas == enable,
            final(self).preferred_engine == old(self).preferred_engine,
    {
        self.enable_gpu_atlas = enable;
    }

    pub fn enable_gpu_atlas(&self) -> (res: bool)
        ensures
            res == self.enable_gpu_atlas,
    {
        self.enable_gpu_atlas
    }

    /// Whether a capture tries the DXGI backend first: when asked for it, or, on
    /// `Auto`, on a single monitor (several monitors keep to GDI).
    pub fn try_dxgi(&self, multi_monitor: bool) -> (res: bool)
        ensures
            res == (match self.preferred_engine {
                PreferredCaptureEngine::Gdi => false,
                PreferredCaptureEngine::Dxgi => true,
                PreferredCaptureEngine::Auto => !multi_monitor,
            }),
    {
        match self.preferred_engine {
            PreferredCaptureEngine::Gdi => false,
            PreferredCaptureEngine::Dxgi => true,
            PreferredCaptureEngine::Auto => !multi_monitor,
        }
    }
}

/// Whether the DXGI backend may be started again, `elapsed_ns` after the last
/// attempt.
pub fn dxgi_init_due(elapsed_ns: u64) -> (res: bool)
    ensures
        res == (elapsed_ns >= DXGI_INIT_RETRY_NS),
{
    elapsed_ns >= DXGI_INIT_RETRY_NS
}

} // verus!
