use vstd::prelude::*;

verus! {

/// The screens of the game that detection distinguishes.
#[derive(Clone, Copy, Debug, PartialEq, Eq, Hash, Structural)]
pub enum SceneType {
    Unknown,
    Freestyle,
    Online,
    OpenMatch,
    LadderMatch,
    ResultFreestyle,
    ResultOpen3,
    ResultOpen2,
    Gameplay,
    Paused,
}

/// Chart difficulty, in the order in which the difficulty panels are laid out.
#[derive(Clone, Copy, Debug, PartialEq, Eq, Hash, Structural)]
pub enum Difficulty {
    NM,
    HD,
    MX,
    SC,
}

impl Difficulty {
    /// Horizontal offset, in 1080p reference pixels, of this difficulty's panel
    /// from the first (NM) panel.
    pub open spec fn spec_panel_offset(self) -> i32 {
        match self {
            Difficulty::NM => 0,
            Difficulty::HD => 120,
            Difficulty::MX => 240,
            Difficulty::SC => 360,
        }
    }

    pub fn panel_offset(self) -> (res: i32)
        ensures
            res == self.spec_panel_offset(),
    {
        match self {
            Difficulty::NM => 0,
            Difficulty::HD => 120,
            Difficulty::MX => 240,
            Difficulty::SC => 360,
        }
    }

    /// All difficulties, in panel order.
    pub fn all() -> (res: [Difficulty; 4])
        ensures
            res@ == seq![Difficulty::NM, Difficulty::HD, Difficulty::MX, Difficulty::SC],
    {
        [Difficulty::NM, Difficulty::HD, Difficulty::MX, Difficulty::SC]
    }
}

/// A rectangle given by its top-left corner and its size.
#[derive(Clone, Copy, Debug, PartialEq, Eq, Hash, Structural)]
pub struct RawRoiRect {
    pub x: i32,
    pub y: i32,
    pub width: i32,
    pub height: i32,
}

/// A rectangle given by two corners: `x1 <= x < x2`, `y1 <= y < y2`.
#[derive(Clone, Copy, Debug, PartialEq, Eq, Hash, Structural)]
pub struct RoiRect {
    pub x1: i32,
    pub y1: i32,
    pub x2: i32,
    pub y2: i32,
}

/// The far corner of `r` is representable in `i32`.
pub open spec fn raw_corners_fit(r: RawRoiRect) -> bool {
    &&& i32::MIN <= r.x + r.width <= i32::MAX
    &&& i32::MIN <= r.y + r.height <= i32::MAX
}

impl RoiRect {
    /// The corner form of `rect`.
    pub fn from_raw(rect: RawRoiRect) -> (res: Self)
        requires
            raw_corners_fit(rect),
        ensures
            res.x1 == rect.x,
            res.y1 == rect.y,
            res.x2 == rect.x + rect.width,
            res.y2 == rect.y + rect.height,
    {
        RoiRect { x1: rect.x, y1: rect.y, x2: rect.x + rect.width, y2: rect.y + rect.height }
    }

    pub open spec fn spec_width(self) -> int {
        self.x2 - self.x1
    }

    pub open spec fn spec_height(self) -> int {
        self.y2 - self.y1
    }

    pub fn width(&self) -> (res: i32)
        requires
            i32::MIN <= self.x2 - self.x1 <= i32::MAX,
        ensures
            res == self.spec_width(),
    {
        self.x2 - self.x1
    }

    pub fn height(&self) -> (res: i32)
        requires
            i32::MIN <= self.y2 - self.y1 <= i32::MAX,
        ensures
            res == self.spec_height(),
    {
        self.y2 - self.y1
    }

    /// The rectangle grown by `margin` on every side (shrunk for a negative margin).
    pub fn with_margin(&self, margin: i32) -> (res: Self)
        requires
            i32::MIN <= self.x1 - margin <= i32::MAX,
            i32::MIN <= self.y1 - margin <= i32::MAX,
            i32::MIN <= self.x2 + margin <= i32::MAX,
            i32::MIN <= self.y2 + margin <= i32::MAX,
        ensures
            res.x1 == self.x1 - margin,
            res.y1 == self.y1 - margin,
            res.x2 == self.x2 + margin,
            res.y2 == self.y2 + margin,
    {
        RoiRect {
            x1: self.x1 - margin,
            y1: self.y1 - margin,
            x2: self.x2 + margin,
            y2: self.y2 + margin,
        }
    }
}

/// A window's client area on the desktop.
#[derive(Clone, Copy, Debug, PartialEq, Eq, Hash, Structural)]
pub struct WindowRect {
    pub left: i32,
    pub top: i32,
    pub width: i32,
    pub height: i32,
}

impl WindowRect {
    /// A window area is usable when it has a positive size.
    pub fn is_valid(self) -> (res: bool)
        ensures
            res == (self.width > 0 && self.height > 0),
    {
        self.width > 0 && self.height > 0
    }
}

/// One observation of the game window.
#[derive(Clone, Copy, Debug, PartialEq, Eq, Hash, Structural)]
pub struct WindowSnapshot {
    pub window: u64,
    pub rect: WindowRect,
    pub foreground: bool,
    pub fullscreen: bool,
}

/// A captured image: `width * height` pixels, four bytes each, in B, G, R, A order,
/// row after row.
#[derive(Clone, Debug, PartialEq, Eq, Default)]
pub struct CapturedFrame {
    pub width: i32,
    pub height: i32,
    pub bgra: Vec<u8>,
}

impl CapturedFrame {
    /// The pixel buffer holds exactly `width * height` pixels.
    pub open spec fn well_formed(&self) -> bool {
        &&& self.width >= 0
        &&& self.height >= 0
        &&& self.bgra@.len() == self.width * self.height * 4
    }
}

/// A cropped image region: `width * height` BGRA pixels, row after row.
#[derive(Clone, Debug, PartialEq, Eq, Default)]
pub struct ImageRegion {
    pub width: i32,
    pub height: i32,
    pub bgra: Vec<u8>,
}

} // verus!
