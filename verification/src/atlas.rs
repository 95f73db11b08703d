use vstd::prelude::*;
use crate::geometry::{CapturedFrame, Difficulty, RawRoiRect, SceneType};
use crate::roi_config::{spec_reference_roi, RoiName};

verus! {

/// Width of the packed region atlas, in pixels.
pub const ATLAS_WIDTH: u32 = 512;

/// Height of the packed region atlas, in pixels.
pub const ATLAS_HEIGHT: u32 = 512;

/// Number of regions packed into the atlas.
pub const ATLAS_SLOT_COUNT: usize = 47;

/// Where one region of one scene is taken from in a 1080p frame, and where it is
/// placed in the atlas.
#[derive(Clone, Copy, Debug, PartialEq, Eq, Structural)]
pub struct AtlasSlot {
    pub scene: SceneType,
    pub roi: RoiName,
    /// Source rectangle in 1080p reference coordinates.
    pub src_rect: RawRoiRect,
    /// Placement in the atlas.
    pub atlas_rect: RawRoiRect,
}

impl AtlasSlot {
    /// The region's lookup name.
    pub fn name(&self) -> (res: &'static str)
        ensures
            res@ == self.roi.spec_text(),
    {
        self.roi.as_str()
    }
}

/// The atlas layout: slot `i` for `0 <= i < ATLAS_SLOT_COUNT`.
pub open spec fn spec_atlas_slot(i: int) -> AtlasSlot {
    if i == 0 {
        AtlasSlot { scene: SceneType::Freestyle, roi: RoiName::GpCenterLeft, src_rect: RawRoiRect { x: 702, y: 80, width: 7, height: 257 }, atlas_rect: RawRoiRect { x: 0, y: 0, width: 7, height: 257 } }
    } else if i == 1 {
        AtlasSlot { scene: SceneType::Freestyle, roi: RoiName::GpCenterRight, src_rect: RawRoiRect { x: 1211, y: 80, width: 7, height: 257 }, atlas_rect: RawRoiRect { x: 7, y: 0, width: 7, height: 257 } }
    } else if i == 2 {
        AtlasSlot { scene: SceneType::Freestyle, roi: RoiName::GpLeftLeft, src_rect: RawRoiRect { x: 102, y: 80, width: 7, height: 257 }, atlas_rect: RawRoiRect { x: 14, y: 0, width: 7, height: 257 } }
    } else if i == 3 {
        AtlasSlot { scene: SceneType::Freestyle, roi: RoiName::GpLeftRight, src_rect: RawRoiRect { x: 611, y: 80, width: 7, height: 257 }, atlas_rect: RawRoiRect { x: 21, y: 0, width: 7, height: 257 } }
    } else if i == 4 {
        AtlasSlot { scene: SceneType::Freestyle, roi: RoiName::GpRightLeft, src_rect: RawRoiRect { x: 1342, y: 80, width: 7, height: 257 }, atlas_rect: RawRoiRect { x: 28, y: 0, width: 7, height: 257 } }
    } else if i == 5 {
        AtlasSlot { scene: SceneType::Freestyle, roi: RoiName::GpRightRight, src_rect: RawRoiRect { x: 1851, y: 80, width: 7, height: 257 }, atlas_rect: RawRoiRect { x: 35, y: 0, width: 7, height: 257 } }
    } else if i == 6 {
        AtlasSlot { scene: SceneType::ResultFreestyle, roi: RoiName::ModeColorbar, src_rect: RawRoiRect { x: 52, y: 0, width: 22, height: 96 }, atlas_rect: RawRoiRect { x: 0, y: 257, width: 22, height: 96 } }
    } else if i == 7 {
        AtlasSlot { scene: SceneType::ResultFreestyle, roi: RoiName::Score, src_rect: RawRoiRect { x: 759, y: 710, width: 407, height: 94 }, atlas_rect: RawRoiRect { x: 42, y: 0, width: 407, height: 94 } }
    } else if i == 8 {
        AtlasSlot { scene: SceneType::ResultFreestyle, roi: RoiName::MaxComboBadge, src_rect: RawRoiRect { x: 1024, y: 521, width: 75, height: 75 }, atlas_rect: RawRoiRect { x: 0, y: 353, width: 75, height: 75 } }
    } else if i == 9 {
        AtlasSlot { scene: SceneType::ResultOpen3, roi: RoiName::MaxComboBadge, src_rect: RawRoiRect { x: 437, y: 591, width: 75, height: 75 }, atlas_rect: RawRoiRect { x: 0, y: 428, width: 75, height: 75 } }
    } else if i == 10 {
        AtlasSlot { scene: SceneType::ResultOpen2, roi: RoiName::MaxComboBadge, src_rect: RawRoiRect { x: 537, y: 591, width: 75, height: 75 }, atlas_rect: RawRoiRect { x: 22, y: 257, width: 75, height: 75 } }
    } else if i == 11 {
        AtlasSlot { scene: SceneType::ResultOpen3, roi: RoiName::Score, src_rect: RawRoiRect { x: 211, y: 753, width: 317, height: 74 }, atlas_rect: RawRoiRect { x: 42, y: 94, width: 317, height: 74 } }
    } else if i == 12 {
        AtlasSlot { scene: SceneType::ResultOpen2, roi: RoiName::Score, src_rect: RawRoiRect { x: 311, y: 753, width: 320, height: 72 }, atlas_rect: RawRoiRect { x: 42, y: 168, width: 320, height: 72 } }
    } else if i == 13 {
        AtlasSlot { scene: SceneType::ResultFreestyle, roi: RoiName::ModeDigit, src_rect: RawRoiRect { x: 78, y: 28, width: 50, height: 68 }, atlas_rect: RawRoiRect { x: 359, y: 94, width: 50, height: 68 } }
    } else if i == 14 {
        AtlasSlot { scene: SceneType::Freestyle, roi: RoiName::Jacket, src_rect: RawRoiRect { x: 710, y: 533, width: 64, height: 60 }, atlas_rect: RawRoiRect { x: 409, y: 94, width: 64, height: 60 } }
    } else if i == 15 {
        AtlasSlot { scene: SceneType::OpenMatch, roi: RoiName::Jacket, src_rect: RawRoiRect { x: 664, y: 533, width: 64, height: 60 }, atlas_rect: RawRoiRect { x: 409, y: 154, width: 64, height: 60 } }
    } else if i == 16 {
        AtlasSlot { scene: SceneType::ResultFreestyle, roi: RoiName::Jacket, src_rect: RawRoiRect { x: 705, y: 14, width: 60, height: 60 }, atlas_rect: RawRoiRect { x: 449, y: 0, width: 60, height: 60 } }
    } else if i == 17 {
        AtlasSlot { scene: SceneType::ResultOpen3, roi: RoiName::PlayerPanel, src_rect: RawRoiRect { x: 212, y: 830, width: 316, height: 40 }, atlas_rect: RawRoiRect { x: 97, y: 240, width: 316, height: 40 } }
    } else if i == 18 {
        AtlasSlot { scene: SceneType::ResultOpen2, roi: RoiName::PlayerPanel, src_rect: RawRoiRect { x: 312, y: 830, width: 316, height: 40 }, atlas_rect: RawRoiRect { x: 97, y: 280, width: 316, height: 40 } }
    } else if i == 19 {
        AtlasSlot { scene: SceneType::Freestyle, roi: RoiName::MaxComboBadge, src_rect: RawRoiRect { x: 409, y: 585, width: 36, height: 36 }, atlas_rect: RawRoiRect { x: 473, y: 60, width: 36, height: 36 } }
    } else if i == 20 {
        AtlasSlot { scene: SceneType::OpenMatch, roi: RoiName::MaxComboBadge, src_rect: RawRoiRect { x: 398, y: 601, width: 36, height: 36 }, atlas_rect: RawRoiRect { x: 473, y: 96, width: 36, height: 36 } }
    } else if i == 21 {
        AtlasSlot { scene: SceneType::ResultFreestyle, roi: RoiName::Rate, src_rect: RawRoiRect { x: 891, y: 608, width: 129, height: 32 }, atlas_rect: RawRoiRect { x: 75, y: 332, width: 129, height: 32 } }
    } else if i == 22 {
        AtlasSlot { scene: SceneType::OpenMatch, roi: RoiName::DiffPanelNm, src_rect: RawRoiRect { x: 82, y: 467, width: 116, height: 31 }, atlas_rect: RawRoiRect { x: 75, y: 364, width: 116, height: 31 } }
    } else if i == 23 {
        AtlasSlot { scene: SceneType::OpenMatch, roi: RoiName::DiffPanelHd, src_rect: RawRoiRect { x: 202, y: 467, width: 116, height: 31 }, atlas_rect: RawRoiRect { x: 75, y: 395, width: 116, height: 31 } }
    } else if i == 24 {
        AtlasSlot { scene: SceneType::OpenMatch, roi: RoiName::DiffPanelMx, src_rect: RawRoiRect { x: 322, y: 467, width: 116, height: 31 }, atlas_rect: RawRoiRect { x: 75, y: 426, width: 116, height: 31 } }
    } else if i == 25 {
        AtlasSlot { scene: SceneType::OpenMatch, roi: RoiName::DiffPanelSc, src_rect: RawRoiRect { x: 442, y: 467, width: 116, height: 31 }, atlas_rect: RawRoiRect { x: 75, y: 457, width: 116, height: 31 } }
    } else if i == 26 {
        AtlasSlot { scene: SceneType::ResultOpen2, roi: RoiName::Rate, src_rect: RawRoiRect { x: 403, y: 673, width: 107, height: 31 }, atlas_rect: RawRoiRect { x: 191, y: 364, width: 107, height: 31 } }
    } else if i == 27 {
        AtlasSlot { scene: SceneType::ResultOpen3, roi: RoiName::Rate, src_rect: RawRoiRect { x: 293, y: 673, width: 107, height: 30 }, atlas_rect: RawRoiRect { x: 204, y: 320, width: 107, height: 30 } }
    } else if i == 28 {
        AtlasSlot { scene: SceneType::Freestyle, roi: RoiName::PauseTitle, src_rect: RawRoiRect { x: 731, y: 177, width: 148, height: 28 }, atlas_rect: RawRoiRect { x: 311, y: 320, width: 148, height: 28 } }
    } else if i == 29 {
        AtlasSlot { scene: SceneType::Freestyle, roi: RoiName::DiffPanelNm, src_rect: RawRoiRect { x: 98, y: 488, width: 110, height: 28 }, atlas_rect: RawRoiRect { x: 191, y: 395, width: 110, height: 28 } }
    } else if i == 30 {
        AtlasSlot { scene: SceneType::Freestyle, roi: RoiName::DiffPanelHd, src_rect: RawRoiRect { x: 218, y: 488, width: 110, height: 28 }, atlas_rect: RawRoiRect { x: 298, y: 350, width: 110, height: 28 } }
    } else if i == 31 {
        AtlasSlot { scene: SceneType::Freestyle, roi: RoiName::DiffPanelMx, src_rect: RawRoiRect { x: 338, y: 488, width: 110, height: 28 }, atlas_rect: RawRoiRect { x: 191, y: 423, width: 110, height: 28 } }
    } else if i == 32 {
        AtlasSlot { scene: SceneType::Freestyle, roi: RoiName::DiffPanelSc, src_rect: RawRoiRect { x: 458, y: 488, width: 110, height: 28 }, atlas_rect: RawRoiRect { x: 191, y: 451, width: 110, height: 28 } }
    } else if i == 33 {
        AtlasSlot { scene: SceneType::Freestyle, roi: RoiName::Score, src_rect: RawRoiRect { x: 173, y: 558, width: 104, height: 24 }, atlas_rect: RawRoiRect { x: 408, y: 348, width: 104, height: 24 } }
    } else if i == 34 {
        AtlasSlot { scene: SceneType::Freestyle, roi: RoiName::Rate, src_rect: RawRoiRect { x: 172, y: 583, width: 104, height: 22 }, atlas_rect: RawRoiRect { x: 408, y: 372, width: 104, height: 22 } }
    } else if i == 35 {
        AtlasSlot { scene: SceneType::OpenMatch, roi: RoiName::Score, src_rect: RawRoiRect { x: 77, y: 558, width: 106, height: 20 }, atlas_rect: RawRoiRect { x: 301, y: 378, width: 106, height: 20 } }
    } else if i == 36 {
        AtlasSlot { scene: SceneType::OpenMatch, roi: RoiName::Rate, src_rect: RawRoiRect { x: 197, y: 558, width: 103, height: 20 }, atlas_rect: RawRoiRect { x: 407, y: 394, width: 103, height: 20 } }
    } else if i == 37 {
        AtlasSlot { scene: SceneType::ResultOpen3, roi: RoiName::OpenmatchDiff, src_rect: RawRoiRect { x: 410, y: 841, width: 106, height: 18 }, atlas_rect: RawRoiRect { x: 301, y: 398, width: 106, height: 18 } }
    } else if i == 38 {
        AtlasSlot { scene: SceneType::ResultOpen2, roi: RoiName::OpenmatchDiff, src_rect: RawRoiRect { x: 510, y: 841, width: 106, height: 18 }, atlas_rect: RawRoiRect { x: 75, y: 488, width: 106, height: 18 } }
    } else if i == 39 {
        AtlasSlot { scene: SceneType::ResultFreestyle, roi: RoiName::DiffPanelNm, src_rect: RawRoiRect { x: 709, y: 86, width: 90, height: 18 }, atlas_rect: RawRoiRect { x: 181, y: 488, width: 90, height: 18 } }
    } else if i == 40 {
        AtlasSlot { scene: SceneType::ResultFreestyle, roi: RoiName::DiffPanelHd, src_rect: RawRoiRect { x: 829, y: 86, width: 90, height: 18 }, atlas_rect: RawRoiRect { x: 362, y: 214, width: 90, height: 18 } }
    } else if i == 41 {
        AtlasSlot { scene: SceneType::ResultFreestyle, roi: RoiName::DiffPanelMx, src_rect: RawRoiRect { x: 949, y: 86, width: 90, height: 18 }, atlas_rect: RawRoiRect { x: 413, y: 232, width: 90, height: 18 } }
    } else if i == 42 {
        AtlasSlot { scene: SceneType::ResultFreestyle, roi: RoiName::DiffPanelSc, src_rect: RawRoiRect { x: 1069, y: 86, width: 90, height: 18 }, atlas_rect: RawRoiRect { x: 413, y: 250, width: 90, height: 18 } }
    } else if i == 43 {
        AtlasSlot { scene: SceneType::Freestyle, roi: RoiName::BtnMode, src_rect: RawRoiRect { x: 80, y: 130, width: 5, height: 5 }, atlas_rect: RawRoiRect { x: 359, y: 162, width: 5, height: 5 } }
    } else if i == 44 {
        AtlasSlot { scene: SceneType::OpenMatch, roi: RoiName::BtnMode, src_rect: RawRoiRect { x: 60, y: 130, width: 5, height: 5 }, atlas_rect: RawRoiRect { x: 0, y: 506, width: 5, height: 5 } }
    } else if i == 45 {
        AtlasSlot { scene: SceneType::ResultOpen3, roi: RoiName::OpenmatchMode, src_rect: RawRoiRect { x: 212, y: 830, width: 5, height: 5 }, atlas_rect: RawRoiRect { x: 5, y: 506, width: 5, height: 5 } }
    } else {
        AtlasSlot { scene: SceneType::ResultOpen2, roi: RoiName::OpenmatchMode, src_rect: RawRoiRect { x: 312, y: 830, width: 5, height: 5 }, atlas_rect: RawRoiRect { x: 10, y: 506, width: 5, height: 5 } }
    }
}

/// Slot `i` of the atlas layout.
pub fn atlas_slot(i: usize) -> (res: AtlasSlot)
    requires
        i < ATLAS_SLOT_COUNT,
    ensures
        res == spec_atlas_slot(i as int),
{
    match i {
        0 => AtlasSlot { scene: SceneType::Freestyle, roi: RoiName::GpCenterLeft, src_rect: RawRoiRect { x: 702, y: 80, width: 7, height: 257 }, atlas_rect: RawRoiRect { x: 0, y: 0, width: 7, height: 257 } },
        1 => AtlasSlot { scene: SceneType::Freestyle, roi: RoiName::GpCenterRight, src_rect: RawRoiRect { x: 1211, y: 80, width: 7, height: 257 }, atlas_rect: RawRoiRect { x: 7, y: 0, width: 7, height: 257 } },
        2 => AtlasSlot { scene: SceneType::Freestyle, roi: RoiName::GpLeftLeft, src_rect: RawRoiRect { x: 102, y: 80, width: 7, height: 257 }, atlas_rect: RawRoiRect { x: 14, y: 0, width: 7, height: 257 } },
        3 => AtlasSlot { scene: SceneType::Freestyle, roi: RoiName::GpLeftRight, src_rect: RawRoiRect { x: 611, y: 80, width: 7, height: 257 }, atlas_rect: RawRoiRect { x: 21, y: 0, width: 7, height: 257 } },
        4 => AtlasSlot { scene: SceneType::Freestyle, roi: RoiName::GpRightLeft, src_rect: RawRoiRect { x: 1342, y: 80, width: 7, height: 257 }, atlas_rect: RawRoiRect { x: 28, y: 0, width: 7, height: 257 } },
        5 => AtlasSlot { scene: SceneType::Freestyle, roi: RoiName::GpRightRight, src_rect: RawRoiRect { x: 1851, y: 80, width: 7, height: 257 }, atlas_rect: RawRoiRect { x: 35, y: 0, width: 7, height: 257 } },
        6 => AtlasSlot { scene: SceneType::ResultFreestyle, roi: RoiName::ModeColorbar, src_rect: RawRoiRect { x: 52, y: 0, width: 22, height: 96 }, atlas_rect: RawRoiRect { x: 0, y: 257, width: 22, height: 96 } },
        7 => AtlasSlot { scene: SceneType::ResultFreestyle, roi: RoiName::Score, src_rect: RawRoiRect { x: 759, y: 710, width: 407, height: 94 }, atlas_rect: RawRoiRect { x: 42, y: 0, width: 407, height: 94 } },
        8 => AtlasSlot { scene: SceneType::ResultFreestyle, roi: RoiName::MaxComboBadge, src_rect: RawRoiRect { x: 1024, y: 521, width: 75, height: 75 }, atlas_rect: RawRoiRect { x: 0, y: 353, width: 75, height: 75 } },
        9 => AtlasSlot { scene: SceneType::ResultOpen3, roi: RoiName::MaxComboBadge, src_rect: RawRoiRect { x: 437, y: 591, width: 75, height: 75 }, atlas_rect: RawRoiRect { x: 0, y: 428, width: 75, height: 75 } },
        10 => AtlasSlot { scene: SceneType::ResultOpen2, roi: RoiName::MaxComboBadge, src_rect: RawRoiRect { x: 537, y: 591, width: 75, height: 75 }, atlas_rect: RawRoiRect { x: 22, y: 257, width: 75, height: 75 } },
        11 => AtlasSlot { scene: SceneType::ResultOpen3, roi: RoiName::Score, src_rect: RawRoiRect { x: 211, y: 753, width: 317, height: 74 }, atlas_rect: RawRoiRect { x: 42, y: 94, width: 317, height: 74 } },
        12 => AtlasSlot { scene: SceneType::ResultOpen2, roi: RoiName::Score, src_rect: RawRoiRect { x: 311, y: 753, width: 320, height: 72 }, atlas_rect: RawRoiRect { x: 42, y: 168, width: 320, height: 72 } },
        13 => AtlasSlot { scene: SceneType::ResultFreestyle, roi: RoiName::ModeDigit, src_rect: RawRoiRect { x: 78, y: 28, width: 50, height: 68 }, atlas_rect: RawRoiRect { x: 359, y: 94, width: 50, height: 68 } },
        14 => AtlasSlot { scene: SceneType::Freestyle, roi: RoiName::Jacket, src_rect: RawRoiRect { x: 710, y: 533, width: 64, height: 60 }, atlas_rect: RawRoiRect { x: 409, y: 94, width: 64, height: 60 } },
        15 => AtlasSlot { scene: SceneType::OpenMatch, roi: RoiName::Jacket, src_rect: RawRoiRect { x: 664, y: 533, width: 64, height: 60 }, atlas_rect: RawRoiRect { x: 409, y: 154, width: 64, height: 60 } },
        16 => AtlasSlot { scene: SceneType::ResultFreestyle, roi: RoiName::Jacket, src_rect: RawRoiRect { x: 705, y: 14, width: 60, height: 60 }, atlas_rect: RawRoiRect { x: 449, y: 0, width: 60, height: 60 } },
        17 => AtlasSlot { scene: SceneType::ResultOpen3, roi: RoiName::PlayerPanel, src_rect: RawRoiRect { x: 212, y: 830, width: 316, height: 40 }, atlas_rect: RawRoiRect { x: 97, y: 240, width: 316, height: 40 } },
        18 => AtlasSlot { scene: SceneType::ResultOpen2, roi: RoiName::PlayerPanel, src_rect: RawRoiRect { x: 312, y: 830, width: 316, height: 40 }, atlas_rect: RawRoiRect { x: 97, y: 280, width: 316, height: 40 } },
        19 => AtlasSlot { scene: SceneType::Freestyle, roi: RoiName::MaxComboBadge, src_rect: RawRoiRect { x: 409, y: 585, width: 36, height: 36 }, atlas_rect: RawRoiRect { x: 473, y: 60, width: 36, height: 36 } },
        20 => AtlasSlot { scene: SceneType::OpenMatch, roi: RoiName::MaxComboBadge, src_rect: RawRoiRect { x: 398, y: 601, width: 36, height: 36 }, atlas_rect: RawRoiRect { x: 473, y: 96, width: 36, height: 36 } },
        21 => AtlasSlot { scene: SceneType::ResultFreestyle, roi: RoiName::Rate, src_rect: RawRoiRect { x: 891, y: 608, width: 129, height: 32 }, atlas_rect: RawRoiRect { x: 75, y: 332, width: 129, height: 32 } },
        22 => AtlasSlot { scene: SceneType::OpenMatch, roi: RoiName::DiffPanelNm, src_rect: RawRoiRect { x: 82, y: 467, width: 116, height: 31 }, atlas_rect: RawRoiRect { x: 75, y: 364, width: 116, height: 31 } },
        23 => AtlasSlot { scene: SceneType::OpenMatch, roi: RoiName::DiffPanelHd, src_rect: RawRoiRect { x: 202, y: 467, width: 116, height: 31 }, atlas_rect: RawRoiRect { x: 75, y: 395, width: 116, height: 31 } },
        24 => AtlasSlot { scene: SceneType::OpenMatch, roi: RoiName::DiffPanelMx, src_rect: RawRoiRect { x: 322, y: 467, width: 116, height: 31 }, atlas_rect: RawRoiRect { x: 75, y: 426, width: 116, height: 31 } },
        25 => AtlasSlot { scene: SceneType::OpenMatch, roi: RoiName::DiffPanelSc, src_rect: RawRoiRect { x: 442, y: 467, width: 116, height: 31 }, atlas_rect: RawRoiRect { x: 75, y: 457, width: 116, height: 31 } },
        26 => AtlasSlot { scene: SceneType::ResultOpen2, roi: RoiName::Rate, src_rect: RawRoiRect { x: 403, y: 673, width: 107, height: 31 }, atlas_rect: RawRoiRect { x: 191, y: 364, width: 107, height: 31 } },
        27 => AtlasSlot { scene: SceneType::ResultOpen3, roi: RoiName::Rate, src_rect: RawRoiRect { x: 293, y: 673, width: 107, height: 30 }, atlas_rect: RawRoiRect { x: 204, y: 320, width: 107, height: 30 } },
        28 => AtlasSlot { scene: SceneType::Freestyle, roi: RoiName::PauseTitle, src_rect: RawRoiRect { x: 731, y: 177, width: 148, height: 28 }, atlas_rect: RawRoiRect { x: 311, y: 320, width: 148, height: 28 } },
        29 => AtlasSlot { scene: SceneType::Freestyle, roi: RoiName::DiffPanelNm, src_rect: RawRoiRect { x: 98, y: 488, width: 110, height: 28 }, atlas_rect: RawRoiRect { x: 191, y: 395, width: 110, height: 28 } },
        30 => AtlasSlot { scene: SceneType::Freestyle, roi: RoiName::DiffPanelHd, src_rect: RawRoiRect { x: 218, y: 488, width: 110, height: 28 }, atlas_rect: RawRoiRect { x: 298, y: 350, width: 110, height: 28 } },
        31 => AtlasSlot { scene: SceneType::Freestyle, roi: RoiName::DiffPanelMx, src_rect: RawRoiRect { x: 338, y: 488, width: 110, height: 28 }, atlas_rect: RawRoiRect { x: 191, y: 423, width: 110, height: 28 } },
        32 => AtlasSlot { scene: SceneType::Freestyle, roi: RoiName::DiffPanelSc, src_rect: RawRoiRect { x: 458, y: 488, width: 110, height: 28 }, atlas_rect: RawRoiRect { x: 191, y: 451, width: 110, height: 28 } },
        33 => AtlasSlot { scene: SceneType::Freestyle, roi: RoiName::Score, src_rect: RawRoiRect { x: 173, y: 558, width: 104, height: 24 }, atlas_rect: RawRoiRect { x: 408, y: 348, width: 104, height: 24 } },
        34 => AtlasSlot { scene: SceneType::Freestyle, roi: RoiName::Rate, src_rect: RawRoiRect { x: 172, y: 583, width: 104, height: 22 }, atlas_rect: RawRoiRect { x: 408, y: 372, width: 104, height: 22 } },
        35 => AtlasSlot { scene: SceneType::OpenMatch, roi: RoiName::Score, src_rect: RawRoiRect { x: 77, y: 558, width: 106, height: 20 }, atlas_rect: RawRoiRect { x: 301, y: 378, width: 106, height: 20 } },
        36 => AtlasSlot { scene: SceneType::OpenMatch, roi: RoiName::Rate, src_rect: RawRoiRect { x: 197, y: 558, width: 103, height: 20 }, atlas_rect: RawRoiRect { x: 407, y: 394, width: 103, height: 20 } },
        37 => AtlasSlot { scene: SceneType::ResultOpen3, roi: RoiName::OpenmatchDiff, src_rect: RawRoiRect { x: 410, y: 841, width: 106, height: 18 }, atlas_rect: RawRoiRect { x: 301, y: 398, width: 106, height: 18 } },
        38 => AtlasSlot { scene: SceneType::ResultOpen2, roi: RoiName::OpenmatchDiff, src_rect: RawRoiRect { x: 510, y: 841, width: 106, height: 18 }, atlas_rect: RawRoiRect { x: 75, y: 488, width: 106, height: 18 } },
        39 => AtlasSlot { scene: SceneType::ResultFreestyle, roi: RoiName::DiffPanelNm, src_rect: RawRoiRect { x: 709, y: 86, width: 90, height: 18 }, atlas_rect: RawRoiRect { x: 181, y: 488, width: 90, height: 18 } },
        40 => AtlasSlot { scene: SceneType::ResultFreestyle, roi: RoiName::DiffPanelHd, src_rect: RawRoiRect { x: 829, y: 86, width: 90, height: 18 }, atlas_rect: RawRoiRect { x: 362, y: 214, width: 90, height: 18 } },
        41 => AtlasSlot { scene: SceneType::ResultFreestyle, roi: RoiName::DiffPanelMx, src_rect: RawRoiRect { x: 949, y: 86, width: 90, height: 18 }, atlas_rect: RawRoiRect { x: 413, y: 232, width: 90, height: 18 } },
        42 => AtlasSlot { scene: SceneType::ResultFreestyle, roi: RoiName::DiffPanelSc, src_rect: RawRoiRect { x: 1069, y: 86, width: 90, height: 18 }, atlas_rect: RawRoiRect { x: 413, y: 250, width: 90, height: 18 } },
        43 => AtlasSlot { scene: SceneType::Freestyle, roi: RoiName::BtnMode, src_rect: RawRoiRect { x: 80, y: 130, width: 5, height: 5 }, atlas_rect: RawRoiRect { x: 359, y: 162, width: 5, height: 5 } },
        44 => AtlasSlot { scene: SceneType::OpenMatch, roi: RoiName::BtnMode, src_rect: RawRoiRect { x: 60, y: 130, width: 5, height: 5 }, atlas_rect: RawRoiRect { x: 0, y: 506, width: 5, height: 5 } },
        45 => AtlasSlot { scene: SceneType::ResultOpen3, roi: RoiName::OpenmatchMode, src_rect: RawRoiRect { x: 212, y: 830, width: 5, height: 5 }, atlas_rect: RawRoiRect { x: 5, y: 506, width: 5, height: 5 } },
        _ => AtlasSlot { scene: SceneType::ResultOpen2, roi: RoiName::OpenmatchMode, src_rect: RawRoiRect { x: 312, y: 830, width: 5, height: 5 }, atlas_rect: RawRoiRect { x: 10, y: 506, width: 5, height: 5 } },
    }
}

/// All slots of the atlas layout, in order.
pub fn atlas_slots() -> (res: Vec<AtlasSlot>)
    ensures
        res@.len() == ATLAS_SLOT_COUNT,
        forall|i: int| 0 <= i < ATLAS_SLOT_COUNT ==> #[trigger] res@[i] == spec_atlas_slot(i),
{
    let mut v: Vec<AtlasSlot> = Vec::new();
    let mut i: usize = 0;
    while i < ATLAS_SLOT_COUNT
        invariant
            i <= ATLAS_SLOT_COUNT,
            v@.len() == i,
            forall|j: int| 0 <= j < i ==> #[trigger] v@[j] == spec_atlas_slot(j),
        decreases ATLAS_SLOT_COUNT - i,
    {
        v.push(atlas_slot(i));
        i += 1;
    }
    v
}

/// `r` lies inside the atlas.
pub open spec fn inside_atlas(r: RawRoiRect) -> bool {
    &&& r.x >= 0
    &&& r.y >= 0
    &&& r.x + r.width <= ATLAS_WIDTH
    &&& r.y + r.height <= ATLAS_HEIGHT
}

/// The two rectangles share no pixel.
pub open spec fn rects_disjoint(a: RawRoiRect, b: RawRoiRect) -> bool {
    ||| a.x + a.width <= b.x
    ||| b.x + b.width <= a.x
    ||| a.y + a.height <= b.y
    ||| b.y + b.height <= a.y
}

/// Every slot lies inside the atlas.
pub proof fn lemma_slot_inside_atlas(i: int)
    requires
        0 <= i < ATLAS_SLOT_COUNT,
    ensures
        inside_atlas(spec_atlas_slot(i).atlas_rect),
{
}

/// Every slot has a positive size, and its atlas placement has the size of its
/// source rectangle, so that copying is lossless.
pub proof fn lemma_slot_dimensions(i: int)
    requires
        0 <= i < ATLAS_SLOT_COUNT,
    ensures
        spec_atlas_slot(i).src_rect.width > 0,
        spec_atlas_slot(i).src_rect.height > 0,
        spec_atlas_slot(i).src_rect.width == spec_atlas_slot(i).atlas_rect.width,
        spec_atlas_slot(i).src_rect.height == spec_atlas_slot(i).atlas_rect.height,
{
}

/// No two slots overlap in the atlas.
pub proof fn lemma_slots_disjoint(i: int, j: int)
    requires
        0 <= i < ATLAS_SLOT_COUNT,
        0 <= j < ATLAS_SLOT_COUNT,
        i != j,
    ensures
        rects_disjoint(spec_atlas_slot(i).atlas_rect, spec_atlas_slot(j).atlas_rect),
{
}

/// The source rectangle that the layout is meant to copy for region `roi` of
/// `scene`, derived from the reference regions: a difficulty panel is the scene's
/// first panel shifted by the panel offset; the song-select jackets take 4 more
/// columns (the category band at their right edge); the result screen's mode
/// colour bar takes an 8-pixel margin on both sides.
pub open spec fn spec_expected_src(scene: SceneType, roi: RoiName) -> Option<RawRoiRect> {
    match roi.spec_panel_difficulty() {
        Some(d) => match spec_reference_roi(scene, RoiName::DiffPanel) {
            Some(b) => Some(RawRoiRect { x: (b.x + d.spec_panel_offset()) as i32, ..b }),
            None => None,
        },
        None => match spec_reference_roi(scene, roi) {
            Some(r) => if (scene == SceneType::Freestyle || scene == SceneType::OpenMatch)
                && roi == RoiName::Jacket {
                Some(RawRoiRect { width: (r.width + 4) as i32, ..r })
            } else if scene == SceneType::ResultFreestyle && roi == RoiName::ModeColorbar {
                Some(RawRoiRect { x: (r.x - 8) as i32, width: (r.width + 16) as i32, ..r })
            } else {
                Some(r)
            },
            None => None,
        },
    }
}

/// Every slot copies the source rectangle of its region as the reference regions
/// define it.
pub proof fn lemma_slot_source_matches_reference(i: int)
    requires
        0 <= i < ATLAS_SLOT_COUNT,
    ensures
        spec_expected_src(spec_atlas_slot(i).scene, spec_atlas_slot(i).roi)
            == Some(spec_atlas_slot(i).src_rect),
{
}

/// Number of bytes in one atlas row.
pub const ATLAS_STRIDE: usize = 2048;

/// Number of bytes in the atlas image.
pub const ATLAS_BYTES: usize = 1048576;

/// Slot `s` can be copied from a frame of `w` x `h` pixels: its source
/// rectangle lies inside the frame.
pub open spec fn slot_fits(s: AtlasSlot, w: int, h: int) -> bool {
    &&& s.src_rect.x >= 0
    &&& s.src_rect.y >= 0
    &&& s.src_rect.x + s.src_rect.width <= w
    &&& s.src_rect.y + s.src_rect.height <= h
}

/// Atlas byte `p` belongs to a pixel of slot `s`'s atlas rectangle.
pub open spec fn in_slot(s: AtlasSlot, p: int) -> bool {
    let y = p / (ATLAS_STRIDE as int);
    let xb = p % (ATLAS_STRIDE as int);
    &&& 0 <= p < ATLAS_BYTES
    &&& s.atlas_rect.y <= y < s.atlas_rect.y + s.atlas_rect.height
    &&& s.atlas_rect.x * 4 <= xb < (s.atlas_rect.x + s.atlas_rect.width) * 4
}

/// The index, in a frame `w` pixels wide, of the byte that slot `s` copies to atlas
/// byte `p`.
pub open spec fn source_index(s: AtlasSlot, w: int, p: int) -> int {
    let y = p / (ATLAS_STRIDE as int);
    let xb = p % (ATLAS_STRIDE as int);
    (s.src_rect.y + (y - s.atlas_rect.y)) * w * 4 + s.src_rect.x * 4 + (xb - s.atlas_rect.x * 4)
}

/// `prev` with slot `s` copied in from a frame of `w` x `h` pixels, if it fits.
pub open spec fn paste_slot(prev: Seq<u8>, s: AtlasSlot, w: int, h: int, bgra: Seq<u8>) -> Seq<u8> {
    if slot_fits(s, w, h) {
        Seq::new(prev.len(), |p: int| if in_slot(s, p) { bgra[source_index(s, w, p)] } else { prev[p] })
    } else {
        prev
    }
}

/// The atlas after copying the first `k` slots of the layout, in order, into a
/// blank (all zero) atlas.
pub open spec fn paste_slots(k: int, w: int, h: int, bgra: Seq<u8>) -> Seq<u8>
    decreases k,
{
    if k <= 0 {
        Seq::new(ATLAS_BYTES as nat, |p: int| 0u8)
    } else {
        paste_slot(paste_slots(k - 1, w, h, bgra), spec_atlas_slot(k - 1), w, h, bgra)
    }
}

/// The frame holds every byte that a fitting slot copies.
pub open spec fn frame_covers_slots(frame: CapturedFrame) -> bool {
    forall|i: int|
        0 <= i < ATLAS_SLOT_COUNT && slot_fits(spec_atlas_slot(i), frame.width as int, frame.height as int)
        ==> {
            let r = #[trigger] spec_atlas_slot(i).src_rect;
            (r.y + r.height - 1) * frame.width * 4 + (r.x + r.width) * 4 <= frame.bgra@.len()
        }
}

/// Atlas byte `p` of slot `s` comes before byte column `c` of row `row` of the slot.
pub open spec fn copied_before(s: AtlasSlot, p: int, row: int, c: int) -> bool {
    let y = p / (ATLAS_STRIDE as int) - s.atlas_rect.y;
    let xb = p % (ATLAS_STRIDE as int) - s.atlas_rect.x * 4;
    y < row || (y == row && xb < c)
}

/// `prev` with the bytes of slot `s` that come before row `row`, byte column `c`
/// copied in.
pub open spec fn partial_paste(prev: Seq<u8>, s: AtlasSlot, w: int, bgra: Seq<u8>, row: int, c: int) -> Seq<u8> {
    Seq::new(prev.len(), |p: int|
        if in_slot(s, p) && copied_before(s, p, row, c) { bgra[source_index(s, w, p)] } else { prev[p] })
}

proof fn lemma_atlas_position(row: int, xb: int)
    requires
        0 <= row,
        0 <= xb < ATLAS_STRIDE,
    ensures
        (row * (ATLAS_STRIDE as int) + xb) / (ATLAS_STRIDE as int) == row,
        (row * (ATLAS_STRIDE as int) + xb) % (ATLAS_STRIDE as int) == xb,
{
    vstd::arithmetic::div_mod::lemma_fundamental_div_mod_converse(
        row * (ATLAS_STRIDE as int) + xb, ATLAS_STRIDE as int, row, xb);
}

proof fn lemma_source_in_bounds(sy: int, sh: int, row: int, w: int, sx: int, sw: int, c: int, len: int)
    requires
        0 <= row < sh,
        0 <= sy,
        0 <= sx,
        0 <= w,
        0 <= c < sw * 4,
        (sy + sh - 1) * w * 4 + (sx + sw) * 4 <= len,
    ensures
        0 <= (sy + row) * w * 4 + sx * 4 + c < len,
        (sy + row) * w * 4 <= (sy + sh - 1) * w * 4,
{
    assert((sy + row) * w * 4 <= (sy + sh - 1) * w * 4) by (nonlinear_arith)
        requires row <= sh - 1, 0 <= w, 0 <= sy + row;
    assert(0 <= (sy + row) * w * 4) by (nonlinear_arith)
        requires 0 <= w, 0 <= sy + row;
}

/// Copies slot `s` from `frame` into `atlas`.
fn paste_slot_exec(atlas: &mut Vec<u8>, s: AtlasSlot, frame: &CapturedFrame)
    requires
        old(atlas)@.len() == ATLAS_BYTES,
        inside_atlas(s.atlas_rect),
        crate::geometry::raw_corners_fit(s.src_rect),
        s.src_rect.width == s.atlas_rect.width,
        s.src_rect.height == s.atlas_rect.height,
        s.src_rect.width > 0,
        s.src_rect.height > 0,
        frame.width <= i32::MAX / 4,
        slot_fits(s, frame.width as int, frame.height as int) ==> {
            let r = s.src_rect;
            (r.y + r.height - 1) * frame.width * 4 + (r.x + r.width) * 4 <= frame.bgra@.len()
        },
    ensures
        final(atlas)@ == paste_slot(old(atlas)@, s, frame.width as int, frame.height as int, frame.bgra@),
{
    let sx = s.src_rect.x;
    let sy = s.src_rect.y;
    let sw = s.src_rect.width;
    let sh = s.src_rect.height;
    let ax = s.atlas_rect.x;
    let ay = s.atlas_rect.y;
    let frame_w = frame.width;
    let frame_h = frame.height;
    if sx < 0 || sy < 0 || sx + sw > frame_w || sy + sh > frame_h {
        return;
    }
    let ghost prev = atlas@;
    let ghost w = frame_w as int;
    let frame_len = frame.bgra.len();
    let src_stride: usize = (frame_w * 4) as usize;
    let copy_bytes: usize = (sw * 4) as usize;
    let mut row: i32 = 0;
    proof {
        assert(atlas@ =~= partial_paste(prev, s, w, frame.bgra@, 0, 0));
    }
    while row < sh
        invariant
            0 <= row <= sh,
            sx == s.src_rect.x, sy == s.src_rect.y, sw == s.src_rect.width, sh == s.src_rect.height,
            ax == s.atlas_rect.x, ay == s.atlas_rect.y,
            sw == s.atlas_rect.width, sh == s.atlas_rect.height,
            inside_atlas(s.atlas_rect),
            sw > 0, sh > 0, sx >= 0, sy >= 0,
            frame_w == frame.width, w == frame_w as int,
            src_stride == w * 4,
            copy_bytes == sw * 4,
            slot_fits(s, frame.width as int, frame.height as int),
            (sy + sh - 1) * w * 4 + (sx + sw) * 4 <= frame.bgra@.len(),
            frame_len == frame.bgra@.len(),
            prev.len() == ATLAS_BYTES,
            atlas@ == partial_paste(prev, s, w, frame.bgra@, row as int, 0),
        decreases sh - row,
    {
        proof {
            lemma_source_in_bounds(sy as int, sh as int, row as int, w, sx as int, sw as int, 0, frame.bgra@.len() as int);
            assert((sy + row) * (w * 4) == (sy + row) * w * 4) by (nonlinear_arith);
        }
        let src_row: usize = ((sy + row) as usize) * src_stride + (sx as usize) * 4;
        let dst_row: usize = ((ay + row) as usize) * ATLAS_STRIDE + (ax as usize) * 4;
        let mut c: usize = 0;
        while c < copy_bytes
            invariant
                0 <= row < sh,
                0 <= c <= copy_bytes,
                sx == s.src_rect.x, sy == s.src_rect.y, sw == s.src_rect.width, sh == s.src_rect.height,
                ax == s.atlas_rect.x, ay == s.atlas_rect.y,
                sw == s.atlas_rect.width, sh == s.atlas_rect.height,
                inside_atlas(s.atlas_rect),
                sw > 0, sh > 0, sx >= 0, sy >= 0,
                w == frame.width as int,
                src_stride == w * 4,
                copy_bytes == sw * 4,
                src_row == (sy + row) * w * 4 + sx * 4,
                dst_row == (ay + row) * (ATLAS_STRIDE as int) + ax * 4,
                (sy + sh - 1) * w * 4 + (sx + sw) * 4 <= frame.bgra@.len(),
                frame_len == frame.bgra@.len(),
                prev.len() == ATLAS_BYTES,
                atlas@ == partial_paste(prev, s, w, frame.bgra@, row as int, c as int),
            decreases copy_bytes - c,
        {
            proof {
                lemma_source_in_bounds(sy as int, sh as int, row as int, w, sx as int, sw as int, c as int, frame.bgra@.len() as int);
                lemma_atlas_position((ay + row) as int, (ax * 4 + c) as int);
            }
            let ghost dst = dst_row + c;
            let v = frame.bgra[src_row + c];
            atlas.set(dst_row + c, v);
            proof {
                assert(in_slot(s, dst));
                assert(source_index(s, w, dst) == src_row + c);
                assert forall|p: int| 0 <= p < prev.len() implies #[trigger] atlas@[p]
                    == partial_paste(prev, s, w, frame.bgra@, row as int, c + 1)[p] by {
                    vstd::arithmetic::div_mod::lemma_fundamental_div_mod(p, ATLAS_STRIDE as int);
                }
                assert(atlas@ =~= partial_paste(prev, s, w, frame.bgra@, row as int, c + 1));
            }
            c += 1;
        }
        proof {
            assert(atlas@ =~= partial_paste(prev, s, w, frame.bgra@, row + 1, 0));
        }
        row += 1;
    }
    proof {
        assert(atlas@ =~= paste_slot(prev, s, frame.width as int, frame.height as int, frame.bgra@));
    }
}

/// Builds the atlas from a full frame on the CPU: every slot whose source
/// rectangle lies inside the frame is copied, byte for byte, to its atlas
/// rectangle; everything else stays zero.
pub fn build_virtual_atlas(frame: &CapturedFrame) -> (res: CapturedFrame)
    requires
        i32::MIN / 4 <= frame.width <= i32::MAX / 4,
        frame_covers_slots(*frame),
    ensures
        res.width == ATLAS_WIDTH,
        res.height == ATLAS_HEIGHT,
        res.bgra@ == paste_slots(ATLAS_SLOT_COUNT as int, frame.width as int, frame.height as int, frame.bgra@),
{
    let mut atlas_bgra: Vec<u8> = Vec::new();
    while atlas_bgra.len() < ATLAS_BYTES
        invariant
            atlas_bgra@.len() <= ATLAS_BYTES,
            forall|p: int| 0 <= p < atlas_bgra@.len() ==> atlas_bgra@[p] == 0u8,
        decreases ATLAS_BYTES - atlas_bgra@.len(),
    {
        atlas_bgra.push(0u8);
    }
    proof {
        assert(atlas_bgra@ =~= paste_slots(0, frame.width as int, frame.height as int, frame.bgra@));
    }
    let mut i: usize = 0;
    while i < ATLAS_SLOT_COUNT
        invariant
            i <= ATLAS_SLOT_COUNT,
            i32::MIN / 4 <= frame.width <= i32::MAX / 4,
            frame_covers_slots(*frame),
            atlas_bgra@ == paste_slots(i as int, frame.width as int, frame.height as int, frame.bgra@),
        decreases ATLAS_SLOT_COUNT - i,
    {
        let slot = atlas_slot(i);
        proof {
            lemma_slot_inside_atlas(i as int);
            lemma_slot_dimensions(i as int);
            lemma_paste_slots_len(i as int, frame.width as int, frame.height as int, frame.bgra@);
            assert(spec_atlas_slot(i as int).src_rect == slot.src_rect);
        }
        paste_slot_exec(&mut atlas_bgra, slot, frame);
        i += 1;
    }
    CapturedFrame { width: ATLAS_WIDTH as i32, height: ATLAS_HEIGHT as i32, bgra: atlas_bgra }
}

proof fn lemma_in_two_slots(a: AtlasSlot, b: AtlasSlot, p: int)
    requires
        in_slot(a, p),
        in_slot(b, p),
    ensures
        !rects_disjoint(a.atlas_rect, b.atlas_rect),
{
}

proof fn lemma_paste_slots_len(k: int, w: int, h: int, bgra: Seq<u8>)
    ensures
        paste_slots(k, w, h, bgra).len() == ATLAS_BYTES,
    decreases k,
{
    if k > 0 {
        lemma_paste_slots_len(k - 1, w, h, bgra);
    }
}

proof fn lemma_paste_slots_at(k: int, w: int, h: int, bgra: Seq<u8>, i: int, p: int)
    requires
        0 <= i < k <= ATLAS_SLOT_COUNT,
        slot_fits(spec_atlas_slot(i), w, h),
        in_slot(spec_atlas_slot(i), p),
    ensures
        paste_slots(k, w, h, bgra)[p] == bgra[source_index(spec_atlas_slot(i), w, p)],
    decreases k,
{
    lemma_paste_slots_len(k - 1, w, h, bgra);
    if k - 1 != i {
        lemma_paste_slots_at(k - 1, w, h, bgra, i, p);
        if in_slot(spec_atlas_slot(k - 1), p) {
            lemma_in_two_slots(spec_atlas_slot(i), spec_atlas_slot(k - 1), p);
            lemma_slots_disjoint(i, k - 1);
        }
    }
}

proof fn lemma_paste_slots_blank(k: int, w: int, h: int, bgra: Seq<u8>, p: int)
    requires
        0 <= k <= ATLAS_SLOT_COUNT,
        0 <= p < ATLAS_BYTES,
        forall|i: int| 0 <= i < k && slot_fits(spec_atlas_slot(i), w, h)
            ==> !in_slot(#[trigger] spec_atlas_slot(i), p),
    ensures
        paste_slots(k, w, h, bgra)[p] == 0u8,
    decreases k,
{
    if k > 0 {
        lemma_paste_slots_len(k - 1, w, h, bgra);
        lemma_paste_slots_blank(k - 1, w, h, bgra, p);
    }
}

/// The atlas reproduces the frame exactly: each byte of each slot that lies inside
/// the frame is the frame byte at the same place in the slot's source rectangle
/// (slots never overwrite each other), and every byte outside such slots is zero.
pub proof fn lemma_atlas_pixel_identity(w: int, h: int, bgra: Seq<u8>, p: int)
    requires
        0 <= p < ATLAS_BYTES,
    ensures
        forall|i: int| 0 <= i < ATLAS_SLOT_COUNT && slot_fits(spec_atlas_slot(i), w, h)
            && in_slot(#[trigger] spec_atlas_slot(i), p)
            ==> paste_slots(ATLAS_SLOT_COUNT as int, w, h, bgra)[p]
                == bgra[source_index(spec_atlas_slot(i), w, p)],
        (forall|i: int| 0 <= i < ATLAS_SLOT_COUNT && slot_fits(spec_atlas_slot(i), w, h)
            ==> !in_slot(#[trigger] spec_atlas_slot(i), p))
            ==> paste_slots(ATLAS_SLOT_COUNT as int, w, h, bgra)[p] == 0u8,
{
    assert forall|i: int| 0 <= i < ATLAS_SLOT_COUNT && slot_fits(spec_atlas_slot(i), w, h)
        && in_slot(#[trigger] spec_atlas_slot(i), p)
        implies paste_slots(ATLAS_SLOT_COUNT as int, w, h, bgra)[p]
            == bgra[source_index(spec_atlas_slot(i), w, p)] by {
        lemma_paste_slots_at(ATLAS_SLOT_COUNT as int, w, h, bgra, i, p);
    }
    if forall|i: int| 0 <= i < ATLAS_SLOT_COUNT && slot_fits(spec_atlas_slot(i), w, h)
        ==> !in_slot(#[trigger] spec_atlas_slot(i), p) {
        lemma_paste_slots_blank(ATLAS_SLOT_COUNT as int, w, h, bgra, p);
    }
}

} // verus!
