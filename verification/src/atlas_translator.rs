use vstd::prelude::*;
use crate::atlas::{spec_atlas_slot, ATLAS_HEIGHT, ATLAS_SLOT_COUNT, ATLAS_WIDTH};
use crate::geometry::{Difficulty, RoiRect, SceneType};
use crate::roi_config::{spec_reference_roi, RoiName};

verus! {

/// Where each region lies inside the packed atlas.
pub open spec fn spec_atlas_roi(scene: SceneType, name: RoiName) -> Option<RoiRect> {
    if (scene == SceneType::ResultFreestyle) && (name == RoiName::ModeColorbar) {
        Some(RoiRect { x1: 8, y1: 257, x2: 14, y2: 353 })
    } else if (scene == SceneType::ResultFreestyle) && (name == RoiName::Score) {
        Some(RoiRect { x1: 42, y1: 0, x2: 449, y2: 94 })
    } else if (scene == SceneType::ResultFreestyle) && (name == RoiName::MaxComboBadge) {
        Some(RoiRect { x1: 0, y1: 353, x2: 75, y2: 428 })
    } else if (scene == SceneType::ResultFreestyle) && (name == RoiName::ModeDigit) {
        Some(RoiRect { x1: 359, y1: 94, x2: 409, y2: 162 })
    } else if (scene == SceneType::ResultFreestyle || scene == SceneType::ResultOpen3 || scene == SceneType::ResultOpen2) && (name == RoiName::Jacket) {
        Some(RoiRect { x1: 449, y1: 0, x2: 509, y2: 60 })
    } else if (scene == SceneType::ResultFreestyle) && (name == RoiName::Rate) {
        Some(RoiRect { x1: 75, y1: 332, x2: 204, y2: 364 })
    } else if (scene == SceneType::ResultFreestyle || scene == SceneType::ResultOpen3 || scene == SceneType::ResultOpen2) && (name == RoiName::DiffPanel || name == RoiName::DiffPanelNm) {
        Some(RoiRect { x1: 181, y1: 488, x2: 271, y2: 506 })
    } else if (scene == SceneType::ResultFreestyle || scene == SceneType::ResultOpen3 || scene == SceneType::ResultOpen2) && (name == RoiName::DiffPanel || name == RoiName::DiffPanelHd) {
        Some(RoiRect { x1: 362, y1: 214, x2: 452, y2: 232 })
    } else if (scene == SceneType::ResultFreestyle || scene == SceneType::ResultOpen3 || scene == SceneType::ResultOpen2) && (name == RoiName::DiffPanel || name == RoiName::DiffPanelMx) {
        Some(RoiRect { x1: 413, y1: 232, x2: 503, y2: 250 })
    } else if (scene == SceneType::ResultFreestyle || scene == SceneType::ResultOpen3 || scene == SceneType::ResultOpen2) && (name == RoiName::DiffPanel || name == RoiName::DiffPanelSc) {
        Some(RoiRect { x1: 413, y1: 250, x2: 503, y2: 268 })
    } else if (scene == SceneType::ResultOpen3) && (name == RoiName::MaxComboBadge) {
        Some(RoiRect { x1: 0, y1: 428, x2: 75, y2: 503 })
    } else if (scene == SceneType::ResultOpen3) && (name == RoiName::Score) {
        Some(RoiRect { x1: 42, y1: 94, x2: 359, y2: 168 })
    } else if (scene == SceneType::ResultOpen3) && (name == RoiName::PlayerPanel) {
        Some(RoiRect { x1: 97, y1: 240, x2: 413, y2: 280 })
    } else if (scene == SceneType::ResultOpen3) && (name == RoiName::Rate) {
        Some(RoiRect { x1: 204, y1: 320, x2: 311, y2: 350 })
    } else if (scene == SceneType::ResultOpen3) && (name == RoiName::OpenmatchDiff) {
        Some(RoiRect { x1: 301, y1: 398, x2: 407, y2: 416 })
    } else if (scene == SceneType::ResultOpen3) && (name == RoiName::OpenmatchMode) {
        Some(RoiRect { x1: 5, y1: 506, x2: 10, y2: 511 })
    } else if (scene == SceneType::ResultOpen2) && (name == RoiName::MaxComboBadge) {
        Some(RoiRect { x1: 22, y1: 257, x2: 97, y2: 332 })
    } else if (scene == SceneType::ResultOpen2) && (name == RoiName::Score) {
        Some(RoiRect { x1: 42, y1: 168, x2: 362, y2: 240 })
    } else if (scene == SceneType::ResultOpen2) && (name == RoiName::PlayerPanel) {
        Some(RoiRect { x1: 97, y1: 280, x2: 413, y2: 320 })
    } else if (scene == SceneType::ResultOpen2) && (name == RoiName::Rate) {
        Some(RoiRect { x1: 191, y1: 364, x2: 298, y2: 395 })
    } else if (scene == SceneType::ResultOpen2) && (name == RoiName::OpenmatchDiff) {
        Some(RoiRect { x1: 75, y1: 488, x2: 181, y2: 506 })
    } else if (scene == SceneType::ResultOpen2) && (name == RoiName::OpenmatchMode) {
        Some(RoiRect { x1: 10, y1: 506, x2: 15, y2: 511 })
    } else if (scene == SceneType::Freestyle) && (name == RoiName::GpCenterLeft) {
        Some(RoiRect { x1: 0, y1: 0, x2: 7, y2: 257 })
    } else if (scene == SceneType::Freestyle) && (name == RoiName::GpCenterRight) {
        Some(RoiRect { x1: 7, y1: 0, x2: 14, y2: 257 })
    } else if (scene == SceneType::Freestyle) && (name == RoiName::GpLeftLeft) {
        Some(RoiRect { x1: 14, y1: 0, x2: 21, y2: 257 })
    } else if (scene == SceneType::Freestyle) && (name == RoiName::GpLeftRight) {
        Some(RoiRect { x1: 21, y1: 0, x2: 28, y2: 257 })
    } else if (scene == SceneType::Freestyle) && (name == RoiName::GpRightLeft) {
        Some(RoiRect { x1: 28, y1: 0, x2: 35, y2: 257 })
    } else if (scene == SceneType::Freestyle) && (name == RoiName::GpRightRight) {
        Some(RoiRect { x1: 35, y1: 0, x2: 42, y2: 257 })
    } else if (scene == SceneType::Freestyle) && (name == RoiName::Jacket) {
        Some(RoiRect { x1: 409, y1: 94, x2: 469, y2: 154 })
    } else if (scene == SceneType::Freestyle) && (name == RoiName::MaxComboBadge) {
        Some(RoiRect { x1: 473, y1: 60, x2: 509, y2: 96 })
    } else if (scene == SceneType::Freestyle) && (name == RoiName::PauseTitle) {
        Some(RoiRect { x1: 311, y1: 320, x2: 459, y2: 348 })
    } else if (scene == SceneType::Freestyle) && (name == RoiName::DiffPanel || name == RoiName::DiffPanelNm) {
        Some(RoiRect { x1: 191, y1: 395, x2: 301, y2: 423 })
    } else if (scene == SceneType::Freestyle) && (name == RoiName::DiffPanel || name == RoiName::DiffPanelHd) {
        Some(RoiRect { x1: 298, y1: 350, x2: 408, y2: 378 })
    } else if (scene == SceneType::Freestyle) && (name == RoiName::DiffPanel || name == RoiName::DiffPanelMx) {
        Some(RoiRect { x1: 191, y1: 423, x2: 301, y2: 451 })
    } else if (scene == SceneType::Freestyle) && (name == RoiName::DiffPanel || name == RoiName::DiffPanelSc) {
        Some(RoiRect { x1: 191, y1: 451, x2: 301, y2: 479 })
    } else if (scene == SceneType::Freestyle) && (name == RoiName::Score) {
        Some(RoiRect { x1: 408, y1: 348, x2: 512, y2: 372 })
    } else if (scene == SceneType::Freestyle) && (name == RoiName::Rate) {
        Some(RoiRect { x1: 408, y1: 372, x2: 512, y2: 394 })
    } else if (scene == SceneType::Freestyle) && (name == RoiName::BtnMode) {
        Some(RoiRect { x1: 359, y1: 162, x2: 364, y2: 167 })
    } else if (scene == SceneType::OpenMatch || scene == SceneType::LadderMatch) && (name == RoiName::Jacket) {
        Some(RoiRect { x1: 409, y1: 154, x2: 469, y2: 214 })
    } else if (scene == SceneType::OpenMatch || scene == SceneType::LadderMatch) && (name == RoiName::MaxComboBadge) {
        Some(RoiRect { x1: 473, y1: 96, x2: 509, y2: 132 })
    } else if (scene == SceneType::OpenMatch || scene == SceneType::LadderMatch) && (name == RoiName::DiffPanel || name == RoiName::DiffPanelNm) {
        Some(RoiRect { x1: 75, y1: 364, x2: 191, y2: 395 })
    } else if (scene == SceneType::OpenMatch || scene == SceneType::LadderMatch) && (name == RoiName::DiffPanel || name == RoiName::DiffPanelHd) {
        Some(RoiRect { x1: 75, y1: 395, x2: 191, y2: 426 })
    } else if (scene == SceneType::OpenMatch || scene == SceneType::LadderMatch) && (name == RoiName::DiffPanel || name == RoiName::DiffPanelMx) {
        Some(RoiRect { x1: 75, y1: 426, x2: 191, y2: 457 })
    } else if (scene == SceneType::OpenMatch || scene == SceneType::LadderMatch) && (name == RoiName::DiffPanel || name == RoiName::DiffPanelSc) {
        Some(RoiRect { x1: 75, y1: 457, x2: 191, y2: 488 })
    } else if (scene == SceneType::OpenMatch || scene == SceneType::LadderMatch) && (name == RoiName::Score) {
        Some(RoiRect { x1: 301, y1: 378, x2: 407, y2: 398 })
    } else if (scene == SceneType::OpenMatch || scene == SceneType::LadderMatch) && (name == RoiName::Rate) {
        Some(RoiRect { x1: 407, y1: 394, x2: 510, y2: 414 })
    } else if (scene == SceneType::OpenMatch || scene == SceneType::LadderMatch) && (name == RoiName::BtnMode) {
        Some(RoiRect { x1: 0, y1: 506, x2: 5, y2: 511 })
    } else {
        None
    }
}

/// Where each difficulty panel lies inside the packed atlas.
pub open spec fn spec_atlas_diff_panel_roi(diff: Difficulty, scene: SceneType) -> Option<RoiRect> {
    if (scene == SceneType::OpenMatch || scene == SceneType::LadderMatch) && diff == Difficulty::NM {
        Some(RoiRect { x1: 75, y1: 364, x2: 191, y2: 395 })
    } else if (scene == SceneType::OpenMatch || scene == SceneType::LadderMatch) && diff == Difficulty::HD {
        Some(RoiRect { x1: 75, y1: 395, x2: 191, y2: 426 })
    } else if (scene == SceneType::OpenMatch || scene == SceneType::LadderMatch) && diff == Difficulty::MX {
        Some(RoiRect { x1: 75, y1: 426, x2: 191, y2: 457 })
    } else if (scene == SceneType::OpenMatch || scene == SceneType::LadderMatch) && diff == Difficulty::SC {
        Some(RoiRect { x1: 75, y1: 457, x2: 191, y2: 488 })
    } else if (scene == SceneType::Freestyle) && diff == Difficulty::NM {
        Some(RoiRect { x1: 191, y1: 395, x2: 301, y2: 423 })
    } else if (scene == SceneType::Freestyle) && diff == Difficulty::HD {
        Some(RoiRect { x1: 298, y1: 350, x2: 408, y2: 378 })
    } else if (scene == SceneType::Freestyle) && diff == Difficulty::MX {
        Some(RoiRect { x1: 191, y1: 423, x2: 301, y2: 451 })
    } else if (scene == SceneType::Freestyle) && diff == Difficulty::SC {
        Some(RoiRect { x1: 191, y1: 451, x2: 301, y2: 479 })
    } else if (scene == SceneType::ResultFreestyle || scene == SceneType::ResultOpen3 || scene == SceneType::ResultOpen2) && diff == Difficulty::NM {
        Some(RoiRect { x1: 181, y1: 488, x2: 271, y2: 506 })
    } else if (scene == SceneType::ResultFreestyle || scene == SceneType::ResultOpen3 || scene == SceneType::ResultOpen2) && diff == Difficulty::HD {
        Some(RoiRect { x1: 362, y1: 214, x2: 452, y2: 232 })
    } else if (scene == SceneType::ResultFreestyle || scene == SceneType::ResultOpen3 || scene == SceneType::ResultOpen2) && diff == Difficulty::MX {
        Some(RoiRect { x1: 413, y1: 232, x2: 503, y2: 250 })
    } else if (scene == SceneType::ResultFreestyle || scene == SceneType::ResultOpen3 || scene == SceneType::ResultOpen2) && diff == Difficulty::SC {
        Some(RoiRect { x1: 413, y1: 250, x2: 503, y2: 268 })
    } else {
        None
    }
}

/// Looks regions up in the packed atlas instead of in a full frame.
pub struct AtlasTranslator;

impl AtlasTranslator {
    /// The atlas rectangle of region `name` of `scene`, if the atlas holds it.
    pub fn get_roi_for_scene(name: &str, scene: SceneType) -> (res: Option<RoiRect>)
        ensures
            res == match RoiName::spec_from_text(name@) {
                Some(n) => spec_atlas_roi(scene, n),
                None => None,
            },
    {
        match RoiName::from_name(name) {
            Some(n) => Self::get_roi(scene, n),
            None => None,
        }
    }

    /// The atlas rectangle of region `name` of `scene`, if the atlas holds it.
    pub fn get_roi(scene: SceneType, name: RoiName) -> (res: Option<RoiRect>)
        ensures
            res == spec_atlas_roi(scene, name),
    {
        if (scene == SceneType::ResultFreestyle) && (name == RoiName::ModeColorbar) {
            Some(RoiRect { x1: 8, y1: 257, x2: 14, y2: 353 })
        } else if (scene == SceneType::ResultFreestyle) && (name == RoiName::Score) {
            Some(RoiRect { x1: 42, y1: 0, x2: 449, y2: 94 })
        } else if (scene == SceneType::ResultFreestyle) && (name == RoiName::MaxComboBadge) {
            Some(RoiRect { x1: 0, y1: 353, x2: 75, y2: 428 })
        } else if (scene == SceneType::ResultFreestyle) && (name == RoiName::ModeDigit) {
            Some(RoiRect { x1: 359, y1: 94, x2: 409, y2: 162 })
        } else if (scene == SceneType::ResultFreestyle || scene == SceneType::ResultOpen3 || scene == SceneType::ResultOpen2) && (name == RoiName::Jacket) {
            Some(RoiRect { x1: 449, y1: 0, x2: 509, y2: 60 })
        } else if (scene == SceneType::ResultFreestyle) && (name == RoiName::Rate) {
            Some(RoiRect { x1: 75, y1: 332, x2: 204, y2: 364 })
        } else if (scene == SceneType::ResultFreestyle || scene == SceneType::ResultOpen3 || scene == SceneType::ResultOpen2) && (name == RoiName::DiffPanel || name == RoiName::DiffPanelNm) {
            Some(RoiRect { x1: 181, y1: 488, x2: 271, y2: 506 })
        } else if (scene == SceneType::ResultFreestyle || scene == SceneType::ResultOpen3 || scene == SceneType::ResultOpen2) && (name == RoiName::DiffPanel || name == RoiName::DiffPanelHd) {
            Some(RoiRect { x1: 362, y1: 214, x2: 452, y2: 232 })
        } else if (scene == SceneType::ResultFreestyle || scene == SceneType::ResultOpen3 || scene == SceneType::ResultOpen2) && (name == RoiName::DiffPanel || name == RoiName::DiffPanelMx) {
            Some(RoiRect { x1: 413, y1: 232, x2: 503, y2: 250 })
        } else if (scene == SceneType::ResultFreestyle || scene == SceneType::ResultOpen3 || scene == SceneType::ResultOpen2) && (name == RoiName::DiffPanel || name == RoiName::DiffPanelSc) {
            Some(RoiRect { x1: 413, y1: 250, x2: 503, y2: 268 })
        } else if (scene == SceneType::ResultOpen3) && (name == RoiName::MaxComboBadge) {
            Some(RoiRect { x1: 0, y1: 428, x2: 75, y2: 503 })
        } else if (scene == SceneType::ResultOpen3) && (name == RoiName::Score) {
            Some(RoiRect { x1: 42, y1: 94, x2: 359, y2: 168 })
        } else if (scene == SceneType::ResultOpen3) && (name == RoiName::PlayerPanel) {
            Some(RoiRect { x1: 97, y1: 240, x2: 413, y2: 280 })
        } else if (scene == SceneType::ResultOpen3) && (name == RoiName::Rate) {
            Some(RoiRect { x1: 204, y1: 320, x2: 311, y2: 350 })
        } else if (scene == SceneType::ResultOpen3) && (name == RoiName::OpenmatchDiff) {
            Some(RoiRect { x1: 301, y1: 398, x2: 407, y2: 416 })
        } else if (scene == SceneType::ResultOpen3) && (name == RoiName::OpenmatchMode) {
            Some(RoiRect { x1: 5, y1: 506, x2: 10, y2: 511 })
        } else if (scene == SceneType::ResultOpen2) && (name == RoiName::MaxComboBadge) {
            Some(RoiRect { x1: 22, y1: 257, x2: 97, y2: 332 })
        } else if (scene == SceneType::ResultOpen2) && (name == RoiName::Score) {
            Some(RoiRect { x1: 42, y1: 168, x2: 362, y2: 240 })
        } else if (scene == SceneType::ResultOpen2) && (name == RoiName::PlayerPanel) {
            Some(RoiRect { x1: 97, y1: 280, x2: 413, y2: 320 })
        } else if (scene == SceneType::ResultOpen2) && (name == RoiName::Rate) {
            Some(RoiRect { x1: 191, y1: 364, x2: 298, y2: 395 })
        } else if (scene == SceneType::ResultOpen2) && (name == RoiName::OpenmatchDiff) {
            Some(RoiRect { x1: 75, y1: 488, x2: 181, y2: 506 })
        } else if (scene == SceneType::ResultOpen2) && (name == RoiName::OpenmatchMode) {
            Some(RoiRect { x1: 10, y1: 506, x2: 15, y2: 511 })
        } else if (scene == SceneType::Freestyle) && (name == RoiName::GpCenterLeft) {
            Some(RoiRect { x1: 0, y1: 0, x2: 7, y2: 257 })
        } else if (scene == SceneType::Freestyle) && (name == RoiName::GpCenterRight) {
            Some(RoiRect { x1: 7, y1: 0, x2: 14, y2: 257 })
        } else if (scene == SceneType::Freestyle) && (name == RoiName::GpLeftLeft) {
            Some(RoiRect { x1: 14, y1: 0, x2: 21, y2: 257 })
        } else if (scene == SceneType::Freestyle) && (name == RoiName::GpLeftRight) {
            Some(RoiRect { x1: 21, y1: 0, x2: 28, y2: 257 })
        } else if (scene == SceneType::Freestyle) && (name == RoiName::GpRightLeft) {
            Some(RoiRect { x1: 28, y1: 0, x2: 35, y2: 257 })
        } else if (scene == SceneType::Freestyle) && (name == RoiName::GpRightRight) {
            Some(RoiRect { x1: 35, y1: 0, x2: 42, y2: 257 })
        } else if (scene == SceneType::Freestyle) && (name == RoiName::Jacket) {
            Some(RoiRect { x1: 409, y1: 94, x2: 469, y2: 154 })
        } else if (scene == SceneType::Freestyle) && (name == RoiName::MaxComboBadge) {
            Some(RoiRect { x1: 473, y1: 60, x2: 509, y2: 96 })
        } else if (scene == SceneType::Freestyle) && (name == RoiName::PauseTitle) {
            Some(RoiRect { x1: 311, y1: 320, x2: 459, y2: 348 })
        } else if (scene == SceneType::Freestyle) && (name == RoiName::DiffPanel || name == RoiName::DiffPanelNm) {
            Some(RoiRect { x1: 191, y1: 395, x2: 301, y2: 423 })
        } else if (scene == SceneType::Freestyle) && (name == RoiName::DiffPanel || name == RoiName::DiffPanelHd) {
            Some(RoiRect { x1: 298, y1: 350, x2: 408, y2: 378 })
        } else if (scene == SceneType::Freestyle) && (name == RoiName::DiffPanel || name == RoiName::DiffPanelMx) {
            Some(RoiRect { x1: 191, y1: 423, x2: 301, y2: 451 })
        } else if (scene == SceneType::Freestyle) && (name == RoiName::DiffPanel || name == RoiName::DiffPanelSc) {
            Some(RoiRect { x1: 191, y1: 451, x2: 301, y2: 479 })
        } else if (scene == SceneType::Freestyle) && (name == RoiName::Score) {
            Some(RoiRect { x1: 408, y1: 348, x2: 512, y2: 372 })
        } else if (scene == SceneType::Freestyle) && (name == RoiName::Rate) {
            Some(RoiRect { x1: 408, y1: 372, x2: 512, y2: 394 })
        } else if (scene == SceneType::Freestyle) && (name == RoiName::BtnMode) {
            Some(RoiRect { x1: 359, y1: 162, x2: 364, y2: 167 })
        } else if (scene == SceneType::OpenMatch || scene == SceneType::LadderMatch) && (name == RoiName::Jacket) {
            Some(RoiRect { x1: 409, y1: 154, x2: 469, y2: 214 })
        } else if (scene == SceneType::OpenMatch || scene == SceneType::LadderMatch) && (name == RoiName::MaxComboBadge) {
            Some(RoiRect { x1: 473, y1: 96, x2: 509, y2: 132 })
        } else if (scene == SceneType::OpenMatch || scene == SceneType::LadderMatch) && (name == RoiName::DiffPanel || name == RoiName::DiffPanelNm) {
            Some(RoiRect { x1: 75, y1: 364, x2: 191, y2: 395 })
        } else if (scene == SceneType::OpenMatch || scene == SceneType::LadderMatch) && (name == RoiName::DiffPanel || name == RoiName::DiffPanelHd) {
            Some(RoiRect { x1: 75, y1: 395, x2: 191, y2: 426 })
        } else if (scene == SceneType::OpenMatch || scene == SceneType::LadderMatch) && (name == RoiName::DiffPanel || name == RoiName::DiffPanelMx) {
            Some(RoiRect { x1: 75, y1: 426, x2: 191, y2: 457 })
        } else if (scene == SceneType::OpenMatch || scene == SceneType::LadderMatch) && (name == RoiName::DiffPanel || name == RoiName::DiffPanelSc) {
            Some(RoiRect { x1: 75, y1: 457, x2: 191, y2: 488 })
        } else if (scene == SceneType::OpenMatch || scene == SceneType::LadderMatch) && (name == RoiName::Score) {
            Some(RoiRect { x1: 301, y1: 378, x2: 407, y2: 398 })
        } else if (scene == SceneType::OpenMatch || scene == SceneType::LadderMatch) && (name == RoiName::Rate) {
            Some(RoiRect { x1: 407, y1: 394, x2: 510, y2: 414 })
        } else if (scene == SceneType::OpenMatch || scene == SceneType::LadderMatch) && (name == RoiName::BtnMode) {
            Some(RoiRect { x1: 0, y1: 506, x2: 5, y2: 511 })
        } else {
            None
        }
    }

    /// The atlas rectangle of the `diff` difficulty panel of `scene`, if the atlas
    /// holds it.
    pub fn get_diff_panel_roi_for_scene(diff: Difficulty, scene: SceneType) -> (res: Option<RoiRect>)
        ensures
            res == spec_atlas_diff_panel_roi(diff, scene),
    {
        if (scene == SceneType::OpenMatch || scene == SceneType::LadderMatch) && diff == Difficulty::NM {
            Some(RoiRect { x1: 75, y1: 364, x2: 191, y2: 395 })
        } else if (scene == SceneType::OpenMatch || scene == SceneType::LadderMatch) && diff == Difficulty::HD {
            Some(RoiRect { x1: 75, y1: 395, x2: 191, y2: 426 })
        } else if (scene == SceneType::OpenMatch || scene == SceneType::LadderMatch) && diff == Difficulty::MX {
            Some(RoiRect { x1: 75, y1: 426, x2: 191, y2: 457 })
        } else if (scene == SceneType::OpenMatch || scene == SceneType::LadderMatch) && diff == Difficulty::SC {
            Some(RoiRect { x1: 75, y1: 457, x2: 191, y2: 488 })
        } else if (scene == SceneType::Freestyle) && diff == Difficulty::NM {
            Some(RoiRect { x1: 191, y1: 395, x2: 301, y2: 423 })
        } else if (scene == SceneType::Freestyle) && diff == Difficulty::HD {
            Some(RoiRect { x1: 298, y1: 350, x2: 408, y2: 378 })
        } else if (scene == SceneType::Freestyle) && diff == Difficulty::MX {
            Some(RoiRect { x1: 191, y1: 423, x2: 301, y2: 451 })
        } else if (scene == SceneType::Freestyle) && diff == Difficulty::SC {
            Some(RoiRect { x1: 191, y1: 451, x2: 301, y2: 479 })
        } else if (scene == SceneType::ResultFreestyle || scene == SceneType::ResultOpen3 || scene == SceneType::ResultOpen2) && diff == Difficulty::NM {
            Some(RoiRect { x1: 181, y1: 488, x2: 271, y2: 506 })
        } else if (scene == SceneType::ResultFreestyle || scene == SceneType::ResultOpen3 || scene == SceneType::ResultOpen2) && diff == Difficulty::HD {
            Some(RoiRect { x1: 362, y1: 214, x2: 452, y2: 232 })
        } else if (scene == SceneType::ResultFreestyle || scene == SceneType::ResultOpen3 || scene == SceneType::ResultOpen2) && diff == Difficulty::MX {
            Some(RoiRect { x1: 413, y1: 232, x2: 503, y2: 250 })
        } else if (scene == SceneType::ResultFreestyle || scene == SceneType::ResultOpen3 || scene == SceneType::ResultOpen2) && diff == Difficulty::SC {
            Some(RoiRect { x1: 413, y1: 250, x2: 503, y2: 268 })
        } else {
            None
        }
    }
}

/// Every atlas slot can be looked up by its scene and name, and the rectangle found
/// lies inside the slot.
pub proof fn lemma_slot_resolves(i: int)
    requires
        0 <= i < ATLAS_SLOT_COUNT,
    ensures
        spec_atlas_roi(spec_atlas_slot(i).scene, spec_atlas_slot(i).roi) matches Some(r) && {
            let a = spec_atlas_slot(i).atlas_rect;
            &&& a.x <= r.x1
            &&& a.y <= r.y1
            &&& r.x2 <= a.x + a.width
            &&& r.y2 <= a.y + a.height
        },
{
}

/// The rectangle found for a slot has the size of the region in a full 1080p frame.
pub proof fn lemma_slot_size_matches_reference(i: int)
    requires
        0 <= i < ATLAS_SLOT_COUNT,
    ensures
        ({
            let s = spec_atlas_slot(i);
            let base = match s.roi.spec_panel_difficulty() {
                Some(_) => RoiName::DiffPanel,
                None => s.roi,
            };
            &&& spec_atlas_roi(s.scene, s.roi) matches Some(r)
            &&& spec_reference_roi(s.scene, base) matches Some(b)
            &&& r.spec_width() == b.width
            &&& r.spec_height() == b.height
        }),
{
}

/// Looking up a difficulty panel directly and by its region name agree.
pub proof fn lemma_diff_panel_by_name(diff: Difficulty, scene: SceneType)
    ensures
        spec_atlas_diff_panel_roi(diff, scene) == spec_atlas_roi(scene, RoiName::spec_diff_panel(diff)),
{
}

/// Every difficulty panel found in the atlas lies inside the atlas.
pub proof fn lemma_diff_panel_inside_atlas(diff: Difficulty, scene: SceneType)
    ensures
        spec_atlas_diff_panel_roi(diff, scene) matches Some(r) ==> {
            &&& 0 <= r.x1
            &&& r.x2 <= ATLAS_WIDTH
            &&& 0 <= r.y1
            &&& r.y2 <= ATLAS_HEIGHT
        },
{
}

/// The ladder match screen shares the open match screen's atlas regions.
pub proof fn lemma_ladder_shares_open_match(name: RoiName)
    ensures
        spec_atlas_roi(SceneType::LadderMatch, name) == spec_atlas_roi(SceneType::OpenMatch, name),
{
}

} // verus!
