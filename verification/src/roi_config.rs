use vstd::prelude::*;
use crate::geometry::{Difficulty, RawRoiRect, SceneType};
use crate::text::str_eq;

verus! {

/// The named regions of interest on the game screen.
#[derive(Clone, Copy, Debug, PartialEq, Eq, Hash, Structural)]
pub enum RoiName {
    Jacket,
    Rate,
    Score,
    BtnMode,
    MaxComboBadge,
    DiffPanel,
    DiffPanelNm,
    DiffPanelHd,
    DiffPanelMx,
    DiffPanelSc,
    GpCenterLeft,
    GpCenterRight,
    GpLeftLeft,
    GpLeftRight,
    GpRightLeft,
    GpRightRight,
    PauseTitle,
    Mode,
    ModeDigit,
    ModeColorbar,
    OpenmatchMode,
    OpenmatchDiff,
    PlayerPanel,
}

impl RoiName {
    /// The name under which a region is looked up.
    pub open spec fn spec_text(self) -> Seq<char> {
        match self {
            RoiName::Jacket => "jacket"@,
            RoiName::Rate => "rate"@,
            RoiName::Score => "score"@,
            RoiName::BtnMode => "btn_mode"@,
            RoiName::MaxComboBadge => "max_combo_badge"@,
            RoiName::DiffPanel => "diff_panel"@,
            RoiName::DiffPanelNm => "diff_panel_NM"@,
            RoiName::DiffPanelHd => "diff_panel_HD"@,
            RoiName::DiffPanelMx => "diff_panel_MX"@,
            RoiName::DiffPanelSc => "diff_panel_SC"@,
            RoiName::GpCenterLeft => "gp_center_left"@,
            RoiName::GpCenterRight => "gp_center_right"@,
            RoiName::GpLeftLeft => "gp_left_left"@,
            RoiName::GpLeftRight => "gp_left_right"@,
            RoiName::GpRightLeft => "gp_right_left"@,
            RoiName::GpRightRight => "gp_right_right"@,
            RoiName::PauseTitle => "pause_title"@,
            RoiName::Mode => "mode"@,
            RoiName::ModeDigit => "mode_digit"@,
            RoiName::ModeColorbar => "mode_colorbar"@,
            RoiName::OpenmatchMode => "openmatch_mode"@,
            RoiName::OpenmatchDiff => "openmatch_diff"@,
            RoiName::PlayerPanel => "player_panel"@,
        }
    }

    pub fn as_str(self) -> (res: &'static str)
        ensures
            res@ == self.spec_text(),
    {
        match self {
            RoiName::Jacket => "jacket",
            RoiName::Rate => "rate",
            RoiName::Score => "score",
            RoiName::BtnMode => "btn_mode",
            RoiName::MaxComboBadge => "max_combo_badge",
            RoiName::DiffPanel => "diff_panel",
            RoiName::DiffPanelNm => "diff_panel_NM",
            RoiName::DiffPanelHd => "diff_panel_HD",
            RoiName::DiffPanelMx => "diff_panel_MX",
            RoiName::DiffPanelSc => "diff_panel_SC",
            RoiName::GpCenterLeft => "gp_center_left",
            RoiName::GpCenterRight => "gp_center_right",
            RoiName::GpLeftLeft => "gp_left_left",
            RoiName::GpLeftRight => "gp_left_right",
            RoiName::GpRightLeft => "gp_right_left",
            RoiName::GpRightRight => "gp_right_right",
            RoiName::PauseTitle => "pause_title",
            RoiName::Mode => "mode",
            RoiName::ModeDigit => "mode_digit",
            RoiName::ModeColorbar => "mode_colorbar",
            RoiName::OpenmatchMode => "openmatch_mode",
            RoiName::OpenmatchDiff => "openmatch_diff",
            RoiName::PlayerPanel => "player_panel",
        }
    }

    /// The difficulty whose panel this region is, if it is one of the four
    /// difficulty panels.
    pub open spec fn spec_panel_difficulty(self) -> Option<Difficulty> {
        match self {
            RoiName::DiffPanelNm => Some(Difficulty::NM),
            RoiName::DiffPanelHd => Some(Difficulty::HD),
            RoiName::DiffPanelMx => Some(Difficulty::MX),
            RoiName::DiffPanelSc => Some(Difficulty::SC),
            _ => None,
        }
    }

    /// The region of the `diff` difficulty panel.
    pub open spec fn spec_diff_panel(diff: Difficulty) -> RoiName {
        match diff {
            Difficulty::NM => RoiName::DiffPanelNm,
            Difficulty::HD => RoiName::DiffPanelHd,
            Difficulty::MX => RoiName::DiffPanelMx,
            Difficulty::SC => RoiName::DiffPanelSc,
        }
    }

    /// The region of the `diff` difficulty panel.
    pub fn diff_panel(diff: Difficulty) -> (res: RoiName)
        ensures
            res == Self::spec_diff_panel(diff),
    {
        match diff {
            Difficulty::NM => RoiName::DiffPanelNm,
            Difficulty::HD => RoiName::DiffPanelHd,
            Difficulty::MX => RoiName::DiffPanelMx,
            Difficulty::SC => RoiName::DiffPanelSc,
        }
    }

    /// Distinct regions have distinct names.
    pub proof fn lemma_text_injective(a: RoiName, b: RoiName)
        ensures
            a.spec_text() == b.spec_text() ==> a == b,
    {
        reveal_strlit("jacket");
        reveal_strlit("rate");
        reveal_strlit("score");
        reveal_strlit("btn_mode");
        reveal_strlit("max_combo_badge");
        reveal_strlit("diff_panel");
        reveal_strlit("diff_panel_NM");
        reveal_strlit("diff_panel_HD");
        reveal_strlit("diff_panel_MX");
        reveal_strlit("diff_panel_SC");
        reveal_strlit("gp_center_left");
        reveal_strlit("gp_center_right");
        reveal_strlit("gp_left_left");
        reveal_strlit("gp_left_right");
        reveal_strlit("gp_right_left");
        reveal_strlit("gp_right_right");
        reveal_strlit("pause_title");
        reveal_strlit("mode");
        reveal_strlit("mode_digit");
        reveal_strlit("mode_colorbar");
        reveal_strlit("openmatch_mode");
        reveal_strlit("openmatch_diff");
        reveal_strlit("player_panel");
        if a.spec_text() == b.spec_text() {
            assert(a.spec_text().len() == b.spec_text().len());
            if 0 < a.spec_text().len() { assert(a.spec_text()[0] == b.spec_text()[0]); }
            if 1 < a.spec_text().len() { assert(a.spec_text()[1] == b.spec_text()[1]); }
            if 2 < a.spec_text().len() { assert(a.spec_text()[2] == b.spec_text()[2]); }
            if 3 < a.spec_text().len() { assert(a.spec_text()[3] == b.spec_text()[3]); }
            if 4 < a.spec_text().len() { assert(a.spec_text()[4] == b.spec_text()[4]); }
            if 5 < a.spec_text().len() { assert(a.spec_text()[5] == b.spec_text()[5]); }
            if 6 < a.spec_text().len() { assert(a.spec_text()[6] == b.spec_text()[6]); }
            if 7 < a.spec_text().len() { assert(a.spec_text()[7] == b.spec_text()[7]); }
            if 8 < a.spec_text().len() { assert(a.spec_text()[8] == b.spec_text()[8]); }
            if 9 < a.spec_text().len() { assert(a.spec_text()[9] == b.spec_text()[9]); }
            if 10 < a.spec_text().len() { assert(a.spec_text()[10] == b.spec_text()[10]); }
            if 11 < a.spec_text().len() { assert(a.spec_text()[11] == b.spec_text()[11]); }
            if 12 < a.spec_text().len() { assert(a.spec_text()[12] == b.spec_text()[12]); }
            if 13 < a.spec_text().len() { assert(a.spec_text()[13] == b.spec_text()[13]); }
            if 14 < a.spec_text().len() { assert(a.spec_text()[14] == b.spec_text()[14]); }
            if 15 < a.spec_text().len() { assert(a.spec_text()[15] == b.spec_text()[15]); }
        }
    }

    /// The region whose name is `s`, if any.
    pub open spec fn spec_from_text(s: Seq<char>) -> Option<RoiName> {
        if exists|n: RoiName| n.spec_text() == s {
            Some(choose|n: RoiName| n.spec_text() == s)
        } else {
            None
        }
    }

    /// Looking up a region's own name finds that region.
    pub proof fn lemma_from_own_text(n: RoiName)
        ensures
            Self::spec_from_text(n.spec_text()) == Some(n),
    {
        let c = choose|m: RoiName| m.spec_text() == n.spec_text();
        Self::lemma_text_injective(c, n);
    }

    /// The region called `name`, if there is one.
    pub fn from_name(name: &str) -> (res: Option<RoiName>)
        ensures
            res == Self::spec_from_text(name@),
    {
        if str_eq(name, "jacket") {
            proof {
                Self::lemma_from_own_text(RoiName::Jacket);
            }
            return Some(RoiName::Jacket);
        }
        if str_eq(name, "rate") {
            proof {
                Self::lemma_from_own_text(RoiName::Rate);
            }
            return Some(RoiName::Rate);
        }
        if str_eq(name, "score") {
            proof {
                Self::lemma_from_own_text(RoiName::Score);
            }
            return Some(RoiName::Score);
        }
        if str_eq(name, "btn_mode") {
            proof {
                Self::lemma_from_own_text(RoiName::BtnMode);
            }
            return Some(RoiName::BtnMode);
        }
        if str_eq(name, "max_combo_badge") {
            proof {
                Self::lemma_from_own_text(RoiName::MaxComboBadge);
            }
            return Some(RoiName::MaxComboBadge);
        }
        if str_eq(name, "diff_panel") {
            proof {
                Self::lemma_from_own_text(RoiName::DiffPanel);
            }
            return Some(RoiName::DiffPanel);
        }
        if str_eq(name, "diff_panel_NM") {
            proof {
                Self::lemma_from_own_text(RoiName::DiffPanelNm);
            }
            return Some(RoiName::DiffPanelNm);
        }
        if str_eq(name, "diff_panel_HD") {
            proof {
                Self::lemma_from_own_text(RoiName::DiffPanelHd);
            }
            return Some(RoiName::DiffPanelHd);
        }
        if str_eq(name, "diff_panel_MX") {
            proof {
                Self::lemma_from_own_text(RoiName::DiffPanelMx);
            }
            return Some(RoiName::DiffPanelMx);
        }
        if str_eq(name, "diff_panel_SC") {
            proof {
                Self::lemma_from_own_text(RoiName::DiffPanelSc);
            }
            return Some(RoiName::DiffPanelSc);
        }
        if str_eq(name, "gp_center_left") {
            proof {
                Self::lemma_from_own_text(RoiName::GpCenterLeft);
            }
            return Some(RoiName::GpCenterLeft);
        }
        if str_eq(name, "gp_center_right") {
            proof {
                Self::lemma_from_own_text(RoiName::GpCenterRight);
            }
            return Some(RoiName::GpCenterRight);
        }
        if str_eq(name, "gp_left_left") {
            proof {
                Self::lemma_from_own_text(RoiName::GpLeftLeft);
            }
            return Some(RoiName::GpLeftLeft);
        }
        if str_eq(name, "gp_left_right") {
            proof {
                Self::lemma_from_own_text(RoiName::GpLeftRight);
            }
            return Some(RoiName::GpLeftRight);
        }
        if str_eq(name, "gp_right_left") {
            proof {
                Self::lemma_from_own_text(RoiName::GpRightLeft);
            }
            return Some(RoiName::GpRightLeft);
        }
        if str_eq(name, "gp_right_right") {
            proof {
                Self::lemma_from_own_text(RoiName::GpRightRight);
            }
            return Some(RoiName::GpRightRight);
        }
        if str_eq(name, "pause_title") {
            proof {
                Self::lemma_from_own_text(RoiName::PauseTitle);
            }
            return Some(RoiName::PauseTitle);
        }
        if str_eq(name, "mode") {
            proof {
                Self::lemma_from_own_text(RoiName::Mode);
            }
            return Some(RoiName::Mode);
        }
        if str_eq(name, "mode_digit") {
            proof {
                Self::lemma_from_own_text(RoiName::ModeDigit);
            }
            return Some(RoiName::ModeDigit);
        }
        if str_eq(name, "mode_colorbar") {
            proof {
                Self::lemma_from_own_text(RoiName::ModeColorbar);
            }
            return Some(RoiName::ModeColorbar);
        }
        if str_eq(name, "openmatch_mode") {
            proof {
                Self::lemma_from_own_text(RoiName::OpenmatchMode);
            }
            return Some(RoiName::OpenmatchMode);
        }
        if str_eq(name, "openmatch_diff") {
            proof {
                Self::lemma_from_own_text(RoiName::OpenmatchDiff);
            }
            return Some(RoiName::OpenmatchDiff);
        }
        if str_eq(name, "player_panel") {
            proof {
                Self::lemma_from_own_text(RoiName::PlayerPanel);
            }
            return Some(RoiName::PlayerPanel);
        }
        None
    }
}

/// The regions of each scene, in 1080p reference coordinates.
pub open spec fn spec_reference_roi(scene: SceneType, name: RoiName) -> Option<RawRoiRect> {
    match scene {
        SceneType::Freestyle => match name {
            RoiName::Jacket => Some(RawRoiRect { x: 710, y: 533, width: 60, height: 60 }),
            RoiName::Rate => Some(RawRoiRect { x: 172, y: 583, width: 104, height: 22 }),
            RoiName::Score => Some(RawRoiRect { x: 173, y: 558, width: 104, height: 24 }),
            RoiName::BtnMode => Some(RawRoiRect { x: 80, y: 130, width: 5, height: 5 }),
            RoiName::MaxComboBadge => Some(RawRoiRect { x: 409, y: 585, width: 36, height: 36 }),
            RoiName::DiffPanel => Some(RawRoiRect { x: 98, y: 488, width: 110, height: 28 }),
            RoiName::GpCenterLeft => Some(RawRoiRect { x: 702, y: 80, width: 7, height: 257 }),
            RoiName::GpCenterRight => Some(RawRoiRect { x: 1211, y: 80, width: 7, height: 257 }),
            RoiName::GpLeftLeft => Some(RawRoiRect { x: 102, y: 80, width: 7, height: 257 }),
            RoiName::GpLeftRight => Some(RawRoiRect { x: 611, y: 80, width: 7, height: 257 }),
            RoiName::GpRightLeft => Some(RawRoiRect { x: 1342, y: 80, width: 7, height: 257 }),
            RoiName::GpRightRight => Some(RawRoiRect { x: 1851, y: 80, width: 7, height: 257 }),
            RoiName::PauseTitle => Some(RawRoiRect { x: 731, y: 177, width: 148, height: 28 }),
            _ => None,
        },
        SceneType::OpenMatch | SceneType::LadderMatch => match name {
            RoiName::Jacket => Some(RawRoiRect { x: 664, y: 533, width: 60, height: 60 }),
            RoiName::Rate => Some(RawRoiRect { x: 197, y: 558, width: 103, height: 20 }),
            RoiName::Score => Some(RawRoiRect { x: 77, y: 558, width: 106, height: 20 }),
            RoiName::BtnMode => Some(RawRoiRect { x: 60, y: 130, width: 5, height: 5 }),
            RoiName::MaxComboBadge => Some(RawRoiRect { x: 398, y: 601, width: 36, height: 36 }),
            RoiName::DiffPanel => Some(RawRoiRect { x: 82, y: 467, width: 116, height: 31 }),
            _ => None,
        },
        SceneType::ResultFreestyle => match name {
            RoiName::Jacket => Some(RawRoiRect { x: 705, y: 14, width: 60, height: 60 }),
            RoiName::Rate => Some(RawRoiRect { x: 891, y: 608, width: 129, height: 32 }),
            RoiName::Mode => Some(RawRoiRect { x: 0, y: 18, width: 340, height: 75 }),
            RoiName::ModeDigit => Some(RawRoiRect { x: 78, y: 28, width: 50, height: 68 }),
            RoiName::ModeColorbar => Some(RawRoiRect { x: 60, y: 0, width: 6, height: 96 }),
            RoiName::DiffPanel => Some(RawRoiRect { x: 709, y: 86, width: 90, height: 18 }),
            RoiName::MaxComboBadge => Some(RawRoiRect { x: 1024, y: 521, width: 75, height: 75 }),
            RoiName::Score => Some(RawRoiRect { x: 759, y: 710, width: 407, height: 94 }),
            _ => None,
        },
        SceneType::ResultOpen3 => match name {
            RoiName::Jacket => Some(RawRoiRect { x: 705, y: 14, width: 60, height: 60 }),
            RoiName::Rate => Some(RawRoiRect { x: 293, y: 673, width: 107, height: 30 }),
            RoiName::OpenmatchMode => Some(RawRoiRect { x: 212, y: 830, width: 5, height: 5 }),
            RoiName::OpenmatchDiff => Some(RawRoiRect { x: 410, y: 841, width: 106, height: 18 }),
            RoiName::MaxComboBadge => Some(RawRoiRect { x: 437, y: 591, width: 75, height: 75 }),
            RoiName::Score => Some(RawRoiRect { x: 211, y: 753, width: 317, height: 74 }),
            RoiName::PlayerPanel => Some(RawRoiRect { x: 212, y: 830, width: 316, height: 40 }),
            _ => None,
        },
        SceneType::ResultOpen2 => match name {
            RoiName::Jacket => Some(RawRoiRect { x: 705, y: 14, width: 60, height: 60 }),
            RoiName::Rate => Some(RawRoiRect { x: 403, y: 673, width: 107, height: 31 }),
            RoiName::OpenmatchMode => Some(RawRoiRect { x: 312, y: 830, width: 5, height: 5 }),
            RoiName::OpenmatchDiff => Some(RawRoiRect { x: 510, y: 841, width: 106, height: 18 }),
            RoiName::MaxComboBadge => Some(RawRoiRect { x: 537, y: 591, width: 75, height: 75 }),
            RoiName::Score => Some(RawRoiRect { x: 311, y: 753, width: 320, height: 72 }),
            RoiName::PlayerPanel => Some(RawRoiRect { x: 312, y: 830, width: 316, height: 40 }),
            _ => None,
        },
        _ => None,
    }
}

/// The regions of each scene, in 1080p reference coordinates.
pub fn reference_roi(scene: SceneType, name: RoiName) -> (res: Option<RawRoiRect>)
    ensures
        res == spec_reference_roi(scene, name),
{
    match scene {
        SceneType::Freestyle => match name {
            RoiName::Jacket => Some(RawRoiRect { x: 710, y: 533, width: 60, height: 60 }),
            RoiName::Rate => Some(RawRoiRect { x: 172, y: 583, width: 104, height: 22 }),
            RoiName::Score => Some(RawRoiRect { x: 173, y: 558, width: 104, height: 24 }),
            RoiName::BtnMode => Some(RawRoiRect { x: 80, y: 130, width: 5, height: 5 }),
            RoiName::MaxComboBadge => Some(RawRoiRect { x: 409, y: 585, width: 36, height: 36 }),
            RoiName::DiffPanel => Some(RawRoiRect { x: 98, y: 488, width: 110, height: 28 }),
            RoiName::GpCenterLeft => Some(RawRoiRect { x: 702, y: 80, width: 7, height: 257 }),
            RoiName::GpCenterRight => Some(RawRoiRect { x: 1211, y: 80, width: 7, height: 257 }),
            RoiName::GpLeftLeft => Some(RawRoiRect { x: 102, y: 80, width: 7, height: 257 }),
            RoiName::GpLeftRight => Some(RawRoiRect { x: 611, y: 80, width: 7, height: 257 }),
            RoiName::GpRightLeft => Some(RawRoiRect { x: 1342, y: 80, width: 7, height: 257 }),
            RoiName::GpRightRight => Some(RawRoiRect { x: 1851, y: 80, width: 7, height: 257 }),
            RoiName::PauseTitle => Some(RawRoiRect { x: 731, y: 177, width: 148, height: 28 }),
            _ => None,
        },
        SceneType::OpenMatch | SceneType::LadderMatch => match name {
            RoiName::Jacket => Some(RawRoiRect { x: 664, y: 533, width: 60, height: 60 }),
            RoiName::Rate => Some(RawRoiRect { x: 197, y: 558, width: 103, height: 20 }),
            RoiName::Score => Some(RawRoiRect { x: 77, y: 558, width: 106, height: 20 }),
            RoiName::BtnMode => Some(RawRoiRect { x: 60, y: 130, width: 5, height: 5 }),
            RoiName::MaxComboBadge => Some(RawRoiRect { x: 398, y: 601, width: 36, height: 36 }),
            RoiName::DiffPanel => Some(RawRoiRect { x: 82, y: 467, width: 116, height: 31 }),
            _ => None,
        },
        SceneType::ResultFreestyle => match name {
            RoiName::Jacket => Some(RawRoiRect { x: 705, y: 14, width: 60, height: 60 }),
            RoiName::Rate => Some(RawRoiRect { x: 891, y: 608, width: 129, height: 32 }),
            RoiName::Mode => Some(RawRoiRect { x: 0, y: 18, width: 340, height: 75 }),
            RoiName::ModeDigit => Some(RawRoiRect { x: 78, y: 28, width: 50, height: 68 }),
            RoiName::ModeColorbar => Some(RawRoiRect { x: 60, y: 0, width: 6, height: 96 }),
            RoiName::DiffPanel => Some(RawRoiRect { x: 709, y: 86, width: 90, height: 18 }),
            RoiName::MaxComboBadge => Some(RawRoiRect { x: 1024, y: 521, width: 75, height: 75 }),
            RoiName::Score => Some(RawRoiRect { x: 759, y: 710, width: 407, height: 94 }),
            _ => None,
        },
        SceneType::ResultOpen3 => match name {
            RoiName::Jacket => Some(RawRoiRect { x: 705, y: 14, width: 60, height: 60 }),
            RoiName::Rate => Some(RawRoiRect { x: 293, y: 673, width: 107, height: 30 }),
            RoiName::OpenmatchMode => Some(RawRoiRect { x: 212, y: 830, width: 5, height: 5 }),
            RoiName::OpenmatchDiff => Some(RawRoiRect { x: 410, y: 841, width: 106, height: 18 }),
            RoiName::MaxComboBadge => Some(RawRoiRect { x: 437, y: 591, width: 75, height: 75 }),
            RoiName::Score => Some(RawRoiRect { x: 211, y: 753, width: 317, height: 74 }),
            RoiName::PlayerPanel => Some(RawRoiRect { x: 212, y: 830, width: 316, height: 40 }),
            _ => None,
        },
        SceneType::ResultOpen2 => match name {
            RoiName::Jacket => Some(RawRoiRect { x: 705, y: 14, width: 60, height: 60 }),
            RoiName::Rate => Some(RawRoiRect { x: 403, y: 673, width: 107, height: 31 }),
            RoiName::OpenmatchMode => Some(RawRoiRect { x: 312, y: 830, width: 5, height: 5 }),
            RoiName::OpenmatchDiff => Some(RawRoiRect { x: 510, y: 841, width: 106, height: 18 }),
            RoiName::MaxComboBadge => Some(RawRoiRect { x: 537, y: 591, width: 75, height: 75 }),
            RoiName::Score => Some(RawRoiRect { x: 311, y: 753, width: 320, height: 72 }),
            RoiName::PlayerPanel => Some(RawRoiRect { x: 312, y: 830, width: 316, height: 40 }),
            _ => None,
        },
        _ => None,
    }
}

/// The scenes that have a table of regions; the online lobby's table is empty.
pub open spec fn spec_has_scene(scene: SceneType) -> bool {
    match scene {
        SceneType::Freestyle | SceneType::OpenMatch | SceneType::LadderMatch
        | SceneType::ResultFreestyle | SceneType::ResultOpen3 | SceneType::ResultOpen2
        | SceneType::Online => true,
        _ => false,
    }
}

/// The regions of the reference 1920 x 1080 screen: the logo area, and for each
/// scene its named regions (`reference_roi`).
#[derive(Clone, Copy, Debug, PartialEq, Eq, Structural)]
pub struct GlobalRoiConfig {
    pub logo: RawRoiRect,
}

impl Default for GlobalRoiConfig {
    fn default() -> (res: Self)
        ensures
            res.logo == (RawRoiRect { x: 10, y: 10, width: 100, height: 100 }),
    {
        GlobalRoiConfig { logo: RawRoiRect { x: 10, y: 10, width: 100, height: 100 } }
    }
}

impl GlobalRoiConfig {
    /// Whether `scene` has a table of regions.
    pub fn has_scene(&self, scene: SceneType) -> (res: bool)
        ensures
            res == spec_has_scene(scene),
    {
        match scene {
            SceneType::Freestyle | SceneType::OpenMatch | SceneType::LadderMatch
            | SceneType::ResultFreestyle | SceneType::ResultOpen3 | SceneType::ResultOpen2
            | SceneType::Online => true,
            _ => false,
        }
    }

    /// The region called `name` in the table of `scene`, if it has one.
    pub fn roi(&self, scene: SceneType, name: &str) -> (res: Option<RawRoiRect>)
        ensures
            res == match RoiName::spec_from_text(name@) {
                Some(n) => spec_reference_roi(scene, n),
                None => None,
            },
    {
        match RoiName::from_name(name) {
            Some(n) => reference_roi(scene, n),
            None => None,
        }
    }
}

} // verus!
