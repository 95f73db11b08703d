use vstd::prelude::*;
use crate::text::{
    chars_of, contains_chars, contains_seq, remove_whitespace, spec_to_lowercase, str_eq,
    string_from_chars, to_lowercase, without_white_space,
};

verus! {

/// A downloadable content pack of V-Archive's `dlcs.json`.
#[derive(Clone, Debug)]
pub struct Dlc {
    pub dlc_code: String,
    pub dlc_name: String,
}

/// A label as it is compared: lower-cased, without white space.
pub open spec fn normalized_label(s: Seq<char>) -> Seq<char> {
    without_white_space(spec_to_lowercase(s))
}

/// The pack `d` has the code `dlc` (lower-cased) and a name that names the
/// category `cat`, or is named by it.
pub open spec fn dlc_entry_matches(d: Dlc, cat: Seq<char>, dlc: Seq<char>) -> bool {
    let name = normalized_label(d.dlc_name@);
    &&& spec_to_lowercase(d.dlc_code@) == dlc
    &&& (name == cat || contains_seq(cat, name) || contains_seq(name, cat))
}

/// The built-in names of the categories and the codes of their packs.
pub open spec fn known_alias(cat: Seq<char>, dlc: Seq<char>) -> bool {
    if cat == "respect/v"@ || cat == "respect"@ {
        dlc == "rv"@ || dlc == "r"@
    } else if cat == "emotional.s"@ || cat == "emotionals."@ {
        dlc == "es"@
    } else if cat == "vextension1"@ || cat == "vextension"@ {
        dlc == "ve"@
    } else if cat == "trilogy"@ {
        dlc == "tr"@
    } else if cat == "blacksquare"@ {
        dlc == "bs"@
    } else if cat == "clazziquai"@ {
        dlc == "ce"@
    } else if cat == "technika3"@ {
        dlc == "t3"@
    } else if cat == "technika2"@ {
        dlc == "t2"@
    } else if cat == "technika1"@ || cat == "technika"@ {
        dlc == "t1"@
    } else if cat == "portable3"@ || cat == "pli3"@ {
        dlc == "pli3"@ || dlc == "p3"@
    } else if cat == "portable2"@ || cat == "pli"@ || cat == "pli(상)"@ || cat == "pli(下)"@ {
        dlc == "pli2"@ || dlc == "p2"@
    } else if cat == "portable1"@ || cat == "pli1"@ {
        dlc == "pli1"@ || dlc == "p1"@
    } else if cat == "vextension2"@ {
        dlc == "ve2"@
    } else if cat == "vextension3"@ {
        dlc == "ve3"@
    } else if cat == "ez2on"@ {
        dlc == "ez2"@
    } else if cat == "vextension4"@ {
        dlc == "ve4"@
    } else if cat == "vextension5"@ {
        dlc == "ve5"@
    } else if cat == "vliberty"@ {
        dlc == "vl"@
    } else if cat == "vliberty2"@ {
        dlc == "vl2"@
    } else if cat == "vliberty3"@ {
        dlc == "vl3"@
    } else if cat == "vliberty4"@ {
        dlc == "vl4"@
    } else {
        false
    }
}

/// A category and a pack code, both already normalized, match: one label contains
/// the other, a pack of `dlcs` with that code has a name that matches the
/// category, or the category is a built-in name of that pack.
pub open spec fn spec_labels_match_dlc(cat: Seq<char>, dlc: Seq<char>, dlcs: Seq<Dlc>) -> bool {
    ||| contains_seq(cat, dlc)
    ||| contains_seq(dlc, cat)
    ||| exists|i: int| 0 <= i < dlcs.len() && dlc_entry_matches(#[trigger] dlcs[i], cat, dlc)
    ||| known_alias(cat, dlc)
}

/// A song of the pack `dlc_code` belongs to the category `category`: their
/// normalized labels match.
pub open spec fn spec_category_matches_dlc(
    category: Seq<char>,
    dlc_code: Seq<char>,
    dlcs: Seq<Dlc>,
) -> bool {
    spec_labels_match_dlc(normalized_label(category), normalized_label(dlc_code), dlcs)
}

fn normalize_label(s: &str) -> (res: Vec<char>)
    ensures
        res@ == normalized_label(s@),
{
    let lower = to_lowercase(s);
    remove_whitespace(&chars_of(lower.as_str()))
}

fn is_known_alias(cat: &str, dlc: &str) -> (res: bool)
    ensures
        res == known_alias(cat@, dlc@),
{
    if str_eq(cat, "respect/v") || str_eq(cat, "respect") {
        str_eq(dlc, "rv") || str_eq(dlc, "r")
    } else if str_eq(cat, "emotional.s") || str_eq(cat, "emotionals.") {
        str_eq(dlc, "es")
    } else if str_eq(cat, "vextension1") || str_eq(cat, "vextension") {
        str_eq(dlc, "ve")
    } else if str_eq(cat, "trilogy") {
        str_eq(dlc, "tr")
    } else if str_eq(cat, "blacksquare") {
        str_eq(dlc, "bs")
    } else if str_eq(cat, "clazziquai") {
        str_eq(dlc, "ce")
    } else if str_eq(cat, "technika3") {
        str_eq(dlc, "t3")
    } else if str_eq(cat, "technika2") {
        str_eq(dlc, "t2")
    } else if str_eq(cat, "technika1") || str_eq(cat, "technika") {
        str_eq(dlc, "t1")
    } else if str_eq(cat, "portable3") || str_eq(cat, "pli3") {
        str_eq(dlc, "pli3") || str_eq(dlc, "p3")
    } else if str_eq(cat, "portable2") || str_eq(cat, "pli") || str_eq(cat, "pli(상)") || str_eq(
        cat,
        "pli(下)",
    ) {
        str_eq(dlc, "pli2") || str_eq(dlc, "p2")
    } else if str_eq(cat, "portable1") || str_eq(cat, "pli1") {
        str_eq(dlc, "pli1") || str_eq(dlc, "p1")
    } else if str_eq(cat, "vextension2") {
        str_eq(dlc, "ve2")
    } else if str_eq(cat, "vextension3") {
        str_eq(dlc, "ve3")
    } else if str_eq(cat, "ez2on") {
        str_eq(dlc, "ez2")
    } else if str_eq(cat, "vextension4") {
        str_eq(dlc, "ve4")
    } else if str_eq(cat, "vextension5") {
        str_eq(dlc, "ve5")
    } else if str_eq(cat, "vliberty") {
        str_eq(dlc, "vl")
    } else if str_eq(cat, "vliberty2") {
        str_eq(dlc, "vl2")
    } else if str_eq(cat, "vliberty3") {
        str_eq(dlc, "vl3")
    } else if str_eq(cat, "vliberty4") {
        str_eq(dlc, "vl4")
    } else {
        false
    }
}

/// Whether the normalized category label `cat` matches the normalized pack code
/// `dlc`, given the packs `dlcs`.
pub fn labels_match_dlc(cat: &str, dlc: &str, dlcs: &[Dlc]) -> (res: bool)
    ensures
        res == spec_labels_match_dlc(cat@, dlc@, dlcs@),
{
    let cat_chars = chars_of(cat);
    let dlc_chars = chars_of(dlc);
    if contains_chars(&cat_chars, &dlc_chars) || contains_chars(&dlc_chars, &cat_chars) {
        return true;
    }
    let mut i: usize = 0;
    while i < dlcs.len()
        invariant
            i <= dlcs@.len(),
            cat_chars@ == cat@,
            dlc_chars@ == dlc@,
            forall|j: int| 0 <= j < i ==> !dlc_entry_matches(#[trigger] dlcs@[j], cat@, dlc@),
        decreases dlcs@.len() - i,
    {
        let code = to_lowercase(dlcs[i].dlc_code.as_str());
        if str_eq(code.as_str(), dlc) {
            let name = normalize_label(dlcs[i].dlc_name.as_str());
            if contains_chars(&cat_chars, &name) || contains_chars(&name, &cat_chars) {
                return true;
            }
            proof {
                if name@ == cat@ {
                    assert(cat@.subrange(0, cat@.len() as int) == name@);
                    assert(crate::text::occurs_at(cat@, name@, 0));
                }
            }
        }
        i += 1;
    }
    is_known_alias(cat, dlc)
}

/// Whether a song of the pack `dlc_code` belongs to the category `category`.
pub fn category_matches_dlc(category: &str, dlc_code: &str, dlcs: &[Dlc]) -> (res: bool)
    ensures
        res == spec_category_matches_dlc(category@, dlc_code@, dlcs@),
{
    let cat = string_from_chars(&normalize_label(category));
    let dlc = string_from_chars(&normalize_label(dlc_code));
    labels_match_dlc(cat.as_str(), dlc.as_str(), dlcs)
}

} // verus!
