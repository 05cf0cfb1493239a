//! Display names of the feature taxonomy, the case-insensitive lookup used
//! by embedded override comments, and the per-dialect marker table type.

use vstd::prelude::*;
use crate::text::{eq_ci, eq_ci_lit, eq_chars, str_to_chars, views_of};
use crate::types::{feature_at, feature_index, feature_of_slot, FeatureType};

verus! {

/// The display name of a feature: the text that control-command comments and
/// the trailing reports print for it.
pub open spec fn display_name(f: FeatureType) -> Seq<char> {
    match f {
        FeatureType::FirstLayer => "TYPE:First Layer"@,
        FeatureType::Travel => "TYPE:Travel"@,
        FeatureType::ExternalPerimeter => "TYPE:External perimeter"@,
        FeatureType::OverhangPerimeter => "TYPE:Overhang perimeter"@,
        FeatureType::InternalPerimeter => "TYPE:Internal perimeter"@,
        FeatureType::TopSolidInfill => "TYPE:Top solid infill"@,
        FeatureType::SolidInfill => "TYPE:Solid infill"@,
        FeatureType::InternalInfill => "TYPE:Internal infill"@,
        FeatureType::BridgeInfill => "TYPE:Bridge infill"@,
        FeatureType::InternalBridgeInfill => "TYPE:Internal bridge infill"@,
        FeatureType::ThinWall => "TYPE:Thin wall"@,
        FeatureType::GapFill => "TYPE:Gap fill"@,
        FeatureType::Skirt => "TYPE:Skirt"@,
        FeatureType::SupportMaterial => "TYPE:Support material"@,
        FeatureType::SupportMaterialInterface => "TYPE:Support material interface"@,
        FeatureType::Custom => "TYPE:Custom"@,
    }
}

/// The display name without its `TYPE:` prefix; override comments may use
/// either form.
pub open spec fn bare_name(f: FeatureType) -> Seq<char> {
    match f {
        FeatureType::FirstLayer => "First Layer"@,
        FeatureType::Travel => "Travel"@,
        FeatureType::ExternalPerimeter => "External perimeter"@,
        FeatureType::OverhangPerimeter => "Overhang perimeter"@,
        FeatureType::InternalPerimeter => "Internal perimeter"@,
        FeatureType::TopSolidInfill => "Top solid infill"@,
        FeatureType::SolidInfill => "Solid infill"@,
        FeatureType::InternalInfill => "Internal infill"@,
        FeatureType::BridgeInfill => "Bridge infill"@,
        FeatureType::InternalBridgeInfill => "Internal bridge infill"@,
        FeatureType::ThinWall => "Thin wall"@,
        FeatureType::GapFill => "Gap fill"@,
        FeatureType::Skirt => "Skirt"@,
        FeatureType::SupportMaterial => "Support material"@,
        FeatureType::SupportMaterialInterface => "Support material interface"@,
        FeatureType::Custom => "Custom"@,
    }
}

/// The display name of `f` as a character vector.
pub fn display_name_chars(f: FeatureType) -> (r: Vec<char>)
    ensures
        r@ == display_name(f),
{
    match f {
        FeatureType::FirstLayer => str_to_chars("TYPE:First Layer"),
        FeatureType::Travel => str_to_chars("TYPE:Travel"),
        FeatureType::ExternalPerimeter => str_to_chars("TYPE:External perimeter"),
        FeatureType::OverhangPerimeter => str_to_chars("TYPE:Overhang perimeter"),
        FeatureType::InternalPerimeter => str_to_chars("TYPE:Internal perimeter"),
        FeatureType::TopSolidInfill => str_to_chars("TYPE:Top solid infill"),
        FeatureType::SolidInfill => str_to_chars("TYPE:Solid infill"),
        FeatureType::InternalInfill => str_to_chars("TYPE:Internal infill"),
        FeatureType::BridgeInfill => str_to_chars("TYPE:Bridge infill"),
        FeatureType::InternalBridgeInfill => str_to_chars("TYPE:Internal bridge infill"),
        FeatureType::ThinWall => str_to_chars("TYPE:Thin wall"),
        FeatureType::GapFill => str_to_chars("TYPE:Gap fill"),
        FeatureType::Skirt => str_to_chars("TYPE:Skirt"),
        FeatureType::SupportMaterial => str_to_chars("TYPE:Support material"),
        FeatureType::SupportMaterialInterface => str_to_chars("TYPE:Support material interface"),
        FeatureType::Custom => str_to_chars("TYPE:Custom"),
    }
}

/// Whether `name` names `f`, ignoring ASCII case, with or without the
/// `TYPE:` prefix.
pub open spec fn name_matches(name: Seq<char>, f: FeatureType) -> bool {
    eq_ci(name, display_name(f)) || eq_ci(name, bare_name(f))
}

fn name_matches_feature(name: &Vec<char>, f: FeatureType) -> (r: bool)
    ensures
        r == name_matches(name@, f),
{
    match f {
        FeatureType::FirstLayer => eq_ci_lit(name, "TYPE:First Layer") || eq_ci_lit(
            name,
            "First Layer",
        ),
        FeatureType::Travel => eq_ci_lit(name, "TYPE:Travel") || eq_ci_lit(name, "Travel"),
        FeatureType::ExternalPerimeter => eq_ci_lit(name, "TYPE:External perimeter") || eq_ci_lit(
            name,
            "External perimeter",
        ),
        FeatureType::OverhangPerimeter => eq_ci_lit(name, "TYPE:Overhang perimeter") || eq_ci_lit(
            name,
            "Overhang perimeter",
        ),
        FeatureType::InternalPerimeter => eq_ci_lit(name, "TYPE:Internal perimeter") || eq_ci_lit(
            name,
            "Internal perimeter",
        ),
        FeatureType::TopSolidInfill => eq_ci_lit(name, "TYPE:Top solid infill") || eq_ci_lit(
            name,
            "Top solid infill",
        ),
        FeatureType::SolidInfill => eq_ci_lit(name, "TYPE:Solid infill") || eq_ci_lit(
            name,
            "Solid infill",
        ),
        FeatureType::InternalInfill => eq_ci_lit(name, "TYPE:Internal infill") || eq_ci_lit(
            name,
            "Internal infill",
        ),
        FeatureType::BridgeInfill => eq_ci_lit(name, "TYPE:Bridge infill") || eq_ci_lit(
            name,
            "Bridge infill",
        ),
        FeatureType::InternalBridgeInfill => eq_ci_lit(name, "TYPE:Internal bridge infill")
            || eq_ci_lit(name, "Internal bridge infill"),
        FeatureType::ThinWall => eq_ci_lit(name, "TYPE:Thin wall") || eq_ci_lit(name, "Thin wall"),
        FeatureType::GapFill => eq_ci_lit(name, "TYPE:Gap fill") || eq_ci_lit(name, "Gap fill"),
        FeatureType::Skirt => eq_ci_lit(name, "TYPE:Skirt") || eq_ci_lit(name, "Skirt"),
        FeatureType::SupportMaterial => eq_ci_lit(name, "TYPE:Support material") || eq_ci_lit(
            name,
            "Support material",
        ),
        FeatureType::SupportMaterialInterface => eq_ci_lit(
            name,
            "TYPE:Support material interface",
        ) || eq_ci_lit(name, "Support material interface"),
        FeatureType::Custom => eq_ci_lit(name, "TYPE:Custom") || eq_ci_lit(name, "Custom"),
    }
}

/// First feature, in canonical order from position `i`, whose name `name`
/// matches.
pub open spec fn feature_from_name_at(name: Seq<char>, i: int) -> Option<FeatureType>
    decreases 16 - i,
{
    if 0 <= i < 16 {
        if name_matches(name, feature_at(i)) {
            Some(feature_at(i))
        } else {
            feature_from_name_at(name, i + 1)
        }
    } else {
        None
    }
}

/// The feature a name of an override comment refers to, if any.
pub open spec fn feature_from_name(name: Seq<char>) -> Option<FeatureType> {
    feature_from_name_at(name, 0)
}

/// Executable [`feature_from_name`].
pub fn lookup_feature(name: &Vec<char>) -> (r: Option<FeatureType>)
    ensures
        r == feature_from_name(name@),
{
    let mut i: usize = 0;
    while i < 16
        invariant
            0 <= i <= 16,
            feature_from_name(name@) == feature_from_name_at(name@, i as int),
        decreases 16 - i,
    {
        let f = feature_of_slot(i);
        if name_matches_feature(name, f) {
            return Some(f);
        }
        i = i + 1;
    }
    None
}

/// A dialect's marker table: for each feature, in canonical order, the exact
/// trimmed line text that tags a toolpath region of that feature.
pub struct MarkerTable {
    table: Vec<Vec<char>>,
}

impl View for MarkerTable {
    type V = Seq<Seq<char>>;

    closed spec fn view(&self) -> Seq<Seq<char>> {
        views_of(self.table@)
    }
}

/// First feature, in canonical order from position `i`, whose marker equals
/// the trimmed line `t`.
pub open spec fn marker_match_at(markers: Seq<Seq<char>>, t: Seq<char>, i: int) -> Option<
    FeatureType,
>
    decreases 16 - i,
{
    if 0 <= i < 16 {
        if markers[i] == t {
            Some(feature_at(i))
        } else {
            marker_match_at(markers, t, i + 1)
        }
    } else {
        None
    }
}

/// The feature whose marker the trimmed line `t` is, if any.
pub open spec fn marker_match(markers: Seq<Seq<char>>, t: Seq<char>) -> Option<FeatureType> {
    marker_match_at(markers, t, 0)
}

impl MarkerTable {
    pub open spec fn wf(&self) -> bool {
        self@.len() == 16
    }

    /// A table from one entry per feature, in canonical order.
    pub fn from_entries(entries: Vec<Vec<char>>) -> (r: MarkerTable)
        requires
            entries@.len() == 16,
        ensures
            r.wf(),
            r@ == views_of(entries@),
    {
        MarkerTable { table: entries }
    }

    /// The marker recorded for `f`.
    pub fn marker_chars(&self, f: FeatureType) -> (r: &Vec<char>)
        requires
            self.wf(),
        ensures
            r@ == self@[feature_index(f)],
    {
        proof {
            crate::types::lemma_feature_index_at(f);
        }
        let idx = crate::types::feature_slot(f);
        &self.table[idx]
    }

    /// Executable [`marker_match`]: which feature, if any, the trimmed line
    /// `t` marks.
    pub fn lookup_marker(&self, t: &Vec<char>) -> (r: Option<FeatureType>)
        requires
            self.wf(),
        ensures
            r == marker_match(self@, t@),
    {
        let mut i: usize = 0;
        while i < 16
            invariant
                0 <= i <= 16,
                self.wf(),
                marker_match(self@, t@) == marker_match_at(self@, t@, i as int),
            decreases 16 - i,
        {
            if eq_chars(&self.table[i], t) {
                assert(self@[i as int] == t@);
                return Some(feature_of_slot(i));
            }
            assert(self@[i as int] == self.table@[i as int]@);
            i = i + 1;
        }
        None
    }
}

} // verus!
