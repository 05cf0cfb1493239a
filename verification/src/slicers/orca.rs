//! The OrcaSlicer dialect: its marker table, over the engine without the
//! safe lift.

use vstd::prelude::*;
use crate::engine::rewrite_lines;
use crate::markers::MarkerTable;
use crate::slicers::{dialect_markers, dialect_output, Dialect};
use crate::text::{str_to_chars, views_of};
use crate::types::{AccelerationSettings, FeatureType, ZHopConfig};

verus! {

/// The marker text OrcaSlicer emits for each feature.
pub open spec fn orca_marker(f: FeatureType) -> Seq<char> {
    match f {
        FeatureType::FirstLayer => ";TYPE:Bottom surface"@,
        FeatureType::Travel => ";TYPE:Travel"@,
        FeatureType::ExternalPerimeter => ";TYPE:Outer wall"@,
        FeatureType::OverhangPerimeter => ";TYPE:Overhang wall"@,
        FeatureType::InternalPerimeter => ";TYPE:Inner wall"@,
        FeatureType::TopSolidInfill => ";TYPE:Top surface"@,
        FeatureType::SolidInfill => ";TYPE:Internal solid infill"@,
        FeatureType::InternalInfill => ";TYPE:Sparse infill"@,
        FeatureType::BridgeInfill => ";TYPE:Bridge"@,
        FeatureType::InternalBridgeInfill => ";TYPE:Internal bridge infill"@,
        FeatureType::ThinWall => ";TYPE:Thin wall"@,
        FeatureType::GapFill => ";TYPE:Gap infill"@,
        FeatureType::Skirt => ";TYPE:Skirt"@,
        FeatureType::SupportMaterial => ";TYPE:Support"@,
        FeatureType::SupportMaterialInterface => ";TYPE:Support interface"@,
        FeatureType::Custom => ";TYPE:Custom"@,
    }
}

/// The OrcaSlicer marker table in canonical feature order.
pub fn orca_marker_table() -> (r: MarkerTable)
    ensures
        r.wf(),
        r@ == dialect_markers(Dialect::OrcaSlicer),
{
    let mut entries: Vec<Vec<char>> = Vec::new();
    entries.push(str_to_chars(";TYPE:Bottom surface"));
    entries.push(str_to_chars(";TYPE:Travel"));
    entries.push(str_to_chars(";TYPE:Outer wall"));
    entries.push(str_to_chars(";TYPE:Overhang wall"));
    entries.push(str_to_chars(";TYPE:Inner wall"));
    entries.push(str_to_chars(";TYPE:Top surface"));
    entries.push(str_to_chars(";TYPE:Internal solid infill"));
    entries.push(str_to_chars(";TYPE:Sparse infill"));
    entries.push(str_to_chars(";TYPE:Bridge"));
    entries.push(str_to_chars(";TYPE:Internal bridge infill"));
    entries.push(str_to_chars(";TYPE:Thin wall"));
    entries.push(str_to_chars(";TYPE:Gap infill"));
    entries.push(str_to_chars(";TYPE:Skirt"));
    entries.push(str_to_chars(";TYPE:Support"));
    entries.push(str_to_chars(";TYPE:Support interface"));
    entries.push(str_to_chars(";TYPE:Custom"));
    let r = MarkerTable::from_entries(entries);
    proof {
        assert(r@ =~= dialect_markers(Dialect::OrcaSlicer));
    }
    r
}

/// The OrcaSlicer processor.
pub struct OrcaSlicerProcessor {}

impl OrcaSlicerProcessor {
    pub fn new() -> (r: Self) {
        Self {  }
    }

    /// The marker text this dialect emits for `feature_type`.
    pub fn feature_marker(&self, feature_type: &FeatureType) -> (r: Vec<char>)
        ensures
            r@ == orca_marker(*feature_type),
    {
        match feature_type {
            FeatureType::FirstLayer => str_to_chars(";TYPE:Bottom surface"),
            FeatureType::Travel => str_to_chars(";TYPE:Travel"),
            FeatureType::ExternalPerimeter => str_to_chars(";TYPE:Outer wall"),
            FeatureType::OverhangPerimeter => str_to_chars(";TYPE:Overhang wall"),
            FeatureType::InternalPerimeter => str_to_chars(";TYPE:Inner wall"),
            FeatureType::TopSolidInfill => str_to_chars(";TYPE:Top surface"),
            FeatureType::SolidInfill => str_to_chars(";TYPE:Internal solid infill"),
            FeatureType::InternalInfill => str_to_chars(";TYPE:Sparse infill"),
            FeatureType::BridgeInfill => str_to_chars(";TYPE:Bridge"),
            FeatureType::InternalBridgeInfill => str_to_chars(";TYPE:Internal bridge infill"),
            FeatureType::ThinWall => str_to_chars(";TYPE:Thin wall"),
            FeatureType::GapFill => str_to_chars(";TYPE:Gap infill"),
            FeatureType::Skirt => str_to_chars(";TYPE:Skirt"),
            FeatureType::SupportMaterial => str_to_chars(";TYPE:Support"),
            FeatureType::SupportMaterialInterface => str_to_chars(";TYPE:Support interface"),
            FeatureType::Custom => str_to_chars(";TYPE:Custom"),
        }
    }

    /// Rewrite a whole file as OrcaSlicer output; this dialect performs no
    /// safe lift.
    pub fn process(
        &self,
        lines: &Vec<Vec<char>>,
        settings: &AccelerationSettings,
        zhop: &ZHopConfig,
    ) -> (out: Vec<Vec<char>>)
        requires
            settings.wf(),
        ensures
            views_of(out@) == dialect_output(
                Dialect::OrcaSlicer,
                settings@,
                *zhop,
                views_of(lines@),
            ),
    {
        let local = settings.duplicate();
        rewrite_lines(orca_marker_table(), false, local, zhop, lines)
    }
}

} // verus!
