//! The SuperSlicer dialect: its marker table, over the Slic3r-family engine.

use vstd::prelude::*;
use crate::markers::MarkerTable;
use crate::slicers::{dialect_markers, dialect_output, slic3r, Dialect};
use crate::text::{str_to_chars, views_of};
use crate::types::{AccelerationSettings, FeatureType, ZHopConfig};

verus! {

/// The marker text SuperSlicer emits for each feature.
pub open spec fn superslicer_marker(f: FeatureType) -> Seq<char> {
    match f {
        FeatureType::FirstLayer => ";TYPE:First layer"@,
        FeatureType::Travel => ";TYPE:Travel"@,
        FeatureType::ExternalPerimeter => ";TYPE:External perimeter"@,
        FeatureType::OverhangPerimeter => ";TYPE:Overhang perimeter"@,
        FeatureType::InternalPerimeter => ";TYPE:Internal perimeter"@,
        FeatureType::TopSolidInfill => ";TYPE:Top solid infill"@,
        FeatureType::SolidInfill => ";TYPE:Solid infill"@,
        FeatureType::InternalInfill => ";TYPE:Internal infill"@,
        FeatureType::BridgeInfill => ";TYPE:Bridge infill"@,
        FeatureType::InternalBridgeInfill => ";TYPE:Internal bridge infill"@,
        FeatureType::ThinWall => ";TYPE:Thin wall"@,
        FeatureType::GapFill => ";TYPE:Gap fill"@,
        FeatureType::Skirt => ";TYPE:Skirt"@,
        FeatureType::SupportMaterial => ";TYPE:Support material"@,
        FeatureType::SupportMaterialInterface => ";TYPE:Support material interface"@,
        FeatureType::Custom => ";TYPE:Custom"@,
    }
}

/// The SuperSlicer marker table in canonical feature order.
pub fn superslicer_marker_table() -> (r: MarkerTable)
    ensures
        r.wf(),
        r@ == dialect_markers(Dialect::SuperSlicer),
{
    let mut entries: Vec<Vec<char>> = Vec::new();
    entries.push(str_to_chars(";TYPE:First layer"));
    entries.push(str_to_chars(";TYPE:Travel"));
    entries.push(str_to_chars(";TYPE:External perimeter"));
    entries.push(str_to_chars(";TYPE:Overhang perimeter"));
    entries.push(str_to_chars(";TYPE:Internal perimeter"));
    entries.push(str_to_chars(";TYPE:Top solid infill"));
    entries.push(str_to_chars(";TYPE:Solid infill"));
    entries.push(str_to_chars(";TYPE:Internal infill"));
    entries.push(str_to_chars(";TYPE:Bridge infill"));
    entries.push(str_to_chars(";TYPE:Internal bridge infill"));
    entries.push(str_to_chars(";TYPE:Thin wall"));
    entries.push(str_to_chars(";TYPE:Gap fill"));
    entries.push(str_to_chars(";TYPE:Skirt"));
    entries.push(str_to_chars(";TYPE:Support material"));
    entries.push(str_to_chars(";TYPE:Support material interface"));
    entries.push(str_to_chars(";TYPE:Custom"));
    let r = MarkerTable::from_entries(entries);
    proof {
        assert(r@ =~= dialect_markers(Dialect::SuperSlicer));
    }
    r
}

/// The SuperSlicer processor.
pub struct SuperSlicerProcessor {}

impl SuperSlicerProcessor {
    pub fn new() -> (r: Self) {
        Self {  }
    }

    /// Rewrite a whole file as SuperSlicer output.
    pub fn process(
        &self,
        lines: &Vec<Vec<char>>,
        settings: &AccelerationSettings,
        zhop: &ZHopConfig,
    ) -> (out: Vec<Vec<char>>)
        requires
            settings.wf(),
        ensures
            views_of(out@) == dialect_output(
                Dialect::SuperSlicer,
                settings@,
                *zhop,
                views_of(lines@),
            ),
    {
        slic3r::process(lines, settings, superslicer_marker_table(), zhop)
    }
}

} // verus!
