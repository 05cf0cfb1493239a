//! The supported slicer dialects: which marker table and engine variant each
//! uses, and the auto-detection of the dialect from a header comment.

pub mod orca;
pub mod prusaslicer;
pub mod slic3r;
pub mod superslicer;

use vstd::prelude::*;
use crate::engine::{engine_output, EngineConfig};
use crate::text::{starts_with, starts_with_lit, trim, trimmed, views_of};
use crate::types::{feature_at, AccelerationControl, AccelerationSettings, FeatureType, ZHopConfig};
use orca::{orca_marker, OrcaSlicerProcessor};
use prusaslicer::{prusa_marker, PrusaSlicerProcessor};
use superslicer::{superslicer_marker, SuperSlicerProcessor};

verus! {

/// A supported slicer dialect.
#[derive(Copy, Clone, PartialEq, Eq, Structural, Debug)]
pub enum Dialect {
    PrusaSlicer,
    SuperSlicer,
    OrcaSlicer,
}

/// The marker text the dialect emits for a feature.
pub open spec fn dialect_marker(d: Dialect, f: FeatureType) -> Seq<char> {
    match d {
        Dialect::PrusaSlicer => prusa_marker(f),
        Dialect::SuperSlicer => superslicer_marker(f),
        Dialect::OrcaSlicer => orca_marker(f),
    }
}

/// The dialect's marker table in canonical feature order.
pub open spec fn dialect_markers(d: Dialect) -> Seq<Seq<char>> {
    Seq::new(16, |i: int| dialect_marker(d, feature_at(i)))
}

/// Whether the dialect performs the first-layer safe lift.
pub open spec fn dialect_safe_lift(d: Dialect) -> bool {
    match d {
        Dialect::PrusaSlicer => true,
        Dialect::SuperSlicer => true,
        Dialect::OrcaSlicer => false,
    }
}

/// The engine configuration a dialect runs with.
pub open spec fn dialect_config(
    d: Dialect,
    settings: Map<FeatureType, AccelerationControl>,
    zhop: ZHopConfig,
) -> EngineConfig {
    EngineConfig {
        markers: dialect_markers(d),
        safe_lift: dialect_safe_lift(d),
        settings: settings,
        hop_um: zhop.hop_height_um,
        speed_um: zhop.travel_speed_um,
    }
}

/// The rewritten output a dialect produces for a file.
pub open spec fn dialect_output(
    d: Dialect,
    settings: Map<FeatureType, AccelerationControl>,
    zhop: ZHopConfig,
    lines: Seq<Seq<char>>,
) -> Seq<Seq<char>> {
    engine_output(dialect_config(d, settings, zhop), zhop.first_layer_height_um, lines)
}

/// Which dialect a trimmed header line announces, first match wins.
pub open spec fn identify_dialect(t: Seq<char>) -> Option<Dialect> {
    if starts_with(t, "; generated by SuperSlicer"@) {
        Some(Dialect::SuperSlicer)
    } else if starts_with(t, "; generated by PrusaSlicer"@) {
        Some(Dialect::PrusaSlicer)
    } else if starts_with(t, "; generated by Slic3r"@) {
        Some(Dialect::PrusaSlicer)
    } else if starts_with(t, "; generated by OrcaSlicer"@) {
        Some(Dialect::OrcaSlicer)
    } else {
        None
    }
}

/// The processor selected for a run: one fixed variant per dialect.
pub enum PreProcessorImpl {
    PrusaSlicer(PrusaSlicerProcessor),
    SuperSlicer(SuperSlicerProcessor),
    OrcaSlicer(OrcaSlicerProcessor),
}

impl PreProcessorImpl {
    /// The dialect this processor implements.
    pub open spec fn dialect(&self) -> Dialect {
        match self {
            PreProcessorImpl::PrusaSlicer(_) => Dialect::PrusaSlicer,
            PreProcessorImpl::SuperSlicer(_) => Dialect::SuperSlicer,
            PreProcessorImpl::OrcaSlicer(_) => Dialect::OrcaSlicer,
        }
    }

    /// The dialect this processor implements, as a value.
    pub fn dialect_kind(&self) -> (d: Dialect)
        ensures
            d == self.dialect(),
    {
        match self {
            PreProcessorImpl::PrusaSlicer(_) => Dialect::PrusaSlicer,
            PreProcessorImpl::SuperSlicer(_) => Dialect::SuperSlicer,
            PreProcessorImpl::OrcaSlicer(_) => Dialect::OrcaSlicer,
        }
    }

    /// Rewrite a whole file with this processor's dialect.
    pub fn process(
        &self,
        lines: &Vec<Vec<char>>,
        settings: &AccelerationSettings,
        zhop: &ZHopConfig,
    ) -> (out: Vec<Vec<char>>)
        requires
            settings.wf(),
        ensures
            views_of(out@) == dialect_output(self.dialect(), settings@, *zhop, views_of(lines@)),
    {
        match self {
            PreProcessorImpl::PrusaSlicer(p) => p.process(lines, settings, zhop),
            PreProcessorImpl::SuperSlicer(p) => p.process(lines, settings, zhop),
            PreProcessorImpl::OrcaSlicer(p) => p.process(lines, settings, zhop),
        }
    }
}

/// Inspect one line for a `generated by` header and select the processor for
/// the slicer it names, if any.
pub fn identify_slicer_marker(line: &Vec<char>) -> (r: Option<PreProcessorImpl>)
    ensures
        ({
            let d = identify_dialect(trimmed(line@));
            match r {
                None => d is None,
                Some(p) => d is Some && p.dialect() == d->Some_0,
            }
        }),
{
    let t = trim(line);
    if starts_with_lit(&t, "; generated by SuperSlicer") {
        Some(PreProcessorImpl::SuperSlicer(SuperSlicerProcessor::new()))
    } else if starts_with_lit(&t, "; generated by PrusaSlicer") {
        Some(PreProcessorImpl::PrusaSlicer(PrusaSlicerProcessor::new()))
    } else if starts_with_lit(&t, "; generated by Slic3r") {
        Some(PreProcessorImpl::PrusaSlicer(PrusaSlicerProcessor::new()))
    } else if starts_with_lit(&t, "; generated by OrcaSlicer") {
        Some(PreProcessorImpl::OrcaSlicer(OrcaSlicerProcessor::new()))
    } else {
        None
    }
}

} // verus!
