//! The shared rewrite entry point of the Slic3r family of dialects, which
//! all perform the first-layer safe lift; each family member supplies its
//! own marker table.

use vstd::prelude::*;
use crate::engine::{engine_output, rewrite_lines, EngineConfig};
use crate::markers::MarkerTable;
use crate::text::views_of;
use crate::types::{AccelerationSettings, ZHopConfig};

verus! {

/// Rewrite a whole file with a Slic3r-family dialect: the given marker
/// table, with the safe lift armed.
pub fn process(
    lines: &Vec<Vec<char>>,
    settings: &AccelerationSettings,
    markers: MarkerTable,
    zhop: &ZHopConfig,
) -> (out: Vec<Vec<char>>)
    requires
        settings.wf(),
        markers.wf(),
    ensures
        views_of(out@) == engine_output(
            EngineConfig {
                markers: markers@,
                safe_lift: true,
                settings: settings@,
                hop_um: zhop.hop_height_um,
                speed_um: zhop.travel_speed_um,
            },
            zhop.first_layer_height_um,
            views_of(lines@),
        ),
{
    let local = settings.duplicate();
    rewrite_lines(markers, true, local, zhop, lines)
}

} // verus!
