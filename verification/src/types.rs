//! The feature taxonomy, the acceleration control values, the per-feature
//! settings mapping and occurrence counter, and the error type of a run.

use vstd::prelude::*;
use vstd::pervasive::VecAdditionalExecFns;

verus! {

/// The closed set of toolpath feature kinds a slicer can tag.
#[derive(Copy, Clone, Debug, PartialEq, Eq, Structural)]
pub enum FeatureType {
    FirstLayer,
    Travel,
    ExternalPerimeter,
    OverhangPerimeter,
    InternalPerimeter,
    TopSolidInfill,
    SolidInfill,
    InternalInfill,
    BridgeInfill,
    InternalBridgeInfill,
    ThinWall,
    GapFill,
    Skirt,
    SupportMaterial,
    SupportMaterialInterface,
    Custom,
}

/// Position of a feature in the canonical order of the taxonomy.
pub open spec fn feature_index(f: FeatureType) -> int {
    match f {
        FeatureType::FirstLayer => 0,
        FeatureType::Travel => 1,
        FeatureType::ExternalPerimeter => 2,
        FeatureType::OverhangPerimeter => 3,
        FeatureType::InternalPerimeter => 4,
        FeatureType::TopSolidInfill => 5,
        FeatureType::SolidInfill => 6,
        FeatureType::InternalInfill => 7,
        FeatureType::BridgeInfill => 8,
        FeatureType::InternalBridgeInfill => 9,
        FeatureType::ThinWall => 10,
        FeatureType::GapFill => 11,
        FeatureType::Skirt => 12,
        FeatureType::SupportMaterial => 13,
        FeatureType::SupportMaterialInterface => 14,
        FeatureType::Custom => 15,
    }
}

/// The feature at a canonical position; positions outside the taxonomy map
/// to `Custom`.
pub open spec fn feature_at(i: int) -> FeatureType {
    if i == 0 {
        FeatureType::FirstLayer
    } else if i == 1 {
        FeatureType::Travel
    } else if i == 2 {
        FeatureType::ExternalPerimeter
    } else if i == 3 {
        FeatureType::OverhangPerimeter
    } else if i == 4 {
        FeatureType::InternalPerimeter
    } else if i == 5 {
        FeatureType::TopSolidInfill
    } else if i == 6 {
        FeatureType::SolidInfill
    } else if i == 7 {
        FeatureType::InternalInfill
    } else if i == 8 {
        FeatureType::BridgeInfill
    } else if i == 9 {
        FeatureType::InternalBridgeInfill
    } else if i == 10 {
        FeatureType::ThinWall
    } else if i == 11 {
        FeatureType::GapFill
    } else if i == 12 {
        FeatureType::Skirt
    } else if i == 13 {
        FeatureType::SupportMaterial
    } else if i == 14 {
        FeatureType::SupportMaterialInterface
    } else {
        FeatureType::Custom
    }
}

pub proof fn lemma_feature_index_at(f: FeatureType)
    ensures
        feature_at(feature_index(f)) == f,
        0 <= feature_index(f) < 16,
{
}

/// Executable [`feature_index`].
pub fn feature_slot(f: FeatureType) -> (r: usize)
    ensures
        r as int == feature_index(f),
        r < 16,
{
    match f {
        FeatureType::FirstLayer => 0,
        FeatureType::Travel => 1,
        FeatureType::ExternalPerimeter => 2,
        FeatureType::OverhangPerimeter => 3,
        FeatureType::InternalPerimeter => 4,
        FeatureType::TopSolidInfill => 5,
        FeatureType::SolidInfill => 6,
        FeatureType::InternalInfill => 7,
        FeatureType::BridgeInfill => 8,
        FeatureType::InternalBridgeInfill => 9,
        FeatureType::ThinWall => 10,
        FeatureType::GapFill => 11,
        FeatureType::Skirt => 12,
        FeatureType::SupportMaterial => 13,
        FeatureType::SupportMaterialInterface => 14,
        FeatureType::Custom => 15,
    }
}

/// Executable [`feature_at`].
pub fn feature_of_slot(i: usize) -> (r: FeatureType)
    requires
        i < 16,
    ensures
        r == feature_at(i as int),
{
    if i == 0 {
        FeatureType::FirstLayer
    } else if i == 1 {
        FeatureType::Travel
    } else if i == 2 {
        FeatureType::ExternalPerimeter
    } else if i == 3 {
        FeatureType::OverhangPerimeter
    } else if i == 4 {
        FeatureType::InternalPerimeter
    } else if i == 5 {
        FeatureType::TopSolidInfill
    } else if i == 6 {
        FeatureType::SolidInfill
    } else if i == 7 {
        FeatureType::InternalInfill
    } else if i == 8 {
        FeatureType::BridgeInfill
    } else if i == 9 {
        FeatureType::InternalBridgeInfill
    } else if i == 10 {
        FeatureType::ThinWall
    } else if i == 11 {
        FeatureType::GapFill
    } else if i == 12 {
        FeatureType::Skirt
    } else if i == 13 {
        FeatureType::SupportMaterial
    } else if i == 14 {
        FeatureType::SupportMaterialInterface
    } else {
        FeatureType::Custom
    }
}

/// One acceleration/velocity control triple, in the controller's native
/// integer scale.
#[derive(Copy, Clone, Debug, PartialEq, Eq, Structural)]
pub struct AccelerationControl {
    /// Acceleration.
    pub accel: u64,
    /// Acceleration to deceleration.
    pub accel_to_decel: u64,
    /// Square corner velocity.
    pub scv: u64,
}

/// Control value used for travel moves when the settings carry none.
pub open spec fn default_travel_acceleration() -> AccelerationControl {
    AccelerationControl { accel: 4000, accel_to_decel: 2000, scv: 5 }
}

/// Executable [`default_travel_acceleration`].
pub fn default_travel_control() -> (r: AccelerationControl)
    ensures
        r == default_travel_acceleration(),
{
    AccelerationControl { accel: 4000, accel_to_decel: 2000, scv: 5 }
}

/// Control value used for the first layer when the settings carry none.
pub open spec fn default_first_layer_acceleration() -> AccelerationControl {
    AccelerationControl { accel: 2000, accel_to_decel: 1000, scv: 5 }
}

/// Executable [`default_first_layer_acceleration`].
pub fn default_first_layer_control() -> (r: AccelerationControl)
    ensures
        r == default_first_layer_acceleration(),
{
    AccelerationControl { accel: 2000, accel_to_decel: 1000, scv: 5 }
}

/// The category of the control command emitted most recently.
#[derive(Copy, Clone, Debug, PartialEq, Eq, Structural)]
pub enum AccelerationType {
    /// No control command has been emitted yet.
    Unset,
    /// The last control command was for a print feature.
    Print,
    /// The last control command was for travel.
    Travel,
}

/// Why processing a file was abandoned.
#[derive(Copy, Clone, Debug, PartialEq, Eq, Structural)]
pub enum PreprocessError {
    /// A numeric field of an embedded override comment does not fit.
    InvalidNumber,
    /// The feature name of an embedded override comment is not in the
    /// taxonomy.
    InvalidFeatureType,
    /// No header line identified the slicer that produced the file.
    UnknownSlicer,
}

/// Mapping from feature kinds to control values; the resolved settings of a
/// run.
pub struct AccelerationSettings {
    slots: Vec<Option<AccelerationControl>>,
}

impl View for AccelerationSettings {
    type V = Map<FeatureType, AccelerationControl>;

    closed spec fn view(&self) -> Map<FeatureType, AccelerationControl> {
        Map::new(
            |f: FeatureType| self.slots@[feature_index(f)] is Some,
            |f: FeatureType| self.slots@[feature_index(f)]->0,
        )
    }
}

impl AccelerationSettings {
    pub closed spec fn wf(&self) -> bool {
        self.slots@.len() == 16
    }

    /// An empty mapping.
    pub fn new() -> (r: AccelerationSettings)
        ensures
            r.wf(),
            r@ == Map::<FeatureType, AccelerationControl>::empty(),
    {
        let mut slots: Vec<Option<AccelerationControl>> = Vec::new();
        let mut i: usize = 0;
        while i < 16
            invariant
                0 <= i <= 16,
                slots@.len() == i,
                forall|j: int| 0 <= j < i ==> slots@[j] is None,
            decreases 16 - i,
        {
            slots.push(None);
            i = i + 1;
        }
        let r = AccelerationSettings { slots };
        proof {
            assert(r@ =~= Map::<FeatureType, AccelerationControl>::empty());
        }
        r
    }

    /// The control value recorded for `f`, if any.
    pub fn get(&self, f: FeatureType) -> (r: Option<AccelerationControl>)
        requires
            self.wf(),
        ensures
            r is Some <==> self@.contains_key(f),
            r is Some ==> r->0 == self@[f],
    {
        let idx = feature_slot(f);
        self.slots[idx]
    }

    /// Record `c` for `f`, replacing any earlier value.
    pub fn insert(&mut self, f: FeatureType, c: AccelerationControl)
        requires
            old(self).wf(),
        ensures
            final(self).wf(),
            final(self)@ == old(self)@.insert(f, c),
    {
        let idx = feature_slot(f);
        self.slots.set(idx, Some(c));
        proof {
            assert(self@ =~= old(self)@.insert(f, c)) by {
                assert forall|g: FeatureType| g != f implies feature_index(g) != feature_index(
                    f,
                ) by {
                    lemma_feature_index_at(g);
                    lemma_feature_index_at(f);
                }
            }
        }
    }

    /// Record `c` for `f` only if `f` has no value yet; the first record for
    /// a feature wins.
    pub fn insert_if_absent(&mut self, f: FeatureType, c: AccelerationControl)
        requires
            old(self).wf(),
        ensures
            final(self).wf(),
            final(self)@ == if old(self)@.contains_key(f) {
                old(self)@
            } else {
                old(self)@.insert(f, c)
            },
    {
        let idx = feature_slot(f);
        if self.slots[idx].is_none() {
            self.insert(f, c);
        } else {
            proof {
                assert(self@ =~= old(self)@);
            }
        }
    }

    /// Write every value of `other` over this mapping; `other` wins where
    /// both have a value.
    pub fn apply_overrides(&mut self, other: &AccelerationSettings)
        requires
            old(self).wf(),
            other.wf(),
        ensures
            final(self).wf(),
            final(self)@ == old(self)@.union_prefer_right(other@),
    {
        let mut i: usize = 0;
        while i < 16
            invariant
                0 <= i <= 16,
                self.slots@.len() == 16,
                other.wf(),
                forall|j: int|
                    0 <= j < i ==> self.slots@[j] == (if other.slots@[j] is Some {
                        other.slots@[j]
                    } else {
                        old(self).slots@[j]
                    }),
                forall|j: int| i <= j < 16 ==> self.slots@[j] == old(self).slots@[j],
            decreases 16 - i,
        {
            if other.slots[i].is_some() {
                self.slots.set(i, other.slots[i]);
            }
            i = i + 1;
        }
        proof {
            assert(self@ =~= old(self)@.union_prefer_right(other@)) by {
                assert forall|g: FeatureType| 0 <= #[trigger] feature_index(g) < 16 by {
                    lemma_feature_index_at(g);
                }
            }
        }
    }

    /// A copy of this mapping.
    pub fn duplicate(&self) -> (r: AccelerationSettings)
        requires
            self.wf(),
        ensures
            r.wf(),
            r@ == self@,
    {
        let mut slots: Vec<Option<AccelerationControl>> = Vec::new();
        let mut i: usize = 0;
        while i < 16
            invariant
                0 <= i <= 16,
                self.wf(),
                slots@.len() == i,
                forall|j: int| 0 <= j < i ==> slots@[j] == self.slots@[j],
            decreases 16 - i,
        {
            slots.push(self.slots[i]);
            i = i + 1;
        }
        let r = AccelerationSettings { slots };
        proof {
            assert(r@ =~= self@);
        }
        r
    }
}

/// The all-zero occurrence count.
pub open spec fn zero_counts() -> Map<FeatureType, nat> {
    Map::new(|f: FeatureType| true, |f: FeatureType| 0nat)
}

/// Per-feature count of the control commands emitted during a run.
pub struct FeatureCounter {
    counts: Vec<u64>,
}

impl View for FeatureCounter {
    type V = Map<FeatureType, nat>;

    closed spec fn view(&self) -> Map<FeatureType, nat> {
        Map::new(|f: FeatureType| true, |f: FeatureType| self.counts@[feature_index(f)] as nat)
    }
}

impl FeatureCounter {
    pub closed spec fn wf(&self) -> bool {
        self.counts@.len() == 16
    }

    /// A counter with every feature at zero.
    pub fn new() -> (r: FeatureCounter)
        ensures
            r.wf(),
            r@ == zero_counts(),
    {
        let mut counts: Vec<u64> = Vec::new();
        let mut i: usize = 0;
        while i < 16
            invariant
                0 <= i <= 16,
                counts@.len() == i,
                forall|j: int| 0 <= j < i ==> counts@[j] == 0,
            decreases 16 - i,
        {
            counts.push(0);
            i = i + 1;
        }
        let r = FeatureCounter { counts };
        proof {
            assert(r@ =~= zero_counts());
        }
        r
    }

    /// The count recorded for `f`.
    pub fn count(&self, f: FeatureType) -> (r: u64)
        requires
            self.wf(),
        ensures
            r as nat == self@[f],
    {
        let idx = feature_slot(f);
        self.counts[idx]
    }

    /// Add one to the count of `f`.
    pub fn increment(&mut self, f: FeatureType)
        requires
            old(self).wf(),
            old(self)@[f] < u64::MAX,
        ensures
            final(self).wf(),
            final(self)@ == old(self)@.insert(f, (old(self)@[f] + 1) as nat),
    {
        let idx = feature_slot(f);
        let c = self.counts[idx];
        self.counts.set(idx, c + 1);
        proof {
            assert(self@ =~= old(self)@.insert(f, (old(self)@[f] + 1) as nat)) by {
                assert forall|g: FeatureType| g != f implies feature_index(g) != feature_index(
                    f,
                ) by {
                    lemma_feature_index_at(g);
                    lemma_feature_index_at(f);
                }
            }
        }
    }
}

/// Caller-supplied configuration of the first-layer safe-lift maneuver.
/// Heights are in thousandths of a millimeter, the speed in thousandths of a
/// millimeter per second.
#[derive(Copy, Clone, Debug, PartialEq, Eq, Structural)]
pub struct ZHopConfig {
    /// Height the toolhead rises to before the bracketed travel move.
    pub hop_height_um: u32,
    /// Speed of the rise and of the descent.
    pub travel_speed_um: u32,
    /// Height the toolhead descends back to, until a height comment refines
    /// it.
    pub first_layer_height_um: u32,
}

impl ZHopConfig {
    /// The stock configuration: a 2 mm hop at 10 mm/s over a 0.2 mm first
    /// layer.
    pub fn standard() -> (r: ZHopConfig)
        ensures
            r == (ZHopConfig { hop_height_um: 2000, travel_speed_um: 10000, first_layer_height_um: 200 }),
    {
        ZHopConfig { hop_height_um: 2000, travel_speed_um: 10000, first_layer_height_um: 200 }
    }
}

impl Default for ZHopConfig {
    fn default() -> (r: ZHopConfig)
        ensures
            r == (ZHopConfig { hop_height_um: 2000, travel_speed_um: 10000, first_layer_height_um: 200 }),
    {
        ZHopConfig::standard()
    }
}

} // verus!
