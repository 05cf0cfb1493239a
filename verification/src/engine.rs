//! The per-line classification and rewrite state machine.
//!
//! The mathematical model is a step function from a run state and one input
//! line to a successor state and the chunks emitted for that line; a run
//! folds the step function over the lines and appends the trailing report.
//! The executable [`Rewriter`] produces exactly the chunks of the model.

use vstd::prelude::*;
use crate::gcode::{
    control_line, dump_settings, dump_stats, lift_chunks, safe_lift, set_velocity_limit,
    trailing_report,
};
use crate::markers::{marker_match, marker_match_at, MarkerTable};
use crate::patterns::{
    height_comment, height_comment_value, is_g, is_travel_move, is_z_move, travel_move, z_move,
};
use crate::text::{
    push_chars, push_str, starts_with, starts_with_lit, trim, trimmed, views_of,
};
use crate::types::{
    default_first_layer_acceleration, default_first_layer_control, default_travel_acceleration,
    default_travel_control, feature_at, feature_index, zero_counts, AccelerationControl,
    AccelerationSettings,
    AccelerationType, FeatureCounter, FeatureType, ZHopConfig,
};

verus! {

/// Everything about a run that is fixed before the first line: the dialect's
/// marker table, whether the dialect performs the first-layer safe lift, the
/// resolved settings, and the lift geometry.
#[verifier::ext_equal]
pub ghost struct EngineConfig {
    pub markers: Seq<Seq<char>>,
    pub safe_lift: bool,
    pub settings: Map<FeatureType, AccelerationControl>,
    pub hop_um: u32,
    pub speed_um: u32,
}

/// The transient state of one run.
#[verifier::ext_equal]
pub ghost struct RunState {
    /// Layer counter: how many layer-change markers have been seen.
    pub layer: nat,
    /// Category of the control command emitted most recently.
    pub last: AccelerationType,
    /// The feature region the line stream is inside, if any.
    pub current: Option<FeatureType>,
    /// How many control commands each feature has received.
    pub counts: Map<FeatureType, nat>,
    /// Whether the safe lift has already been performed this run.
    pub lift_done: bool,
    /// The tracked first-layer height, in thousandths of a millimeter.
    pub layer_height_um: u32,
}

/// State at the start of a run.
pub open spec fn init_state(first_layer_um: u32) -> RunState {
    RunState {
        layer: 0,
        last: AccelerationType::Unset,
        current: None,
        counts: zero_counts(),
        lift_done: false,
        layer_height_um: first_layer_um,
    }
}

/// What one input line is, in the priority order of the engine.
#[derive(Copy, Clone, PartialEq, Eq, Structural, Debug)]
pub enum LineClass {
    /// A layer-change marker.
    LayerChange,
    /// A stale control directive that is dropped.
    Legacy,
    /// A feature marker of the active dialect, under an active layer.
    Marker(FeatureType),
    /// A Z move suppressed while the safe lift waits for its travel move.
    LiftSuppressZ,
    /// A height comment read while the safe lift waits, with its value.
    LiftHeight(u32),
    /// The travel move the safe lift brackets.
    LiftTravel,
    /// A travel move that needs a travel control command first.
    TravelFresh,
    /// A travel move while travel control is already in force.
    TravelRepeat,
    /// A line after travel that re-asserts the active feature's control.
    Reassert(FeatureType),
    /// Any other line, passed through unmodified.
    Plain,
}

/// The safe lift is armed: the dialect supports it, the stream is inside the
/// first layer, and the lift has not happened yet.
pub open spec fn in_lift_window(cfg: EngineConfig, st: RunState) -> bool {
    cfg.safe_lift && st.layer == 1 && !st.lift_done
}

/// Classify one line against the configuration and the run state.
pub open spec fn classify(cfg: EngineConfig, st: RunState, line: Seq<char>) -> LineClass {
    let t = trimmed(line);
    if starts_with(t, ";LAYER_CHANGE"@) {
        LineClass::LayerChange
    } else if starts_with(t, "M204 S"@) || starts_with(t, "SET_VELOCITY_LIMIT"@) {
        LineClass::Legacy
    } else if st.layer >= 1 && marker_match(cfg.markers, t) is Some {
        LineClass::Marker(marker_match(cfg.markers, t)->Some_0)
    } else if in_lift_window(cfg, st) && is_z_move(line) {
        LineClass::LiftSuppressZ
    } else if in_lift_window(cfg, st) && height_comment_value(t) is Some {
        LineClass::LiftHeight(height_comment_value(t)->Some_0)
    } else if is_travel_move(line) {
        if in_lift_window(cfg, st) {
            LineClass::LiftTravel
        } else if st.last != AccelerationType::Travel {
            LineClass::TravelFresh
        } else {
            LineClass::TravelRepeat
        }
    } else if st.last == AccelerationType::Travel && st.current is Some
        && cfg.settings.contains_key(st.current->Some_0) {
        LineClass::Reassert(st.current->Some_0)
    } else {
        LineClass::Plain
    }
}

/// The control value for the first layer: the resolved settings value, or
/// the stock constant.
pub open spec fn first_layer_control_of(cfg: EngineConfig) -> AccelerationControl {
    if cfg.settings.contains_key(FeatureType::FirstLayer) {
        cfg.settings[FeatureType::FirstLayer]
    } else {
        default_first_layer_acceleration()
    }
}

/// The control value for travel: the resolved settings value, or the stock
/// constant.
pub open spec fn travel_control_of(cfg: EngineConfig) -> AccelerationControl {
    if cfg.settings.contains_key(FeatureType::Travel) {
        cfg.settings[FeatureType::Travel]
    } else {
        default_travel_acceleration()
    }
}

/// One more control command for `f`.
pub open spec fn bump(counts: Map<FeatureType, nat>, f: FeatureType) -> Map<FeatureType, nat> {
    counts.insert(f, counts[f] + 1)
}

/// A state together with the chunks emitted while reaching it.
#[verifier::ext_equal]
pub ghost struct StepResult {
    pub st: RunState,
    pub out: Seq<Seq<char>>,
}

/// One step of the engine: the successor state and the emitted chunks for
/// one input line.
pub open spec fn step(cfg: EngineConfig, st: RunState, line: Seq<char>) -> StepResult {
    match classify(cfg, st, line) {
        LineClass::LayerChange => {
            let st1 = RunState { layer: (st.layer + 1) as nat, ..st };
            if st.layer == 0 {
                StepResult {
                    st: RunState { counts: bump(st.counts, FeatureType::FirstLayer), ..st1 },
                    out: seq![
                        line + "\n"@,
                        control_line(FeatureType::FirstLayer, first_layer_control_of(cfg)),
                    ],
                }
            } else {
                StepResult { st: st1, out: seq![line + "\n"@] }
            }
        },
        LineClass::Legacy => StepResult { st, out: Seq::empty() },
        LineClass::Marker(f) => {
            if cfg.settings.contains_key(f) {
                StepResult {
                    st: RunState {
                        current: Some(f),
                        last: AccelerationType::Print,
                        counts: bump(st.counts, f),
                        ..st
                    },
                    out: seq![line + "\n"@, control_line(f, cfg.settings[f])],
                }
            } else {
                StepResult { st: RunState { current: Some(f), ..st }, out: seq![line + "\n"@] }
            }
        },
        LineClass::LiftSuppressZ => StepResult { st, out: Seq::empty() },
        LineClass::LiftHeight(h) => StepResult {
            st: RunState { layer_height_um: h, ..st },
            out: seq![line + "\n"@],
        },
        LineClass::LiftTravel => StepResult {
            st: RunState { lift_done: true, ..st },
            out: lift_chunks(cfg.hop_um, cfg.speed_um, st.layer_height_um, line),
        },
        LineClass::TravelFresh => StepResult {
            st: RunState {
                last: AccelerationType::Travel,
                counts: bump(st.counts, FeatureType::Travel),
                ..st
            },
            out: seq![
                control_line(FeatureType::Travel, travel_control_of(cfg)),
                line + "\n"@,
            ],
        },
        LineClass::TravelRepeat => StepResult { st, out: seq![line + "\n"@] },
        LineClass::Reassert(f) => StepResult {
            st: RunState {
                last: AccelerationType::Print,
                counts: bump(st.counts, f),
                ..st
            },
            out: seq![control_line(f, cfg.settings[f]), line + "\n"@],
        },
        LineClass::Plain => StepResult { st, out: seq![line + "\n"@] },
    }
}

/// Fold [`step`] over a sequence of lines.
pub open spec fn run_from(cfg: EngineConfig, st: RunState, lines: Seq<Seq<char>>) -> StepResult
    decreases lines.len(),
{
    if lines.len() == 0 {
        StepResult { st, out: Seq::empty() }
    } else {
        let first = step(cfg, st, lines.first());
        let rest = run_from(cfg, first.st, lines.drop_first());
        StepResult { st: rest.st, out: first.out + rest.out }
    }
}

/// The full output of the engine for a file: the chunks of every line, then
/// the trailing report.
pub open spec fn engine_output(
    cfg: EngineConfig,
    first_layer_um: u32,
    lines: Seq<Seq<char>>,
) -> Seq<Seq<char>> {
    let r = run_from(cfg, init_state(first_layer_um), lines);
    r.out + trailing_report(cfg.settings, r.st.counts)
}

pub proof fn lemma_run_snoc(cfg: EngineConfig, st: RunState, lines: Seq<Seq<char>>, l: Seq<char>)
    ensures
        ({
            let r = run_from(cfg, st, lines);
            let s = step(cfg, r.st, l);
            run_from(cfg, st, lines.push(l)) == StepResult { st: s.st, out: r.out + s.out }
        }),
    decreases lines.len(),
{
    let r = run_from(cfg, st, lines);
    let s = step(cfg, r.st, l);
    if lines.len() == 0 {
        assert(lines.push(l).first() == l);
        assert(lines.push(l).drop_first() =~= Seq::<Seq<char>>::empty());
        assert(run_from(cfg, s.st, Seq::<Seq<char>>::empty()) == (StepResult {
            st: s.st,
            out: Seq::empty(),
        }));
        assert(run_from(cfg, st, lines.push(l)).st == s.st);
        assert(run_from(cfg, st, lines.push(l)).out =~= r.out + s.out);
        assert(run_from(cfg, st, lines.push(l)) =~= (StepResult { st: s.st, out: r.out + s.out }));
    } else {
        let first = step(cfg, st, lines.first());
        let r2 = run_from(cfg, first.st, lines.drop_first());
        let s2 = step(cfg, r2.st, l);
        lemma_run_snoc(cfg, first.st, lines.drop_first(), l);
        assert(run_from(cfg, first.st, lines.drop_first().push(l)) == (StepResult {
            st: s2.st,
            out: r2.out + s2.out,
        }));
        assert(lines.push(l).first() == lines.first());
        assert(lines.push(l).drop_first() =~= lines.drop_first().push(l));
        assert(r.st == r2.st && r.out == first.out + r2.out);
        assert(run_from(cfg, st, lines.push(l)).st == s.st);
        assert(run_from(cfg, st, lines.push(l)).out =~= r.out + s.out);
        assert(run_from(cfg, st, lines.push(l)) =~= (StepResult { st: s.st, out: r.out + s.out }));
    }
}

/// One step raises the layer counter by at most one and each feature's count
/// by at most one.
pub proof fn lemma_step_bounds(cfg: EngineConfig, st: RunState, line: Seq<char>)
    ensures
        step(cfg, st, line).st.layer <= st.layer + 1,
        forall|f: FeatureType| step(cfg, st, line).st.counts[f] <= st.counts[f] + 1,
{
}

/// A line whose trimmed text is one of the markers of the configuration's
/// table, for a feature the resolved settings hold, is followed by exactly
/// one control command for that feature, and that feature's occurrence count
/// rises by exactly one; no other count moves.
pub proof fn lemma_marker_emission(cfg: EngineConfig, st: RunState, line: Seq<char>, f: FeatureType)
    requires
        st.layer >= 1,
        marker_match(cfg.markers, trimmed(line)) == Some(f),
        !starts_with(trimmed(line), ";LAYER_CHANGE"@),
        !starts_with(trimmed(line), "M204 S"@),
        !starts_with(trimmed(line), "SET_VELOCITY_LIMIT"@),
        cfg.settings.contains_key(f),
    ensures
        step(cfg, st, line).out == seq![line + "\n"@, control_line(f, cfg.settings[f])],
        step(cfg, st, line).st.counts[f] == st.counts[f] + 1,
        forall|g: FeatureType| g != f ==> step(cfg, st, line).st.counts[g] == st.counts[g],
{
    assert(classify(cfg, st, line) == LineClass::Marker(f));
}

/// The same marker line for a feature the settings do not hold is passed
/// through with no control command and no count movement; the feature still
/// becomes the active one.
pub proof fn lemma_marker_without_control(
    cfg: EngineConfig,
    st: RunState,
    line: Seq<char>,
    f: FeatureType,
)
    requires
        st.layer >= 1,
        marker_match(cfg.markers, trimmed(line)) == Some(f),
        !starts_with(trimmed(line), ";LAYER_CHANGE"@),
        !starts_with(trimmed(line), "M204 S"@),
        !starts_with(trimmed(line), "SET_VELOCITY_LIMIT"@),
        !cfg.settings.contains_key(f),
    ensures
        step(cfg, st, line).out == seq![line + "\n"@],
        step(cfg, st, line).st.counts == st.counts,
        step(cfg, st, line).st.current == Some(f),
{
    assert(classify(cfg, st, line) == LineClass::Marker(f));
}

/// A stale control directive — a legacy starting-acceleration command or an
/// already-present velocity-limit directive — is dropped: the step emits
/// nothing and changes nothing, wherever in the file it stands and however
/// often it recurs.
pub proof fn lemma_legacy_dropped(cfg: EngineConfig, st: RunState, line: Seq<char>)
    requires
        starts_with(trimmed(line), "M204 S"@) || starts_with(trimmed(line), "SET_VELOCITY_LIMIT"@),
    ensures
        step(cfg, st, line).out == Seq::<Seq<char>>::empty(),
        step(cfg, st, line).st == st,
{
    let t = trimmed(line);
    reveal_strlit(";LAYER_CHANGE");
    reveal_strlit("M204 S");
    reveal_strlit("SET_VELOCITY_LIMIT");
    if starts_with(t, ";LAYER_CHANGE"@) {
        assert(t.subrange(0, ";LAYER_CHANGE"@.len() as int)[0] == ';');
        if starts_with(t, "M204 S"@) {
            assert(t.subrange(0, "M204 S"@.len() as int)[0] == 'M');
        } else {
            assert(t.subrange(0, "SET_VELOCITY_LIMIT"@.len() as int)[0] == 'S');
        }
    }
    assert(classify(cfg, st, line) == LineClass::Legacy);
}

/// Heads of trimmed text: a line that opens with a non-whitespace character
/// keeps it as the first character of its trimmed form.
proof fn lemma_trim_keeps_head(s: Seq<char>)
    requires
        s.len() > 0,
        !crate::text::is_space(s[0]),
    ensures
        trimmed(s).len() > 0,
        trimmed(s)[0] == s[0],
{
    assert(crate::text::trim_start(s) == s);
    lemma_trim_end_keeps_head(s);
}

proof fn lemma_trim_end_keeps_head(s: Seq<char>)
    requires
        s.len() > 0,
        !crate::text::is_space(s[0]),
    ensures
        crate::text::trim_end(s).len() > 0,
        crate::text::trim_end(s)[0] == s[0],
    decreases s.len(),
{
    if s.len() > 1 && crate::text::is_space(s[s.len() - 1]) {
        lemma_trim_end_keeps_head(s.drop_last());
    }
}

/// While travel control is already in force, a further travel move emits no
/// control command at all — the move passes through (or, once per file, the
/// safe lift brackets it) without a redundant travel re-assertion — and no
/// occurrence count moves.  The marker table must be one of comment markers,
/// as every dialect's is.
pub proof fn lemma_no_redundant_travel(cfg: EngineConfig, st: RunState, line: Seq<char>)
    requires
        st.last == AccelerationType::Travel,
        is_travel_move(line),
        forall|j: int|
            0 <= j < 16 ==> #[trigger] cfg.markers[j].len() > 0 && cfg.markers[j][0] == ';',
    ensures
        forall|k: int|
            0 <= k < step(cfg, st, line).out.len() ==> !starts_with(
                #[trigger] step(cfg, st, line).out[k],
                "SET_VELOCITY_LIMIT"@,
            ),
        step(cfg, st, line).st.counts == st.counts,
{
    let t = trimmed(line);
    reveal_strlit(";LAYER_CHANGE");
    reveal_strlit("M204 S");
    reveal_strlit("SET_VELOCITY_LIMIT");
    assert(!crate::text::is_space(line[0]));
    lemma_trim_keeps_head(line);
    assert(t[0] == line[0]);
    assert(is_g(line[0]));
    if starts_with(t, ";LAYER_CHANGE"@) {
        assert(t.subrange(0, ";LAYER_CHANGE"@.len() as int)[0] == ';');
    }
    if starts_with(t, "M204 S"@) {
        assert(t.subrange(0, "M204 S"@.len() as int)[0] == 'M');
    }
    if starts_with(t, "SET_VELOCITY_LIMIT"@) {
        assert(t.subrange(0, "SET_VELOCITY_LIMIT"@.len() as int)[0] == 'S');
    }
    lemma_marker_match_semicolon(cfg.markers, t, 0);
    if in_lift_window(cfg, st) {
        assert(classify(cfg, st, line) == LineClass::LiftTravel);
        let out = step(cfg, st, line).out;
        reveal_strlit("G91\n");
        reveal_strlit("G90\n");
        reveal_strlit("G1 Z");
        assert forall|k: int| 0 <= k < out.len() implies !starts_with(
            #[trigger] out[k],
            "SET_VELOCITY_LIMIT"@,
        ) by {
            assert(out == lift_chunks(cfg.hop_um, cfg.speed_um, st.layer_height_um, line));
            if k == 0 {
                assert(out[k][0] == 'G');
            } else if k == 1 || k == 4 {
                assert(out[k][0] == ("G1 Z"@ + crate::gcode::fixed3(if k == 1 {
                    cfg.hop_um as nat
                } else {
                    st.layer_height_um as nat
                }))[0]);
                assert(out[k][0] == 'G');
            } else if k == 2 {
                assert(out[k][0] == 'G');
            } else {
                assert(out[k][0] == line[0]);
            }
            if starts_with(out[k], "SET_VELOCITY_LIMIT"@) {
                assert(out[k].subrange(0, "SET_VELOCITY_LIMIT"@.len() as int)[0] == 'S');
            }
        }
    } else {
        assert(classify(cfg, st, line) == LineClass::TravelRepeat);
        let out = step(cfg, st, line).out;
        assert(out == seq![line + "\n"@]);
        if starts_with(out[0], "SET_VELOCITY_LIMIT"@) {
            assert(out[0].subrange(0, "SET_VELOCITY_LIMIT"@.len() as int)[0] == 'S');
            assert(out[0][0] == line[0]);
        }
    }
}

/// No marker made of comment text matches a trimmed line that does not open
/// with a semicolon.
proof fn lemma_marker_match_semicolon(markers: Seq<Seq<char>>, t: Seq<char>, i: int)
    requires
        forall|j: int| 0 <= j < 16 ==> #[trigger] markers[j].len() > 0 && markers[j][0] == ';',
        t.len() == 0 || t[0] != ';',
    ensures
        marker_match_at(markers, t, i) is None,
    decreases 16 - i,
{
    if 0 <= i < 16 {
        assert(markers[i].len() > 0 && markers[i][0] == ';');
        lemma_marker_match_semicolon(markers, t, i + 1);
    }
}

/// No chunk of `chunks` opens with the legacy starting-acceleration
/// directive.
pub open spec fn legacy_free(chunks: Seq<Seq<char>>) -> bool {
    forall|k: int| 0 <= k < chunks.len() ==> !starts_with(#[trigger] chunks[k], "M204 S"@)
}

proof fn lemma_passthrough_not_m204(line: Seq<char>)
    requires
        !starts_with(trimmed(line), "M204 S"@),
    ensures
        !starts_with(line + "\n"@, "M204 S"@),
{
    reveal_strlit("M204 S");
    reveal_strlit("\n");
    let p = "M204 S"@;
    let c = line + "\n"@;
    if starts_with(c, p) {
        if line.len() >= p.len() {
            assert(line.subrange(0, p.len() as int) =~= c.subrange(0, p.len() as int));
            crate::text::lemma_trimmed_keeps_prefix(line, p);
        } else {
            assert(line.len() == 5);
            assert(c[p.len() - 1] == '\n');
            assert(c.subrange(0, p.len() as int)[p.len() - 1] == p[p.len() - 1]);
        }
    }
}

/// No step of the engine ever emits a chunk opening with the legacy
/// starting-acceleration directive: the input lines that carry it are
/// dropped, and nothing the engine writes itself begins that way.
pub proof fn lemma_step_no_m204(cfg: EngineConfig, st: RunState, line: Seq<char>)
    ensures
        legacy_free(step(cfg, st, line).out),
{
    reveal_strlit("M204 S");
    reveal_strlit(";LAYER_CHANGE");
    reveal_strlit("SET_VELOCITY_LIMIT ACCEL=");
    reveal_strlit("G91\n");
    reveal_strlit("G90\n");
    reveal_strlit("G1 Z");
    let p = "M204 S"@;
    let t = trimmed(line);
    let out = step(cfg, st, line).out;
    assert forall|k: int| 0 <= k < out.len() implies !starts_with(#[trigger] out[k], p) by {
        match classify(cfg, st, line) {
            LineClass::LayerChange => {
                // the trimmed line opens with a semicolon, so the line is no
                // legacy directive; the control command opens with its own
                // directive word
                assert(t.subrange(0, ";LAYER_CHANGE"@.len() as int)[0] == ';');
                if starts_with(t, p) {
                    assert(t.subrange(0, p.len() as int)[0] == 'M');
                }
                lemma_passthrough_not_m204(line);
                if k == 1 {
                    lemma_control_line_not_m204(
                        FeatureType::FirstLayer,
                        first_layer_control_of(cfg),
                    );
                }
            },
            LineClass::Legacy => {},
            LineClass::Marker(f) => {
                lemma_passthrough_not_m204(line);
                if k == 1 {
                    lemma_control_line_not_m204(f, cfg.settings[f]);
                }
            },
            LineClass::LiftSuppressZ => {},
            LineClass::LiftHeight(_) => {
                lemma_passthrough_not_m204(line);
            },
            LineClass::LiftTravel => {
                assert(out == lift_chunks(cfg.hop_um, cfg.speed_um, st.layer_height_um, line));
                if k == 3 {
                    lemma_passthrough_not_m204(line);
                } else {
                    assert(out[k][0] == 'G');
                    if starts_with(out[k], p) {
                        assert(out[k].subrange(0, p.len() as int)[0] == 'M');
                    }
                }
            },
            LineClass::TravelFresh => {
                lemma_passthrough_not_m204(line);
                if k == 0 {
                    lemma_control_line_not_m204(FeatureType::Travel, travel_control_of(cfg));
                }
            },
            LineClass::TravelRepeat => {
                lemma_passthrough_not_m204(line);
            },
            LineClass::Reassert(f) => {
                lemma_passthrough_not_m204(line);
                if k == 0 {
                    lemma_control_line_not_m204(f, cfg.settings[f]);
                }
            },
            LineClass::Plain => {
                lemma_passthrough_not_m204(line);
            },
        }
    }
}

proof fn lemma_control_line_not_m204(f: FeatureType, c: AccelerationControl)
    ensures
        !starts_with(control_line(f, c), "M204 S"@),
{
    reveal_strlit("M204 S");
    reveal_strlit("SET_VELOCITY_LIMIT ACCEL=");
    let p = "M204 S"@;
    let l = control_line(f, c);
    assert(l[0] == 'S');
    if starts_with(l, p) {
        assert(l.subrange(0, p.len() as int)[0] == 'M');
    }
}

proof fn lemma_comment_chunk_not_m204(c: Seq<char>)
    requires
        c.len() > 0 && c[0] == ';',
    ensures
        !starts_with(c, "M204 S"@),
{
    reveal_strlit("M204 S");
    let p = "M204 S"@;
    if starts_with(c, p) {
        assert(c.subrange(0, p.len() as int)[0] == 'M');
    }
}

proof fn lemma_settings_entries_no_m204(m: Map<FeatureType, AccelerationControl>, i: int)
    ensures
        legacy_free(crate::gcode::settings_entries(m, i)),
    decreases i,
{
    reveal_strlit("; ");
    if i > 0 {
        lemma_settings_entries_no_m204(m, i - 1);
        let es = crate::gcode::settings_entries(m, i);
        assert forall|k: int| 0 <= k < es.len() implies !starts_with(#[trigger] es[k], "M204 S"@) by {
            if k >= crate::gcode::settings_entries(m, i - 1).len() {
                let line = crate::gcode::settings_line(feature_at(i - 1), m[feature_at(i - 1)]);
                assert(line[0] == ';');
                lemma_comment_chunk_not_m204(line);
            }
        }
    }
}

proof fn lemma_stats_entries_no_m204(counts: Map<FeatureType, nat>, i: int)
    ensures
        legacy_free(crate::gcode::stats_entries(counts, i)),
    decreases i,
{
    reveal_strlit("; ");
    if i > 0 {
        lemma_stats_entries_no_m204(counts, i - 1);
        let es = crate::gcode::stats_entries(counts, i);
        assert forall|k: int| 0 <= k < es.len() implies !starts_with(#[trigger] es[k], "M204 S"@) by {
            if k >= crate::gcode::stats_entries(counts, i - 1).len() {
                let line = crate::gcode::stats_line(feature_at(i - 1), counts[feature_at(i - 1)]);
                assert(line[0] == ';');
                lemma_comment_chunk_not_m204(line);
            }
        }
    }
}

proof fn lemma_report_no_m204(m: Map<FeatureType, AccelerationControl>, counts: Map<FeatureType, nat>)
    ensures
        legacy_free(trailing_report(m, counts)),
{
    reveal_strlit("M204 S");
    reveal_strlit("\n");
    reveal_strlit("; Parsed acceleration values:\n");
    reveal_strlit("; Number of acceleration control insertions:\n");
    lemma_settings_entries_no_m204(m, 16);
    lemma_stats_entries_no_m204(counts, 16);
    let p = "M204 S"@;
    let chunks = trailing_report(m, counts);
    assert forall|k: int| 0 <= k < chunks.len() implies !starts_with(#[trigger] chunks[k], p) by {
        let c = chunks[k];
        if starts_with(c, p) {
            assert(c.len() >= p.len());
            assert(c.subrange(0, p.len() as int)[0] == 'M');
            assert(c[0] == 'M');
        }
    }
}

proof fn lemma_run_no_m204(cfg: EngineConfig, st: RunState, lines: Seq<Seq<char>>)
    ensures
        legacy_free(run_from(cfg, st, lines).out),
    decreases lines.len(),
{
    if lines.len() > 0 {
        let first = step(cfg, st, lines.first());
        lemma_step_no_m204(cfg, st, lines.first());
        lemma_run_no_m204(cfg, first.st, lines.drop_first());
    }
}

/// The legacy starting-acceleration directive never appears in the output,
/// however often and wherever it occurs in the input: no chunk of a whole
/// run, report included, opens with it.
pub proof fn lemma_no_m204_in_output(cfg: EngineConfig, first_layer_um: u32, lines: Seq<Seq<char>>)
    ensures
        legacy_free(engine_output(cfg, first_layer_um, lines)),
{
    lemma_run_no_m204(cfg, init_state(first_layer_um), lines);
    lemma_report_no_m204(cfg.settings, run_from(cfg, init_state(first_layer_um), lines).st.counts);
}

/// A chunk that is a control command of the engine.
pub open spec fn is_control_chunk(c: Seq<char>) -> bool {
    starts_with(c, "SET_VELOCITY_LIMIT"@)
}

/// How many control-command chunks a chunk sequence holds.
pub open spec fn control_chunk_count(chunks: Seq<Seq<char>>) -> nat {
    chunks.filter(|c: Seq<char>| is_control_chunk(c)).len()
}

/// Total of the counts of the first `i` canonical features.
pub open spec fn counts_total(counts: Map<FeatureType, nat>, i: int) -> nat
    decreases i,
{
    if i <= 0 {
        0
    } else {
        counts_total(counts, i - 1) + counts[feature_at(i - 1)]
    }
}

proof fn lemma_counts_total_bump(counts: Map<FeatureType, nat>, f: FeatureType, i: int)
    requires
        i <= 16,
    ensures
        counts_total(bump(counts, f), i) == counts_total(counts, i) + (if 0 <= feature_index(f) < i {
            1nat
        } else {
            0nat
        }),
    decreases i,
{
    crate::types::lemma_feature_index_at(f);
    if i > 0 {
        lemma_counts_total_bump(counts, f, i - 1);
        if feature_at(i - 1) == f {
            assert(feature_index(feature_at(i - 1)) == i - 1);
        }
    }
}

proof fn lemma_zero_counts_total(i: int)
    ensures
        counts_total(zero_counts(), i) == 0,
    decreases i,
{
    if i > 0 {
        lemma_zero_counts_total(i - 1);
    }
}

proof fn lemma_count_empty()
    ensures
        control_chunk_count(Seq::<Seq<char>>::empty()) == 0,
{
    reveal(Seq::filter);
}

proof fn lemma_count_push(s: Seq<Seq<char>>, c: Seq<char>)
    ensures
        control_chunk_count(s.push(c)) == control_chunk_count(s) + (if is_control_chunk(c) {
            1nat
        } else {
            0nat
        }),
{
    reveal(Seq::filter);
    assert(s.push(c).drop_last() =~= s);
    assert(s.push(c).last() == c);
}

proof fn lemma_control_line_is_control(f: FeatureType, c: AccelerationControl)
    ensures
        is_control_chunk(control_line(f, c)),
{
    reveal_strlit("SET_VELOCITY_LIMIT");
    reveal_strlit("SET_VELOCITY_LIMIT ACCEL=");
    let p = "SET_VELOCITY_LIMIT"@;
    assert(control_line(f, c).subrange(0, p.len() as int) =~= p);
}

proof fn lemma_passthrough_not_control(line: Seq<char>)
    requires
        !starts_with(trimmed(line), "SET_VELOCITY_LIMIT"@),
    ensures
        !is_control_chunk(line + "\n"@),
{
    reveal_strlit("SET_VELOCITY_LIMIT");
    reveal_strlit("\n");
    let p = "SET_VELOCITY_LIMIT"@;
    let c = line + "\n"@;
    if starts_with(c, p) {
        if line.len() >= p.len() {
            assert(line.subrange(0, p.len() as int) =~= c.subrange(0, p.len() as int));
            crate::text::lemma_trimmed_keeps_prefix(line, p);
        } else {
            assert(line.len() == p.len() - 1);
            assert(c[p.len() - 1] == '\n');
            assert(c.subrange(0, p.len() as int)[p.len() - 1] == p[p.len() - 1]);
        }
    }
}

proof fn lemma_chunk_head_not_control(c: Seq<char>, h: char)
    requires
        c.len() > 0,
        c[0] == h,
        h != 'S',
    ensures
        !is_control_chunk(c),
{
    reveal_strlit("SET_VELOCITY_LIMIT");
    let p = "SET_VELOCITY_LIMIT"@;
    if starts_with(c, p) {
        assert(c.subrange(0, p.len() as int)[0] == 'S');
    }
}

/// One step raises the counter total by exactly the number of control
/// commands it emits: counts move only with an emission, and every emission
/// moves a count.
pub proof fn lemma_step_counts_match_controls(cfg: EngineConfig, st: RunState, line: Seq<char>)
    ensures
        counts_total(step(cfg, st, line).st.counts, 16) == counts_total(st.counts, 16)
            + control_chunk_count(step(cfg, st, line).out),
{
    reveal_strlit("SET_VELOCITY_LIMIT");
    reveal_strlit(";LAYER_CHANGE");
    reveal_strlit("G91\n");
    reveal_strlit("G90\n");
    reveal_strlit("G1 Z");
    let p = "SET_VELOCITY_LIMIT"@;
    let t = trimmed(line);
    let out = step(cfg, st, line).out;
    lemma_count_empty();
    match classify(cfg, st, line) {
        LineClass::LayerChange => {
            assert(t.subrange(0, ";LAYER_CHANGE"@.len() as int)[0] == ';');
            if starts_with(t, p) {
                assert(t.subrange(0, p.len() as int)[0] == 'S');
            }
            lemma_passthrough_not_control(line);
            if st.layer == 0 {
                lemma_control_line_is_control(FeatureType::FirstLayer, first_layer_control_of(cfg));
                assert(out =~= Seq::<Seq<char>>::empty().push(line + "\n"@).push(
                    control_line(FeatureType::FirstLayer, first_layer_control_of(cfg)),
                ));
                lemma_count_push(Seq::<Seq<char>>::empty(), line + "\n"@);
                lemma_count_push(
                    Seq::<Seq<char>>::empty().push(line + "\n"@),
                    control_line(FeatureType::FirstLayer, first_layer_control_of(cfg)),
                );
                lemma_counts_total_bump(st.counts, FeatureType::FirstLayer, 16);
            } else {
                assert(out =~= Seq::<Seq<char>>::empty().push(line + "\n"@));
                lemma_count_push(Seq::<Seq<char>>::empty(), line + "\n"@);
            }
        },
        LineClass::Legacy => {},
        LineClass::Marker(f) => {
            lemma_passthrough_not_control(line);
            if cfg.settings.contains_key(f) {
                lemma_control_line_is_control(f, cfg.settings[f]);
                assert(out =~= Seq::<Seq<char>>::empty().push(line + "\n"@).push(
                    control_line(f, cfg.settings[f]),
                ));
                lemma_count_push(Seq::<Seq<char>>::empty(), line + "\n"@);
                lemma_count_push(
                    Seq::<Seq<char>>::empty().push(line + "\n"@),
                    control_line(f, cfg.settings[f]),
                );
                lemma_counts_total_bump(st.counts, f, 16);
            } else {
                assert(out =~= Seq::<Seq<char>>::empty().push(line + "\n"@));
                lemma_count_push(Seq::<Seq<char>>::empty(), line + "\n"@);
            }
        },
        LineClass::LiftSuppressZ => {},
        LineClass::LiftHeight(_) => {
            lemma_passthrough_not_control(line);
            assert(out =~= Seq::<Seq<char>>::empty().push(line + "\n"@));
            lemma_count_push(Seq::<Seq<char>>::empty(), line + "\n"@);
        },
        LineClass::LiftTravel => {
            assert(out == lift_chunks(cfg.hop_um, cfg.speed_um, st.layer_height_um, line));
            lemma_passthrough_not_control(line);
            assert(out[0][0] == 'G');
            assert(out[1][0] == 'G');
            assert(out[2][0] == 'G');
            assert(out[4][0] == 'G');
            lemma_chunk_head_not_control(out[0], 'G');
            lemma_chunk_head_not_control(out[1], 'G');
            lemma_chunk_head_not_control(out[2], 'G');
            lemma_chunk_head_not_control(out[4], 'G');
            assert(out =~= Seq::<Seq<char>>::empty().push(out[0]).push(out[1]).push(out[2]).push(
                out[3],
            ).push(out[4]));
            lemma_count_push(Seq::<Seq<char>>::empty(), out[0]);
            lemma_count_push(Seq::<Seq<char>>::empty().push(out[0]), out[1]);
            lemma_count_push(Seq::<Seq<char>>::empty().push(out[0]).push(out[1]), out[2]);
            lemma_count_push(
                Seq::<Seq<char>>::empty().push(out[0]).push(out[1]).push(out[2]),
                out[3],
            );
            lemma_count_push(
                Seq::<Seq<char>>::empty().push(out[0]).push(out[1]).push(out[2]).push(out[3]),
                out[4],
            );
        },
        LineClass::TravelFresh => {
            lemma_passthrough_not_control(line);
            lemma_control_line_is_control(FeatureType::Travel, travel_control_of(cfg));
            assert(out =~= Seq::<Seq<char>>::empty().push(
                control_line(FeatureType::Travel, travel_control_of(cfg)),
            ).push(line + "\n"@));
            lemma_count_push(
                Seq::<Seq<char>>::empty(),
                control_line(FeatureType::Travel, travel_control_of(cfg)),
            );
            lemma_count_push(
                Seq::<Seq<char>>::empty().push(control_line(FeatureType::Travel, travel_control_of(cfg))),
                line + "\n"@,
            );
            lemma_counts_total_bump(st.counts, FeatureType::Travel, 16);
        },
        LineClass::TravelRepeat => {
            lemma_passthrough_not_control(line);
            assert(out =~= Seq::<Seq<char>>::empty().push(line + "\n"@));
            lemma_count_push(Seq::<Seq<char>>::empty(), line + "\n"@);
        },
        LineClass::Reassert(f) => {
            lemma_passthrough_not_control(line);
            lemma_control_line_is_control(f, cfg.settings[f]);
            assert(out =~= Seq::<Seq<char>>::empty().push(control_line(f, cfg.settings[f])).push(
                line + "\n"@,
            ));
            lemma_count_push(Seq::<Seq<char>>::empty(), control_line(f, cfg.settings[f]));
            lemma_count_push(
                Seq::<Seq<char>>::empty().push(control_line(f, cfg.settings[f])),
                line + "\n"@,
            );
            lemma_counts_total_bump(st.counts, f, 16);
        },
        LineClass::Plain => {
            lemma_passthrough_not_control(line);
            assert(out =~= Seq::<Seq<char>>::empty().push(line + "\n"@));
            lemma_count_push(Seq::<Seq<char>>::empty(), line + "\n"@);
        },
    }
}

proof fn lemma_run_counts_match(cfg: EngineConfig, st: RunState, lines: Seq<Seq<char>>)
    ensures
        counts_total(run_from(cfg, st, lines).st.counts, 16) == counts_total(st.counts, 16)
            + control_chunk_count(run_from(cfg, st, lines).out),
    decreases lines.len(),
{
    if lines.len() > 0 {
        let first = step(cfg, st, lines.first());
        lemma_step_counts_match_controls(cfg, st, lines.first());
        lemma_run_counts_match(cfg, first.st, lines.drop_first());
        Seq::filter_distributes_over_add(
            first.out,
            run_from(cfg, first.st, lines.drop_first()).out,
            |c: Seq<char>| is_control_chunk(c),
        );
    }
}

/// After a full run the occurrence counter accounts exactly for the control
/// commands emitted: the counts the trailing statistics report prints total
/// to the number of control-command chunks among the rewritten lines.
pub proof fn lemma_counter_reflects_emissions(
    cfg: EngineConfig,
    first_layer_um: u32,
    lines: Seq<Seq<char>>,
)
    ensures
        ({
            let r = run_from(cfg, init_state(first_layer_um), lines);
            counts_total(r.st.counts, 16) == control_chunk_count(r.out)
        }),
{
    lemma_zero_counts_total(16);
    lemma_run_counts_match(cfg, init_state(first_layer_um), lines);
}

/// The safe lift happens at most once in a run: once it is done, no later
/// step performs it again, whatever the line.
pub proof fn lemma_lift_once(cfg: EngineConfig, st: RunState, line: Seq<char>)
    requires
        st.lift_done,
    ensures
        step(cfg, st, line).st.lift_done,
        classify(cfg, st, line) != LineClass::LiftTravel,
{
}

/// The executable rewrite state machine of one run.  Feed it the input lines
/// one at a time with [`Rewriter::process_line`], writing the chunks each
/// call hands back, then take the trailing report from [`Rewriter::finish`].
pub struct Rewriter {
    markers: MarkerTable,
    safe_lift: bool,
    settings: AccelerationSettings,
    hop_um: u32,
    speed_um: u32,
    layer: u64,
    last: AccelerationType,
    current: Option<FeatureType>,
    counter: FeatureCounter,
    lift_done: bool,
    layer_height_um: u32,
}

impl Rewriter {
    pub closed spec fn wf(&self) -> bool {
        self.markers.wf() && self.settings.wf() && self.counter.wf()
    }

    /// The fixed configuration of this run.
    pub closed spec fn cfg(&self) -> EngineConfig {
        EngineConfig {
            markers: self.markers@,
            safe_lift: self.safe_lift,
            settings: self.settings@,
            hop_um: self.hop_um,
            speed_um: self.speed_um,
        }
    }

    /// The model state this rewriter is in.
    pub closed spec fn st(&self) -> RunState {
        RunState {
            layer: self.layer as nat,
            last: self.last,
            current: self.current,
            counts: self.counter@,
            lift_done: self.lift_done,
            layer_height_um: self.layer_height_um,
        }
    }

    /// A rewriter at the start of a run.
    pub fn new(
        markers: MarkerTable,
        safe_lift: bool,
        settings: AccelerationSettings,
        zhop: &ZHopConfig,
    ) -> (r: Rewriter)
        requires
            markers.wf(),
            settings.wf(),
        ensures
            r.wf(),
            r.cfg() == (EngineConfig {
                markers: markers@,
                safe_lift: safe_lift,
                settings: settings@,
                hop_um: zhop.hop_height_um,
                speed_um: zhop.travel_speed_um,
            }),
            r.st() == init_state(zhop.first_layer_height_um),
    {
        Rewriter {
            markers,
            safe_lift,
            settings,
            hop_um: zhop.hop_height_um,
            speed_um: zhop.travel_speed_um,
            layer: 0,
            last: AccelerationType::Unset,
            current: None,
            counter: FeatureCounter::new(),
            lift_done: false,
            layer_height_um: zhop.first_layer_height_um,
        }
    }

    /// Process one input line; the returned chunks are what the rewritten
    /// file holds for it.  The counter bounds are machine limits: a run
    /// cannot step more often than its line count.
    pub fn process_line(&mut self, line: &Vec<char>) -> (out: Vec<Vec<char>>)
        requires
            old(self).wf(),
            old(self).st().layer < u64::MAX,
            forall|f: FeatureType| old(self).st().counts[f] < u64::MAX,
        ensures
            final(self).wf(),
            final(self).cfg() == old(self).cfg(),
            final(self).st() == step(old(self).cfg(), old(self).st(), line@).st,
            views_of(out@) == step(old(self).cfg(), old(self).st(), line@).out,
    {
        let ghost cfg = self.cfg();
        let ghost st0 = self.st();
        let t = trim(line);
        let mut out: Vec<Vec<char>> = Vec::new();
        if starts_with_lit(&t, ";LAYER_CHANGE") {
            proof {
                assert(classify(cfg, st0, line@) == LineClass::LayerChange);
            }
            self.layer = self.layer + 1;
            out.push(line_chunk(line));
            if self.layer == 1 {
                let control = match self.settings.get(FeatureType::FirstLayer) {
                    Some(c) => c,
                    None => default_first_layer_control(),
                };
                out.push(set_velocity_limit(FeatureType::FirstLayer, &control));
                self.counter.increment(FeatureType::FirstLayer);
            }
            proof {
                assert(self.st() =~= step(cfg, st0, line@).st);
                assert(views_of(out@) =~= step(cfg, st0, line@).out);
            }
            return out;
        }
        if starts_with_lit(&t, "M204 S") || starts_with_lit(&t, "SET_VELOCITY_LIMIT") {
            proof {
                assert(classify(cfg, st0, line@) == LineClass::Legacy);
                assert(views_of(out@) =~= step(cfg, st0, line@).out);
            }
            return out;
        }
        let marker = if self.layer >= 1 {
            self.markers.lookup_marker(&t)
        } else {
            None
        };
        if let Some(f) = marker {
            proof {
                assert(classify(cfg, st0, line@) == LineClass::Marker(f));
            }
            self.current = Some(f);
            out.push(line_chunk(line));
            match self.settings.get(f) {
                Some(c) => {
                    out.push(set_velocity_limit(f, &c));
                    self.counter.increment(f);
                    self.last = AccelerationType::Print;
                },
                None => {},
            }
            proof {
                assert(self.st() =~= step(cfg, st0, line@).st);
                assert(views_of(out@) =~= step(cfg, st0, line@).out);
            }
            return out;
        }
        let lift_window = self.safe_lift && self.layer == 1 && !self.lift_done;
        if lift_window && z_move(line) {
            proof {
                assert(classify(cfg, st0, line@) == LineClass::LiftSuppressZ);
                assert(views_of(out@) =~= step(cfg, st0, line@).out);
            }
            return out;
        }
        let height = if lift_window {
            height_comment(&t)
        } else {
            None
        };
        if let Some(um) = height {
            proof {
                assert(classify(cfg, st0, line@) == LineClass::LiftHeight(um));
            }
            self.layer_height_um = um;
            out.push(line_chunk(line));
            proof {
                assert(self.st() =~= step(cfg, st0, line@).st);
                assert(views_of(out@) =~= step(cfg, st0, line@).out);
            }
            return out;
        }
        if travel_move(line) {
            if lift_window {
                proof {
                    assert(classify(cfg, st0, line@) == LineClass::LiftTravel);
                }
                self.lift_done = true;
                let lifted = safe_lift(line, self.hop_um, self.speed_um, self.layer_height_um);
                proof {
                    assert(self.st() =~= step(cfg, st0, line@).st);
                    assert(views_of(lifted@) =~= step(cfg, st0, line@).out);
                }
                return lifted;
            }
            if self.last != AccelerationType::Travel {
                proof {
                    assert(classify(cfg, st0, line@) == LineClass::TravelFresh);
                }
                let control = match self.settings.get(FeatureType::Travel) {
                    Some(c) => c,
                    None => default_travel_control(),
                };
                out.push(set_velocity_limit(FeatureType::Travel, &control));
                self.counter.increment(FeatureType::Travel);
                self.last = AccelerationType::Travel;
                out.push(line_chunk(line));
                proof {
                    assert(self.st() =~= step(cfg, st0, line@).st);
                    assert(views_of(out@) =~= step(cfg, st0, line@).out);
                }
                return out;
            }
            proof {
                assert(classify(cfg, st0, line@) == LineClass::TravelRepeat);
            }
            out.push(line_chunk(line));
            proof {
                assert(self.st() =~= step(cfg, st0, line@).st);
                assert(views_of(out@) =~= step(cfg, st0, line@).out);
            }
            return out;
        }
        if self.last == AccelerationType::Travel {
            if let Some(f) = self.current {
                match self.settings.get(f) {
                    Some(c) => {
                        proof {
                            assert(classify(cfg, st0, line@) == LineClass::Reassert(f));
                        }
                        out.push(set_velocity_limit(f, &c));
                        self.counter.increment(f);
                        self.last = AccelerationType::Print;
                        out.push(line_chunk(line));
                        proof {
                            assert(self.st() =~= step(cfg, st0, line@).st);
                            assert(views_of(out@) =~= step(cfg, st0, line@).out);
                        }
                        return out;
                    },
                    None => {},
                }
            }
        }
        proof {
            assert(classify(cfg, st0, line@) == LineClass::Plain);
        }
        out.push(line_chunk(line));
        proof {
            assert(self.st() =~= step(cfg, st0, line@).st);
            assert(views_of(out@) =~= step(cfg, st0, line@).out);
        }
        out
    }

    /// The trailing report: the settings in effect and the per-feature
    /// insertion counts.
    pub fn finish(&self) -> (out: Vec<Vec<char>>)
        requires
            self.wf(),
        ensures
            views_of(out@) == trailing_report(self.cfg().settings, self.st().counts),
    {
        let mut out = dump_settings(&self.settings);
        let mut stats = dump_stats(&self.counter);
        proof {
            crate::text::lemma_views_of_add(out@, stats@);
        }
        out.append(&mut stats);
        out
    }
}

/// The line itself, with its line break restored.
fn line_chunk(line: &Vec<char>) -> (r: Vec<char>)
    ensures
        r@ == line@ + "\n"@,
{
    let mut r: Vec<char> = Vec::new();
    push_chars(&mut r, line);
    push_str(&mut r, "\n");
    r
}

/// Rewrite a whole file: fold the step function over every line, then
/// append the trailing report.
pub fn rewrite_lines(
    markers: MarkerTable,
    safe_lift: bool,
    settings: AccelerationSettings,
    zhop: &ZHopConfig,
    lines: &Vec<Vec<char>>,
) -> (out: Vec<Vec<char>>)
    requires
        markers.wf(),
        settings.wf(),
    ensures
        views_of(out@) == engine_output(
            EngineConfig {
                markers: markers@,
                safe_lift: safe_lift,
                settings: settings@,
                hop_um: zhop.hop_height_um,
                speed_um: zhop.travel_speed_um,
            },
            zhop.first_layer_height_um,
            views_of(lines@),
        ),
{
    let ghost cfg = EngineConfig {
        markers: markers@,
        safe_lift: safe_lift,
        settings: settings@,
        hop_um: zhop.hop_height_um,
        speed_um: zhop.travel_speed_um,
    };
    let ghost all = views_of(lines@);
    let mut rw = Rewriter::new(markers, safe_lift, settings, zhop);
    let mut out: Vec<Vec<char>> = Vec::new();
    let n = lines.len();
    let mut i: usize = 0;
    proof {
        assert(all.take(0) =~= Seq::<Seq<char>>::empty());
    }
    while i < n
        invariant
            0 <= i <= n,
            n == lines@.len(),
            all == views_of(lines@),
            rw.wf(),
            rw.cfg() == cfg,
            rw.st() == run_from(cfg, init_state(zhop.first_layer_height_um), all.take(i as int)).st,
            views_of(out@) == run_from(
                cfg,
                init_state(zhop.first_layer_height_um),
                all.take(i as int),
            ).out,
            rw.st().layer <= i,
            forall|f: FeatureType| rw.st().counts[f] <= i,
        decreases n - i,
    {
        proof {
            assert(usize::MAX <= u64::MAX);
            lemma_step_bounds(cfg, rw.st(), all[i as int]);
            lemma_run_snoc(cfg, init_state(zhop.first_layer_height_um), all.take(i as int), all[i as int]);
            assert(all.take(i as int).push(all[i as int]) =~= all.take(i as int + 1));
        }
        let mut chunks = rw.process_line(&lines[i]);
        proof {
            crate::text::lemma_views_of_add(out@, chunks@);
        }
        out.append(&mut chunks);
        i = i + 1;
    }
    proof {
        assert(all.take(n as int) =~= all);
    }
    let mut tail = rw.finish();
    proof {
        crate::text::lemma_views_of_add(out@, tail@);
    }
    out.append(&mut tail);
    out
}

} // verus!
