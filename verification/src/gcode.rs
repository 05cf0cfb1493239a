//! The command emitters: the control-command line, the safe-lift maneuver,
//! and the trailing settings and statistics reports.

use vstd::prelude::*;
use crate::markers::{display_name, display_name_chars};
use crate::text::{
    lemma_views_of_push, push_chars, push_str, push_u64, str_to_chars, u64_dec, views_of,
};
use crate::types::{
    feature_at, AccelerationControl, AccelerationSettings, FeatureCounter, FeatureType,
};

verus! {

/// A run of `n` spaces.
pub open spec fn spaces(n: int) -> Seq<char> {
    Seq::new(if n >= 0 {
        n as nat
    } else {
        0
    }, |i: int| ' ')
}

/// The display name of `f` padded with spaces to 35 columns.
pub open spec fn padded_name(f: FeatureType) -> Seq<char> {
    display_name(f) + spaces(35 - display_name(f).len())
}

/// One control-command line: the directive with its three values, then a
/// comment naming the feature it was emitted for.
pub open spec fn control_line(f: FeatureType, c: AccelerationControl) -> Seq<char> {
    "SET_VELOCITY_LIMIT ACCEL="@ + u64_dec(c.accel as nat) + " ACCEL_TO_DECEL="@ + u64_dec(
        c.accel_to_decel as nat,
    ) + " SQUARE_CORNER_VELOCITY="@ + u64_dec(c.scv as nat) + " ; "@ + display_name(f) + "\n"@
}

/// The field-by-field rendering of a control value in the settings report.
pub open spec fn control_fields(c: AccelerationControl) -> Seq<char> {
    "AccelerationControl { ACCEL: "@ + u64_dec(c.accel as nat) + ", ACCEL_TO_DECEL: "@ + u64_dec(
        c.accel_to_decel as nat,
    ) + ", SQUARE_CORNER_VELOCITY: "@ + u64_dec(c.scv as nat) + " }"@
}

/// One line of the settings report.
pub open spec fn settings_line(f: FeatureType, c: AccelerationControl) -> Seq<char> {
    "; "@ + padded_name(f) + control_fields(c) + "\n"@
}

/// One line of the statistics report.
pub open spec fn stats_line(f: FeatureType, n: nat) -> Seq<char> {
    "; "@ + padded_name(f) + u64_dec(n) + "\n"@
}

/// The settings-report lines for the first `i` features of the canonical
/// order, one line per feature the mapping holds.
pub open spec fn settings_entries(m: Map<FeatureType, AccelerationControl>, i: int) -> Seq<
    Seq<char>,
>
    decreases i,
{
    if i <= 0 {
        Seq::empty()
    } else {
        settings_entries(m, i - 1) + (if m.contains_key(feature_at(i - 1)) {
            seq![settings_line(feature_at(i - 1), m[feature_at(i - 1)])]
        } else {
            Seq::empty()
        })
    }
}

/// The full settings report.
pub open spec fn settings_report(m: Map<FeatureType, AccelerationControl>) -> Seq<Seq<char>> {
    seq!["\n"@, "; Parsed acceleration values:\n"@, "\n"@] + settings_entries(m, 16) + seq!["\n"@]
}

/// The statistics-report lines for the first `i` features of the canonical
/// order, one line per feature with a nonzero count.
pub open spec fn stats_entries(counts: Map<FeatureType, nat>, i: int) -> Seq<Seq<char>>
    decreases i,
{
    if i <= 0 {
        Seq::empty()
    } else {
        stats_entries(counts, i - 1) + (if counts[feature_at(i - 1)] > 0 {
            seq![stats_line(feature_at(i - 1), counts[feature_at(i - 1)])]
        } else {
            Seq::empty()
        })
    }
}

/// The full statistics report.
pub open spec fn stats_report(counts: Map<FeatureType, nat>) -> Seq<Seq<char>> {
    seq!["\n"@, "; Number of acceleration control insertions:\n"@, "\n"@] + stats_entries(
        counts,
        16,
    ) + seq!["\n"@]
}

/// Everything appended after the last input line.
pub open spec fn trailing_report(
    m: Map<FeatureType, AccelerationControl>,
    counts: Map<FeatureType, nat>,
) -> Seq<Seq<char>> {
    settings_report(m) + stats_report(counts)
}

/// Format one control-command line for `f`.
pub fn set_velocity_limit(f: FeatureType, control: &AccelerationControl) -> (r: Vec<char>)
    ensures
        r@ == control_line(f, *control),
{
    let mut r: Vec<char> = Vec::new();
    push_str(&mut r, "SET_VELOCITY_LIMIT ACCEL=");
    push_u64(&mut r, control.accel);
    push_str(&mut r, " ACCEL_TO_DECEL=");
    push_u64(&mut r, control.accel_to_decel);
    push_str(&mut r, " SQUARE_CORNER_VELOCITY=");
    push_u64(&mut r, control.scv);
    push_str(&mut r, " ; ");
    let name = display_name_chars(f);
    push_chars(&mut r, &name);
    push_str(&mut r, "\n");
    r
}

/// Append the display name of `f` padded to 35 columns.
fn push_padded_name(dst: &mut Vec<char>, f: FeatureType)
    ensures
        final(dst)@ == old(dst)@ + padded_name(f),
{
    let name = display_name_chars(f);
    push_chars(dst, &name);
    let target: usize = if name.len() >= 35 {
        0
    } else {
        35 - name.len()
    };
    let ghost base = dst@;
    let mut k: usize = 0;
    while k < target
        invariant
            0 <= k <= target,
            dst@ =~= base + spaces(k as int),
        decreases target - k,
    {
        dst.push(' ');
        k = k + 1;
        proof {
            assert(dst@ =~= base + spaces(k as int));
        }
    }
    proof {
        assert(spaces(target as int) =~= spaces(35 - display_name(f).len()));
        assert(dst@ =~= old(dst)@ + padded_name(f));
    }
}

/// Format the settings report: every feature-to-control mapping in effect,
/// in canonical feature order.
pub fn dump_settings(settings: &AccelerationSettings) -> (r: Vec<Vec<char>>)
    requires
        settings.wf(),
    ensures
        views_of(r@) == settings_report(settings@),
{
    let mut r: Vec<Vec<char>> = Vec::new();
    r.push(str_to_chars("\n"));
    r.push(str_to_chars("; Parsed acceleration values:\n"));
    r.push(str_to_chars("\n"));
    proof {
        assert(views_of(r@) =~= seq!["\n"@, "; Parsed acceleration values:\n"@, "\n"@]
            + settings_entries(settings@, 0));
    }
    let mut i: usize = 0;
    while i < 16
        invariant
            0 <= i <= 16,
            settings.wf(),
            views_of(r@) =~= seq!["\n"@, "; Parsed acceleration values:\n"@, "\n"@]
                + settings_entries(settings@, i as int),
        decreases 16 - i,
    {
        let f = crate::types::feature_of_slot(i);
        match settings.get(f) {
            Some(c) => {
                let mut line: Vec<char> = Vec::new();
                push_str(&mut line, "; ");
                push_padded_name(&mut line, f);
                push_str(&mut line, "AccelerationControl { ACCEL: ");
                push_u64(&mut line, c.accel);
                push_str(&mut line, ", ACCEL_TO_DECEL: ");
                push_u64(&mut line, c.accel_to_decel);
                push_str(&mut line, ", SQUARE_CORNER_VELOCITY: ");
                push_u64(&mut line, c.scv);
                push_str(&mut line, " }");
                push_str(&mut line, "\n");
                proof {
                    assert(line@ =~= settings_line(f, c));
                    lemma_views_of_push(r@, line);
                }
                r.push(line);
                proof {
                    assert(views_of(r@) =~= seq![
                        "\n"@,
                        "; Parsed acceleration values:\n"@,
                        "\n"@,
                    ] + settings_entries(settings@, i as int + 1));
                }
            },
            None => {
                proof {
                    assert(settings_entries(settings@, i as int + 1) =~= settings_entries(
                        settings@,
                        i as int,
                    ));
                }
            },
        }
        i = i + 1;
    }
    r.push(str_to_chars("\n"));
    proof {
        assert(views_of(r@) =~= settings_report(settings@));
    }
    r
}

/// Format the statistics report: every feature a control command was emitted
/// for, with its count, in canonical feature order.
pub fn dump_stats(counter: &FeatureCounter) -> (r: Vec<Vec<char>>)
    requires
        counter.wf(),
    ensures
        views_of(r@) == stats_report(counter@),
{
    let mut r: Vec<Vec<char>> = Vec::new();
    r.push(str_to_chars("\n"));
    r.push(str_to_chars("; Number of acceleration control insertions:\n"));
    r.push(str_to_chars("\n"));
    proof {
        assert(views_of(r@) =~= seq![
            "\n"@,
            "; Number of acceleration control insertions:\n"@,
            "\n"@,
        ] + stats_entries(counter@, 0));
    }
    let mut i: usize = 0;
    while i < 16
        invariant
            0 <= i <= 16,
            counter.wf(),
            views_of(r@) =~= seq!["\n"@, "; Number of acceleration control insertions:\n"@, "\n"@]
                + stats_entries(counter@, i as int),
        decreases 16 - i,
    {
        let f = crate::types::feature_of_slot(i);
        let n = counter.count(f);
        if n > 0 {
            let mut line: Vec<char> = Vec::new();
            push_str(&mut line, "; ");
            push_padded_name(&mut line, f);
            push_u64(&mut line, n);
            push_str(&mut line, "\n");
            proof {
                assert(line@ =~= stats_line(f, counter@[f]));
                lemma_views_of_push(r@, line);
            }
            r.push(line);
            proof {
                assert(views_of(r@) =~= seq![
                    "\n"@,
                    "; Number of acceleration control insertions:\n"@,
                    "\n"@,
                ] + stats_entries(counter@, i as int + 1));
            }
        } else {
            proof {
                assert(stats_entries(counter@, i as int + 1) =~= stats_entries(
                    counter@,
                    i as int,
                ));
            }
        }
        i = i + 1;
    }
    r.push(str_to_chars("\n"));
    proof {
        assert(views_of(r@) =~= stats_report(counter@));
    }
    r
}

/// A height in thousandths of a millimeter, written in millimeters with
/// three decimals.
pub open spec fn fixed3(um: nat) -> Seq<char> {
    u64_dec(um / 1000) + "."@ + (if um % 1000 < 10 {
        "00"@
    } else if um % 1000 < 100 {
        "0"@
    } else {
        Seq::<char>::empty()
    }) + u64_dec(um % 1000)
}

/// Feed rate of the lift moves: the configured speed, in thousandths of a
/// millimeter per second, converted to whole millimeters per minute.
pub open spec fn lift_feed(speed_um: u32) -> nat {
    ((speed_um * 60) / 1000) as nat
}

/// A Z move to `um` at the lift feed rate.
pub open spec fn z_move_line(um: nat, speed_um: u32) -> Seq<char> {
    "G1 Z"@ + fixed3(um) + " F"@ + u64_dec(lift_feed(speed_um)) + "\n"@
}

/// The safe-lift maneuver around one first-layer travel move: switch to
/// relative positioning, rise by the hop height, switch back to absolute
/// positioning, replay the travel move unmodified, and descend to the
/// tracked layer height.
pub open spec fn lift_chunks(
    hop_um: u32,
    speed_um: u32,
    layer_um: u32,
    line: Seq<char>,
) -> Seq<Seq<char>> {
    seq![
        "G91\n"@,
        z_move_line(hop_um as nat, speed_um),
        "G90\n"@,
        line + "\n"@,
        z_move_line(layer_um as nat, speed_um),
    ]
}

/// Append a millimeter rendering of `um` with three decimals.
fn push_fixed3(dst: &mut Vec<char>, um: u32)
    ensures
        final(dst)@ == old(dst)@ + fixed3(um as nat),
{
    push_u64(dst, (um / 1000) as u64);
    push_str(dst, ".");
    let rem = um % 1000;
    if rem < 10 {
        push_str(dst, "00");
    } else if rem < 100 {
        push_str(dst, "0");
    }
    push_u64(dst, rem as u64);
    assert(dst@ =~= old(dst)@ + fixed3(um as nat));
}

fn z_move_chars(um: u32, speed_um: u32) -> (r: Vec<char>)
    ensures
        r@ == z_move_line(um as nat, speed_um),
{
    let mut r: Vec<char> = Vec::new();
    push_str(&mut r, "G1 Z");
    push_fixed3(&mut r, um);
    push_str(&mut r, " F");
    let feed: u64 = (speed_um as u64) * 60 / 1000;
    push_u64(&mut r, feed);
    push_str(&mut r, "\n");
    assert(r@ =~= z_move_line(um as nat, speed_um));
    r
}

/// Emit the safe-lift maneuver around the travel line `line`.
pub fn safe_lift(line: &Vec<char>, hop_um: u32, speed_um: u32, layer_um: u32) -> (r: Vec<
    Vec<char>,
>)
    ensures
        views_of(r@) == lift_chunks(hop_um, speed_um, layer_um, line@),
{
    let mut r: Vec<Vec<char>> = Vec::new();
    r.push(str_to_chars("G91\n"));
    r.push(z_move_chars(hop_um, speed_um));
    r.push(str_to_chars("G90\n"));
    let mut replay: Vec<char> = Vec::new();
    push_chars(&mut replay, line);
    push_str(&mut replay, "\n");
    r.push(replay);
    r.push(z_move_chars(layer_um, speed_um));
    proof {
        assert(views_of(r@) =~= lift_chunks(hop_um, speed_um, layer_um, line@));
    }
    r
}

} // verus!
