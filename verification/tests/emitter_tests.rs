use accel_preprocess::gcode::{dump_settings, set_velocity_limit};
use accel_preprocess::slicers::orca::OrcaSlicerProcessor;
use accel_preprocess::slicers::prusaslicer::PrusaSlicerProcessor;
use accel_preprocess::slicers::superslicer::SuperSlicerProcessor;
use accel_preprocess::types::{AccelerationControl, AccelerationSettings, FeatureType, ZHopConfig};

fn lines_of(s: &str) -> Vec<Vec<char>> {
    s.lines().map(|l| l.chars().collect()).collect()
}

fn text_of(chunks: &[Vec<char>]) -> String {
    chunks.iter().flat_map(|c| c.iter()).collect()
}

#[test]
fn test_control_line_text() {
    let line = set_velocity_limit(
        FeatureType::OverhangPerimeter,
        &AccelerationControl { accel: 1234, accel_to_decel: 567, scv: 8 },
    );
    let text: String = line.iter().collect();
    assert_eq!(
        text,
        "SET_VELOCITY_LIMIT ACCEL=1234 ACCEL_TO_DECEL=567 SQUARE_CORNER_VELOCITY=8 ; TYPE:Overhang perimeter\n"
    );
}

#[test]
fn test_settings_dump_text() {
    let mut settings = AccelerationSettings::new();
    settings.insert(
        FeatureType::Skirt,
        AccelerationControl { accel: 1000, accel_to_decel: 500, scv: 3 },
    );
    let text = text_of(&dump_settings(&settings));
    let expected = format!(
        "\n; Parsed acceleration values:\n\n; {:<35}AccelerationControl {{ ACCEL: 1000, ACCEL_TO_DECEL: 500, SQUARE_CORNER_VELOCITY: 3 }}\n\n",
        "TYPE:Skirt"
    );
    assert_eq!(text, expected);
}

#[test]
fn test_orca_feature_marker() {
    let p = OrcaSlicerProcessor::new();
    let marker: String = p.feature_marker(&FeatureType::TopSolidInfill).iter().collect();
    assert_eq!(marker, ";TYPE:Top surface");
    let marker: String = p.feature_marker(&FeatureType::InternalPerimeter).iter().collect();
    assert_eq!(marker, ";TYPE:Inner wall");
}

#[test]
fn test_safe_lift_brackets_first_travel_with_default_height() {
    // an X/Y travel move inside the first layer, before any height comment,
    // is bracketed with the default 0.2 mm layer height, exactly once
    let p = PrusaSlicerProcessor::new();
    let input = lines_of(";LAYER_CHANGE\nG1 X10 Y10 F3000\nG1 X11 Y11 F3000\n");
    let out = p.process(&input, &AccelerationSettings::new(), &ZHopConfig::standard());
    let text = text_of(&out);
    assert!(text.contains("G91\nG1 Z2.000 F600\nG90\nG1 X10 Y10 F3000\nG1 Z0.200 F600\n"));
    assert_eq!(text.matches("G91\n").count(), 1);
    assert_eq!(text.matches("G90\n").count(), 1);
}

#[test]
fn test_safe_lift_uses_height_comment_value() {
    let p = SuperSlicerProcessor::new();
    let input = lines_of(";LAYER_CHANGE\n; HEIGHT: 0.25\nG1 X10 Y10 F3000\n");
    let out = p.process(&input, &AccelerationSettings::new(), &ZHopConfig::standard());
    let text = text_of(&out);
    // the height comment is still emitted, and refines the descent height
    assert!(text.contains("; HEIGHT: 0.25\n"));
    assert!(text.contains("G91\nG1 Z2.000 F600\nG90\nG1 X10 Y10 F3000\nG1 Z0.250 F600\n"));
}

#[test]
fn test_safe_lift_keeps_default_on_unreadable_height() {
    let p = PrusaSlicerProcessor::new();
    let input = lines_of(";LAYER_CHANGE\n; HEIGHT: soon\nG1 X10 Y10 F3000\n");
    let out = p.process(&input, &AccelerationSettings::new(), &ZHopConfig::standard());
    let text = text_of(&out);
    assert!(text.contains("; HEIGHT: soon\n"));
    assert!(text.contains("G1 Z0.200 F600\n"));
}

#[test]
fn test_safe_lift_geometry_follows_configuration() {
    let p = PrusaSlicerProcessor::new();
    let zhop = ZHopConfig {
        hop_height_um: 1500,
        travel_speed_um: 30000,
        first_layer_height_um: 300,
    };
    let input = lines_of(";LAYER_CHANGE\nG1 X10 Y10\n");
    let out = p.process(&input, &AccelerationSettings::new(), &zhop);
    let text = text_of(&out);
    assert!(text.contains("G91\nG1 Z1.500 F1800\nG90\nG1 X10 Y10\nG1 Z0.300 F1800\n"));
}

#[test]
fn test_z_move_suppressed_while_lift_pending() {
    let p = PrusaSlicerProcessor::new();
    let input = lines_of(";LAYER_CHANGE\nG1 Z0.4 F9000\nG1 X10 Y10 F3000\nG1 Z0.6 F9000\n");
    let out = p.process(&input, &AccelerationSettings::new(), &ZHopConfig::standard());
    let text = text_of(&out);
    // the Z move before the first travel move vanishes; the one after the
    // lift is an ordinary line again
    assert!(!text.contains("G1 Z0.4 F9000\n"));
    assert!(text.contains("G1 Z0.6 F9000\n"));
}

#[test]
fn test_no_safe_lift_for_orca() {
    let p = OrcaSlicerProcessor::new();
    let input = lines_of(";LAYER_CHANGE\nG1 X10 Y10 F3000\n");
    let out = p.process(&input, &AccelerationSettings::new(), &ZHopConfig::standard());
    let text = text_of(&out);
    assert!(!text.contains("G91\n"));
    // ordinary travel handling applies instead
    assert!(text.contains(
        "SET_VELOCITY_LIMIT ACCEL=4000 ACCEL_TO_DECEL=2000 SQUARE_CORNER_VELOCITY=5 ; TYPE:Travel\nG1 X10 Y10 F3000\n"
    ));
}

#[test]
fn test_travel_move_shapes() {
    // feed rate and trailing comment are optional; a Z word is not a travel
    // move; case is free
    let p = OrcaSlicerProcessor::new();
    let cases = [
        ("G1 X1 Y2", true),
        ("G1 X1.5 Y2.5 F1200", true),
        ("g1 x1 y2 f3 ; wipe", true),
        ("G1 X1 Y2 ;comment", true),
        ("G1 Z0.3", false),
        ("G1 X1", false),
        ("G1 X1 Y2 Z3", false),
        (" G1 X1 Y2", false),
        ("G1 X1 Y2F3", false),
    ];
    for (line, is_travel) in cases {
        let input = lines_of(&format!("{}\n", line));
        let out = p.process(&input, &AccelerationSettings::new(), &ZHopConfig::standard());
        let text = text_of(&out);
        assert_eq!(
            text.split('\n').any(|l| l.ends_with("; TYPE:Travel") && l.starts_with("SET_VELOCITY_LIMIT")),
            is_travel,
            "line: {:?}",
            line
        );
    }
}
