use accel_preprocess::markers::MarkerTable;
use accel_preprocess::slicers::slic3r;
use accel_preprocess::types::{AccelerationControl, AccelerationSettings, FeatureType, ZHopConfig};

fn lines_of(s: &str) -> Vec<Vec<char>> {
    s.lines().map(|l| l.chars().collect()).collect()
}

fn text_of(chunks: &[Vec<char>]) -> String {
    chunks.iter().flat_map(|c| c.iter()).collect()
}

fn testing_table() -> MarkerTable {
    let entries: Vec<Vec<char>> = (0..16).map(|_| "TESTING".chars().collect()).collect();
    MarkerTable::from_entries(entries)
}

fn sample_settings() -> AccelerationSettings {
    let mut s = AccelerationSettings::new();
    s.insert(
        FeatureType::Travel,
        AccelerationControl { accel: 9000, accel_to_decel: 4500, scv: 8 },
    );
    s.insert(
        FeatureType::Skirt,
        AccelerationControl { accel: 1000, accel_to_decel: 500, scv: 3 },
    );
    s
}

#[test]
fn test_m204_removal() {
    let input = lines_of("M204 S12000\n");
    let result = slic3r::process(&input, &sample_settings(), testing_table(), &ZHopConfig::standard());
    let result = text_of(&result);
    let result: Vec<&str> = result.split('\n').collect();
    assert_eq!(
        result
            .iter()
            .filter(|line| line.starts_with("M204 S"))
            .count(),
        0
    );
}

#[test]
fn test_set_velocity_limit_removal() {
    let input = lines_of("SET_VELOCITY_LIMIT SQUARE_CORNER_VELOCITY=13\n");
    let result = slic3r::process(&input, &sample_settings(), testing_table(), &ZHopConfig::standard());
    let result = text_of(&result);
    let result: Vec<&str> = result.split('\n').collect();
    assert_eq!(
        result
            .iter()
            .filter(|line| line.starts_with("SET_VELOCITY_LIMIT"))
            .count(),
        0
    );
}

#[test]
fn test_m204_removed_wherever_it_occurs() {
    let input = lines_of("M204 S1\nhello\nM204 S2\n  M204 S3\nM204 S4\n");
    let result = slic3r::process(&input, &sample_settings(), testing_table(), &ZHopConfig::standard());
    let text = text_of(&result);
    assert!(!text.contains("M204 S"));
    assert!(text.contains("hello\n"));
}

#[test]
fn test_consecutive_travel_moves_one_control() {
    // below the first layer no safe lift interferes; the first travel move
    // gets one travel control command, the following ones none
    let input = lines_of("G1 X1 Y1 F300\nG1 X2 Y2\nG1 X3 Y3 ; wipe\n");
    let result = slic3r::process(&input, &sample_settings(), testing_table(), &ZHopConfig::standard());
    let text = text_of(&result);
    let controls: Vec<&str> = text
        .split('\n')
        .filter(|l| l.starts_with("SET_VELOCITY_LIMIT"))
        .collect();
    assert_eq!(controls.len(), 1);
    assert_eq!(
        controls[0],
        "SET_VELOCITY_LIMIT ACCEL=9000 ACCEL_TO_DECEL=4500 SQUARE_CORNER_VELOCITY=8 ; TYPE:Travel"
    );
}

#[test]
fn test_travel_control_from_default_when_unconfigured() {
    let input = lines_of("G1 X1 Y1\n");
    let result = slic3r::process(
        &input,
        &AccelerationSettings::new(),
        testing_table(),
        &ZHopConfig::standard(),
    );
    let text = text_of(&result);
    assert!(text.starts_with(
        "SET_VELOCITY_LIMIT ACCEL=4000 ACCEL_TO_DECEL=2000 SQUARE_CORNER_VELOCITY=5 ; TYPE:Travel\nG1 X1 Y1\n"
    ));
}

#[test]
fn test_first_layer_control_after_first_layer_change() {
    let input = lines_of(";LAYER_CHANGE\n;LAYER_CHANGE\n");
    let result = slic3r::process(
        &input,
        &AccelerationSettings::new(),
        testing_table(),
        &ZHopConfig::standard(),
    );
    let text = text_of(&result);
    let first_layer_controls = text
        .split('\n')
        .filter(|l| l.starts_with("SET_VELOCITY_LIMIT") && l.ends_with("; TYPE:First Layer"))
        .count();
    // only the first layer change brings a first-layer control command
    assert_eq!(first_layer_controls, 1);
    assert!(text.contains(
        ";LAYER_CHANGE\nSET_VELOCITY_LIMIT ACCEL=2000 ACCEL_TO_DECEL=1000 SQUARE_CORNER_VELOCITY=5 ; TYPE:First Layer\n"
    ));
}

#[test]
fn test_marker_line_followed_by_exactly_one_control() {
    // a marker table where every entry reads TESTING matches the first
    // feature in canonical order: the first layer
    let mut settings = sample_settings();
    settings.insert(
        FeatureType::FirstLayer,
        AccelerationControl { accel: 7000, accel_to_decel: 3500, scv: 9 },
    );
    let input = lines_of(";LAYER_CHANGE\nTESTING\nfiller\n");
    let result = slic3r::process(&input, &settings, testing_table(), &ZHopConfig::standard());
    let text = text_of(&result);
    assert!(text.contains(
        "TESTING\nSET_VELOCITY_LIMIT ACCEL=7000 ACCEL_TO_DECEL=3500 SQUARE_CORNER_VELOCITY=9 ; TYPE:First Layer\nfiller\n"
    ));
}

#[test]
fn test_marker_without_settings_entry_emits_no_control() {
    // the marker still matches (the first layer again) but the settings
    // hold no value for it: the line passes through with no control command
    let input = lines_of(";LAYER_CHANGE\nTESTING\nfiller\n");
    let result = slic3r::process(&input, &sample_settings(), testing_table(), &ZHopConfig::standard());
    let text = text_of(&result);
    assert!(text.contains("TESTING\nfiller\n"));
}

#[test]
fn test_marker_not_matched_before_first_layer() {
    let input = lines_of("TESTING\n");
    let result = slic3r::process(&input, &sample_settings(), testing_table(), &ZHopConfig::standard());
    let text = text_of(&result);
    assert!(!text.contains("SET_VELOCITY_LIMIT"));
    assert!(text.starts_with("TESTING\n"));
}

#[test]
fn test_reassertion_after_travel() {
    // marker sets the active feature; travel switches to travel control; the
    // next ordinary line re-asserts the feature's control
    let table_entries: Vec<Vec<char>> = (0..16)
        .map(|i| {
            if i == 12 {
                ";TYPE:Skirt".chars().collect()
            } else {
                format!("unused-{}", i).chars().collect()
            }
        })
        .collect();
    let table = MarkerTable::from_entries(table_entries);
    let input = lines_of(";LAYER_CHANGE\n;LAYER_CHANGE\n;TYPE:Skirt\nG1 X1 Y1\nplain line\n");
    let result = slic3r::process(&input, &sample_settings(), table, &ZHopConfig::standard());
    let text = text_of(&result);
    assert!(text.contains(
        "G1 X1 Y1\nSET_VELOCITY_LIMIT ACCEL=1000 ACCEL_TO_DECEL=500 SQUARE_CORNER_VELOCITY=3 ; TYPE:Skirt\nplain line\n"
    ));
    // the skirt control appears twice: after its marker and re-asserted
    let skirt_controls = text
        .split('\n')
        .filter(|l| l.starts_with("SET_VELOCITY_LIMIT") && l.ends_with("; TYPE:Skirt"))
        .count();
    assert_eq!(skirt_controls, 2);
}

#[test]
fn test_empty_input_still_reports() {
    let input: Vec<Vec<char>> = Vec::new();
    let result = slic3r::process(&input, &sample_settings(), testing_table(), &ZHopConfig::standard());
    let text = text_of(&result);
    assert!(text.contains("; Parsed acceleration values:\n"));
    assert!(text.contains("; Number of acceleration control insertions:\n"));
}

#[test]
fn test_stats_reflect_emission_counts() {
    let input = lines_of(";LAYER_CHANGE\nG1 X1 Y1\nG1 X2 Y2\n");
    // safe lift brackets the first travel move inside the first layer, so no
    // travel control command is emitted for it; the second travel move gets
    // one
    let result = slic3r::process(&input, &sample_settings(), testing_table(), &ZHopConfig::standard());
    let text = text_of(&result);
    let travel_controls = text
        .split('\n')
        .filter(|l| l.starts_with("SET_VELOCITY_LIMIT") && l.ends_with("; TYPE:Travel"))
        .count();
    assert_eq!(travel_controls, 1);
    assert!(text.contains(&format!("; {:<35}{}\n", "TYPE:First Layer", 1)));
    assert!(text.contains(&format!("; {:<35}{}\n", "TYPE:Travel", 1)));
}
