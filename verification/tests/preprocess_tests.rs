use accel_preprocess::preprocess::{process, resolve_settings, scan_head};
use accel_preprocess::slicers::Dialect;
use accel_preprocess::types::{
    AccelerationControl, AccelerationSettings, FeatureType, PreprocessError, ZHopConfig,
};

fn lines_of(s: &str) -> Vec<Vec<char>> {
    s.lines().map(|l| l.chars().collect()).collect()
}

fn text_of(chunks: &[Vec<char>]) -> String {
    chunks.iter().flat_map(|c| c.iter()).collect()
}

#[test]
fn test_unknown_producer_fails() {
    let input = lines_of("just some line\nG1 X1 Y1\n");
    let result = process(&input, &None, &ZHopConfig::standard());
    assert!(matches!(result, Err(PreprocessError::UnknownSlicer)));
}

#[test]
fn test_empty_file_fails_as_unknown_producer() {
    let input: Vec<Vec<char>> = Vec::new();
    let result = process(&input, &None, &ZHopConfig::standard());
    assert!(matches!(result, Err(PreprocessError::UnknownSlicer)));
}

#[test]
fn test_override_scan_stops_after_tolerance_exhausted() {
    // an override, three tolerated non-matching lines, then a fourth
    // non-matching line that stops the scan: a later override is never read
    let input = lines_of(
        "; ACCEL: 1000/500/3 for Skirt\none\ntwo\nthree\nfour\n; ACCEL: 1/2/3 for Travel\n",
    );
    let merged = resolve_settings(&input, &None).unwrap();
    assert_eq!(
        merged.get(FeatureType::Skirt),
        Some(AccelerationControl { accel: 1000, accel_to_decel: 500, scv: 3 })
    );
    assert_eq!(merged.get(FeatureType::Travel), None);
}

#[test]
fn test_override_scan_tolerates_three_gap_lines() {
    // with only three non-matching lines between them, the second override
    // is still read
    let input = lines_of(
        "; ACCEL: 1000/500/3 for Skirt\none\ntwo\nthree\n; ACCEL: 1/2/3 for Travel\n",
    );
    let merged = resolve_settings(&input, &None).unwrap();
    assert_eq!(
        merged.get(FeatureType::Travel),
        Some(AccelerationControl { accel: 1, accel_to_decel: 2, scv: 3 })
    );
}

#[test]
fn test_scan_patient_before_first_override() {
    // non-matching lines cost nothing until the first override is found
    let input = lines_of("a\nb\nc\nd\ne\nf\ng\nh\n; ACCEL: 10/20/30 for Gap fill\n");
    let merged = resolve_settings(&input, &None).unwrap();
    assert_eq!(
        merged.get(FeatureType::GapFill),
        Some(AccelerationControl { accel: 10, accel_to_decel: 20, scv: 30 })
    );
}

#[test]
fn test_header_on_stopping_line_still_detected() {
    // the line that exhausts the tolerance is still examined for a header
    let input = lines_of(
        "; ACCEL: 1/2/3 for Skirt\na\nb\nc\n; generated by PrusaSlicer 2.7.0\nG1 X1 Y1\n",
    );
    let result = process(&input, &None, &ZHopConfig::standard());
    assert!(result.is_ok());
}

#[test]
fn test_header_after_scan_stop_is_never_seen() {
    let input = lines_of(
        "; ACCEL: 1/2/3 for Skirt\na\nb\nc\nd\n; generated by PrusaSlicer 2.7.0\n",
    );
    let result = process(&input, &None, &ZHopConfig::standard());
    assert!(matches!(result, Err(PreprocessError::UnknownSlicer)));
}

#[test]
fn test_override_beats_external_settings() {
    let mut external = AccelerationSettings::new();
    external.insert(
        FeatureType::Skirt,
        AccelerationControl { accel: 9, accel_to_decel: 9, scv: 9 },
    );
    external.insert(
        FeatureType::Travel,
        AccelerationControl { accel: 7, accel_to_decel: 7, scv: 7 },
    );
    let input = lines_of("; ACCEL: 1000/500/3 for Skirt\n");
    let merged = resolve_settings(&input, &Some(external)).unwrap();
    // the embedded override wins for its feature; the rest stays external
    assert_eq!(
        merged.get(FeatureType::Skirt),
        Some(AccelerationControl { accel: 1000, accel_to_decel: 500, scv: 3 })
    );
    assert_eq!(
        merged.get(FeatureType::Travel),
        Some(AccelerationControl { accel: 7, accel_to_decel: 7, scv: 7 })
    );
}

#[test]
fn test_first_embedded_override_wins() {
    let input = lines_of("; ACCEL: 1000/500/3 for Skirt\n; ACCEL: 4/4/4 for Skirt\n");
    let merged = resolve_settings(&input, &None).unwrap();
    assert_eq!(
        merged.get(FeatureType::Skirt),
        Some(AccelerationControl { accel: 1000, accel_to_decel: 500, scv: 3 })
    );
}

#[test]
fn test_feature_name_matched_case_insensitively() {
    let input = lines_of("; ACCEL: 1/2/3 for skirt\n;ACCEL:4/5/6 for TYPE:TRAVEL\n");
    let merged = resolve_settings(&input, &None).unwrap();
    assert_eq!(
        merged.get(FeatureType::Skirt),
        Some(AccelerationControl { accel: 1, accel_to_decel: 2, scv: 3 })
    );
    assert_eq!(
        merged.get(FeatureType::Travel),
        Some(AccelerationControl { accel: 4, accel_to_decel: 5, scv: 6 })
    );
}

#[test]
fn test_backslash_separator_accepted() {
    let input = lines_of("; ACCEL: 10\\20\\3 for Travel\n");
    let merged = resolve_settings(&input, &None).unwrap();
    assert_eq!(
        merged.get(FeatureType::Travel),
        Some(AccelerationControl { accel: 10, accel_to_decel: 20, scv: 3 })
    );
}

#[test]
fn test_largest_value_accepted() {
    let input = lines_of("; ACCEL: 18446744073709551615/1/1 for Skirt\n");
    let merged = resolve_settings(&input, &None).unwrap();
    assert_eq!(
        merged.get(FeatureType::Skirt),
        Some(AccelerationControl { accel: u64::MAX, accel_to_decel: 1, scv: 1 })
    );
}

#[test]
fn test_overflowing_value_fails() {
    let input = lines_of("; generated by PrusaSlicer\n; ACCEL: 18446744073709551616/1/1 for Skirt\n");
    let result = process(&input, &None, &ZHopConfig::standard());
    assert!(matches!(result, Err(PreprocessError::InvalidNumber)));
}

#[test]
fn test_unknown_feature_name_fails() {
    let input = lines_of("; generated by PrusaSlicer\n; ACCEL: 1/2/3 for Nonsense\n");
    let result = process(&input, &None, &ZHopConfig::standard());
    assert!(matches!(result, Err(PreprocessError::InvalidFeatureType)));
}

#[test]
fn test_scan_head_selects_each_dialect() {
    let cases = [
        ("; generated by PrusaSlicer 2.7.0\n", Dialect::PrusaSlicer),
        ("; generated by Slic3r 1.3\n", Dialect::PrusaSlicer),
        ("; generated by SuperSlicer 2.4\n", Dialect::SuperSlicer),
        ("; generated by OrcaSlicer 1.9\n", Dialect::OrcaSlicer),
    ];
    for (header, expected) in cases {
        let (found, _) = scan_head(&lines_of(header)).unwrap();
        assert_eq!(found.unwrap().dialect_kind(), expected);
    }
}

#[test]
fn test_end_to_end_superslicer_counts() {
    let fixture = "; generated by SuperSlicer 2.4.58\n; ACCEL: 1000/500/3 for Skirt\nM204 S9000\n;LAYER_CHANGE\n;TYPE:Skirt\nG1 X5 Y5 F1200\nG1 X6 Y6\nG1 X7 Y7\nhello\nSET_VELOCITY_LIMIT VELOCITY=350\n;LAYER_CHANGE\n";
    let out = process(&lines_of(fixture), &None, &ZHopConfig::standard()).unwrap();
    let text = text_of(&out);
    let controls: Vec<&str> = text
        .split('\n')
        .filter(|l| l.starts_with("SET_VELOCITY_LIMIT"))
        .collect();
    let count_for = |suffix: &str| controls.iter().filter(|l| l.ends_with(suffix)).count();
    assert_eq!(count_for("; TYPE:First Layer"), 1);
    assert_eq!(count_for("; TYPE:Skirt"), 2);
    assert_eq!(count_for("; TYPE:Travel"), 1);
    assert_eq!(controls.len(), 4);
    // the legacy directive and the stale velocity limit are gone
    assert!(!text.contains("M204 S"));
    assert!(!text.contains("SET_VELOCITY_LIMIT VELOCITY=350"));
    // the first travel move of the first layer is bracketed by the lift
    assert_eq!(text.matches("G91\n").count(), 1);
    assert!(text.contains("G91\nG1 Z2.000 F600\nG90\nG1 X5 Y5 F1200\nG1 Z0.200 F600\n"));
    // the reports state the settings in effect and the true counts
    assert!(text.contains(&format!("; {:<35}{}\n", "TYPE:First Layer", 1)));
    assert!(text.contains(&format!("; {:<35}{}\n", "TYPE:Skirt", 2)));
    assert!(text.contains(&format!("; {:<35}{}\n", "TYPE:Travel", 1)));
}

#[test]
fn test_end_to_end_orcaslicer_counts() {
    let mut external = AccelerationSettings::new();
    external.insert(
        FeatureType::ExternalPerimeter,
        AccelerationControl { accel: 5000, accel_to_decel: 2500, scv: 5 },
    );
    let fixture = "; generated by OrcaSlicer 1.9.0\n;TYPE:Outer wall\n;LAYER_CHANGE\n;TYPE:Outer wall\nG1 X1 Y1\nG1 X2 Y2\n;TYPE:Outer wall\n";
    let out = process(&lines_of(fixture), &Some(external), &ZHopConfig::standard()).unwrap();
    let text = text_of(&out);
    let count = text
        .split('\n')
        .filter(|l| l.starts_with("SET_VELOCITY_LIMIT") && l.ends_with("; TYPE:External perimeter"))
        .count();
    // the marker before the first layer change passes through unmatched;
    // the two later ones each get a control command
    assert_eq!(count, 2);
    // no safe lift for this dialect
    assert!(!text.contains("G91\n"));
    let travel_count = text
        .split('\n')
        .filter(|l| l.starts_with("SET_VELOCITY_LIMIT") && l.ends_with("; TYPE:Travel"))
        .count();
    assert_eq!(travel_count, 1);
}

#[test]
fn test_settings_report_lists_merged_values() {
    let fixture = "; generated by PrusaSlicer 2.7.0\n; ACCEL: 1000/500/3 for Skirt\n";
    let out = process(&lines_of(fixture), &None, &ZHopConfig::standard()).unwrap();
    let text = text_of(&out);
    assert!(text.contains("; Parsed acceleration values:\n"));
    assert!(text.contains(&format!(
        "; {:<35}AccelerationControl {{ ACCEL: {}, ACCEL_TO_DECEL: {}, SQUARE_CORNER_VELOCITY: {} }}\n",
        "TYPE:Skirt", 1000, 500, 3
    )));
}
