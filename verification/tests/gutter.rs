use roe_core::gutter::{
    calculate_gutter_width, format_line_number, get_line_status, GutterConfig, LineStatus,
};
use std::collections::HashSet;

#[test]
fn test_gutter_width_small_file() {
    let config = GutterConfig::default();
    // 10 lines needs 2 digits, but min is 3, plus 1 status + 1 separator = 5
    assert_eq!(calculate_gutter_width(10, &config), 5);
}

#[test]
fn test_gutter_width_large_file() {
    let config = GutterConfig::default();
    // 1000 lines needs 4 digits, plus 1 status + 1 separator = 6
    assert_eq!(calculate_gutter_width(1000, &config), 6);
}

#[test]
fn test_gutter_width_no_status() {
    let config = GutterConfig {
        show_status: false,
        ..Default::default()
    };
    // No status, 3 digit min + 1 separator = 4
    assert_eq!(calculate_gutter_width(10, &config), 4);
}

#[test]
fn test_line_status_conflict() {
    let modified = HashSet::new();
    let merged = HashSet::new();
    assert_eq!(
        get_line_status("<<<<<<< LOCAL", 0, &modified, &merged),
        LineStatus::Conflict
    );
    assert_eq!(
        get_line_status("=======", 0, &modified, &merged),
        LineStatus::Conflict
    );
    assert_eq!(
        get_line_status(">>>>>>> EXTERNAL", 0, &modified, &merged),
        LineStatus::Conflict
    );
}

#[test]
fn test_line_status_modified() {
    let mut modified = HashSet::new();
    modified.insert(5);
    let merged = HashSet::new();

    assert_eq!(
        get_line_status("some content", 5, &modified, &merged),
        LineStatus::Modified
    );
    assert_eq!(
        get_line_status("other content", 6, &modified, &merged),
        LineStatus::Clean
    );
}

#[test]
fn test_format_line_number() {
    assert_eq!(format_line_number(1, 3), "  1");
    assert_eq!(format_line_number(42, 3), " 42");
    assert_eq!(format_line_number(999, 3), "999");
    assert_eq!(format_line_number(1000, 4), "1000");
}
