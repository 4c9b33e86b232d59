use nhl_input::capture::{run_dir_name, screenshot_file_name, window_matches};

#[test]
fn window_titles_match_ignoring_case() {
    let titles = vec![
        Some("Terminal".to_string()),
        None,
        Some("nhllegacy.exe - rexglue-v0.3".to_string()),
        Some("NHL LEGACY".to_string()),
    ];
    assert_eq!(window_matches(&titles, "NHL"), vec![2, 3]);
    assert_eq!(window_matches(&titles, "NhlLegacy"), vec![2]);
    assert_eq!(window_matches(&titles, "steam"), Vec::<usize>::new());
    assert_eq!(window_matches(&titles, ""), vec![0, 2, 3]);
}

#[test]
fn run_directories() {
    assert_eq!(run_dir_name(Some("20260709_120000_explore"), "x"), "20260709_120000_explore");
    assert_eq!(run_dir_name(None, "20260709_120000"), "20260709_120000_run");
}

#[test]
fn screenshot_names() {
    assert_eq!(screenshot_file_name("", 7, false), "007.png");
    assert_eq!(screenshot_file_name("step_1", 7, false), "007_step_1.png");
    assert_eq!(screenshot_file_name("title", 12, true), "title.png");
    assert_eq!(screenshot_file_name("", 1234, true), "1234.png");
    assert_eq!(screenshot_file_name("x", 0, false), "000_x.png");
    assert_eq!(screenshot_file_name("", u32::MAX, false), "4294967295.png");
}

#[test]
fn run_screenshot_names_never_repeat() {
    let mut seen = std::collections::HashSet::new();
    for c in 0..3000u32 {
        assert!(seen.insert(screenshot_file_name("step", c, false)));
        assert!(seen.insert(screenshot_file_name("", c, false)));
    }
}
