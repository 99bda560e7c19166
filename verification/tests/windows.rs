use panel_detector::criteria::{get_ignored_apps, WindowSearchCriteria};
use panel_detector::windows::{
    copy_text, find_open_windows, find_windows, name_all, name_gaps, text_or_empty, WindowRecord,
    OPAQUE_ALPHA_BITS,
};

fn bare() -> WindowRecord {
    WindowRecord {
        owner_name: None,
        title: None,
        bounds: None,
        window_number: None,
        pid: None,
        layer: None,
        alpha_bits: None,
        sharing_state: None,
        memory_usage: None,
        is_onscreen: None,
    }
}

fn window(owner: &str, title: &str, number: i64) -> WindowRecord {
    WindowRecord {
        owner_name: Some(owner.to_string()),
        title: Some(title.to_string()),
        window_number: Some(number),
        ..bare()
    }
}

#[test]
fn opaque_alpha_is_one() {
    assert_eq!(f64::from_bits(OPAQUE_ALPHA_BITS), 1.0);
    assert_eq!(OPAQUE_ALPHA_BITS, 1.0f64.to_bits());
}

#[test]
fn bare_record_gets_every_default() {
    let info = bare().to_info();
    assert_eq!(info.title, "");
    assert_eq!(info.app_name, "");
    assert_eq!(info.bundle_identifier, None);
    assert_eq!(info.bounds, "bounds_not_found");
    assert_eq!(info.window_number, 0);
    assert_eq!(info.pid, 0);
    assert_eq!(info.layer, 0);
    assert_eq!(f64::from_bits(info.alpha_bits), 1.0);
    assert_eq!(info.sharing_state, 0);
    assert_eq!(info.memory_usage, 0);
    assert!(!info.is_onscreen);
}

#[test]
fn full_record_is_carried_over() {
    let record = WindowRecord {
        owner_name: Some("Finder".to_string()),
        title: Some("Open".to_string()),
        bounds: Some("x:10, y:20, w:300, h:200".to_string()),
        window_number: Some(4711),
        pid: Some(123),
        layer: Some(3),
        alpha_bits: Some(0.5f64.to_bits()),
        sharing_state: Some(1),
        memory_usage: Some(2048),
        is_onscreen: Some(true),
    };
    let info = record.to_info();
    assert_eq!(info.title, "Open");
    assert_eq!(info.app_name, "Finder");
    assert_eq!(info.bundle_identifier, None);
    assert_eq!(info.bounds, "x:10, y:20, w:300, h:200");
    assert_eq!(info.window_number, 4711);
    assert_eq!(info.pid, 123);
    assert_eq!(info.layer, 3);
    assert_eq!(f64::from_bits(info.alpha_bits), 0.5);
    assert_eq!(info.sharing_state, 1);
    assert_eq!(info.memory_usage, 2048);
    assert!(info.is_onscreen);
}

#[test]
fn text_or_empty_fills_the_gap() {
    assert_eq!(text_or_empty(&None), "");
    assert_eq!(text_or_empty(&Some("Finder".to_string())), "Finder");
}

#[test]
fn no_records_no_windows() {
    let results = find_windows(&WindowSearchCriteria::new(), &Vec::new());
    assert_eq!(results.total_windows, 0);
    assert!(results.matched_windows.is_empty());
}

#[test]
fn open_criteria_match_every_record_in_order() {
    let records = vec![window("Finder", "Open", 1), bare(), window("Safari", "Start", 3)];
    let results = find_windows(&WindowSearchCriteria::new(), &records);
    assert_eq!(results.total_windows, 3);
    let numbers: Vec<i64> = results.matched_windows.iter().map(|w| w.window_number).collect();
    assert_eq!(numbers, vec![1, 0, 3]);
    assert_eq!(results.matched_windows[1].app_name, "");
    assert_eq!(results.matched_windows[2].title, "Start");
}

#[test]
fn ignored_owners_are_not_counted() {
    let criteria = WindowSearchCriteria::new()
        .with_title("Open")
        .with_ignored_apps(get_ignored_apps());
    let records = vec![
        window("Dock", "Open", 1),
        window("Finder", "Open", 2),
        window("Safari", "Start", 3),
        window("Control Center", "Clock", 4),
        window("TextEdit", "Open", 5),
        window("Finder", "open", 6),
    ];
    let results = find_windows(&criteria, &records);
    assert_eq!(results.total_windows, 4);
    let found: Vec<(i64, String)> = results
        .matched_windows
        .iter()
        .map(|w| (w.window_number, w.app_name.clone()))
        .collect();
    assert_eq!(found, vec![(2, "Finder".to_string()), (5, "TextEdit".to_string())]);
}

#[test]
fn record_without_title_matches_the_empty_title() {
    let mut untitled = bare();
    untitled.owner_name = Some("Finder".to_string());
    untitled.window_number = Some(9);
    let records = vec![untitled, window("Finder", "Open", 2)];
    let results = find_windows(&WindowSearchCriteria::new().with_title(""), &records);
    assert_eq!(results.total_windows, 2);
    assert_eq!(results.matched_windows.len(), 1);
    assert_eq!(results.matched_windows[0].window_number, 9);
    assert_eq!(results.matched_windows[0].title, "");
}

#[test]
fn same_window_twice_is_reported_twice() {
    let records = vec![window("Finder", "Open", 2), window("Finder", "Open", 2)];
    let results = find_windows(&WindowSearchCriteria::new().with_app_name("Finder"), &records);
    assert_eq!(results.total_windows, 2);
    assert_eq!(results.matched_windows.len(), 2);
}

#[test]
fn nothing_matches_when_every_owner_is_ignored() {
    let criteria = WindowSearchCriteria::new().add_ignored_app("");
    let records = vec![window("Finder", "Open", 2), bare()];
    let results = find_windows(&criteria, &records);
    assert_eq!(results.total_windows, 0);
    assert!(results.matched_windows.is_empty());
}

#[test]
fn name_gaps_names_a_missing_owner_and_title() {
    let named = name_gaps(bare());
    assert_eq!(named.owner_name, Some("Unknown".to_string()));
    assert_eq!(named.title, Some("No Title".to_string()));
    assert_eq!(named.bounds, None);
    assert_eq!(named.window_number, None);
    assert_eq!(named.pid, None);
    assert_eq!(named.layer, None);
    assert_eq!(named.alpha_bits, None);
    assert_eq!(named.sharing_state, None);
    assert_eq!(named.memory_usage, None);
    assert_eq!(named.is_onscreen, None);
}

#[test]
fn name_gaps_keeps_what_is_there() {
    let record = WindowRecord {
        owner_name: Some("".to_string()),
        title: Some("Open".to_string()),
        bounds: Some("x:1, y:2, w:3, h:4".to_string()),
        window_number: Some(7),
        pid: Some(8),
        layer: Some(9),
        alpha_bits: Some(0.25f64.to_bits()),
        sharing_state: Some(2),
        memory_usage: Some(64),
        is_onscreen: Some(true),
    };
    let named = name_gaps(record);
    assert_eq!(named.owner_name, Some("".to_string()));
    assert_eq!(named.title, Some("Open".to_string()));
    assert_eq!(named.bounds, Some("x:1, y:2, w:3, h:4".to_string()));
    assert_eq!(named.window_number, Some(7));
    assert_eq!(named.pid, Some(8));
    assert_eq!(named.layer, Some(9));
    assert_eq!(named.alpha_bits, Some(0.25f64.to_bits()));
    assert_eq!(named.sharing_state, Some(2));
    assert_eq!(named.memory_usage, Some(64));
    assert_eq!(named.is_onscreen, Some(true));
}

#[test]
fn name_all_names_each_record_in_order() {
    let named = name_all(&vec![bare(), window("Finder", "Open", 2)]);
    assert_eq!(named.len(), 2);
    assert_eq!(named[0].owner_name, Some("Unknown".to_string()));
    assert_eq!(named[0].title, Some("No Title".to_string()));
    assert_eq!(named[1].owner_name, Some("Finder".to_string()));
    assert_eq!(named[1].title, Some("Open".to_string()));
    assert_eq!(named[1].window_number, Some(2));
}

#[test]
fn copy_text_copies_a_text_or_its_absence() {
    assert_eq!(copy_text(&None), None);
    assert_eq!(copy_text(&Some("Open".to_string())), Some("Open".to_string()));
}

#[test]
fn open_window_without_owner_is_listed_as_unknown() {
    let mut record = bare();
    record.title = Some("Open".to_string());
    let results = find_open_windows(&get_ignored_apps(), &vec![record]);
    assert_eq!(results.total_windows, 1);
    assert_eq!(results.matched_windows.len(), 1);
    let found = &results.matched_windows[0];
    assert_eq!(found.title, "Open");
    assert_eq!(found.app_name, "Unknown");
    assert_eq!(found.bounds, "bounds_not_found");
    assert_eq!(found.window_number, 0);
    assert_eq!(found.pid, 0);
}

#[test]
fn window_without_owner_is_held_against_the_ignored_names_as_unknown() {
    let mut record = bare();
    record.title = Some("Open".to_string());
    let ignored = vec!["KNOW".to_string()];
    let results = find_open_windows(&ignored, &vec![record]);
    assert_eq!(results.total_windows, 0);
    assert!(results.matched_windows.is_empty());
}

#[test]
fn only_windows_titled_open_are_found() {
    let records = vec![
        window("Dock", "Open", 1),
        window("Finder", "Open", 2),
        window("Safari", "Start", 3),
        bare(),
        window("TextEdit", "Open", 5),
        window("Finder", "open", 6),
    ];
    let results = find_open_windows(&get_ignored_apps(), &records);
    assert_eq!(results.total_windows, 5);
    let found: Vec<(i64, String)> = results
        .matched_windows
        .iter()
        .map(|w| (w.window_number, w.app_name.clone()))
        .collect();
    assert_eq!(found, vec![(2, "Finder".to_string()), (5, "TextEdit".to_string())]);
}

#[test]
fn ignored_names_in_capitals_still_rule_an_owner_out() {
    let criteria = WindowSearchCriteria::new().with_ignored_apps(vec!["Dock".to_string()]);
    let results = find_windows(&criteria, &vec![window("Dock", "Open", 1), window("Finder", "Open", 2)]);
    assert_eq!(results.total_windows, 1);
    assert_eq!(results.matched_windows.len(), 1);
    assert_eq!(results.matched_windows[0].app_name, "Finder");
}
