use drift_script_manager::keywords::{keyword_selected, keyword_shown, new_keyword, search_key, toggle_keyword};

fn strings(v: &[&str]) -> Vec<String> {
    v.iter().map(|s| s.to_string()).collect()
}

#[test]
fn search_shows_matching_keywords() {
    let key = search_key("  FRee ");
    assert_eq!(key, "free");
    assert!(keyword_shown("Freecam", &key));
    assert!(!keyword_shown("POV", &key));
    assert!(keyword_shown("POV", &search_key("   ")));
}

#[test]
fn selection_ignores_case() {
    let selected = strings(&["Freecam"]);
    assert!(keyword_selected(&selected, "FREECAM"));
    assert!(!keyword_selected(&selected, "POV"));
}

#[test]
fn toggling_selects_and_unselects() {
    let mut selected = strings(&["POV", "freecam", "FreeCam"]);
    toggle_keyword(&mut selected, &"Freecam".to_string());
    assert_eq!(selected, strings(&["POV"]));
    toggle_keyword(&mut selected, &"Keybinds".to_string());
    assert_eq!(selected, strings(&["POV", "Keybinds"]));
    toggle_keyword(&mut selected, &"Keybinds".to_string());
    assert_eq!(selected, strings(&["POV"]));
}

#[test]
fn search_offers_new_keywords() {
    let keywords = strings(&["POV", "Freecam"]);
    assert_eq!(new_keyword("  Drift Cam ", &keywords), Some("Drift Cam".to_string()));
    assert_eq!(new_keyword("pov", &keywords), None);
    assert_eq!(new_keyword("   ", &keywords), None);
    assert_eq!(new_keyword("", &keywords), None);
}
