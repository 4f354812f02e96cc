use drift_script_manager::app_data::AppData;

#[test]
fn test_update_keywords_no_empty() {
    let mut app_data = AppData::new();
    app_data.keywords = vec![String::from("Existing keyword")];

    let new_keywords = vec![String::new()];

    app_data.update_keywords(&new_keywords);

    let found_empty = app_data.keywords.iter().any(|e| e.is_empty());

    assert!(!found_empty, "Found empty keyword");
}

#[test]
fn test_update_keywords_no_duplicates() {
    let mut app_data = AppData::new();
    app_data.keywords = vec![String::from("Existing keyword")];

    let new_keywords = vec![String::from("Existing keyword")];

    app_data.update_keywords(&new_keywords);

    assert!(app_data.keywords.len() < 2, "Accepted duplicate");
}

#[test]
fn default_keywords() {
    let data = AppData::new();
    assert!(data.outer_window_pos.is_none());
    assert_eq!(
        data.keywords,
        vec![
            "POV", "Framework", "Freecam", "Replay Support", "Keybinds", "Controller", "ZDrift",
            "Driftball", "Driftblitz", "Go Pro", "Content Creation"
        ]
    );
}

#[test]
fn new_keywords_are_capitalized_and_deduplicated_ignoring_case() {
    let mut data = AppData::new();
    data.keywords = vec!["POV".to_string()];
    let offered = vec![
        "pov".to_string(),
        "speedrun tools".to_string(),
        "SPEEDRUN TOOLS".to_string(),
        "ñandu".to_string(),
        "".to_string(),
    ];
    data.update_keywords(&offered);
    assert_eq!(data.keywords, vec!["POV", "Speedrun tools", "Ñandu"]);
}

#[test]
fn blank_keywords_are_dropped() {
    let mut data = AppData::new();
    data.keywords = vec!["a".to_string(), "  ".to_string(), "".to_string(), "\t\n".to_string(), " b ".to_string()];
    data.remove_blank_keywords();
    assert_eq!(data.keywords, vec!["a", " b "]);
}
