use starlight_editor::data_bridge::{backup_file_name, sanitize_backup_tag, temp_file_name};
use starlight_editor::runtime::{
    failure_dialog_message, failure_log_file_name, is_live_preview_extension, launch_map_choice, runtime_failure_body,
    truncate_for_dialog, LaunchMode,
};
use starlight_editor::text::{decimal_string, str_contains, str_starts_with};
use starlight_editor::tile_roles::{
    default_role_file_body, editor_collision_cycle, editor_role_cycle, extract_bool_field, extract_quoted_field,
    next_cycle_value, parse_tile_role_state, splice_tile_role_entry, TileRoleState,
};

#[test]
fn decimal_rendering() {
    assert_eq!(decimal_string(0), "0");
    assert_eq!(decimal_string(907), "907");
    assert_eq!(decimal_string(u64::MAX), "18446744073709551615");
    assert!(str_contains("starter_farm", "farm"));
    assert!(!str_contains("farm", "starter"));
    assert!(str_starts_with("starter_farm", "starter"));
}

#[test]
fn failure_reports_and_dialogs() {
    assert_eq!(
        runtime_failure_body("game", 12, "boom"),
        "Starlight Ridge runtime failure\nlabel: game\nunix_timestamp: 12\n\nboom\n"
    );
    assert_eq!(failure_log_file_name("editor"), "editor_runtime_failure_latest.log");
    assert_eq!(truncate_for_dialog("abcdef", 3), "abc\n... truncated; see full log file ...");
    assert_eq!(truncate_for_dialog("abc", 3), "abc");
    assert_eq!(
        failure_dialog_message("game", "logs/x.log", "oops"),
        "Starlight Ridge game failed.\n\nA diagnostic log was written to:\nlogs/x.log\n\noops"
    );
    assert_eq!(LaunchMode::Editor.window_title(), "Starlight Ridge Editor");
    assert_eq!(LaunchMode::Game.label(), "game");
}

#[test]
fn launch_and_preview_choices() {
    assert_eq!(launch_map_choice(true, true), Some("starter_farm"));
    assert_eq!(launch_map_choice(false, true), Some("autotile_test_coast"));
    assert_eq!(launch_map_choice(false, false), None);
    assert!(is_live_preview_extension(Some("PNG")));
    assert!(is_live_preview_extension(Some("ron")));
    assert!(!is_live_preview_extension(Some("txt")));
    assert!(!is_live_preview_extension(None));
}

#[test]
fn backup_names() {
    assert_eq!(sanitize_backup_tag("phase 51/e"), "phase_51_e");
    assert_eq!(sanitize_backup_tag(""), "editor");
    assert_eq!(backup_file_name("layers", "tag", 42), "layers.tag.42.bak.ron");
    assert_eq!(temp_file_name("layers", "tag", 7), ".layers.tag.7.tmp.ron");
}

#[test]
fn a_saved_role_entry_reads_back() {
    let mut state = TileRoleState::from_collision("water", "water");
    state.interactable = true;
    let body = splice_tile_role_entry(default_role_file_body().as_str(), "pond_a", &state);
    let back = parse_tile_role_state(body.as_str(), "pond_a");
    assert_eq!(back.role, state.role);
    assert_eq!(back.collision, state.collision);
    assert_eq!(back.walkable, state.walkable);
    assert_eq!(back.blocks_movement, state.blocks_movement);
    assert_eq!(back.water, state.water);
    assert_eq!(back.interactable, true);
    assert_eq!(back.crop_soil, state.crop_soil);
    assert_eq!(back.door, state.door);
    // Saving again replaces the entry rather than adding one.
    let again = splice_tile_role_entry(body.as_str(), "pond_a", &TileRoleState::from_role("stone"));
    assert_eq!(again.matches("pond_a").count(), 1);
    assert_eq!(parse_tile_role_state(again.as_str(), "pond_a").role, "stone");
}

#[test]
fn role_fields_and_cycles() {
    let block = "(tile_id: \"a\", role: \"path\", walkable: false, door: true)";
    assert_eq!(extract_quoted_field(block, "role"), Some("path".to_string()));
    assert_eq!(extract_quoted_field(block, "collision"), None);
    assert_eq!(extract_bool_field(block, "walkable"), Some(false));
    assert_eq!(extract_bool_field(block, "door"), Some(true));
    let roles = editor_role_cycle();
    assert_eq!(next_cycle_value("water", &roles), "crop_soil");
    assert_eq!(next_cycle_value("door", &roles), "grass");
    assert_eq!(next_cycle_value("unknown", &roles), "path");
    let collisions = editor_collision_cycle();
    assert_eq!(next_cycle_value("walkable", &collisions), "blocked");
}

#[test]
fn role_entry_appended_without_entries_list_reads_back() {
    let mut state = TileRoleState::from_role("door");
    state.walkable = false;
    let body = splice_tile_role_entry("", "gate_a", &state);
    assert!(body.ends_with("door: true),\n"));
    let back = parse_tile_role_state(body.as_str(), "gate_a");
    assert_eq!(back.role, "door");
    assert_eq!(back.collision, "door");
    assert!(!back.walkable);
    assert!(back.door);
    assert!(back.interactable);
}

#[test]
fn role_entry_for_tile_id_with_space_reads_back() {
    let state = TileRoleState::from_role("blocking_prop");
    let body = splice_tile_role_entry(default_role_file_body().as_str(), "old tree", &state);
    let back = parse_tile_role_state(body.as_str(), "old tree");
    assert_eq!(back.role, "blocking_prop");
    assert_eq!(back.collision, "blocked");
    assert!(back.blocks_movement);
    assert!(!back.walkable);
}
