use starlight_editor::world_placement::{
    normalized_map_rect, rects_overlap, PropPlacement, SpawnPoint, TriggerZone, VoxelFootprint, WorldPlacementKind,
    WorldPlacementState,
};

fn prop(id: &str, x: i32, y: i32) -> PropPlacement {
    PropPlacement { id: id.to_string(), kind: "sign".to_string(), x, y }
}

fn world() -> WorldPlacementState {
    WorldPlacementState::new(
        "farm".to_string(),
        vec![prop("well", 2, 3), prop("sign", 5, 5)],
        vec![SpawnPoint { id: "npc_a".to_string(), kind: "npc".to_string(), ref_id: None, x: 1, y: 1 }],
        vec![TriggerZone {
            id: "door".to_string(),
            kind: "warp".to_string(),
            target_map: "town".to_string(),
            x: 4,
            y: 0,
            w: 2,
            h: 2,
        }],
    )
}

#[test]
fn rects_are_normalized_and_overlap_inclusively() {
    assert_eq!(normalized_map_rect((5, 1), (2, 4)), (2, 1, 5, 4));
    assert!(rects_overlap(0, 0, 2, 2, 2, 2, 3, 3));
    assert!(!rects_overlap(0, 0, 1, 1, 2, 2, 3, 3));
}

#[test]
fn adding_placements_picks_fresh_ids() {
    let mut w = world();
    w.add_prop();
    assert_eq!(w.props[2].id, "new_prop");
    assert_eq!(w.props[2].kind, "sign");
    w.add_prop();
    assert_eq!(w.props[3].id, "new_prop_2");
    assert_eq!(w.selected_prop_index, 3);
    assert!(w.props_dirty);
    w.add_trigger();
    assert_eq!(w.triggers[1].id, "new_trigger");
    assert_eq!(w.triggers[1].target_map, "farm");
    assert_eq!(w.active_selection, WorldPlacementKind::Trigger);
    w.add_spawn();
    assert_eq!(w.spawns[1].id, "new_spawn");
    assert_eq!(w.unique_prop_id("well"), "well_2");
}

#[test]
fn duplicate_then_remove_gives_back_the_props() {
    let mut w = world();
    assert!(w.duplicate_selected_prop());
    assert_eq!(w.props.len(), 3);
    assert_eq!(w.props[2].id, "well_2");
    assert_eq!((w.props[2].x, w.props[2].y), (3, 4));
    assert!(w.remove_selected_prop());
    assert_eq!(w.props.len(), 2);
    assert_eq!(w.props[0].id, "well");
    assert_eq!(w.props[1].id, "sign");
}

#[test]
fn nudging_back_and_forth_returns_home() {
    let mut w = world();
    let (moved, message) = w.nudge_active_world_placement(2, -1);
    assert!(moved);
    assert_eq!(message, "Nudged prop 'well' to 4,2.");
    let (back, _) = w.nudge_active_world_placement(-2, 1);
    assert!(back);
    assert_eq!((w.props[0].x, w.props[0].y), (2, 3));
    w.selected_prop_index = 9;
    assert_eq!(w.nudge_active_world_placement(1, 1), (false, "No selected prop to nudge.".to_string()));
}

#[test]
fn duplicating_and_deleting_the_active_placement() {
    let mut w = world();
    w.active_selection = WorldPlacementKind::Spawn;
    let no_voxels: Vec<String> = Vec::new();
    assert_eq!(w.duplicate_active_world_placement(&no_voxels), (true, "Duplicated selected world placement.".to_string(), None));
    assert_eq!(w.spawns.len(), 2);
    assert_eq!(w.delete_active_world_placement(0), (true, "Deleted selected world placement.".to_string(), None));
    assert_eq!(w.delete_active_world_placement(0), (true, "Deleted selected world placement.".to_string(), None));
    assert_eq!(w.delete_active_world_placement(0), (false, "No selected world placement to delete.".to_string(), None));
}

#[test]
fn duplicating_and_deleting_an_active_voxel_object() {
    let mut w = world();
    w.active_selection = WorldPlacementKind::VoxelObject;
    w.selected_voxel_object_index = 1;
    let ids = strings(&["crate", "barrel"]);
    assert_eq!(
        w.duplicate_active_world_placement(&ids),
        (true, "Duplicated selected world placement.".to_string(), Some((1, "barrel_2".to_string())))
    );
    assert_eq!(w.selected_voxel_object_index, 2);
    assert!(w.voxel_objects_dirty);
    // The copy is now the third object; deleting removes it.
    assert_eq!(w.delete_active_world_placement(3), (true, "Deleted selected world placement.".to_string(), Some(2)));
    assert_eq!(w.selected_voxel_object_index, 1);
    w.selected_voxel_object_index = 7;
    assert_eq!(
        w.duplicate_active_world_placement(&ids),
        (false, "No selected world placement to duplicate.".to_string(), None)
    );
    assert_eq!(w.delete_active_world_placement(0), (false, "No selected world placement to delete.".to_string(), None));
}

#[test]
fn clicking_selects_the_topmost_placement() {
    let mut w = world();
    let footprints: Vec<VoxelFootprint> = Vec::new();
    let hit = w.select_world_placement_at_cell(&footprints, 5, 1);
    assert!(hit.is_some());
    assert_eq!(w.active_selection, WorldPlacementKind::Trigger);
    assert_eq!(w.selected_trigger_index, 0);
    let miss = w.select_world_placement_at_cell(&footprints, 30, 30);
    assert!(miss.is_none());
}

fn strings(v: &[&str]) -> Vec<String> {
    v.iter().map(|s| s.to_string()).collect()
}

#[test]
fn voxel_objects_are_added_duplicated_and_removed_by_index() {
    let mut w = world();
    let ids = strings(&["crate", "new_voxel_object"]);
    assert_eq!(WorldPlacementState::unique_voxel_object_id(&ids, "crate"), "crate_2");
    let id = w.add_voxel_object(&ids);
    assert_eq!(id, "new_voxel_object_2");
    assert_eq!(w.selected_voxel_object_index, 2);
    assert_eq!(w.active_selection, WorldPlacementKind::VoxelObject);
    assert!(w.voxel_objects_dirty);

    let three = strings(&["crate", "new_voxel_object", "new_voxel_object_2"]);
    assert_eq!(w.duplicate_selected_voxel_object(&three), Some((2, "new_voxel_object_2_2".to_string())));
    assert_eq!(w.selected_voxel_object_index, 3);
    assert_eq!(w.duplicate_selected_voxel_object(&three), None);

    assert_eq!(w.remove_selected_voxel_object(4), Some(3));
    assert_eq!(w.selected_voxel_object_index, 2);
    assert_eq!(w.remove_selected_voxel_object(1), Some(0));
    assert_eq!(w.selected_voxel_object_index, 0);
    let before = w.selected_voxel_object_index;
    assert_eq!(w.remove_selected_voxel_object(0), None);
    assert_eq!(w.selected_voxel_object_index, before);
}
