//! Verified core of the Starlight Ridge editor tooling: content paths and save
//! bookkeeping, editor descriptors and pipeline reports, tile role metadata,
//! the pixel editor, editable map layers and world placements, and the voxel
//! panel designer.

pub mod text;
pub mod data_bridge;
pub mod editor_core;
pub mod pixel_editor;
pub mod pixel_fill;
pub mod pixel_line;
pub mod pixel_canvas;
pub mod grid_fill;
pub mod map_layers;
pub mod naming;
pub mod map_state;
pub mod map_edit;
pub mod world_placement;
pub mod tile_roles;
pub mod role_file_law;
pub mod runtime;
pub mod editor_labels;
pub mod voxel_panel;
pub mod voxel_compose;
pub mod voxel_bake;
pub mod voxel_checks;
pub mod map_checks;
pub mod terrain_layers;
pub mod voxel_preview;
pub mod worldgen_bake;
pub mod voxel_designer;
pub mod panel_kit;
pub mod tile_render;
pub mod editor_shell;
pub mod editor_context;
pub mod editor_laws;
