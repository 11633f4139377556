//! The asset studio's defaults.
use vstd::prelude::*;

verus! {

/// What the tile preview pane shows.
#[derive(Debug, Clone, Copy, PartialEq, Eq, Structural)]
pub enum TilePreviewMode {
    SelectedTile,
    AtlasOutput,
    SeamDiagnostic,
    LiveViewport,
}

/// The asset studio's pixel tools.
#[derive(Debug, Clone, Copy, PartialEq, Eq, Structural)]
pub enum PixelTool {
    Pencil,
    Eraser,
    Fill,
    Eyedropper,
    MarqueeSelect,
    MoveSelection,
}

/// The asset studio's configuration.
pub struct AssetStudioDescriptor {
    pub atlas_path: &'static str,
    pub roles_path: &'static str,
    pub tile_size: u32,
    pub active_tool: PixelTool,
    pub preview_modes: Vec<TilePreviewMode>,
    pub runtime_safe_export_enabled: bool,
}

impl AssetStudioDescriptor {
    /// The default asset studio: the generated terrain atlas with its role
    /// sidecar, 32-pixel tiles, the pencil, and every preview mode.
    pub fn phase27_default() -> (r: Self)
        ensures
            r.atlas_path@ == "assets/textures/terrain_atlas_phase17_generated.png"@,
            r.roles_path@ == "content/tiles/base_tileset_roles.ron"@,
            r.tile_size == 32,
            r.active_tool == PixelTool::Pencil,
            r.preview_modes@ == seq![
                TilePreviewMode::SelectedTile,
                TilePreviewMode::AtlasOutput,
                TilePreviewMode::SeamDiagnostic,
                TilePreviewMode::LiveViewport,
            ],
            r.runtime_safe_export_enabled,
    {
        let mut preview_modes = Vec::new();
        preview_modes.push(TilePreviewMode::SelectedTile);
        preview_modes.push(TilePreviewMode::AtlasOutput);
        preview_modes.push(TilePreviewMode::SeamDiagnostic);
        preview_modes.push(TilePreviewMode::LiveViewport);
        assert(preview_modes@ =~= seq![
            TilePreviewMode::SelectedTile,
            TilePreviewMode::AtlasOutput,
            TilePreviewMode::SeamDiagnostic,
            TilePreviewMode::LiveViewport,
        ]);
        Self {
            atlas_path: "assets/textures/terrain_atlas_phase17_generated.png",
            roles_path: "content/tiles/base_tileset_roles.ron",
            tile_size: 32,
            active_tool: PixelTool::Pencil,
            preview_modes,
            runtime_safe_export_enabled: true,
        }
    }
}

} // verus!
