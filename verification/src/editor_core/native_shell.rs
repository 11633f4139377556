//! The native editor shell's layout.
use vstd::prelude::*;

verus! {

/// The editor's workspaces.
#[derive(Debug, Clone, Copy, PartialEq, Eq, Structural)]
pub enum EditorWorkspace {
    AssetStudio,
    AnimationStudio,
    CharacterStudio,
    MapEditor,
    PrefabEditor,
    SceneEditor,
}

/// Where a dock panel sits.
#[derive(Debug, Clone, Copy, PartialEq, Eq, Structural)]
pub enum DockRegion {
    Left,
    Right,
    Bottom,
    Center,
}

/// The toolbar's tools.
#[derive(Debug, Clone, Copy, PartialEq, Eq, Structural)]
pub enum NativeEditorTool {
    Select,
    Pan,
    Brush,
    Eraser,
    Fill,
    Eyedropper,
    TilePicker,
    CollisionPaint,
    AssetStudio,
    Playtest,
}

/// One dock panel.
pub struct DockPanelDescriptor {
    pub id: &'static str,
    pub title: &'static str,
    pub region: DockRegion,
    pub default_open: bool,
}

/// One toolbar entry.
pub struct ToolDescriptor {
    pub tool: NativeEditorTool,
    pub icon_id: &'static str,
    pub tooltip: &'static str,
    pub shortcut: &'static str,
}

/// The shell's workspace, viewport, panels and toolbar.
pub struct NativeEditorShellDescriptor {
    pub active_workspace: EditorWorkspace,
    pub center_viewport_id: &'static str,
    pub panels: Vec<DockPanelDescriptor>,
    pub toolbar: Vec<ToolDescriptor>,
}

/// A dock panel seen as its id, title, region and whether it starts open.
pub open spec fn panel_view(p: DockPanelDescriptor) -> (Seq<char>, Seq<char>, DockRegion, bool) {
    (p.id@, p.title@, p.region, p.default_open)
}

/// A toolbar entry seen as its tool, icon, tooltip and shortcut.
pub open spec fn tool_view(t: ToolDescriptor) -> (NativeEditorTool, Seq<char>, Seq<char>, Seq<char>) {
    (t.tool, t.icon_id@, t.tooltip@, t.shortcut@)
}

/// The default dock panels, all open at start.
pub open spec fn default_panels() -> Seq<(Seq<char>, Seq<char>, DockRegion, bool)> {
    seq![
        ("project_browser"@, "Project Browser"@, DockRegion::Left, true),
        ("asset_browser"@, "Asset Browser"@, DockRegion::Left, true),
        ("workflow_steps"@, "Workflow"@, DockRegion::Left, true),
        ("inspector"@, "Inspector"@, DockRegion::Right, true),
        ("tile_properties"@, "Selected Tile"@, DockRegion::Right, true),
        ("preview_tools"@, "Tile Preview Tools"@, DockRegion::Right, true),
        ("console"@, "Console"@, DockRegion::Bottom, true),
        ("validation"@, "Validation"@, DockRegion::Bottom, true),
        ("hot_reload"@, "Hot Reload"@, DockRegion::Bottom, true),
        ("runtime_log"@, "Runtime Log"@, DockRegion::Bottom, true),
    ]
}

/// The default toolbar, one entry per tool with its shortcut key.
pub open spec fn default_toolbar() -> Seq<(NativeEditorTool, Seq<char>, Seq<char>, Seq<char>)> {
    seq![
        (NativeEditorTool::Select, "select"@, "Select (V)"@, "V"@),
        (NativeEditorTool::Pan, "pan"@, "Pan viewport (Space)"@, "Space"@),
        (NativeEditorTool::Brush, "brush"@, "Paint tile (B)"@, "B"@),
        (NativeEditorTool::Eraser, "eraser"@, "Erase tile/object (E)"@, "E"@),
        (NativeEditorTool::Fill, "fill"@, "Bucket fill (G)"@, "G"@),
        (NativeEditorTool::Eyedropper, "eyedropper"@, "Pick tile/color (I)"@, "I"@),
        (NativeEditorTool::TilePicker, "tile_picker"@, "Tile picker (T)"@, "T"@),
        (NativeEditorTool::CollisionPaint, "collision"@, "Paint collision (C)"@, "C"@),
        (NativeEditorTool::AssetStudio, "asset_studio"@, "Asset Studio (A)"@, "A"@),
        (NativeEditorTool::Playtest, "playtest"@, "Playtest viewport (P)"@, "P"@),
    ]
}

fn panel(id: &'static str, title: &'static str, region: DockRegion) -> (r: DockPanelDescriptor)
    ensures
        panel_view(r) == (id@, title@, region, true),
{
    DockPanelDescriptor { id, title, region, default_open: true }
}

fn toolbar_entry(kind: NativeEditorTool, icon_id: &'static str, tooltip: &'static str, shortcut: &'static str) -> (r: ToolDescriptor)
    ensures
        tool_view(r) == (kind, icon_id@, tooltip@, shortcut@),
{
    ToolDescriptor { tool: kind, icon_id, tooltip, shortcut }
}

impl NativeEditorShellDescriptor {
    /// The default shell: the asset studio around the game viewport, with
    /// the default panels and toolbar.
    pub fn phase29_default() -> (r: Self)
        ensures
            r.active_workspace == EditorWorkspace::AssetStudio,
            r.center_viewport_id@ == "game_viewport"@,
            r.panels@.map_values(|p: DockPanelDescriptor| panel_view(p)) == default_panels(),
            r.toolbar@.map_values(|t: ToolDescriptor| tool_view(t)) == default_toolbar(),
    {
        let mut panels = Vec::new();
        panels.push(panel("project_browser", "Project Browser", DockRegion::Left));
        panels.push(panel("asset_browser", "Asset Browser", DockRegion::Left));
        panels.push(panel("workflow_steps", "Workflow", DockRegion::Left));
        panels.push(panel("inspector", "Inspector", DockRegion::Right));
        panels.push(panel("tile_properties", "Selected Tile", DockRegion::Right));
        panels.push(panel("preview_tools", "Tile Preview Tools", DockRegion::Right));
        panels.push(panel("console", "Console", DockRegion::Bottom));
        panels.push(panel("validation", "Validation", DockRegion::Bottom));
        panels.push(panel("hot_reload", "Hot Reload", DockRegion::Bottom));
        panels.push(panel("runtime_log", "Runtime Log", DockRegion::Bottom));
        assert(panels@.map_values(|p: DockPanelDescriptor| panel_view(p)) =~= default_panels());
        let mut toolbar = Vec::new();
        toolbar.push(toolbar_entry(NativeEditorTool::Select, "select", "Select (V)", "V"));
        toolbar.push(toolbar_entry(NativeEditorTool::Pan, "pan", "Pan viewport (Space)", "Space"));
        toolbar.push(toolbar_entry(NativeEditorTool::Brush, "brush", "Paint tile (B)", "B"));
        toolbar.push(toolbar_entry(NativeEditorTool::Eraser, "eraser", "Erase tile/object (E)", "E"));
        toolbar.push(toolbar_entry(NativeEditorTool::Fill, "fill", "Bucket fill (G)", "G"));
        toolbar.push(toolbar_entry(NativeEditorTool::Eyedropper, "eyedropper", "Pick tile/color (I)", "I"));
        toolbar.push(toolbar_entry(NativeEditorTool::TilePicker, "tile_picker", "Tile picker (T)", "T"));
        toolbar.push(toolbar_entry(NativeEditorTool::CollisionPaint, "collision", "Paint collision (C)", "C"));
        toolbar.push(toolbar_entry(NativeEditorTool::AssetStudio, "asset_studio", "Asset Studio (A)", "A"));
        toolbar.push(toolbar_entry(NativeEditorTool::Playtest, "playtest", "Playtest viewport (P)", "P"));
        assert(toolbar@.map_values(|t: ToolDescriptor| tool_view(t)) =~= default_toolbar());
        Self {
            active_workspace: EditorWorkspace::AssetStudio,
            center_viewport_id: "game_viewport",
            panels,
            toolbar,
        }
    }
}

} // verus!
