//! Names and hints the editor shows for its tools, dock tabs and terrain.
use vstd::prelude::*;
use crate::text::str_eq;

verus! {

/// The name of editor tool `index`.
pub open spec fn tool_name(index: usize) -> Seq<char> {
    if index == 0 { "Select"@ } else if index == 1 { "Pan"@ } else if index == 2 { "Brush"@ }
            else if index == 3 { "Eraser"@ } else if index == 4 { "Fill"@ } else if index == 5 { "Eyedropper"@ }
            else if index == 6 { "Tile Picker"@ } else if index == 7 { "Collision Paint"@ } else if index == 8 { "Asset Studio"@ }
            else if index == 9 { "Playtest"@ } else { "Tool"@ }
}

/// The name of editor tool `index`.
pub fn editor_tool_name(index: usize) -> (r: &'static str)
    ensures
        r@ == tool_name(index),
{
    match index {
        0 => "Select",
        1 => "Pan",
        2 => "Brush",
        3 => "Eraser",
        4 => "Fill",
        5 => "Eyedropper",
        6 => "Tile Picker",
        7 => "Collision Paint",
        8 => "Asset Studio",
        9 => "Playtest",
        _ => "Tool",
    }
}

/// The hint of editor tool `index`.
pub open spec fn tool_hint(index: usize) -> Seq<char> {
    if index == 0 { "Select (V): pick assets, tiles, objects, and panels."@ }
            else if index == 1 { "Pan (Space): viewport movement tool placeholder."@ }
            else if index == 2 { "Brush (B): terrain paint tool placeholder."@ }
            else if index == 3 { "Eraser (E): erase terrain/object placeholder."@ }
            else if index == 4 { "Fill (G): bucket fill placeholder."@ }
            else if index == 5 { "Eyedropper (I): pick tile/color placeholder."@ }
            else if index == 6 { "Tile Picker (T): select atlas cells and roles."@ }
            else if index == 7 { "Collision (C): paint walk/block/water flags."@ }
            else if index == 8 { "Asset Studio (A): atlas, seam, role, export panels."@ }
            else if index == 9 { "Playtest (P): focus viewport testing."@ }
            else { "Editor tool"@ }
}

/// The hint shown for editor tool `index`.
pub fn editor_tool_hint(index: usize) -> (r: &'static str)
    ensures
        r@ == tool_hint(index),
{
    match index {
        0 => "Select (V): pick assets, tiles, objects, and panels.",
        1 => "Pan (Space): viewport movement tool placeholder.",
        2 => "Brush (B): terrain paint tool placeholder.",
        3 => "Eraser (E): erase terrain/object placeholder.",
        4 => "Fill (G): bucket fill placeholder.",
        5 => "Eyedropper (I): pick tile/color placeholder.",
        6 => "Tile Picker (T): select atlas cells and roles.",
        7 => "Collision (C): paint walk/block/water flags.",
        8 => "Asset Studio (A): atlas, seam, role, export panels.",
        9 => "Playtest (P): focus viewport testing.",
        _ => "Editor tool",
    }
}

/// The name of left dock tab `index`.
pub open spec fn left_tab(index: usize) -> Seq<char> {
    if index == 0 { "Project"@ } else if index == 1 { "Textures"@ } else if index == 2 { "Maps"@ } else { "Tab"@ }
}

/// The name of left dock tab `index`.
pub fn left_tab_name(index: usize) -> (r: &'static str)
    ensures
        r@ == left_tab(index),
{
    match index {
        0 => "Project",
        1 => "Textures",
        2 => "Maps",
        _ => "Tab",
    }
}

/// The name of inspector tab `index`.
pub open spec fn right_tab(index: usize) -> Seq<char> {
    if index == 0 { "Tile"@ } else if index == 1 { "Seams"@ } else if index == 2 { "Export"@ } else { "Inspector"@ }
}

/// The name of inspector tab `index`.
pub fn right_tab_name(index: usize) -> (r: &'static str)
    ensures
        r@ == right_tab(index),
{
    match index {
        0 => "Tile",
        1 => "Seams",
        2 => "Export",
        _ => "Inspector",
    }
}

/// The name of bottom dock tab `index`.
pub open spec fn bottom_tab(index: usize) -> Seq<char> {
    if index == 0 { "Console"@ } else if index == 1 { "Validation"@ } else if index == 2 { "Hot Reload"@ }
            else if index == 3 { "Runtime"@ } else { "Log"@ }
}

/// The name of bottom dock tab `index`.
pub fn bottom_tab_name(index: usize) -> (r: &'static str)
    ensures
        r@ == bottom_tab(index),
{
    match index {
        0 => "Console",
        1 => "Validation",
        2 => "Hot Reload",
        3 => "Runtime",
        _ => "Log",
    }
}

/// The terrain kinds the renderer draws base tiles for.
#[derive(Debug, Clone, Copy, PartialEq, Eq, Structural)]
pub enum TerrainKind {
    GrassBright,
    GrassDark,
    Dirt,
    PathSand,
    TilledDry,
    TilledWatered,
    Stone,
    Wood,
    Sand,
    WaterShallow,
    WaterDeep,
    Cliff,
}

/// The terrain kind of a base tile id.
pub open spec fn terrain_of(t: Seq<char>) -> Option<TerrainKind> {
    if t == "grass_bright"@ || t == "grass_flowers"@ { Some(TerrainKind::GrassBright) }
    else if t == "grass_dark"@ { Some(TerrainKind::GrassDark) }
    else if t == "dirt"@ { Some(TerrainKind::Dirt) }
    else if t == "path_sand"@ { Some(TerrainKind::PathSand) }
    else if t == "tilled_dry"@ { Some(TerrainKind::TilledDry) }
    else if t == "tilled_watered"@ { Some(TerrainKind::TilledWatered) }
    else if t == "stone_floor"@ { Some(TerrainKind::Stone) }
    else if t == "wood_floor"@ { Some(TerrainKind::Wood) }
    else if t == "sand"@ { Some(TerrainKind::Sand) }
    else if t == "water_shallow"@ { Some(TerrainKind::WaterShallow) }
    else if t == "water_deep"@ { Some(TerrainKind::WaterDeep) }
    else if t == "cliff"@ { Some(TerrainKind::Cliff) }
    else { None }
}

impl TerrainKind {
    /// The terrain kind of a base tile id, if it is one.
    pub fn from_tile_id(tile_id: &str) -> (r: Option<TerrainKind>)
        ensures
            r == terrain_of(tile_id@),
    {
        if str_eq(tile_id, "grass_bright") || str_eq(tile_id, "grass_flowers") { Some(TerrainKind::GrassBright) }
        else if str_eq(tile_id, "grass_dark") { Some(TerrainKind::GrassDark) }
        else if str_eq(tile_id, "dirt") { Some(TerrainKind::Dirt) }
        else if str_eq(tile_id, "path_sand") { Some(TerrainKind::PathSand) }
        else if str_eq(tile_id, "tilled_dry") { Some(TerrainKind::TilledDry) }
        else if str_eq(tile_id, "tilled_watered") { Some(TerrainKind::TilledWatered) }
        else if str_eq(tile_id, "stone_floor") { Some(TerrainKind::Stone) }
        else if str_eq(tile_id, "wood_floor") { Some(TerrainKind::Wood) }
        else if str_eq(tile_id, "sand") { Some(TerrainKind::Sand) }
        else if str_eq(tile_id, "water_shallow") { Some(TerrainKind::WaterShallow) }
        else if str_eq(tile_id, "water_deep") { Some(TerrainKind::WaterDeep) }
        else if str_eq(tile_id, "cliff") { Some(TerrainKind::Cliff) }
        else { None }
    }
}

} // verus!
