//! Laws of the editor's geometry and lookup tables: where an instance's
//! mirrors and turns put a panel's points, how a marquee is normalised,
//! which ground tile each kind of generated terrain becomes, which tiles
//! are guessed to be water, and where a whole-panel transform moves cells
//! and sockets.
use vstd::prelude::*;
use crate::voxel_compose::{InstanceView, local_point};
use crate::voxel_panel::{PanelView, SocketView, transformed_panel};
use crate::world_placement::spec_normalized_map_rect;
use crate::worldgen_bake::{SemanticTerrain, ground_tile};
use crate::tile_roles::{inferred_role, role_state};
use crate::text::{contains_seq, starts_with_seq};

verus! {

/// An instance of a panel at most `i32::MAX` wide and high puts a point
/// inside the panel where its mirrors and turn say: a mirror reflects the
/// point across the panel (`x` to `width - 1 - x`, `y` to
/// `height - 1 - y`); then a quarter turn clockwise takes `(x, y)` to
/// `(height - 1 - y, x)`, a half turn to `(width - 1 - x, height - 1 - y)`
/// and a three-quarter turn to `(y, width - 1 - x)`. The depth is kept.
pub proof fn lemma_local_point_geometry(p: PanelView, inst: InstanceView, cx: u32, cy: u32, cz: u32)
    requires
        1 <= p.width <= i32::MAX,
        1 <= p.height <= i32::MAX,
        cx < p.width,
        cy < p.height,
        cz <= i32::MAX,
        inst.rotation_degrees == 0 || inst.rotation_degrees == 90 || inst.rotation_degrees == 180
            || inst.rotation_degrees == 270,
    ensures
        ({
            let w = p.width as int;
            let h = p.height as int;
            let mx = if inst.mirror_x { w - 1 - cx } else { cx as int };
            let my = if inst.mirror_y { h - 1 - cy } else { cy as int };
            let l = local_point(p, inst, cx, cy, cz);
            &&& inst.rotation_degrees == 0 ==> l == (mx, my, cz as int)
            &&& inst.rotation_degrees == 90 ==> l == (h - 1 - my, mx, cz as int)
            &&& inst.rotation_degrees == 180 ==> l == (w - 1 - mx, h - 1 - my, cz as int)
            &&& inst.rotation_degrees == 270 ==> l == (my, w - 1 - mx, cz as int)
        }),
{
}

/// Mirroring top to bottom twice puts an unturned point back: the two
/// positions of a point under an instance with and without the vertical
/// mirror add up to `height - 1`, and those with and without the
/// horizontal mirror to `width - 1`.
pub proof fn lemma_local_point_mirrors_pair(p: PanelView, inst: InstanceView, cx: u32, cy: u32, cz: u32)
    requires
        1 <= p.width <= i32::MAX,
        1 <= p.height <= i32::MAX,
        cx < p.width,
        cy < p.height,
        cz <= i32::MAX,
        inst.rotation_degrees == 0,
    ensures
        local_point(p, InstanceView { mirror_y: true, ..inst }, cx, cy, cz).1
            + local_point(p, InstanceView { mirror_y: false, ..inst }, cx, cy, cz).1 == p.height - 1,
        local_point(p, InstanceView { mirror_x: true, ..inst }, cx, cy, cz).0
            + local_point(p, InstanceView { mirror_x: false, ..inst }, cx, cy, cz).0 == p.width - 1,
{
    lemma_local_point_geometry(p, InstanceView { mirror_y: true, ..inst }, cx, cy, cz);
    lemma_local_point_geometry(p, InstanceView { mirror_y: false, ..inst }, cx, cy, cz);
    lemma_local_point_geometry(p, InstanceView { mirror_x: true, ..inst }, cx, cy, cz);
    lemma_local_point_geometry(p, InstanceView { mirror_x: false, ..inst }, cx, cy, cz);
}

/// A marquee dragged between two cells (with coordinates that fit `i32`)
/// is the box with its left at the smaller column and its right at the
/// larger, its top at the smaller row and its bottom at the larger, the
/// same whichever corner the drag started from.
pub proof fn lemma_marquee_normalized(start: (u32, u32), end: (u32, u32))
    requires
        start.0 <= i32::MAX,
        start.1 <= i32::MAX,
        end.0 <= i32::MAX,
        end.1 <= i32::MAX,
    ensures
        ({
            let r = spec_normalized_map_rect(start, end);
            &&& r.0 <= r.2
            &&& r.1 <= r.3
            &&& (r.0 == start.0 && r.2 == end.0) || (r.0 == end.0 && r.2 == start.0)
            &&& (r.1 == start.1 && r.3 == end.1) || (r.1 == end.1 && r.3 == start.1)
            &&& r == spec_normalized_map_rect(end, start)
        }),
{
}

/// The ground tile of each kind of generated terrain: water is shallow for
/// shallow water and coast foam and deep only for deep water; bright grass
/// stands for the void, grass and protected cells, dark grass for dark
/// grass, forest floor, rock and tree and weed spawns; farmable soil is
/// dirt, paths and exits sandy path, sand sand, cliffs cliff and building
/// zones wooden floor.
pub proof fn lemma_ground_tiles(t: SemanticTerrain)
    ensures
        (ground_tile(t) == "water_shallow"@) <==> (t == SemanticTerrain::ShallowWater || t == SemanticTerrain::CoastFoam),
        (ground_tile(t) == "water_deep"@) <==> (t == SemanticTerrain::DeepWater),
        (ground_tile(t) == "grass_bright"@) <==> (t == SemanticTerrain::Void || t == SemanticTerrain::Grass
            || t == SemanticTerrain::Protected),
        (ground_tile(t) == "grass_dark"@) <==> (t == SemanticTerrain::GrassDark || t == SemanticTerrain::ForestFloor
            || t == SemanticTerrain::Rock || t == SemanticTerrain::TreeSpawn || t == SemanticTerrain::WeedSpawn),
        (ground_tile(t) == "dirt"@) <==> (t == SemanticTerrain::FarmableSoil),
        (ground_tile(t) == "path_sand"@) <==> (t == SemanticTerrain::PathDirt || t == SemanticTerrain::PathStone
            || t == SemanticTerrain::ExitZone),
        (ground_tile(t) == "sand"@) <==> (t == SemanticTerrain::Sand),
        (ground_tile(t) == "cliff"@) <==> (t == SemanticTerrain::Cliff),
        (ground_tile(t) == "wood_floor"@) <==> (t == SemanticTerrain::BuildingZone),
{
    reveal_strlit("water_shallow");
    reveal_strlit("water_deep");
    reveal_strlit("grass_bright");
    reveal_strlit("grass_dark");
    reveal_strlit("dirt");
    reveal_strlit("path_sand");
    reveal_strlit("sand");
    reveal_strlit("cliff");
    reveal_strlit("wood_floor");
    assert("water_shallow"@.len() == 13 && "water_shallow"@[0] == 'w' && "water_shallow"@[1] == 'a');
    assert("water_deep"@.len() == 10 && "water_deep"@[0] == 'w' && "water_deep"@[1] == 'a');
    assert("grass_bright"@.len() == 12 && "grass_bright"@[0] == 'g' && "grass_bright"@[1] == 'r');
    assert("grass_dark"@.len() == 10 && "grass_dark"@[0] == 'g' && "grass_dark"@[1] == 'r');
    assert("dirt"@.len() == 4 && "dirt"@[0] == 'd' && "dirt"@[1] == 'i');
    assert("path_sand"@.len() == 9 && "path_sand"@[0] == 'p' && "path_sand"@[1] == 'a');
    assert("sand"@.len() == 4 && "sand"@[0] == 's' && "sand"@[1] == 'a');
    assert("cliff"@.len() == 5 && "cliff"@[0] == 'c' && "cliff"@[1] == 'l');
    assert("wood_floor"@.len() == 10 && "wood_floor"@[0] == 'w' && "wood_floor"@[1] == 'o');
}

/// A tile is guessed to be water exactly when its id contains `water` or
/// starts with `shore` or `depth`; such a tile collides as water: it is
/// water, blocks movement and cannot be walked on.
pub proof fn lemma_water_tiles(t: Seq<char>)
    ensures
        (inferred_role(t) == "water"@) <==> (contains_seq(t, "water"@) || starts_with_seq(t, "shore"@)
            || starts_with_seq(t, "depth"@)),
        contains_seq(t, "water"@) ==> ({
            let v = role_state(inferred_role(t));
            &&& v.role == "water"@
            &&& v.collision == "water"@
            &&& v.water
            &&& v.blocks_movement
            &&& !v.walkable
        }),
{
    reveal_strlit("water");
    reveal_strlit("crop_soil");
    reveal_strlit("sand");
    reveal_strlit("path");
    reveal_strlit("wood");
    reveal_strlit("stone");
    reveal_strlit("fence");
    reveal_strlit("door");
    reveal_strlit("building");
    reveal_strlit("blocking_prop");
    reveal_strlit("grass");
    reveal_strlit("decor");
    assert("water"@.len() == 5 && "water"@[0] == 'w');
    assert("crop_soil"@.len() == 9 && "crop_soil"@[0] == 'c');
    assert("sand"@.len() == 4 && "sand"@[0] == 's');
    assert("path"@.len() == 4 && "path"@[0] == 'p');
    assert("wood"@.len() == 4 && "wood"@[0] == 'w');
    assert("stone"@.len() == 5 && "stone"@[0] == 's');
    assert("fence"@.len() == 5 && "fence"@[0] == 'f');
    assert("door"@.len() == 4 && "door"@[0] == 'd');
    assert("building"@.len() == 8 && "building"@[0] == 'b');
    assert("blocking_prop"@.len() == 13 && "blocking_prop"@[0] == 'b');
    assert("grass"@.len() == 5 && "grass"@[0] == 'g');
    assert("decor"@.len() == 5 && "decor"@[0] == 'd');
}

/// A whole-panel transform moves every cell and socket inside the panel
/// the same way: a left-right mirror to `(width - 1 - x, y)`, a
/// top-bottom mirror to `(x, height - 1 - y)`, a clockwise quarter turn to
/// `(height - 1 - y, x)` and an anticlockwise one to `(y, width - 1 - x)`,
/// keeping depth, material and every other socket field; the quarter turns
/// swap the width and height.
pub proof fn lemma_whole_panel_transform(p: PanelView, kind: int, z: u32)
    requires
        0 <= kind < 4,
    ensures
        ({
            let f = transformed_panel(p, kind, false, z);
            let w = p.width as int;
            let h = p.height as int;
            &&& f.cells.len() == p.cells.len()
            &&& f.sockets.len() == p.sockets.len()
            &&& (kind == 2 || kind == 3) ==> f.width == p.height && f.height == p.width
            &&& (kind == 0 || kind == 1) ==> f.width == p.width && f.height == p.height
            &&& forall|i: int| 0 <= i < p.cells.len() && p.cells[i].0 < w && p.cells[i].1 < h ==> {
                let c = #[trigger] p.cells[i];
                let m = f.cells[i];
                &&& m.2 == c.2 && m.3 == c.3
                &&& kind == 0 ==> m.0 == w - 1 - c.0 && m.1 == c.1
                &&& kind == 1 ==> m.0 == c.0 && m.1 == h - 1 - c.1
                &&& kind == 2 ==> m.0 == h - 1 - c.1 && m.1 == c.0
                &&& kind == 3 ==> m.0 == c.1 && m.1 == w - 1 - c.0
            }
            &&& forall|i: int| 0 <= i < p.sockets.len() && p.sockets[i].x < w && p.sockets[i].y < h ==> {
                let s = #[trigger] p.sockets[i];
                let m = f.sockets[i];
                &&& kind == 0 ==> m == SocketView { x: (w - 1 - s.x) as u32, ..s }
                &&& kind == 1 ==> m == SocketView { y: (h - 1 - s.y) as u32, ..s }
                &&& kind == 2 ==> m == SocketView { x: (h - 1 - s.y) as u32, y: s.x, ..s }
                &&& kind == 3 ==> m == SocketView { x: s.y, y: (w - 1 - s.x) as u32, ..s }
            }
        }),
{
}

/// A left-right mirror of the whole panel moves every socket inside it off
/// its column unless the socket stands on the centre column.
pub proof fn lemma_mirror_moves_sockets(p: PanelView, z: u32, i: int)
    requires
        0 <= i < p.sockets.len(),
        p.sockets[i].x < p.width,
        p.sockets[i].y < p.height,
        2 * p.sockets[i].x + 1 != p.width,
    ensures
        transformed_panel(p, 0, false, z).sockets[i].x != p.sockets[i].x,
{
    lemma_whole_panel_transform(p, 0, z);
}

/// A transform of the active depth only moves just the cells at that
/// depth, in the same way as a whole-panel transform, and leaves the
/// other cells, the sockets and the panel's size as they were.
pub proof fn lemma_active_depth_transform(p: PanelView, kind: int, z: u32)
    requires
        0 <= kind < 4,
    ensures
        ({
            let f = transformed_panel(p, kind, true, z);
            let w = p.width as int;
            let h = p.height as int;
            &&& f.sockets == p.sockets
            &&& f.width == p.width && f.height == p.height
            &&& f.cells.len() == p.cells.len()
            &&& forall|i: int| 0 <= i < p.cells.len() && #[trigger] p.cells[i].2 != z ==> f.cells[i] == p.cells[i]
            &&& forall|i: int| 0 <= i < p.cells.len() && p.cells[i].2 == z && p.cells[i].0 < w && p.cells[i].1 < h ==> {
                let c = #[trigger] p.cells[i];
                let m = f.cells[i];
                &&& m.2 == c.2 && m.3 == c.3
                &&& kind == 0 ==> m.0 == w - 1 - c.0 && m.1 == c.1
                &&& kind == 1 ==> m.0 == c.0 && m.1 == h - 1 - c.1
                &&& kind == 2 ==> m.0 == h - 1 - c.1 && m.1 == c.0
                &&& kind == 3 ==> m.0 == c.1 && m.1 == w - 1 - c.0
            }
        }),
{
}

} // verus!
