//! The map editing modes.
use vstd::prelude::*;

verus! {

/// What a click in the map viewport does.
#[derive(Debug, Clone, Copy, PartialEq, Eq, Structural)]
pub enum EditorMode {
    Select,
    TerrainPaint,
    PropPlace,
    NpcPlace,
    TriggerPlace,
}

} // verus!
