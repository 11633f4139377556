//! The character lab's defaults.
use vstd::prelude::*;

verus! {

/// The two base bodies characters are built on.
#[derive(Debug, Clone, Copy, PartialEq, Eq, Structural)]
pub enum CharacterBaseBody {
    Male,
    Female,
}

/// The kinds of layer stacked on a base body.
#[derive(Debug, Clone, Copy, PartialEq, Eq, Structural)]
pub enum CharacterLayerKind {
    Body,
    Underwear,
    Hair,
    Eyes,
    Face,
    Shirt,
    Pants,
    Shoes,
    Accessory,
    Tool,
    Equipment,
}

/// One layer slot of the character lab.
pub struct CharacterLayerSlot {
    pub id: &'static str,
    pub title: &'static str,
    pub kind: CharacterLayerKind,
    pub destructive: bool,
}

/// The character lab's configuration.
pub struct CharacterLabDescriptor {
    pub male_base_path: &'static str,
    pub female_base_path: &'static str,
    pub frame_width: u32,
    pub frame_height: u32,
    pub source_layers_are_non_destructive: bool,
    pub layer_slots: Vec<CharacterLayerSlot>,
}

/// A layer slot seen as its id, title, kind and destructiveness.
pub open spec fn slot_view(s: CharacterLayerSlot) -> (Seq<char>, Seq<char>, CharacterLayerKind, bool) {
    (s.id@, s.title@, s.kind, s.destructive)
}

/// The default layer slots, in stacking order; none is destructive.
pub open spec fn default_layer_slots() -> Seq<(Seq<char>, Seq<char>, CharacterLayerKind, bool)> {
    seq![
        ("body"@, "Body"@, CharacterLayerKind::Body, false),
        ("underwear"@, "Underwear"@, CharacterLayerKind::Underwear, false),
        ("hair"@, "Hair"@, CharacterLayerKind::Hair, false),
        ("eyes"@, "Eyes"@, CharacterLayerKind::Eyes, false),
        ("face"@, "Face"@, CharacterLayerKind::Face, false),
        ("shirt"@, "Shirt"@, CharacterLayerKind::Shirt, false),
        ("pants"@, "Pants"@, CharacterLayerKind::Pants, false),
        ("shoes"@, "Shoes"@, CharacterLayerKind::Shoes, false),
        ("accessory"@, "Accessory"@, CharacterLayerKind::Accessory, false),
        ("tool"@, "Tool"@, CharacterLayerKind::Tool, false),
        ("equipment"@, "Equipment / R.I.G."@, CharacterLayerKind::Equipment, false),
    ]
}

fn slot(id: &'static str, title: &'static str, kind: CharacterLayerKind) -> (r: CharacterLayerSlot)
    ensures
        slot_view(r) == (id@, title@, kind, false),
{
    CharacterLayerSlot { id, title, kind, destructive: false }
}

impl CharacterLabDescriptor {
    /// The default character lab: 32x32 frames over the two underwear base
    /// sheets, with non-destructive layer slots.
    pub fn phase27_default() -> (r: Self)
        ensures
            r.male_base_path@ == "assets/textures/characters/base_male_underwear_phase27.png"@,
            r.female_base_path@ == "assets/textures/characters/base_female_underwear_phase27.png"@,
            r.frame_width == 32,
            r.frame_height == 32,
            r.source_layers_are_non_destructive,
            r.layer_slots@.map_values(|s: CharacterLayerSlot| slot_view(s)) == default_layer_slots(),
    {
        let mut layer_slots = Vec::new();
        layer_slots.push(slot("body", "Body", CharacterLayerKind::Body));
        layer_slots.push(slot("underwear", "Underwear", CharacterLayerKind::Underwear));
        layer_slots.push(slot("hair", "Hair", CharacterLayerKind::Hair));
        layer_slots.push(slot("eyes", "Eyes", CharacterLayerKind::Eyes));
        layer_slots.push(slot("face", "Face", CharacterLayerKind::Face));
        layer_slots.push(slot("shirt", "Shirt", CharacterLayerKind::Shirt));
        layer_slots.push(slot("pants", "Pants", CharacterLayerKind::Pants));
        layer_slots.push(slot("shoes", "Shoes", CharacterLayerKind::Shoes));
        layer_slots.push(slot("accessory", "Accessory", CharacterLayerKind::Accessory));
        layer_slots.push(slot("tool", "Tool", CharacterLayerKind::Tool));
        layer_slots.push(slot("equipment", "Equipment / R.I.G.", CharacterLayerKind::Equipment));
        assert(layer_slots@.map_values(|s: CharacterLayerSlot| slot_view(s)) =~= default_layer_slots());
        Self {
            male_base_path: "assets/textures/characters/base_male_underwear_phase27.png",
            female_base_path: "assets/textures/characters/base_female_underwear_phase27.png",
            frame_width: 32,
            frame_height: 32,
            source_layers_are_non_destructive: true,
            layer_slots,
        }
    }
}

} // verus!
