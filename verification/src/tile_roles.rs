//! Tile role metadata: the gameplay role and collision flags of a tile,
//! guessed from its id or read from and written to the role file's text.
use vstd::prelude::*;
use crate::text::{
    str_eq, str_contains, str_starts_with, to_string, copy_string, push_str, contains_seq, starts_with_seq,
    str_chars, string_from_chars, find_from, rfind_below, sub_chars, concat_chars, occurs_at, find_seq, rfind_seq,
    lemma_first_from, lemma_last_below, occurs_at_exec,
};

verus! {

/// A tile's role and collision flags.
pub struct TileRoleState {
    pub role: String,
    pub collision: String,
    pub walkable: bool,
    pub blocks_movement: bool,
    pub water: bool,
    pub interactable: bool,
    pub crop_soil: bool,
    pub door: bool,
}

/// A tile's role and collision flags as plain values.
pub struct TileRoleView {
    pub role: Seq<char>,
    pub collision: Seq<char>,
    pub walkable: bool,
    pub blocks_movement: bool,
    pub water: bool,
    pub interactable: bool,
    pub crop_soil: bool,
    pub door: bool,
}

impl View for TileRoleState {
    type V = TileRoleView;

    open spec fn view(&self) -> TileRoleView {
        TileRoleView {
            role: self.role@,
            collision: self.collision@,
            walkable: self.walkable,
            blocks_movement: self.blocks_movement,
            water: self.water,
            interactable: self.interactable,
            crop_soil: self.crop_soil,
            door: self.door,
        }
    }
}

/// The flags of a collision kind: "blocked" and "water" block movement
/// (and "water" is water), "interactable", "crop_soil" and "door" are
/// interactable (and set their own flag); everything is walkable unless
/// blocked or water.
pub open spec fn collision_state(role: Seq<char>, collision: Seq<char>) -> TileRoleView {
    let blocked = collision == "blocked"@ || collision == "water"@;
    TileRoleView {
        role: role,
        collision: collision,
        walkable: !blocked,
        blocks_movement: blocked,
        water: collision == "water"@,
        interactable: collision == "interactable"@ || collision == "crop_soil"@ || collision == "door"@,
        crop_soil: collision == "crop_soil"@,
        door: collision == "door"@,
    }
}

/// The flags of a role: water tiles collide as water, crop soil is
/// walkable, interactable soil, buildings, blocking props and fences are
/// blocked, doors collide as doors, and anything else is walkable.
pub open spec fn role_state(role: Seq<char>) -> TileRoleView {
    if role == "water"@ {
        collision_state(role, "water"@)
    } else if role == "crop_soil"@ {
        TileRoleView { crop_soil: true, interactable: true, ..collision_state(role, "walkable"@) }
    } else if role == "building"@ || role == "blocking_prop"@ || role == "fence"@ {
        collision_state(role, "blocked"@)
    } else if role == "door"@ {
        TileRoleView { door: true, interactable: true, ..collision_state(role, "door"@) }
    } else {
        collision_state(role, "walkable"@)
    }
}

/// The role guessed from a tile id by the words it contains.
pub open spec fn inferred_role(t: Seq<char>) -> Seq<char> {
    if contains_seq(t, "water"@) || starts_with_seq(t, "shore"@) || starts_with_seq(t, "depth"@) {
        "water"@
    } else if contains_seq(t, "tilled"@) {
        "crop_soil"@
    } else if contains_seq(t, "sand"@) {
        "sand"@
    } else if contains_seq(t, "path"@) || t == "dirt"@ {
        "path"@
    } else if contains_seq(t, "wood"@) {
        "wood"@
    } else if contains_seq(t, "stone"@) || contains_seq(t, "rock"@) {
        "stone"@
    } else if contains_seq(t, "fence"@) {
        "fence"@
    } else if contains_seq(t, "door"@) || contains_seq(t, "gate"@) {
        "door"@
    } else if contains_seq(t, "roof"@) || contains_seq(t, "wall"@) || contains_seq(t, "farmhouse"@) {
        "building"@
    } else if contains_seq(t, "tree"@) || contains_seq(t, "boulder"@) || contains_seq(t, "barrel"@) || contains_seq(t, "crate"@) {
        "blocking_prop"@
    } else if contains_seq(t, "grass"@) {
        "grass"@
    } else {
        "decor"@
    }
}

impl TileRoleState {
    /// The flags of `collision` for a tile of role `role`.
    pub fn from_collision(role: &str, collision: &str) -> (r: Self)
        ensures
            r@ == collision_state(role@, collision@),
    {
        let blocked = str_eq(collision, "blocked");
        let water = str_eq(collision, "water");
        let interactable = str_eq(collision, "interactable");
        let crop_soil = str_eq(collision, "crop_soil");
        let door = str_eq(collision, "door");
        TileRoleState {
            role: to_string(role),
            collision: to_string(collision),
            walkable: !(blocked || water),
            blocks_movement: blocked || water,
            water,
            interactable: interactable || crop_soil || door,
            crop_soil,
            door,
        }
    }

    /// The flags of a tile of role `role`.
    pub fn from_role(role: &str) -> (r: Self)
        ensures
            r@ == role_state(role@),
    {
        if str_eq(role, "water") {
            Self::from_collision(role, "water")
        } else if str_eq(role, "crop_soil") {
            let mut state = Self::from_collision(role, "walkable");
            state.crop_soil = true;
            state.interactable = true;
            state
        } else if str_eq(role, "building") || str_eq(role, "blocking_prop") || str_eq(role, "fence") {
            Self::from_collision(role, "blocked")
        } else if str_eq(role, "door") {
            let mut state = Self::from_collision(role, "door");
            state.door = true;
            state.interactable = true;
            state
        } else {
            Self::from_collision(role, "walkable")
        }
    }

    /// The flags of a tile guessed from its id.
    pub fn inferred(tile_id: &str) -> (r: Self)
        ensures
            r@ == role_state(inferred_role(tile_id@)),
    {
        let role = if str_contains(tile_id, "water") || str_starts_with(tile_id, "shore") || str_starts_with(tile_id, "depth") {
            "water"
        } else if str_contains(tile_id, "tilled") {
            "crop_soil"
        } else if str_contains(tile_id, "sand") {
            "sand"
        } else if str_contains(tile_id, "path") || str_eq(tile_id, "dirt") {
            "path"
        } else if str_contains(tile_id, "wood") {
            "wood"
        } else if str_contains(tile_id, "stone") || str_contains(tile_id, "rock") {
            "stone"
        } else if str_contains(tile_id, "fence") {
            "fence"
        } else if str_contains(tile_id, "door") || str_contains(tile_id, "gate") {
            "door"
        } else if str_contains(tile_id, "roof") || str_contains(tile_id, "wall") || str_contains(tile_id, "farmhouse") {
            "building"
        } else if str_contains(tile_id, "tree") || str_contains(tile_id, "boulder") || str_contains(tile_id, "barrel") || str_contains(tile_id, "crate") {
            "blocking_prop"
        } else if str_contains(tile_id, "grass") {
            "grass"
        } else {
            "decor"
        };
        Self::from_role(role)
    }
}

/// "true" or "false".
pub open spec fn bool_text(b: bool) -> Seq<char> {
    if b { "true"@ } else { "false"@ }
}

/// The role file entry line for a tile: its head with the tile id, role
/// and collision, then its flags.
pub open spec fn entry_text(tile_id: Seq<char>, v: TileRoleView) -> Seq<char> {
    entry_head(tile_id, v.role, v.collision) + entry_flags(v)
}

/// The start of a role file entry, up to the collision's value.
pub open spec fn entry_head(tile_id: Seq<char>, role: Seq<char>, collision: Seq<char>) -> Seq<char> {
    "        (tile_id: \""@ + tile_id + "\", role: \""@ + role + "\", collision: \""@ + collision
}

/// The rest of a role file entry: the flags and the entry's end.
pub open spec fn entry_flags(v: TileRoleView) -> Seq<char> {
    "\", walkable: "@ + (bool_text(v.walkable) + flags_from_blocks(v))
}

/// A role file entry from its blocks_movement flag on.
pub open spec fn flags_from_blocks(v: TileRoleView) -> Seq<char> {
    ", blocks_movement: "@ + (bool_text(v.blocks_movement) + flags_from_water(v))
}

/// A role file entry from its water flag on.
pub open spec fn flags_from_water(v: TileRoleView) -> Seq<char> {
    ", water: "@ + (bool_text(v.water) + flags_from_interactable(v))
}

/// A role file entry from its interactable flag on.
pub open spec fn flags_from_interactable(v: TileRoleView) -> Seq<char> {
    ", interactable: "@ + (bool_text(v.interactable) + flags_from_crop_soil(v))
}

/// A role file entry from its crop_soil flag on.
pub open spec fn flags_from_crop_soil(v: TileRoleView) -> Seq<char> {
    ", crop_soil: "@ + (bool_text(v.crop_soil) + flags_from_door(v))
}

/// A role file entry from its door flag on.
pub open spec fn flags_from_door(v: TileRoleView) -> Seq<char> {
    ", door: "@ + (bool_text(v.door) + "),"@)
}

/// Appends "true" or "false".
fn push_bool(s: &mut String, b: bool)
    ensures
        final(s)@ == old(s)@ + bool_text(b),
{
    if b {
        push_str(s, "true");
    } else {
        push_str(s, "false");
    }
}

/// `label`, then `b` as text, then `rest`.
fn prefixed(label: &str, b: bool, rest: String) -> (r: String)
    ensures
        r@ == label@ + (bool_text(b) + rest@),
{
    let mut s = to_string(label);
    push_bool(&mut s, b);
    push_str(&mut s, rest.as_str());
    assert(s@ =~= label@ + (bool_text(b) + rest@));
    s
}

impl TileRoleState {
    /// The role file entry line for this state of tile `tile_id`.
    pub fn entry(&self, tile_id: &str) -> (r: String)
        ensures
            r@ == entry_text(tile_id@, self@),
    {
        let mut s = to_string("        (tile_id: \"");
        push_str(&mut s, tile_id);
        push_str(&mut s, "\", role: \"");
        push_str(&mut s, self.role.as_str());
        push_str(&mut s, "\", collision: \"");
        push_str(&mut s, self.collision.as_str());
        assert(s@ =~= entry_head(tile_id@, self.role@, self.collision@));
        let mut f = to_string(", door: ");
        push_bool(&mut f, self.door);
        push_str(&mut f, "),");
        assert(f@ =~= flags_from_door(self@));
        f = prefixed(", crop_soil: ", self.crop_soil, f);
        assert(f@ =~= flags_from_crop_soil(self@));
        f = prefixed(", interactable: ", self.interactable, f);
        assert(f@ =~= flags_from_interactable(self@));
        f = prefixed(", water: ", self.water, f);
        assert(f@ =~= flags_from_water(self@));
        f = prefixed(", blocks_movement: ", self.blocks_movement, f);
        assert(f@ =~= flags_from_blocks(self@));
        f = prefixed("\", walkable: ", self.walkable, f);
        assert(f@ =~= entry_flags(self@));
        push_str(&mut s, f.as_str());
        assert(s@ =~= entry_text(tile_id@, self@));
        s
    }
}

/// Where the role file entry for `tile` lies in `body`: from the entry's
/// opening "        (" (or, failing that, the last "(") before the first
/// `tile_id: "<tile>"`, up to and including the first "),"
/// after it.
pub open spec fn role_entry_range(body: Seq<char>, tile: Seq<char>) -> Option<(int, int)> {
    let needle = "tile_id: \""@ + tile + "\""@;
    match find_seq(body, needle) {
        None => None,
        Some(tile_pos) => {
            let before = body.take(tile_pos);
            let start = match rfind_seq(before, "        ("@) {
                Some(i) => Some(i),
                None => rfind_seq(before, "("@),
            };
            match (start, find_seq(body.skip(tile_pos), "),"@)) {
                (Some(st), Some(rel)) => Some((st, tile_pos + rel + 2)),
                _ => None,
            }
        },
    }
}

/// The first position of `needle` in `hay`, with its bounds.
fn find_first(hay: &Vec<char>, needle: &Vec<char>) -> (r: Option<usize>)
    ensures
        match r { Some(i) => find_seq(hay@, needle@) == Some(i as int), None => find_seq(hay@, needle@) is None },
        r matches Some(i) ==> i + needle@.len() <= hay@.len(),
{
    let r = find_from(hay, needle, 0);
    proof {
        lemma_first_from(hay@, needle@, 0);
    }
    r
}

/// The last position of `needle` in `hay`, with its bounds.
fn find_last(hay: &Vec<char>, needle: &Vec<char>) -> (r: Option<usize>)
    ensures
        match r { Some(i) => rfind_seq(hay@, needle@) == Some(i as int), None => rfind_seq(hay@, needle@) is None },
        r matches Some(i) ==> i + needle@.len() <= hay@.len(),
{
    let r = rfind_below(hay, needle, hay.len());
    proof {
        lemma_last_below(hay@, needle@, hay@.len() as int);
    }
    r
}

/// Where the role file entry for `tile_id` lies in `body`, as character
/// positions.
pub fn find_role_entry_range(body: &str, tile_id: &str) -> (r: Option<(usize, usize)>)
    ensures
        match r { Some((a, b)) => role_entry_range(body@, tile_id@) == Some((a as int, b as int)), None => role_entry_range(body@, tile_id@) is None },
        r matches Some((a, b)) ==> a <= b <= body@.len(),
{
    let hay = str_chars(body);
    let mut needle_s = to_string("tile_id: \"");
    push_str(&mut needle_s, tile_id);
    push_str(&mut needle_s, "\"");
    let needle = str_chars(needle_s.as_str());
    let tile_pos = match find_first(&hay, &needle) {
        Some(p) => p,
        None => return None,
    };
    let before = sub_chars(&hay, 0, tile_pos);
    assert(before@ =~= body@.take(tile_pos as int));
    let opener = str_chars("        (");
    let start = match find_last(&before, &opener) {
        Some(i) => i,
        None => {
            let paren = str_chars("(");
            match find_last(&before, &paren) {
                Some(i) => i,
                None => return None,
            }
        },
    };
    let after = sub_chars(&hay, tile_pos, hay.len());
    assert(after@ =~= body@.skip(tile_pos as int));
    let closer = str_chars("),");
    let rel = match find_first(&after, &closer) {
        Some(i) => i,
        None => return None,
    };
    proof {
        reveal_strlit("),");
    }
    Some((start, tile_pos + rel + 2))
}

/// The text in `block` between `<field>: "` and the next `"`.
pub open spec fn quoted_field(block: Seq<char>, field: Seq<char>) -> Option<Seq<char>> {
    let needle = field + ": \""@;
    match find_seq(block, needle) {
        None => None,
        Some(p) => {
            let start = p + needle.len();
            match find_seq(block.skip(start), seq!['"']) {
                None => None,
                Some(e) => Some(block.subrange(start, start + e)),
            }
        },
    }
}

/// The value after `<field>: ` in `block` when it reads `true` or `false`.
pub open spec fn bool_field(block: Seq<char>, field: Seq<char>) -> Option<bool> {
    let needle = field + ": "@;
    match find_seq(block, needle) {
        None => None,
        Some(p) => {
            let tail = block.skip(p + needle.len());
            if starts_with_seq(tail, "true"@) {
                Some(true)
            } else if starts_with_seq(tail, "false"@) {
                Some(false)
            } else {
                None
            }
        },
    }
}

/// The quoted value of `field` in `block`.
pub fn extract_quoted_field(block: &str, field: &str) -> (r: Option<String>)
    ensures
        match r {
            Some(v) => quoted_field(block@, field@) == Some(v@),
            None => quoted_field(block@, field@) is None,
        },
{
    let hay = str_chars(block);
    let mut needle_s = to_string(field);
    push_str(&mut needle_s, ": \"");
    let needle = str_chars(needle_s.as_str());
    let p = match find_first(&hay, &needle) {
        Some(p) => p,
        None => return None,
    };
    let hl = hay.len();
    assert(p + needle@.len() <= hl);
    let start = p + needle.len();
    let tail = sub_chars(&hay, start, hay.len());
    assert(tail@ =~= block@.skip(start as int));
    let quote = str_chars("\"");
    proof {
        reveal_strlit("\"");
        assert(quote@ =~= seq!['"']);
    }
    let e = match find_first(&tail, &quote) {
        Some(e) => e,
        None => return None,
    };
    let value = sub_chars(&hay, start, start + e);
    Some(string_from_chars(&value))
}

/// The boolean value of `field` in `block`.
pub fn extract_bool_field(block: &str, field: &str) -> (r: Option<bool>)
    ensures
        r == bool_field(block@, field@),
{
    let hay = str_chars(block);
    let mut needle_s = to_string(field);
    push_str(&mut needle_s, ": ");
    let needle = str_chars(needle_s.as_str());
    let p = match find_first(&hay, &needle) {
        Some(p) => p,
        None => return None,
    };
    let hl = hay.len();
    assert(p + needle@.len() <= hl);
    let start = p + needle.len();
    let tail = sub_chars(&hay, start, hay.len());
    assert(tail@ =~= block@.skip(start as int));
    let t = str_chars("true");
    let f = str_chars("false");
    if occurs_at_exec(&tail, &t, 0) {
        Some(true)
    } else if occurs_at_exec(&tail, &f, 0) {
        Some(false)
    } else {
        None
    }
}

/// A state with each flag taken from the entry text where it names one.
pub open spec fn with_bool_fields(v: TileRoleView, block: Seq<char>) -> TileRoleView {
    TileRoleView {
        walkable: match bool_field(block, "walkable"@) { Some(b) => b, None => v.walkable },
        blocks_movement: match bool_field(block, "blocks_movement"@) { Some(b) => b, None => v.blocks_movement },
        water: match bool_field(block, "water"@) { Some(b) => b, None => v.water },
        interactable: match bool_field(block, "interactable"@) { Some(b) => b, None => v.interactable },
        crop_soil: match bool_field(block, "crop_soil"@) { Some(b) => b, None => v.crop_soil },
        door: match bool_field(block, "door"@) { Some(b) => b, None => v.door },
        ..v
    }
}

/// The role state of `tile` read from the role file text `body`: its
/// entry's role (else the guessed one) and collision (else the role's),
/// with the flags the entry names; the guessed state when there is no
/// entry.
pub open spec fn parsed_role_state(body: Seq<char>, tile: Seq<char>) -> TileRoleView {
    match role_entry_range(body, tile) {
        None => role_state(inferred_role(tile)),
        Some((a, b)) => {
            let block = body.subrange(a, b);
            let role = match quoted_field(block, "role"@) { Some(r) => r, None => inferred_role(tile) };
            let collision = match quoted_field(block, "collision"@) { Some(c) => c, None => role_state(role).collision };
            with_bool_fields(collision_state(role, collision), block)
        },
    }
}

/// The value `field` names in `block`, else `default`.
fn bool_or(block: &str, field: &str, default: bool) -> (r: bool)
    ensures
        r == match bool_field(block@, field@) { Some(b) => b, None => default },
{
    match extract_bool_field(block, field) {
        Some(b) => b,
        None => default,
    }
}

/// The role state of `tile_id` read from the role file text `body`.
pub fn parse_tile_role_state(body: &str, tile_id: &str) -> (r: TileRoleState)
    ensures
        r@ == parsed_role_state(body@, tile_id@),
{
    let (a, b) = match find_role_entry_range(body, tile_id) {
        Some(range) => range,
        None => return TileRoleState::inferred(tile_id),
    };
    let chars = str_chars(body);
    let block_chars = sub_chars(&chars, a, b);
    let block_s = string_from_chars(&block_chars);
    let block = block_s.as_str();
    let role = match extract_quoted_field(block, "role") {
        Some(r) => r,
        None => TileRoleState::inferred(tile_id).role,
    };
    let collision = match extract_quoted_field(block, "collision") {
        Some(c) => c,
        None => TileRoleState::from_role(role.as_str()).collision,
    };
    let mut state = TileRoleState::from_collision(role.as_str(), collision.as_str());
    state.walkable = bool_or(block, "walkable", state.walkable);
    state.blocks_movement = bool_or(block, "blocks_movement", state.blocks_movement);
    state.water = bool_or(block, "water", state.water);
    state.interactable = bool_or(block, "interactable", state.interactable);
    state.crop_soil = bool_or(block, "crop_soil", state.crop_soil);
    state.door = bool_or(block, "door", state.door);
    state
}

/// The role file text used when the file does not exist yet.
pub open spec fn default_roles_body() -> Seq<char> {
    "(\n    tileset: \"base_tiles\",\n    source: \"content/tiles/base_tileset.ron\",\n    entries: [\n    ],\n)\n"@
}

/// The role file text used when the file does not exist yet.
pub fn default_role_file_body() -> (r: String)
    ensures
        r@ == default_roles_body(),
{
    to_string("(\n    tileset: \"base_tiles\",\n    source: \"content/tiles/base_tileset.ron\",\n    entries: [\n    ],\n)\n")
}

/// The role file text `body` with the entry of `tile` set to `entry`: the
/// existing entry is replaced; else the entry and a newline go before the
/// last "    ],"; else a newline, the entry and a newline are appended.
pub open spec fn spliced_roles(body: Seq<char>, tile: Seq<char>, entry: Seq<char>) -> Seq<char> {
    match role_entry_range(body, tile) {
        Some((a, b)) => body.take(a) + entry + body.skip(b),
        None => match rfind_seq(body, "    ],"@) {
            Some(i) => body.take(i) + entry + seq!['\n'] + body.skip(i),
            None => body + seq!['\n'] + entry + seq!['\n'],
        },
    }
}

/// The role file text `body` with the entry of `tile_id` set to `state`.
pub fn splice_tile_role_entry(body: &str, tile_id: &str, state: &TileRoleState) -> (r: String)
    ensures
        r@ == spliced_roles(body@, tile_id@, entry_text(tile_id@, state@)),
{
    let entry = state.entry(tile_id);
    let entry_chars = str_chars(entry.as_str());
    let chars = str_chars(body);
    let newline = str_chars("\n");
    proof {
        reveal_strlit("\n");
        assert(newline@ =~= seq!['\n']);
    }
    match find_role_entry_range(body, tile_id) {
        Some((a, b)) => {
            let head = sub_chars(&chars, 0, a);
            let tail = sub_chars(&chars, b, chars.len());
            let joined = concat_chars(&concat_chars(&head, &entry_chars), &tail);
            assert(joined@ =~= body@.take(a as int) + entry@ + body@.skip(b as int));
            string_from_chars(&joined)
        },
        None => {
            let marker = str_chars("    ],");
            match find_last(&chars, &marker) {
                Some(i) => {
                    let head = sub_chars(&chars, 0, i);
                    let tail = sub_chars(&chars, i, chars.len());
                    let joined = concat_chars(&concat_chars(&concat_chars(&head, &entry_chars), &newline), &tail);
                    assert(joined@ =~= body@.take(i as int) + entry@ + seq!['\n'] + body@.skip(i as int));
                    string_from_chars(&joined)
                },
                None => {
                    let joined = concat_chars(&concat_chars(&concat_chars(&chars, &newline), &entry_chars), &newline);
                    string_from_chars(&joined)
                },
            }
        },
    }
}

/// The roles the editor cycles through.
pub open spec fn role_cycle() -> Seq<Seq<char>> {
    seq!["grass"@, "path"@, "sand"@, "water"@, "crop_soil"@, "stone"@, "wood"@, "building"@, "decor"@, "blocking_prop"@, "fence"@, "door"@]
}

/// The collision kinds the editor cycles through.
pub open spec fn collision_cycle() -> Seq<Seq<char>> {
    seq!["walkable"@, "blocked"@, "water"@, "interactable"@, "crop_soil"@, "door"@]
}

/// The roles the editor cycles through, in order.
pub fn editor_role_cycle() -> (r: Vec<&'static str>)
    ensures
        r@.map_values(|s: &str| s@) == role_cycle(),
{
    let r = vec!["grass", "path", "sand", "water", "crop_soil", "stone", "wood", "building", "decor", "blocking_prop", "fence", "door"];
    assert(r@.map_values(|s: &str| s@) =~= role_cycle());
    r
}

/// The collision kinds the editor cycles through, in order.
pub fn editor_collision_cycle() -> (r: Vec<&'static str>)
    ensures
        r@.map_values(|s: &str| s@) == collision_cycle(),
{
    let r = vec!["walkable", "blocked", "water", "interactable", "crop_soil", "door"];
    assert(r@.map_values(|s: &str| s@) =~= collision_cycle());
    r
}

/// The position of the first value equal to `v`, if any.
pub open spec fn position_of(values: Seq<Seq<char>>, v: Seq<char>) -> Option<int>
    decreases values.len(),
{
    if values.len() == 0 {
        None
    } else if values[0] == v {
        Some(0)
    } else {
        match position_of(values.drop_first(), v) {
            Some(i) => Some(i + 1),
            None => None,
        }
    }
}

/// The value after `current` in the cycle `values`, wrapping around; a
/// value not in the cycle counts as the first.
pub open spec fn next_in_cycle(values: Seq<Seq<char>>, current: Seq<char>) -> Seq<char> {
    let index = match position_of(values, current) { Some(i) => i, None => 0 };
    values[(index + 1) % (values.len() as int)]
}

/// A found position lies inside the list.
proof fn lemma_position_of(values: Seq<Seq<char>>, v: Seq<char>)
    ensures
        position_of(values, v) matches Some(i) ==> 0 <= i < values.len() && values[i] == v,
        forall|j: int| 0 <= j < values.len() && values[j] == v ==> position_of(values, v) is Some,
    decreases values.len(),
{
    if values.len() > 0 {
        lemma_position_of(values.drop_first(), v);
        assert forall|j: int| 0 <= j < values.len() && values[j] == v implies position_of(values, v) is Some by {
            if j > 0 {
                assert(values.drop_first()[j - 1] == v);
            }
        }
    }
}

/// The value after `current` in the cycle `values`.
pub fn next_cycle_value(current: &str, values: &Vec<&str>) -> (r: String)
    requires
        values@.len() > 0,
    ensures
        r@ == next_in_cycle(values@.map_values(|s: &str| s@), current@),
{
    let ghost vs = values@.map_values(|s: &str| s@);
    let mut index: usize = 0;
    let mut i: usize = 0;
    let mut found = false;
    while i < values.len()
        invariant
            i <= values.len(),
            vs == values@.map_values(|s: &str| s@),
            !found ==> forall|j: int| 0 <= j < i ==> #[trigger] vs[j] != current@,
            !found ==> index == 0,
            found ==> index < values.len() && position_of(vs, current@) == Some(index as int),
        decreases values.len() - i,
    {
        if !found && str_eq(values[i], current) {
            proof {
                lemma_position_first(vs, current@, i as int);
            }
            index = i;
            found = true;
        }
        i = i + 1;
    }
    proof {
        if !found {
            lemma_position_of(vs, current@);
        }
    }
    let next = (index + 1) % values.len();
    to_string(values[next])
}

/// The first match is the position.
proof fn lemma_position_first(values: Seq<Seq<char>>, v: Seq<char>, i: int)
    requires
        0 <= i < values.len(),
        values[i] == v,
        forall|j: int| 0 <= j < i ==> #[trigger] values[j] != v,
    ensures
        position_of(values, v) == Some(i),
    decreases i,
{
    if i > 0 {
        let rest = values.drop_first();
        assert forall|j: int| 0 <= j < i - 1 implies #[trigger] rest[j] != v by {
            assert(rest[j] == values[j + 1]);
        }
        assert(rest[i - 1] == v);
        lemma_position_first(rest, v, i - 1);
    }
}

} // verus!

verus! {

/// The flags after cycling a tile's collision kind: the kind after its
/// current one, for its role; crop soil and doors stay interactable and
/// keep their own flag.
pub open spec fn collision_cycled(current: TileRoleView) -> TileRoleView {
    let next = collision_state(current.role, next_in_cycle(collision_cycle(), current.collision));
    if current.role == "crop_soil"@ {
        TileRoleView { crop_soil: true, interactable: true, ..next }
    } else if current.role == "door"@ {
        TileRoleView { door: true, interactable: true, ..next }
    } else {
        next
    }
}

impl TileRoleState {
    /// The flags after cycling the tile's role: those of the role after
    /// its current one.
    pub fn role_cycled(&self) -> (r: Self)
        ensures
            r@ == role_state(next_in_cycle(role_cycle(), self.role@)),
    {
        let roles = editor_role_cycle();
        let next = next_cycle_value(self.role.as_str(), &roles);
        Self::from_role(next.as_str())
    }

    /// The flags after cycling the tile's collision kind (see
    /// [`collision_cycled`]).
    pub fn collision_cycled(&self) -> (r: Self)
        ensures
            r@ == collision_cycled(self@),
    {
        let kinds = editor_collision_cycle();
        let next = next_cycle_value(self.collision.as_str(), &kinds);
        let mut state = Self::from_collision(self.role.as_str(), next.as_str());
        assert(state@ == collision_state(self.role@, next_in_cycle(collision_cycle(), self.collision@)));
        if str_eq(self.role.as_str(), "crop_soil") {
            state.crop_soil = true;
            state.interactable = true;
        } else if str_eq(self.role.as_str(), "door") {
            state.door = true;
            state.interactable = true;
        }
        state
    }
}

} // verus!
