//! Content locations and save bookkeeping shared by the editor tools: where a
//! map's files live, how backup and temporary files are named, and which
//! open files have unsaved edits.
use vstd::prelude::*;
use crate::text::{decimal, push_char, push_decimal, push_str, starts_with_seq, str_chars};

verus! {

/// Joining a relative or absolute component onto a path, with `/` as the
/// separator: an absolute component replaces the path, an empty path yields
/// the component, and a separator is inserted unless the path already ends
/// with one.
pub open spec fn path_join(base: Seq<char>, part: Seq<char>) -> Seq<char> {
    if part.len() > 0 && part[0] == '/' {
        part
    } else if base.len() == 0 {
        part
    } else if base.last() == '/' {
        base + part
    } else {
        base + seq!['/'] + part
    }
}

/// `<root>/content/maps/<map_id>`
pub open spec fn spec_map_dir(root: Seq<char>, map_id: Seq<char>) -> Seq<char> {
    path_join(path_join(path_join(root, "content"@), "maps"@), map_id)
}

/// `<root>/content/maps/<map_id>/<file_name>`
pub open spec fn spec_map_file(root: Seq<char>, map_id: Seq<char>, file_name: Seq<char>) -> Seq<char> {
    path_join(spec_map_dir(root, map_id), file_name)
}

/// `<root>/content/scenes/<map_id>`
pub open spec fn spec_scene_dir(root: Seq<char>, map_id: Seq<char>) -> Seq<char> {
    path_join(path_join(path_join(root, "content"@), "scenes"@), map_id)
}

/// `<root>/content/editor_voxel_panels/panel_kits`
pub open spec fn spec_voxel_panel_kit_dir(root: Seq<char>) -> Seq<char> {
    path_join(path_join(path_join(root, "content"@), "editor_voxel_panels"@), "panel_kits"@)
}

/// Joins `part` onto `base` as [`path_join`] describes.
pub fn join_path(base: &str, part: &str) -> (r: String)
    ensures
        r@ == path_join(base@, part@),
{
    let b = str_chars(base);
    let p = str_chars(part);
    if p.len() > 0 && p[0] == '/' {
        return crate::text::to_string(part);
    }
    let mut r = crate::text::to_string(base);
    if b.len() > 0 && b[b.len() - 1] != '/' {
        push_char(&mut r, '/');
    }
    push_str(&mut r, part);
    proof {
        if b@.len() > 0 {
            assert(b@.last() == b@[b@.len() - 1]);
        }
        if b@.len() == 0 {
            assert(base@ + part@ =~= part@);
        }
    }
    r
}

/// The content locations of one project, rooted at its directory.
pub struct EditorContentPaths {
    pub project_root: String,
}

impl EditorContentPaths {
    /// Paths rooted at `project_root`.
    pub fn new(project_root: String) -> (r: Self)
        ensures
            r.project_root@ == project_root@,
    {
        Self { project_root }
    }

    /// The project directory.
    pub fn project_root(&self) -> (r: &str)
        ensures
            r@ == self.project_root@,
    {
        self.project_root.as_str()
    }

    /// The directory that holds a map's content files.
    pub fn map_dir(&self, map_id: &str) -> (r: String)
        ensures
            r@ == spec_map_dir(self.project_root@, map_id@),
    {
        let content = join_path(self.project_root.as_str(), "content");
        let maps = join_path(content.as_str(), "maps");
        join_path(maps.as_str(), map_id)
    }

    /// A file inside a map's directory.
    pub fn map_file(&self, map_id: &str, file_name: &str) -> (r: String)
        ensures
            r@ == spec_map_file(self.project_root@, map_id@, file_name@),
    {
        let dir = self.map_dir(map_id);
        join_path(dir.as_str(), file_name)
    }

    /// The map's `layers.ron`.
    pub fn map_layers_path(&self, map_id: &str) -> (r: String)
        ensures
            r@ == spec_map_file(self.project_root@, map_id@, "layers.ron"@),
    {
        self.map_file(map_id, "layers.ron")
    }

    /// The map's `props.ron`.
    pub fn props_path(&self, map_id: &str) -> (r: String)
        ensures
            r@ == spec_map_file(self.project_root@, map_id@, "props.ron"@),
    {
        self.map_file(map_id, "props.ron")
    }

    /// The map's `spawns.ron`.
    pub fn spawns_path(&self, map_id: &str) -> (r: String)
        ensures
            r@ == spec_map_file(self.project_root@, map_id@, "spawns.ron"@),
    {
        self.map_file(map_id, "spawns.ron")
    }

    /// The map's `triggers.ron`.
    pub fn triggers_path(&self, map_id: &str) -> (r: String)
        ensures
            r@ == spec_map_file(self.project_root@, map_id@, "triggers.ron"@),
    {
        self.map_file(map_id, "triggers.ron")
    }

    /// The map's `voxel_objects.ron`.
    pub fn voxel_objects_path(&self, map_id: &str) -> (r: String)
        ensures
            r@ == spec_map_file(self.project_root@, map_id@, "voxel_objects.ron"@),
    {
        self.map_file(map_id, "voxel_objects.ron")
    }

    /// The directory that holds a scene's content files.
    pub fn scene_dir(&self, map_id: &str) -> (r: String)
        ensures
            r@ == spec_scene_dir(self.project_root@, map_id@),
    {
        let content = join_path(self.project_root.as_str(), "content");
        let scenes = join_path(content.as_str(), "scenes");
        join_path(scenes.as_str(), map_id)
    }

    /// The scene's `voxel_objects.ron`.
    pub fn scene_voxel_objects_path(&self, map_id: &str) -> (r: String)
        ensures
            r@ == path_join(spec_scene_dir(self.project_root@, map_id@), "voxel_objects.ron"@),
    {
        let dir = self.scene_dir(map_id);
        join_path(dir.as_str(), "voxel_objects.ron")
    }

    /// The directory of voxel panel kits.
    pub fn voxel_panel_kit_dir(&self) -> (r: String)
        ensures
            r@ == spec_voxel_panel_kit_dir(self.project_root@),
    {
        let content = join_path(self.project_root.as_str(), "content");
        let panels = join_path(content.as_str(), "editor_voxel_panels");
        join_path(panels.as_str(), "panel_kits")
    }
}

/// A relative component joined onto a path keeps the path as its prefix.
pub proof fn lemma_join_keeps_prefix(base: Seq<char>, part: Seq<char>)
    requires
        !(part.len() > 0 && part[0] == '/'),
    ensures
        starts_with_seq(path_join(base, part), base),
{
    let j = path_join(base, part);
    if base.len() == 0 {
        assert(j.subrange(0, 0) =~= base);
    } else if base.last() == '/' {
        assert(j.subrange(0, base.len() as int) =~= base);
    } else {
        assert(j.subrange(0, base.len() as int) =~= base);
    }
}

/// Every file of a map, named by a relative file name, lies inside that
/// map's directory, which itself lies inside the project root's content
/// tree: the map paths are all derived from one place.
pub proof fn lemma_map_files_live_in_map_dir(root: Seq<char>, map_id: Seq<char>, file_name: Seq<char>)
    requires
        !(file_name.len() > 0 && file_name[0] == '/'),
        !(map_id.len() > 0 && map_id[0] == '/'),
    ensures
        starts_with_seq(spec_map_file(root, map_id, file_name), spec_map_dir(root, map_id)),
        starts_with_seq(spec_map_dir(root, map_id), path_join(path_join(root, "content"@), "maps"@)),
{
    lemma_join_keeps_prefix(spec_map_dir(root, map_id), file_name);
    lemma_join_keeps_prefix(path_join(path_join(root, "content"@), "maps"@), map_id);
}

/// A loaded content file together with where it came from.
pub struct LoadedAsset<T> {
    pub path: String,
    pub value: T,
}

/// What a backed-up save wrote.
pub struct SaveOutcome {
    pub path: String,
    pub backup_path: Option<String>,
    pub temp_path: Option<String>,
    pub used_temp_write: bool,
}

/// The save status of one editable file.
#[derive(Clone, Copy, PartialEq, Eq, Structural, Debug)]
pub enum EditorSaveState {
    Clean,
    Dirty,
    Saving,
    Failed,
}

impl EditorSaveState {
    /// The status word shown in the editor.
    pub open spec fn spec_label(self) -> Seq<char> {
        match self {
            EditorSaveState::Clean => "clean"@,
            EditorSaveState::Dirty => "dirty"@,
            EditorSaveState::Saving => "saving"@,
            EditorSaveState::Failed => "failed"@,
        }
    }

    /// The status word shown in the editor.
    pub fn label(self) -> (r: &'static str)
        ensures
            r@ == self.spec_label(),
    {
        match self {
            EditorSaveState::Clean => "clean",
            EditorSaveState::Dirty => "dirty",
            EditorSaveState::Saving => "saving",
            EditorSaveState::Failed => "failed",
        }
    }
}

/// A copy of an optional string.
pub fn copy_opt_string(s: &Option<String>) -> (r: Option<String>)
    ensures
        r is Some <==> s is Some,
        r is Some ==> r->0@ == s->0@,
{
    match s {
        Some(t) => Some(t.clone()),
        None => None,
    }
}

/// One editable file and its save status.
pub struct EditorFileState {
    pub label: String,
    pub path: String,
    pub state: EditorSaveState,
    pub last_backup_path: Option<String>,
    pub last_error: Option<String>,
}

impl EditorFileState {
    /// A file with no unsaved edits.
    pub fn clean(label: String, path: String) -> (r: Self)
        ensures
            r.label@ == label@,
            r.path@ == path@,
            r.state == EditorSaveState::Clean,
            r.last_backup_path is None,
            r.last_error is None,
    {
        Self { label, path, state: EditorSaveState::Clean, last_backup_path: None, last_error: None }
    }

    /// Records an unsaved edit and clears the last error.
    pub fn mark_dirty(&mut self)
        ensures
            final(self).state == EditorSaveState::Dirty,
            final(self).last_error is None,
            final(self).label == old(self).label,
            final(self).path == old(self).path,
            final(self).last_backup_path == old(self).last_backup_path,
    {
        self.state = EditorSaveState::Dirty;
        self.last_error = None;
    }

    /// Records that a save is under way and clears the last error.
    pub fn mark_saving(&mut self)
        ensures
            final(self).state == EditorSaveState::Saving,
            final(self).last_error is None,
            final(self).label == old(self).label,
            final(self).path == old(self).path,
            final(self).last_backup_path == old(self).last_backup_path,
    {
        self.state = EditorSaveState::Saving;
        self.last_error = None;
    }

    /// Records a finished save and the backup it made.
    pub fn mark_saved(&mut self, outcome: &SaveOutcome)
        ensures
            final(self).state == EditorSaveState::Clean,
            final(self).last_error is None,
            final(self).last_backup_path is Some <==> outcome.backup_path is Some,
            final(self).last_backup_path is Some ==> final(self).last_backup_path->0@
                == outcome.backup_path->0@,
            final(self).label == old(self).label,
            final(self).path == old(self).path,
    {
        self.state = EditorSaveState::Clean;
        self.last_backup_path = copy_opt_string(&outcome.backup_path);
        self.last_error = None;
    }

    /// Records a failed save and its error.
    pub fn mark_failed(&mut self, error: String)
        ensures
            final(self).state == EditorSaveState::Failed,
            final(self).last_error is Some,
            final(self).last_error->0@ == error@,
            final(self).label == old(self).label,
            final(self).path == old(self).path,
            final(self).last_backup_path == old(self).last_backup_path,
    {
        self.state = EditorSaveState::Failed;
        self.last_error = Some(error);
    }

    /// Whether the file has unsaved edits.
    pub fn is_dirty(&self) -> (r: bool)
        ensures
            r == (self.state == EditorSaveState::Dirty),
    {
        self.state == EditorSaveState::Dirty
    }
}

/// The number of dirty files in a list.
pub open spec fn count_dirty(files: Seq<EditorFileState>) -> nat
    decreases files.len(),
{
    if files.len() == 0 {
        0
    } else {
        count_dirty(files.drop_last()) + if files.last().state == EditorSaveState::Dirty { 1nat } else { 0nat }
    }
}

/// The parts of a path that a comparison sees: the `/`-separated pieces
/// from `i` on, given the piece `cur` read so far and the parts `acc`
/// kept before it; empty pieces and `.` pieces are left out.
pub open spec fn path_parts_from(s: Seq<char>, i: int, cur: Seq<char>, acc: Seq<Seq<char>>) -> Seq<Seq<char>>
    decreases s.len() - i,
{
    if i >= s.len() {
        kept_parts(acc, cur)
    } else if s[i] == '/' {
        path_parts_from(s, i + 1, seq![], kept_parts(acc, cur))
    } else {
        path_parts_from(s, i + 1, cur.push(s[i]), acc)
    }
}

/// `acc` with the piece `cur` added unless it is empty or `.`.
pub open spec fn kept_parts(acc: Seq<Seq<char>>, cur: Seq<char>) -> Seq<Seq<char>> {
    if cur.len() == 0 || cur == seq!['.'] { acc } else { acc.push(cur) }
}

/// A path as it is compared: whether it starts at the root, whether it
/// starts with a `.` piece (when not at the root), and its other pieces
/// other than empty and `.` ones. Repeated and trailing separators and
/// `.` pieces after the first thus make no difference.
pub open spec fn path_components(s: Seq<char>) -> (bool, bool, Seq<Seq<char>>) {
    let rooted = s.len() > 0 && s[0] == '/';
    let cur_dir = !rooted && s.len() > 0 && s[0] == '.' && (s.len() == 1 || s[1] == '/');
    (rooted, cur_dir, path_parts_from(s, 0, seq![], seq![]))
}

/// Two paths name the same file location: their components agree.
pub open spec fn same_path(a: Seq<char>, b: Seq<char>) -> bool {
    path_components(a) == path_components(b)
}

/// The pieces of `s` that a path comparison sees.
fn path_parts(s: &Vec<char>) -> (r: Vec<Vec<char>>)
    ensures
        r@.len() == path_parts_from(s@, 0, seq![], seq![]).len(),
        forall|k: int| 0 <= k < r@.len() ==> #[trigger] r@[k]@ == path_parts_from(s@, 0, seq![], seq![])[k],
{
    let mut acc: Vec<Vec<char>> = Vec::new();
    let mut cur: Vec<char> = Vec::new();
    let mut i: usize = 0;
    assert(acc@.map_values(|v: Vec<char>| v@) =~= Seq::<Seq<char>>::empty());
    assert(cur@ =~= Seq::<char>::empty());
    while i < s.len()
        invariant
            i <= s.len(),
            path_parts_from(s@, i as int, cur@, acc@.map_values(|v: Vec<char>| v@))
                == path_parts_from(s@, 0, seq![], seq![]),
        decreases s.len() - i,
    {
        if s[i] == '/' {
            let ghost before = acc@.map_values(|v: Vec<char>| v@);
            if cur.len() > 0 && !(cur.len() == 1 && cur[0] == '.') {
                acc.push(cur);
                assert(acc@.map_values(|v: Vec<char>| v@) =~= kept_parts(before, cur@));
            } else {
                assert(cur@.len() == 0 || cur@ =~= seq!['.']);
            }
            cur = Vec::new();
            assert(cur@ =~= seq![]);
        } else {
            cur.push(s[i]);
        }
        i = i + 1;
    }
    let ghost before = acc@.map_values(|v: Vec<char>| v@);
    if cur.len() > 0 && !(cur.len() == 1 && cur[0] == '.') {
        acc.push(cur);
        assert(acc@.map_values(|v: Vec<char>| v@) =~= kept_parts(before, cur@));
    } else {
        assert(cur@.len() == 0 || cur@ =~= seq!['.']);
    }
    assert forall|k: int| 0 <= k < acc@.len() implies #[trigger] acc@[k]@ == path_parts_from(s@, 0, seq![], seq![])[k] by {
        assert(acc@.map_values(|v: Vec<char>| v@)[k] == acc@[k]@);
    }
    acc
}

/// Whether two paths name the same location (see [`same_path`]).
pub fn paths_equal(a: &str, b: &str) -> (r: bool)
    ensures
        r == same_path(a@, b@),
{
    let ac = str_chars(a);
    let bc = str_chars(b);
    let a_root = ac.len() > 0 && ac[0] == '/';
    let b_root = bc.len() > 0 && bc[0] == '/';
    let a_cur = !a_root && ac.len() > 0 && ac[0] == '.' && (ac.len() == 1 || ac[1] == '/');
    let b_cur = !b_root && bc.len() > 0 && bc[0] == '.' && (bc.len() == 1 || bc[1] == '/');
    assert(ac@ == a@ && bc@ == b@);
    if a_root != b_root || a_cur != b_cur {
        assert(path_components(a@).0 != path_components(b@).0 || path_components(a@).1 != path_components(b@).1);
        return false;
    }
    let ap = path_parts(&ac);
    let bp = path_parts(&bc);
    let ghost sa = path_parts_from(a@, 0, seq![], seq![]);
    let ghost sb = path_parts_from(b@, 0, seq![], seq![]);
    if ap.len() != bp.len() {
        assert(path_components(a@).2.len() != path_components(b@).2.len());
        return false;
    }
    let mut k: usize = 0;
    while k < ap.len()
        invariant
            k <= ap.len() == bp.len() == sa.len() == sb.len(),
            sa == path_parts_from(a@, 0, seq![], seq![]),
            sb == path_parts_from(b@, 0, seq![], seq![]),
            forall|j: int| 0 <= j < ap@.len() ==> #[trigger] ap@[j]@ == sa[j],
            forall|j: int| 0 <= j < bp@.len() ==> #[trigger] bp@[j]@ == sb[j],
            forall|j: int| 0 <= j < k ==> sa[j] == sb[j],
        decreases ap.len() - k,
    {
        if !crate::text::chars_eq(&ap[k], &bp[k]) {
            assert(ap@[k as int]@ == sa[k as int]);
            assert(bp@[k as int]@ == sb[k as int]);
            assert(sa[k as int] != sb[k as int]);
            assert(path_components(a@).2 != path_components(b@).2);
            return false;
        }
        assert(ap@[k as int]@ == sa[k as int]);
        assert(bp@[k as int]@ == sb[k as int]);
        k = k + 1;
    }
    assert(sa =~= sb);
    true
}

/// The first index of a file with the given path, if any.
pub open spec fn index_of_path(files: Seq<EditorFileState>, path: Seq<char>) -> Option<int>
    decreases files.len(),
{
    if files.len() == 0 {
        None
    } else {
        match index_of_path(files.drop_last(), path) {
            Some(i) => Some(i),
            None => if same_path(files.last().path@, path) { Some(files.len() - 1) } else { None },
        }
    }
}

/// What [`index_of_path`] finds: the first entry with the path, or no entry
/// with it at all.
pub proof fn lemma_index_of_path(files: Seq<EditorFileState>, path: Seq<char>)
    ensures
        match index_of_path(files, path) {
            Some(i) => 0 <= i < files.len() && same_path(files[i].path@, path) && forall|j: int| 0 <= j < i ==> !same_path(files[j].path@, path),
            None => forall|j: int| 0 <= j < files.len() ==> !same_path(files[j].path@, path),
        },
    decreases files.len(),
{
    if files.len() > 0 {
        lemma_index_of_path(files.drop_last(), path);
        assert forall|j: int| 0 <= j < files.len() - 1 implies files.drop_last()[j] == files[j] by {}
    }
}

/// The first entry carrying a path is the one [`index_of_path`] finds.
pub proof fn lemma_index_of_path_is_first(files: Seq<EditorFileState>, path: Seq<char>, k: int)
    requires
        0 <= k < files.len(),
        same_path(files[k].path@, path),
        forall|j: int| 0 <= j < k ==> !same_path(files[j].path@, path),
    ensures
        index_of_path(files, path) == Some(k),
{
    lemma_index_of_path(files, path);
    match index_of_path(files, path) {
        Some(i) => {
            if i < k {
            } else if i > k {
            }
        },
        None => {
            assert(same_path(files[k].path@, path));
        },
    }
}

/// All editable files of a session and their save status.
pub struct EditorDirtyState {
    pub files: Vec<EditorFileState>,
}

impl Default for EditorDirtyState {
    fn default() -> (r: Self)
        ensures
            r.files@.len() == 0,
    {
        Self { files: Vec::new() }
    }
}

impl EditorDirtyState {
    /// The number of files with unsaved edits.
    pub fn dirty_count(&self) -> (r: usize)
        ensures
            r == count_dirty(self.files@),
    {
        let mut count: usize = 0;
        let mut i: usize = 0;
        while i < self.files.len()
            invariant
                i <= self.files.len(),
                count == count_dirty(self.files@.subrange(0, i as int)),
                count <= i,
            decreases self.files.len() - i,
        {
            let ghost prefix = self.files@.subrange(0, i + 1);
            assert(prefix.drop_last() =~= self.files@.subrange(0, i as int));
            if self.files[i].is_dirty() {
                count = count + 1;
            }
            i = i + 1;
        }
        assert(self.files@.subrange(0, i as int) =~= self.files@);
        count
    }

    /// Whether any file has unsaved edits.
    pub fn has_dirty_files(&self) -> (r: bool)
        ensures
            r == (count_dirty(self.files@) > 0),
    {
        self.dirty_count() > 0
    }

    /// Replaces the first entry whose path names the same location as
    /// `file`'s (see [`same_path`]), or appends `file` when none does.
    pub fn upsert(&mut self, file: EditorFileState)
        ensures
            match index_of_path(old(self).files@, file.path@) {
                Some(i) => final(self).files@ == old(self).files@.update(i, file),
                None => final(self).files@ == old(self).files@.push(file),
            },
    {
        let mut i: usize = 0;
        while i < self.files.len()
            invariant
                i <= self.files.len(),
                self.files@ == old(self).files@,
                forall|j: int| 0 <= j < i ==> !same_path(self.files@[j].path@, file.path@),
            decreases self.files.len() - i,
        {
            if paths_equal(self.files[i].path.as_str(), file.path.as_str()) {
                proof {
                    lemma_index_of_path_is_first(old(self).files@, file.path@, i as int);
                }
                self.files.set(i, file);
                return;
            }
            i = i + 1;
        }
        proof {
            lemma_index_of_path(old(self).files@, file.path@);
        }
        self.files.push(file);
    }
}

/// Upserting a file makes it the entry found under its path, leaves every
/// entry under another path as it was, and grows the list only when no
/// entry had that path.
pub proof fn lemma_upsert_then_lookup(before: Seq<EditorFileState>, after: Seq<EditorFileState>, file: EditorFileState)
    requires
        match index_of_path(before, file.path@) {
            Some(i) => after == before.update(i, file),
            None => after == before.push(file),
        },
    ensures
        index_of_path(after, file.path@) is Some,
        after[index_of_path(after, file.path@)->0] == file,
        forall|j: int| 0 <= j < before.len() && !same_path(before[j].path@, file.path@) ==> after[j] == before[j],
        after.len() == before.len() + if index_of_path(before, file.path@) is Some { 0int } else { 1int },
{
    lemma_index_of_path(before, file.path@);
    match index_of_path(before, file.path@) {
        Some(i) => {
            assert(0 <= i < before.len());
            assert(after.len() == before.len());
            assert forall|j: int| 0 <= j < i implies !same_path(after[j].path@, file.path@) by {
                assert(after[j] == before[j]);
            }
            assert forall|j: int| 0 <= j < before.len() && !same_path(before[j].path@, file.path@) implies after[j] == before[j] by {
                assert(j != i);
            }
            lemma_index_of_path_is_first(after, file.path@, i);
        },
        None => {
            let n = before.len() as int;
            assert forall|j: int| 0 <= j < n implies !same_path(after[j].path@, file.path@) by {
                assert(after[j] == before[j]);
            }
            lemma_index_of_path_is_first(after, file.path@, n);
        },
    }
}

/// Upserting into a list whose paths name distinct locations keeps them
/// distinct, and leaves `file` the one entry for its path.
pub proof fn lemma_upsert_keeps_paths_distinct(before: Seq<EditorFileState>, after: Seq<EditorFileState>, file: EditorFileState)
    requires
        match index_of_path(before, file.path@) {
            Some(i) => after == before.update(i, file),
            None => after == before.push(file),
        },
        forall|x: int, y: int| 0 <= x < y < before.len() ==> !same_path(#[trigger] before[x].path@, #[trigger] before[y].path@),
    ensures
        forall|x: int, y: int| 0 <= x < y < after.len() ==> !same_path(#[trigger] after[x].path@, #[trigger] after[y].path@),
        forall|j: int| 0 <= j < after.len() && same_path(#[trigger] after[j].path@, file.path@) ==> after[j] == file,
{
    lemma_index_of_path(before, file.path@);
    match index_of_path(before, file.path@) {
        Some(i) => {
            assert forall|x: int, y: int| 0 <= x < y < after.len() implies !same_path(#[trigger] after[x].path@, #[trigger] after[y].path@) by {
                if x == i {
                    assert(!same_path(before[x].path@, before[y].path@));
                } else if y == i {
                    assert(!same_path(before[x].path@, before[y].path@));
                } else {
                    assert(!same_path(before[x].path@, before[y].path@));
                }
            }
            assert forall|j: int| 0 <= j < after.len() && same_path(#[trigger] after[j].path@, file.path@) implies after[j] == file by {
                if j != i {
                    if j < i {
                        assert(!same_path(before[j].path@, before[i].path@));
                    } else {
                        assert(!same_path(before[i].path@, before[j].path@));
                    }
                }
            }
        },
        None => {
            let n = before.len() as int;
            assert forall|x: int, y: int| 0 <= x < y < after.len() implies !same_path(#[trigger] after[x].path@, #[trigger] after[y].path@) by {
                if y == n {
                    assert(!same_path(before[x].path@, file.path@));
                } else {
                    assert(!same_path(before[x].path@, before[y].path@));
                }
            }
            assert forall|j: int| 0 <= j < after.len() && same_path(#[trigger] after[j].path@, file.path@) implies after[j] == file by {
                if j < n {
                    assert(!same_path(before[j].path@, file.path@));
                }
            }
        },
    }
}

/// Backup tags keep ASCII letters, digits, `_` and `-`; any other
/// character becomes `_`.
pub open spec fn tag_char(c: char) -> char {
    if ('a' <= c <= 'z') || ('A' <= c <= 'Z') || ('0' <= c <= '9') || c == '_' || c == '-' {
        c
    } else {
        '_'
    }
}

/// A backup tag made safe for file names; an empty tag becomes `editor`.
pub open spec fn spec_sanitize_backup_tag(tag: Seq<char>) -> Seq<char> {
    if tag.len() == 0 {
        "editor"@
    } else {
        tag.map_values(|c: char| tag_char(c))
    }
}

/// Makes a backup tag safe for use in a file name.
pub fn sanitize_backup_tag(tag: &str) -> (r: String)
    ensures
        r@ == spec_sanitize_backup_tag(tag@),
{
    let cs = str_chars(tag);
    if cs.len() == 0 {
        return crate::text::to_string("editor");
    }
    let mut r = String::new();
    let mut i: usize = 0;
    while i < cs.len()
        invariant
            i <= cs.len(),
            cs@ == tag@,
            r@ == tag@.subrange(0, i as int).map_values(|c: char| tag_char(c)),
        decreases cs.len() - i,
    {
        let c = cs[i];
        let keep = ('a' <= c && c <= 'z') || ('A' <= c && c <= 'Z') || ('0' <= c && c <= '9') || c == '_' || c == '-';
        if keep {
            push_char(&mut r, c);
        } else {
            push_char(&mut r, '_');
        }
        i = i + 1;
        assert(r@ =~= tag@.subrange(0, i as int).map_values(|c: char| tag_char(c)));
    }
    assert(tag@.subrange(0, i as int) =~= tag@);
    r
}

/// `<stem>.<tag>.<timestamp>.bak.ron`
pub open spec fn spec_backup_file_name(stem: Seq<char>, tag: Seq<char>, timestamp: nat) -> Seq<char> {
    stem + "."@ + tag + "."@ + decimal(timestamp) + ".bak.ron"@
}

/// `.<stem>.<tag>.<timestamp>.tmp.ron`
pub open spec fn spec_temp_file_name(stem: Seq<char>, tag: Seq<char>, timestamp: nat) -> Seq<char> {
    "."@ + stem + "."@ + tag + "."@ + decimal(timestamp) + ".tmp.ron"@
}

/// The name of the backup copy made before a content file is replaced.
pub fn backup_file_name(stem: &str, tag: &str, timestamp_secs: u64) -> (r: String)
    ensures
        r@ == spec_backup_file_name(stem@, tag@, timestamp_secs as nat),
{
    let mut r = String::new();
    push_str(&mut r, stem);
    push_str(&mut r, ".");
    push_str(&mut r, tag);
    push_str(&mut r, ".");
    push_decimal(&mut r, timestamp_secs);
    push_str(&mut r, ".bak.ron");
    assert(r@ =~= spec_backup_file_name(stem@, tag@, timestamp_secs as nat));
    r
}

/// The name of the temporary file a save writes before it replaces the
/// content file.
pub fn temp_file_name(stem: &str, tag: &str, timestamp_millis: u64) -> (r: String)
    ensures
        r@ == spec_temp_file_name(stem@, tag@, timestamp_millis as nat),
{
    let mut r = String::new();
    push_str(&mut r, ".");
    push_str(&mut r, stem);
    push_str(&mut r, ".");
    push_str(&mut r, tag);
    push_str(&mut r, ".");
    push_decimal(&mut r, timestamp_millis);
    push_str(&mut r, ".tmp.ron");
    assert(r@ =~= spec_temp_file_name(stem@, tag@, timestamp_millis as nat));
    r
}

/// Starts the data bridge; it holds no state, so this always succeeds.
pub fn init() -> (r: Result<(), String>)
    ensures
        r is Ok,
{
    Ok(())
}

} // verus!
