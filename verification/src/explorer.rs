//! The project file explorer: which entries it hides, the icon of a file,
//! the folder tree it shows on the left and how a folder opens and closes,
//! where an imported asset goes, and the scripts it creates.

use vstd::prelude::*;

use crate::scene_export::{spec_pascal_case, to_pascal_case};
use crate::text::{
    append_str, decimal, last_piece, lemma_seq_lt_irreflexive, lemma_seq_lt_transitive, seq_lt, split_on, str_equals,
    str_less, to_lowercase, trim, trim_str, u64_to_string, unicode_lower,
};

verus! {

// ─── Hidden entries ────────────────────────────────────────────────────────

/// Dot files, `target` and `node_modules` are not listed.
pub open spec fn spec_is_hidden(name: Seq<char>) -> bool {
    (name.len() > 0 && name[0] == '.') || name == "target"@ || name == "node_modules"@
}

pub fn is_hidden(name: &str) -> (r: bool)
    ensures
        r == spec_is_hidden(name@),
{
    let starts_with_dot = name.unicode_len() > 0 && name.get_char(0) == '.';
    starts_with_dot || str_equals(name, "target") || str_equals(name, "node_modules")
}

// ─── Icons ─────────────────────────────────────────────────────────────────

pub open spec fn one_of(s: Seq<char>, options: Seq<Seq<char>>) -> bool {
    exists|i: int| 0 <= i < options.len() && options[i] == s
}

/// The large icon of a listed entry and its colour: folders get a folder,
/// files a symbol chosen by what follows the last `.` in their name.
pub open spec fn spec_file_icon(name: Seq<char>, is_dir: bool) -> (Seq<char>, (u8, u8, u8)) {
    let ext = split_on(name, '.').last();
    if is_dir {
        ("\u{1f4c2}"@, (230u8, 190u8, 70u8))
    } else if ext == "rs"@ {
        ("\u{1f980}"@, (220u8, 120u8, 60u8))
    } else if one_of(ext, seq!["toml"@, "yaml"@, "yml"@]) {
        ("\u{2699}"@, (160u8, 160u8, 170u8))
    } else if ext == "json"@ {
        ("{ }"@, (130u8, 200u8, 110u8))
    } else if one_of(ext, seq!["md"@, "txt"@]) {
        ("\u{1f4dd}"@, (120u8, 170u8, 230u8))
    } else if one_of(ext, seq!["png"@, "jpg"@, "jpeg"@, "bmp"@, "webp"@]) {
        ("\u{1f5bc}"@, (190u8, 130u8, 210u8))
    } else if ext == "svg"@ {
        ("\u{25c7}"@, (255u8, 180u8, 70u8))
    } else if one_of(ext, seq!["glb"@, "gltf"@, "obj"@, "fbx"@]) {
        ("\u{1f3a8}"@, (100u8, 210u8, 190u8))
    } else if one_of(ext, seq!["wav"@, "ogg"@, "mp3"@, "flac"@]) {
        ("\u{266a}"@, (80u8, 200u8, 220u8))
    } else if ext == "wasm"@ {
        ("\u{2b21}"@, (100u8, 80u8, 200u8))
    } else if ext == "lock"@ {
        ("\u{1f512}"@, (100u8, 100u8, 100u8))
    } else if one_of(ext, seq!["sh"@, "bat"@, "cmd"@]) {
        (">_"@, (100u8, 200u8, 100u8))
    } else if one_of(ext, seq!["html"@, "css"@, "js"@, "ts"@]) {
        ("</>"@, (230u8, 160u8, 60u8))
    } else {
        ("\u{1f4c4}"@, (170u8, 170u8, 170u8))
    }
}

/// Whether `s` is one of the given words.
fn is_one_of(s: &str, options: &[&str]) -> (r: bool)
    ensures
        r == one_of(s@, options@.map_values(|o: &str| o@)),
{
    let ghost opts = options@.map_values(|o: &str| o@);
    let mut i: usize = 0;
    while i < options.len()
        invariant
            i <= options@.len(),
            opts == options@.map_values(|o: &str| o@),
            forall|j: int| 0 <= j < i ==> opts[j] != s@,
        decreases options@.len() - i,
    {
        if str_equals(s, options[i]) {
            proof {
                assert(opts[i as int] == s@);
            }
            return true;
        }
        i = i + 1;
    }
    false
}

pub fn file_icon_large(name: &str, is_dir: bool) -> (r: (&'static str, (u8, u8, u8)))
    ensures
        r.0@ == spec_file_icon(name@, is_dir).0,
        r.1 == spec_file_icon(name@, is_dir).1,
{
    if is_dir {
        return ("\u{1f4c2}", (230, 190, 70));
    }
    let e = last_piece(name, '.');
    let ext = e.as_str();
    proof {
        assert(seq!["toml", "yaml", "yml"].map_values(|o: &str| o@) =~= seq!["toml"@, "yaml"@, "yml"@]);
        assert(seq!["md", "txt"].map_values(|o: &str| o@) =~= seq!["md"@, "txt"@]);
        assert(seq!["png", "jpg", "jpeg", "bmp", "webp"].map_values(|o: &str| o@) =~= seq!["png"@, "jpg"@, "jpeg"@, "bmp"@, "webp"@]);
        assert(seq!["glb", "gltf", "obj", "fbx"].map_values(|o: &str| o@) =~= seq!["glb"@, "gltf"@, "obj"@, "fbx"@]);
        assert(seq!["wav", "ogg", "mp3", "flac"].map_values(|o: &str| o@) =~= seq!["wav"@, "ogg"@, "mp3"@, "flac"@]);
        assert(seq!["sh", "bat", "cmd"].map_values(|o: &str| o@) =~= seq!["sh"@, "bat"@, "cmd"@]);
        assert(seq!["html", "css", "js", "ts"].map_values(|o: &str| o@) =~= seq!["html"@, "css"@, "js"@, "ts"@]);
    }
    if str_equals(ext, "rs") {
        ("\u{1f980}", (220, 120, 60))
    } else if is_one_of(ext, &["toml", "yaml", "yml"]) {
        ("\u{2699}", (160, 160, 170))
    } else if str_equals(ext, "json") {
        ("{ }", (130, 200, 110))
    } else if is_one_of(ext, &["md", "txt"]) {
        ("\u{1f4dd}", (120, 170, 230))
    } else if is_one_of(ext, &["png", "jpg", "jpeg", "bmp", "webp"]) {
        ("\u{1f5bc}", (190, 130, 210))
    } else if str_equals(ext, "svg") {
        ("\u{25c7}", (255, 180, 70))
    } else if is_one_of(ext, &["glb", "gltf", "obj", "fbx"]) {
        ("\u{1f3a8}", (100, 210, 190))
    } else if is_one_of(ext, &["wav", "ogg", "mp3", "flac"]) {
        ("\u{266a}", (80, 200, 220))
    } else if str_equals(ext, "wasm") {
        ("\u{2b21}", (100, 80, 200))
    } else if str_equals(ext, "lock") {
        ("\u{1f512}", (100, 100, 100))
    } else if is_one_of(ext, &["sh", "bat", "cmd"]) {
        (">_", (100, 200, 100))
    } else if is_one_of(ext, &["html", "css", "js", "ts"]) {
        ("</>", (230, 160, 60))
    } else {
        ("\u{1f4c4}", (170, 170, 170))
    }
}

// ─── Importing assets ──────────────────────────────────────────────────────

/// The folder under `assets/` a copied file goes to, by its extension in
/// lower case.
pub open spec fn spec_asset_subdir(ext: Seq<char>) -> Seq<char> {
    let e = unicode_lower(ext);
    if one_of(e, seq!["glb"@, "gltf"@, "fbx"@, "obj"@]) {
        "models"@
    } else if one_of(e, seq!["png"@, "jpg"@, "jpeg"@, "bmp"@, "webp"@, "hdr"@, "svg"@]) {
        "textures"@
    } else if one_of(e, seq!["wav"@, "ogg"@, "mp3"@, "flac"@]) {
        "audio"@
    } else {
        "misc"@
    }
}

pub fn asset_subdir(ext: &str) -> (r: &'static str)
    ensures
        r@ == spec_asset_subdir(ext@),
{
    let lower = to_lowercase(ext);
    let e = lower.as_str();
    proof {
        assert(seq!["glb", "gltf", "fbx", "obj"].map_values(|o: &str| o@) =~= seq!["glb"@, "gltf"@, "fbx"@, "obj"@]);
        assert(seq!["png", "jpg", "jpeg", "bmp", "webp", "hdr", "svg"].map_values(|o: &str| o@) =~= seq!["png"@, "jpg"@, "jpeg"@, "bmp"@, "webp"@, "hdr"@, "svg"@]);
        assert(seq!["wav", "ogg", "mp3", "flac"].map_values(|o: &str| o@) =~= seq!["wav"@, "ogg"@, "mp3"@, "flac"@]);
    }
    if is_one_of(e, &["glb", "gltf", "fbx", "obj"]) {
        "models"
    } else if is_one_of(e, &["png", "jpg", "jpeg", "bmp", "webp", "hdr", "svg"]) {
        "textures"
    } else if is_one_of(e, &["wav", "ogg", "mp3", "flac"]) {
        "audio"
    } else {
        "misc"
    }
}

// ─── Folder tree ───────────────────────────────────────────────────────────

/// A row of the folder tree: a folder, how deep it sits below the project
/// root, whether its subfolders are listed below it, and whether it has any.
#[derive(Clone, Debug)]
pub struct FolderEntry {
    pub path: String,
    pub name: String,
    pub depth: usize,
    pub expanded: bool,
    pub has_subdirs: bool,
}

pub struct FolderView {
    pub path: Seq<char>,
    pub name: Seq<char>,
    pub depth: usize,
    pub expanded: bool,
    pub has_subdirs: bool,
}

impl View for FolderEntry {
    type V = FolderView;

    open spec fn view(&self) -> FolderView {
        FolderView { path: self.path@, name: self.name@, depth: self.depth, expanded: self.expanded, has_subdirs: self.has_subdirs }
    }
}

pub open spec fn folders_view(v: Seq<FolderEntry>) -> Seq<FolderView> {
    v.map_values(|e: FolderEntry| e@)
}

pub open spec fn with_expanded(e: FolderView, expanded: bool) -> FolderView {
    FolderView { expanded, ..e }
}

fn copy_entry(e: &FolderEntry) -> (r: FolderEntry)
    ensures
        r@ == e@,
{
    FolderEntry { path: e.path.clone(), name: e.name.clone(), depth: e.depth, expanded: e.expanded, has_subdirs: e.has_subdirs }
}

/// The end of the rows from `from` on that sit deeper than `depth`.
pub open spec fn run_end(s: Seq<FolderView>, from: int, depth: usize) -> int
    decreases s.len() - from,
{
    if 0 <= from < s.len() && s[from].depth > depth {
        run_end(s, from + 1, depth)
    } else {
        from
    }
}

/// Closing the folder at `idx`: the rows below it that sit deeper go.
pub open spec fn spec_collapse(s: Seq<FolderView>, idx: int) -> Seq<FolderView> {
    s.subrange(0, idx) + seq![with_expanded(s[idx], false)] + s.subrange(run_end(s, idx + 1, s[idx].depth), s.len() as int)
}

proof fn lemma_run_end(s: Seq<FolderView>, from: int, depth: usize)
    requires
        0 <= from <= s.len(),
    ensures
        from <= run_end(s, from, depth) <= s.len(),
    decreases s.len() - from,
{
    if from < s.len() && s[from].depth > depth {
        lemma_run_end(s, from + 1, depth);
    }
}

pub fn collapse_folder(tree: &mut Vec<FolderEntry>, idx: usize)
    requires
        idx < old(tree)@.len(),
    ensures
        folders_view(final(tree)@) == spec_collapse(folders_view(old(tree)@), idx as int),
{
    let ghost s = folders_view(tree@);
    let depth = tree[idx].depth;
    let mut row = copy_entry(&tree[idx]);
    row.expanded = false;
    tree.set(idx, row);
    let ghost after_set = tree@;
    let len = tree.len();
    assert(idx < len);
    let remove_pos = idx + 1;
    proof {
        lemma_run_end(s, idx + 1, depth);
        assert(folders_view(tree@) =~= s.update(idx as int, with_expanded(s[idx as int], false)));
    }
    while tree.len() > remove_pos && tree[remove_pos].depth > depth
        invariant
            remove_pos == idx + 1,
            idx < tree@.len(),
            idx + 1 <= run_end(s, idx + 1, depth) <= s.len(),
            s.len() == old(tree)@.len(),
            depth == s[idx as int].depth,
            ({
                let k = tree@.len() - (remove_pos as int);
                let gone = (s.len() - remove_pos) - k;
                &&& 0 <= gone
                &&& run_end(s, idx + 1, depth) == run_end(s, remove_pos + gone, depth)
                &&& folders_view(tree@) == s.subrange(0, idx as int) + seq![with_expanded(s[idx as int], false)]
                    + s.subrange(remove_pos + gone, s.len() as int)
            }),
        decreases tree@.len(),
    {
        let ghost gone = (s.len() - remove_pos) - (tree@.len() - remove_pos);
        let ghost before = tree@;
        proof {
            assert(folders_view(tree@)[remove_pos as int] == tree@[remove_pos as int]@);
            assert(s[remove_pos + gone] == folders_view(tree@)[remove_pos as int]);
        }
        tree.remove(remove_pos);
        proof {
            assert(folders_view(tree@) =~= folders_view(before).remove(remove_pos as int));
            assert(folders_view(tree@) =~= s.subrange(0, idx as int) + seq![with_expanded(s[idx as int], false)]
                + s.subrange(remove_pos + gone + 1, s.len() as int));
        }
    }
    proof {
        let gone = (s.len() - remove_pos) - (tree@.len() - remove_pos);
        if tree@.len() > remove_pos {
            assert(folders_view(tree@)[remove_pos as int] == tree@[remove_pos as int]@);
            assert(s[remove_pos + gone] == folders_view(tree@)[remove_pos as int]);
        }
    }
}

/// Opening the folder at `idx`: its subfolders, as listed by a scan, go
/// right below it.
pub open spec fn spec_expand(s: Seq<FolderView>, idx: int, children: Seq<FolderView>) -> Seq<FolderView> {
    s.subrange(0, idx) + seq![with_expanded(s[idx], true)] + children + s.subrange(idx + 1, s.len() as int)
}

pub fn expand_folder(tree: &mut Vec<FolderEntry>, idx: usize, children: Vec<FolderEntry>)
    requires
        idx < old(tree)@.len(),
    ensures
        folders_view(final(tree)@) == spec_expand(folders_view(old(tree)@), idx as int, folders_view(children@)),
{
    let ghost s = folders_view(tree@);
    let mut row = copy_entry(&tree[idx]);
    row.expanded = true;
    tree.set(idx, row);
    proof {
        assert(folders_view(tree@) =~= s.update(idx as int, with_expanded(s[idx as int], true)));
    }
    let mut i: usize = 0;
    while i < children.len()
        invariant
            i <= children@.len(),
            idx < s.len(),
            tree@.len() == s.len() + i,
            folders_view(tree@) == s.subrange(0, idx as int) + seq![with_expanded(s[idx as int], true)]
                + folders_view(children@).subrange(0, i as int) + s.subrange(idx + 1, s.len() as int),
        decreases children@.len() - i,
    {
        let c = copy_entry(&children[i]);
        let ghost before = tree@;
        let len = tree.len();
        assert(idx + 1 + i <= len);
        tree.insert(idx + 1 + i, c);
        proof {
            assert(folders_view(tree@) =~= folders_view(before).insert(idx + 1 + i, c@));
            assert(folders_view(children@).subrange(0, i + 1) =~= folders_view(children@).subrange(0, i as int).push(children@[i as int]@));
            assert(folders_view(tree@) =~= s.subrange(0, idx as int) + seq![with_expanded(s[idx as int], true)]
                + folders_view(children@).subrange(0, i + 1) + s.subrange(idx + 1, s.len() as int));
        }
        i = i + 1;
    }
    proof {
        assert(folders_view(children@).subrange(0, i as int) =~= folders_view(children@));
    }
}

proof fn lemma_run_end_skips(s: Seq<FolderView>, from: int, n: int, depth: usize)
    requires
        0 <= from <= n <= s.len(),
        forall|k: int| from <= k < n ==> #[trigger] s[k].depth > depth,
        n < s.len() ==> s[n].depth <= depth,
    ensures
        run_end(s, from, depth) == n,
    decreases n - from,
{
    if from < n {
        lemma_run_end_skips(s, from + 1, n, depth);
    }
}

/// Closing a folder right after opening it gives back the tree as it was
/// before, with the folder marked closed, when the folder was shown closed
/// (the row below it is not deeper) and the scan listed only deeper
/// folders.
pub proof fn law_collapse_undoes_expand(s: Seq<FolderView>, idx: int, children: Seq<FolderView>)
    requires
        0 <= idx < s.len(),
        idx + 1 < s.len() ==> s[idx + 1].depth <= s[idx].depth,
        forall|k: int| 0 <= k < children.len() ==> #[trigger] children[k].depth > s[idx].depth,
    ensures
        spec_collapse(spec_expand(s, idx, children), idx) == s.update(idx, with_expanded(s[idx], false)),
{
    let t = spec_expand(s, idx, children);
    let d = s[idx].depth;
    assert(t[idx] == with_expanded(s[idx], true));
    assert forall|k: int| idx + 1 <= k < idx + 1 + children.len() implies #[trigger] t[k].depth > d by {
        assert(t[k] == children[k - idx - 1]);
    }
    if idx + 1 < s.len() {
        assert(t[idx + 1 + children.len()] == s[idx + 1]);
    }
    lemma_run_end_skips(t, idx + 1, idx + 1 + children.len(), d);
    assert(spec_collapse(t, idx) =~= s.update(idx, with_expanded(s[idx], false)));
}

/// The first tree shown: the project's top-level folders, those with
/// subfolders opened, each followed by the scan of its subfolders.
pub open spec fn spec_first_tree(top: Seq<FolderView>, scans: Seq<Seq<FolderView>>) -> Seq<FolderView>
    decreases top.len(),
{
    if top.len() == 0 {
        seq![]
    } else {
        let i = top.len() - 1;
        let e = top[i];
        spec_first_tree(top.drop_last(), scans)
            + seq![with_expanded(e, e.has_subdirs)]
            + if e.has_subdirs { scans[i] } else { seq![] }
    }
}

/// Build the first tree from the top-level scan and, for each top-level
/// folder, the scan of its subfolders (looked at only for folders that have
/// subfolders).
pub fn build_folder_tree(top: &Vec<FolderEntry>, scans: &Vec<Vec<FolderEntry>>) -> (tree: Vec<FolderEntry>)
    requires
        scans@.len() == top@.len(),
    ensures
        folders_view(tree@) == spec_first_tree(folders_view(top@), scans@.map_values(|v: Vec<FolderEntry>| folders_view(v@))),
{
    let ghost tv = folders_view(top@);
    let ghost sv = scans@.map_values(|v: Vec<FolderEntry>| folders_view(v@));
    let mut out: Vec<FolderEntry> = Vec::new();
    let mut i: usize = 0;
    proof {
        assert(tv.subrange(0, 0) =~= Seq::<FolderView>::empty());
        assert(folders_view(out@) =~= Seq::<FolderView>::empty());
    }
    while i < top.len()
        invariant
            i <= top@.len(),
            scans@.len() == top@.len(),
            tv == folders_view(top@),
            sv == scans@.map_values(|v: Vec<FolderEntry>| folders_view(v@)),
            folders_view(out@) == spec_first_tree(tv.subrange(0, i as int), sv),
        decreases top@.len() - i,
    {
        let ghost before = folders_view(out@);
        let mut row = copy_entry(&top[i]);
        row.expanded = row.has_subdirs;
        let has = row.has_subdirs;
        let ghost prev = out@;
        out.push(row);
        proof {
            assert(folders_view(out@) =~= folders_view(prev).push(out@[out@.len() - 1]@));
            assert(folders_view(out@) =~= before + seq![with_expanded(tv[i as int], tv[i as int].has_subdirs)]);
        }
        if has {
            let sub = &scans[i];
            let mut j: usize = 0;
            let ghost mid = folders_view(out@);
            while j < sub.len()
                invariant
                    j <= sub@.len(),
                    folders_view(out@) == mid + folders_view(sub@).subrange(0, j as int),
                decreases sub@.len() - j,
            {
                let c = copy_entry(&sub[j]);
                let ghost prev = out@;
                out.push(c);
                proof {
                    assert(folders_view(out@) =~= folders_view(prev).push(sub@[j as int]@));
                    assert(folders_view(sub@).subrange(0, j + 1) =~= folders_view(sub@).subrange(0, j as int).push(sub@[j as int]@));
                    assert(folders_view(out@) =~= mid + folders_view(sub@).subrange(0, j + 1));
                }
                j = j + 1;
            }
            proof {
                assert(folders_view(sub@).subrange(0, j as int) =~= sv[i as int]);
            }
        } else {
            proof {
                assert(folders_view(out@) =~= folders_view(out@) + Seq::<FolderView>::empty());
            }
        }
        proof {
            let t1 = tv.subrange(0, i + 1);
            assert(t1.drop_last() =~= tv.subrange(0, i as int));
            assert(t1[t1.len() - 1] == tv[i as int]);
        }
        i = i + 1;
    }
    proof {
        assert(tv.subrange(0, i as int) =~= tv);
    }
    out
}

// ─── New scripts ───────────────────────────────────────────────────────────

/// The stem of the n-th candidate name for a new script: `new_script`, then
/// `new_script_2`, `new_script_3`, ...
pub open spec fn spec_new_script_stem(counter: u32) -> Seq<char> {
    if counter <= 1 { "new_script"@ } else { "new_script_"@ + decimal(counter as nat) }
}

pub fn new_script_stem(counter: u32) -> (r: String)
    ensures
        r@ == spec_new_script_stem(counter),
{
    if counter <= 1 {
        String::from_str("new_script")
    } else {
        let mut s = String::from_str("new_script_");
        let d = u64_to_string(counter as u64);
        append_str(&mut s, d.as_str());
        s
    }
}

/// The file name of the n-th candidate for a new script.
pub open spec fn script_file_name(counter: u32) -> Seq<char> {
    spec_new_script_stem(counter) + ".rs"@
}

pub open spec fn names_view(v: Seq<String>) -> Seq<Seq<char>> {
    v.map_values(|s: String| s@)
}

fn has_name(names: &Vec<String>, name: &str) -> (r: bool)
    ensures
        r == names_view(names@).contains(name@),
{
    let mut i: usize = 0;
    while i < names.len()
        invariant
            i <= names@.len(),
            forall|j: int| 0 <= j < i ==> names@[j]@ != name@,
        decreases names@.len() - i,
    {
        if str_equals(names[i].as_str(), name) {
            proof {
                assert(names_view(names@)[i as int] == name@);
            }
            return true;
        }
        i = i + 1;
    }
    proof {
        if names_view(names@).contains(name@) {
            let k = choose|k: int| 0 <= k < names_view(names@).len() && names_view(names@)[k] == name@;
            assert(names@[k]@ == name@);
        }
    }
    false
}

/// The stem of the first candidate name for a new script (`new_script`,
/// `new_script_2`, ...) whose file is not among `existing`; none when every
/// candidate up to the counter's limit is taken.
pub fn free_script_stem(existing: &Vec<String>) -> (r: Option<String>)
    ensures
        r matches Some(st) ==> exists|c: u32| 1 <= c && st@ == spec_new_script_stem(c)
            && !names_view(existing@).contains(#[trigger] script_file_name(c))
            && forall|d: u32| 1 <= d < c ==> names_view(existing@).contains(#[trigger] script_file_name(d)),
        r is None ==> forall|d: u32| 1 <= d ==> names_view(existing@).contains(#[trigger] script_file_name(d)),
{
    let mut counter: u32 = 1;
    loop
        invariant
            1 <= counter,
            forall|d: u32| 1 <= d < counter ==> names_view(existing@).contains(#[trigger] script_file_name(d)),
        decreases u32::MAX - counter,
    {
        let stem = new_script_stem(counter);
        let mut file = String::new();
        append_str(&mut file, stem.as_str());
        append_str(&mut file, ".rs");
        proof {
            assert(file@ =~= script_file_name(counter));
        }
        if !has_name(existing, file.as_str()) {
            return Some(stem);
        }
        if counter == u32::MAX {
            return None;
        }
        counter = counter + 1;
    }
}

/// The source of a new script whose file stem is `stem`: a marker component
/// named after the stem in Pascal case and a `<stem>_update` system that
/// turns the marked entities.
pub open spec fn spec_script_template(stem: Seq<char>) -> Seq<char> {
    let pascal = spec_pascal_case(stem);
    "use bevy::prelude::*;\n\n"@
        + "/// Marker component \u{2014} attached automatically to the entity in the scene.\n"@
        + "#[derive(Component)]\n"@
        + "pub struct "@ + pascal + ";\n\n"@
        + "/// Runs every frame for each entity that has the `"@ + pascal + "` component.\n"@
        + "pub fn "@ + stem + "_update(\n"@
        + "time: Res<Time>,\n"@
        + "mut query: Query<&mut Transform, With<"@ + pascal + ">>,\n"@
        + ") {\n"@
        + "for mut transform in &mut query {\n"@
        + "// Example: rotate around Y axis\n"@
        + "transform.rotate_y(1.0 * time.delta_secs());\n"@
        + "}\n"@
        + "}\n"@
}

pub fn script_template(stem: &str) -> (r: String)
    ensures
        r@ == spec_script_template(stem@),
{
    let pascal = to_pascal_case(stem);
    let p = pascal.as_str();
    let mut s = String::from_str("use bevy::prelude::*;\n\n");
    append_str(&mut s, "/// Marker component \u{2014} attached automatically to the entity in the scene.\n");
    append_str(&mut s, "#[derive(Component)]\n");
    append_str(&mut s, "pub struct ");
    append_str(&mut s, p);
    append_str(&mut s, ";\n\n");
    append_str(&mut s, "/// Runs every frame for each entity that has the `");
    append_str(&mut s, p);
    append_str(&mut s, "` component.\n");
    append_str(&mut s, "pub fn ");
    append_str(&mut s, stem);
    append_str(&mut s, "_update(\n");
    append_str(&mut s, "time: Res<Time>,\n");
    append_str(&mut s, "mut query: Query<&mut Transform, With<");
    append_str(&mut s, p);
    append_str(&mut s, ">>,\n");
    append_str(&mut s, ") {\n");
    append_str(&mut s, "for mut transform in &mut query {\n");
    append_str(&mut s, "// Example: rotate around Y axis\n");
    append_str(&mut s, "transform.rotate_y(1.0 * time.delta_secs());\n");
    append_str(&mut s, "}\n");
    append_str(&mut s, "}\n");
    s
}

// ─── Listing a folder ──────────────────────────────────────────────────────

/// An entry of the folder shown on the right.
#[derive(Clone, Debug)]
pub struct ContentEntry {
    pub path: String,
    pub name: String,
    pub is_dir: bool,
    pub size_bytes: u64,
}

pub struct ContentView {
    pub path: Seq<char>,
    pub name: Seq<char>,
    pub is_dir: bool,
    pub size_bytes: u64,
}

impl View for ContentEntry {
    type V = ContentView;

    open spec fn view(&self) -> ContentView {
        ContentView { path: self.path@, name: self.name@, is_dir: self.is_dir, size_bytes: self.size_bytes }
    }
}

pub open spec fn contents_view(v: Seq<ContentEntry>) -> Seq<ContentView> {
    v.map_values(|e: ContentEntry| e@)
}

/// Folders come before files; within each, names in lexicographic order.
pub open spec fn entry_lt(a: ContentView, b: ContentView) -> bool {
    (a.is_dir && !b.is_dir) || (a.is_dir == b.is_dir && seq_lt(a.name, b.name))
}

pub open spec fn entries_sorted(s: Seq<ContentView>) -> bool {
    forall|i: int, j: int| 0 <= i < j < s.len() ==> !entry_lt(#[trigger] s[j], #[trigger] s[i])
}

/// The entries that are not hidden, in the order given.
pub open spec fn shown_entries(s: Seq<ContentView>) -> Seq<ContentView>
    decreases s.len(),
{
    if s.len() == 0 {
        seq![]
    } else if spec_is_hidden(s.last().name) {
        shown_entries(s.drop_last())
    } else {
        shown_entries(s.drop_last()).push(s.last())
    }
}

proof fn lemma_entry_lt_transitive(a: ContentView, b: ContentView, c: ContentView)
    requires
        entry_lt(a, b),
        entry_lt(b, c),
    ensures
        entry_lt(a, c),
{
    if a.is_dir == b.is_dir && b.is_dir == c.is_dir {
        lemma_seq_lt_transitive(a.name, b.name, c.name);
    }
}

proof fn lemma_insert_keeps_sorted(s: Seq<ContentView>, j: int, x: ContentView)
    requires
        0 <= j <= s.len(),
        entries_sorted(s),
        forall|k: int| 0 <= k < j ==> !entry_lt(x, #[trigger] s[k]),
        j < s.len() ==> entry_lt(x, s[j]),
    ensures
        entries_sorted(s.insert(j, x)),
{
    let t = s.insert(j, x);
    assert forall|a: int, b: int| 0 <= a < b < t.len() implies !entry_lt(#[trigger] t[b], #[trigger] t[a]) by {
        if b < j {
        } else if b == j {
            assert(t[a] == s[a]);
        } else if a < j {
            assert(t[b] == s[b - 1]);
            assert(t[a] == s[a]);
        } else if a == j {
            assert(t[b] == s[b - 1]);
            if entry_lt(s[b - 1], x) {
                lemma_entry_lt_transitive(s[b - 1], x, s[j]);
                if b - 1 == j {
                    lemma_seq_lt_irreflexive(s[j].name);
                }
            }
        } else {
            assert(t[b] == s[b - 1]);
            assert(t[a] == s[a - 1]);
        }
    }
}

fn copy_content(e: &ContentEntry) -> (r: ContentEntry)
    ensures
        r@ == e@,
{
    ContentEntry { path: e.path.clone(), name: e.name.clone(), is_dir: e.is_dir, size_bytes: e.size_bytes }
}

fn content_less(a: &ContentEntry, b: &ContentEntry) -> (r: bool)
    ensures
        r == entry_lt(a@, b@),
{
    (a.is_dir && !b.is_dir) || (a.is_dir == b.is_dir && str_less(a.name.as_str(), b.name.as_str()))
}

/// A folder's listing as shown: hidden entries left out, folders first,
/// then by name.
pub fn list_dir_contents(raw: &Vec<ContentEntry>) -> (r: Vec<ContentEntry>)
    ensures
        entries_sorted(contents_view(r@)),
        contents_view(r@).to_multiset() == shown_entries(contents_view(raw@)).to_multiset(),
{
    broadcast use vstd::seq_lib::group_to_multiset_ensures;
    broadcast use vstd::seq_lib::to_multiset_insert;

    let ghost rv = contents_view(raw@);
    let mut out: Vec<ContentEntry> = Vec::new();
    let mut i: usize = 0;
    proof {
        assert(rv.subrange(0, 0) =~= Seq::<ContentView>::empty());
        assert(contents_view(out@) =~= Seq::<ContentView>::empty());
    }
    while i < raw.len()
        invariant
            i <= raw@.len(),
            rv == contents_view(raw@),
            entries_sorted(contents_view(out@)),
            contents_view(out@).to_multiset() == shown_entries(rv.subrange(0, i as int)).to_multiset(),
        decreases raw@.len() - i,
    {
        let ghost pre = rv.subrange(0, i as int);
        proof {
            assert(rv.subrange(0, i + 1).drop_last() =~= pre);
            assert(rv.subrange(0, i + 1).last() == raw@[i as int]@);
        }
        if !is_hidden(raw[i].name.as_str()) {
            let x = copy_content(&raw[i]);
            let mut j: usize = 0;
            while j < out.len() && !content_less(&x, &out[j])
                invariant
                    j <= out@.len(),
                    forall|k: int| 0 <= k < j ==> !entry_lt(x@, #[trigger] contents_view(out@)[k]),
                decreases out@.len() - j,
            {
                j = j + 1;
            }
            let ghost before = contents_view(out@);
            proof {
                lemma_insert_keeps_sorted(before, j as int, x@);
            }
            let ghost xv = x@;
            out.insert(j, x);
            proof {
                assert(contents_view(out@) =~= before.insert(j as int, xv));
                vstd::seq_lib::to_multiset_insert(before, j as int, xv);
                assert(shown_entries(rv.subrange(0, i + 1)) == shown_entries(pre).push(xv));
                shown_entries(pre).to_multiset_ensures();
            }
        } else {
            proof {
                assert(shown_entries(rv.subrange(0, i + 1)) == shown_entries(pre));
            }
        }
        i = i + 1;
    }
    proof {
        assert(rv.subrange(0, i as int) =~= rv);
    }
    out
}

/// Folder rows in name order, hidden folders left out.
pub open spec fn rows_sorted(s: Seq<FolderView>) -> bool {
    forall|i: int, j: int| 0 <= i < j < s.len() ==> !seq_lt(#[trigger] s[j].name, #[trigger] s[i].name)
}

pub open spec fn shown_folders(s: Seq<FolderView>) -> Seq<FolderView>
    decreases s.len(),
{
    if s.len() == 0 {
        seq![]
    } else if spec_is_hidden(s.last().name) {
        shown_folders(s.drop_last())
    } else {
        shown_folders(s.drop_last()).push(s.last())
    }
}

proof fn lemma_insert_keeps_rows_sorted(s: Seq<FolderView>, j: int, x: FolderView)
    requires
        0 <= j <= s.len(),
        rows_sorted(s),
        forall|k: int| 0 <= k < j ==> !seq_lt(x.name, #[trigger] s[k].name),
        j < s.len() ==> seq_lt(x.name, s[j].name),
    ensures
        rows_sorted(s.insert(j, x)),
{
    let t = s.insert(j, x);
    assert forall|a: int, b: int| 0 <= a < b < t.len() implies !seq_lt(#[trigger] t[b].name, #[trigger] t[a].name) by {
        if b < j {
        } else if b == j {
            assert(t[a] == s[a]);
        } else if a < j {
            assert(t[b] == s[b - 1]);
            assert(t[a] == s[a]);
        } else if a == j {
            assert(t[b] == s[b - 1]);
            if seq_lt(s[b - 1].name, x.name) {
                lemma_seq_lt_transitive(s[b - 1].name, x.name, s[j].name);
                if b - 1 == j {
                    lemma_seq_lt_irreflexive(s[j].name);
                }
            }
        } else {
            assert(t[b] == s[b - 1]);
            assert(t[a] == s[a - 1]);
        }
    }
}

/// The rows for the subfolders a scan found, hidden ones left out, in name
/// order.
pub fn folder_rows(raw: &Vec<FolderEntry>) -> (r: Vec<FolderEntry>)
    ensures
        rows_sorted(folders_view(r@)),
        folders_view(r@).to_multiset() == shown_folders(folders_view(raw@)).to_multiset(),
{
    broadcast use vstd::seq_lib::group_to_multiset_ensures;
    broadcast use vstd::seq_lib::to_multiset_insert;

    let ghost rv = folders_view(raw@);
    let mut out: Vec<FolderEntry> = Vec::new();
    let mut i: usize = 0;
    proof {
        assert(rv.subrange(0, 0) =~= Seq::<FolderView>::empty());
        assert(folders_view(out@) =~= Seq::<FolderView>::empty());
    }
    while i < raw.len()
        invariant
            i <= raw@.len(),
            rv == folders_view(raw@),
            rows_sorted(folders_view(out@)),
            folders_view(out@).to_multiset() == shown_folders(rv.subrange(0, i as int)).to_multiset(),
        decreases raw@.len() - i,
    {
        let ghost pre = rv.subrange(0, i as int);
        proof {
            assert(rv.subrange(0, i + 1).drop_last() =~= pre);
            assert(rv.subrange(0, i + 1).last() == raw@[i as int]@);
        }
        if !is_hidden(raw[i].name.as_str()) {
            let x = copy_entry(&raw[i]);
            let mut j: usize = 0;
            while j < out.len() && !str_less(x.name.as_str(), out[j].name.as_str())
                invariant
                    j <= out@.len(),
                    forall|k: int| 0 <= k < j ==> !seq_lt(x@.name, #[trigger] folders_view(out@)[k].name),
                decreases out@.len() - j,
            {
                j = j + 1;
            }
            let ghost before = folders_view(out@);
            proof {
                lemma_insert_keeps_rows_sorted(before, j as int, x@);
            }
            let ghost xv = x@;
            out.insert(j, x);
            proof {
                assert(folders_view(out@) =~= before.insert(j as int, xv));
                vstd::seq_lib::to_multiset_insert(before, j as int, xv);
                assert(shown_folders(rv.subrange(0, i + 1)) == shown_folders(pre).push(xv));
                shown_folders(pre).to_multiset_ensures();
            }
        } else {
            proof {
                assert(shown_folders(rv.subrange(0, i + 1)) == shown_folders(pre));
            }
        }
        i = i + 1;
    }
    proof {
        assert(rv.subrange(0, i as int) =~= rv);
    }
    out
}

// ─── Explorer state ────────────────────────────────────────────────────────

/// What the explorer shows and what it is in the middle of: the project
/// root, the folder tree, the folder whose contents are listed, and the
/// new-folder and rename forms.
pub struct FileExplorerState {
    pub root: String,
    pub folder_tree: Vec<FolderEntry>,
    pub current_dir: String,
    pub dir_contents: Vec<ContentEntry>,
    pub needs_refresh: bool,
    pub needs_content_refresh: bool,
    pub rename_target: Option<String>,
    pub rename_buf: String,
    pub new_folder_parent: Option<String>,
    pub new_folder_name: String,
    pub selected_file: Option<String>,
}

/// The folder tree, the folder shown and its listing, the selection and the
/// refresh flags are the same in `a` and `b`.
pub open spec fn same_place(a: FileExplorerState, b: FileExplorerState) -> bool {
    &&& a.root == b.root
    &&& a.folder_tree == b.folder_tree
    &&& a.current_dir == b.current_dir
    &&& a.dir_contents == b.dir_contents
    &&& a.needs_refresh == b.needs_refresh
    &&& a.needs_content_refresh == b.needs_content_refresh
    &&& a.selected_file == b.selected_file
}

/// The rename form is the same in `a` and `b`.
pub open spec fn same_rename_form(a: FileExplorerState, b: FileExplorerState) -> bool {
    a.rename_target == b.rename_target && a.rename_buf == b.rename_buf
}

/// The new-folder form is the same in `a` and `b`.
pub open spec fn same_new_folder_form(a: FileExplorerState, b: FileExplorerState) -> bool {
    a.new_folder_parent == b.new_folder_parent && a.new_folder_name == b.new_folder_name
}

impl FileExplorerState {
    /// An explorer on `root`, still to be scanned.
    pub fn new(root: String) -> (r: Self)
        ensures
            r.root@ == root@,
            r.current_dir@ == root@,
            r.folder_tree@.len() == 0,
            r.dir_contents@.len() == 0,
            r.needs_refresh,
            r.needs_content_refresh,
            r.rename_target is None,
            r.rename_buf@.len() == 0,
            r.new_folder_parent is None,
            r.new_folder_name@.len() == 0,
            r.selected_file is None,
    {
        FileExplorerState {
            current_dir: root.clone(),
            root,
            folder_tree: Vec::new(),
            dir_contents: Vec::new(),
            needs_refresh: true,
            needs_content_refresh: true,
            rename_target: None,
            rename_buf: String::new(),
            new_folder_parent: None,
            new_folder_name: String::new(),
            selected_file: None,
        }
    }

    /// Point the explorer at an opened project: its root and the listed
    /// folder become `path`, and the tree is to be scanned again.
    pub fn open_project(&mut self, path: &str)
        ensures
            final(self).root@ == path@,
            final(self).current_dir@ == path@,
            final(self).needs_refresh,
            final(self).needs_content_refresh == old(self).needs_content_refresh,
            final(self).folder_tree == old(self).folder_tree,
            final(self).dir_contents == old(self).dir_contents,
            final(self).selected_file == old(self).selected_file,
            same_rename_form(*final(self), *old(self)),
            same_new_folder_form(*final(self), *old(self)),
    {
        self.root = String::from_str(path);
        self.current_dir = String::from_str(path);
        self.needs_refresh = true;
    }

    /// A fresh folder tree: the listing is to be scanned again too.
    pub fn set_folder_tree(&mut self, tree: Vec<FolderEntry>)
        ensures
            final(self).folder_tree@ == tree@,
            !final(self).needs_refresh,
            final(self).needs_content_refresh,
            final(self).root == old(self).root,
            final(self).current_dir == old(self).current_dir,
            final(self).dir_contents == old(self).dir_contents,
            final(self).selected_file == old(self).selected_file,
            same_rename_form(*final(self), *old(self)),
            same_new_folder_form(*final(self), *old(self)),
    {
        self.folder_tree = tree;
        self.needs_refresh = false;
        self.needs_content_refresh = true;
    }

    /// A fresh listing of the current folder.
    pub fn set_dir_contents(&mut self, contents: Vec<ContentEntry>)
        ensures
            final(self).dir_contents@ == contents@,
            !final(self).needs_content_refresh,
            final(self).needs_refresh == old(self).needs_refresh,
            final(self).root == old(self).root,
            final(self).current_dir == old(self).current_dir,
            final(self).folder_tree == old(self).folder_tree,
            final(self).selected_file == old(self).selected_file,
            same_rename_form(*final(self), *old(self)),
            same_new_folder_form(*final(self), *old(self)),
    {
        self.dir_contents = contents;
        self.needs_content_refresh = false;
    }

    /// Go to `path` when it is a folder; its listing is to be scanned.
    pub fn navigate(&mut self, path: String, is_dir: bool)
        ensures
            is_dir ==> final(self).current_dir@ == path@ && final(self).needs_content_refresh,
            !is_dir ==> *final(self) == *old(self),
            final(self).root == old(self).root,
            final(self).folder_tree == old(self).folder_tree,
            final(self).dir_contents == old(self).dir_contents,
            final(self).needs_refresh == old(self).needs_refresh,
            final(self).selected_file == old(self).selected_file,
            same_rename_form(*final(self), *old(self)),
            same_new_folder_form(*final(self), *old(self)),
    {
        if is_dir {
            self.current_dir = path;
            self.needs_content_refresh = true;
        }
    }

    /// Open the new-folder form for `parent`, with an empty name.
    pub fn start_new_folder(&mut self, parent: String)
        ensures
            final(self).new_folder_parent matches Some(p) && p@ == parent@,
            final(self).new_folder_name@.len() == 0,
            same_place(*final(self), *old(self)),
            same_rename_form(*final(self), *old(self)),
    {
        self.new_folder_parent = Some(parent);
        self.new_folder_name = String::new();
    }

    /// Close the new-folder form.
    pub fn cancel_new_folder(&mut self)
        ensures
            final(self).new_folder_parent is None,
            final(self).new_folder_name@.len() == 0,
            same_place(*final(self), *old(self)),
            same_rename_form(*final(self), *old(self)),
    {
        self.new_folder_parent = None;
        self.new_folder_name = String::new();
    }

    /// Enter in the new-folder form: the parent and the trimmed name of the
    /// folder to create, when the name is not blank; the form closes either
    /// way.
    pub fn take_new_folder(&mut self) -> (r: Option<(String, String)>)
        ensures
            match old(self).new_folder_parent {
                Some(p) => if trim(old(self).new_folder_name@).len() > 0 {
                    r matches Some((parent, name)) && parent@ == p@ && name@ == trim(old(self).new_folder_name@)
                } else {
                    r is None
                },
                None => r is None,
            },
            final(self).new_folder_parent is None,
            final(self).new_folder_name@.len() == 0,
            same_place(*final(self), *old(self)),
            same_rename_form(*final(self), *old(self)),
    {
        let name = trim_str(self.new_folder_name.as_str());
        let r = match &self.new_folder_parent {
            Some(p) => if name.unicode_len() > 0 { Some((p.clone(), name)) } else { None },
            None => None,
        };
        self.cancel_new_folder();
        r
    }

    /// Start renaming the entry at `path`, currently called `name`.
    pub fn start_rename(&mut self, path: String, name: String)
        ensures
            final(self).rename_target matches Some(t) && t@ == path@,
            final(self).rename_buf@ == name@,
            same_place(*final(self), *old(self)),
            same_new_folder_form(*final(self), *old(self)),
    {
        self.rename_target = Some(path);
        self.rename_buf = name;
    }

    /// The rename field lost focus: the trimmed new name when it is not
    /// blank and differs from `current`; the form closes either way.
    pub fn take_rename(&mut self, current: &str) -> (r: Option<String>)
        ensures
            ({
                let n = trim(old(self).rename_buf@);
                if n.len() > 0 && n != current@ { r matches Some(s) && s@ == n } else { r is None }
            }),
            final(self).rename_target is None,
            final(self).rename_buf@.len() == 0,
            same_place(*final(self), *old(self)),
            same_new_folder_form(*final(self), *old(self)),
    {
        let n = trim_str(self.rename_buf.as_str());
        let r = if n.unicode_len() > 0 && !str_equals(n.as_str(), current) { Some(n) } else { None };
        self.rename_target = None;
        self.rename_buf = String::new();
        r
    }
}

} // verus!
