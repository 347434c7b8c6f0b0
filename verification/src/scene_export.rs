//! Exporting a scene as a runnable project: package names, the manifest,
//! script naming conventions, the generated module list and `main`, the
//! layout of the code that spawns each node, and the order of the export's
//! steps with the problems they record.

use vstd::prelude::*;

use crate::scene_model::{
    forest_view, lemma_forest_view, SceneNode, SceneNodeKind, SceneNodeProps, SceneNodeView, ScenePrimitive,
};
use crate::ui_model::{is_zero, spec_is_zero};
use crate::ui_codegen::{indent, join_suffixed, lemma_contains_middle, spec_indent};
use crate::scene_model::SceneLightKind;

use crate::text::{
    append_str, char_to_uppercase, chars_of, contains_in, contains_seq, ends_with, is_alphanumeric,
    lemma_split_append, matches_at, push_char, split_on, starts_with, str_equals, string_from_range,
    take_ident, to_lowercase, trim, trim_bounds, unicode_alphanumeric, unicode_lower, unicode_upper,
    all_ascii, ascii_lower, ascii_upper, is_ascii_digit, is_ascii_letter, strings_view, ascii_trim, ascii_take_ident,
    lemma_ascii_sub, occurs_at, occurs_before,
};

verus! {

// ─── Pascal case ───────────────────────────────────────────────────────────

/// A word with its first character upper-cased and the rest lower-cased.
pub open spec fn pascal_word(w: Seq<char>) -> Seq<char> {
    if w.len() == 0 {
        seq![]
    } else {
        unicode_upper(w[0]) + unicode_lower(w.drop_first())
    }
}

/// The Pascal-case forms of the words, joined.
pub open spec fn join_pascal(ws: Seq<Seq<char>>) -> Seq<char>
    decreases ws.len(),
{
    if ws.len() == 0 {
        seq![]
    } else {
        join_pascal(ws.drop_last()) + pascal_word(ws.last())
    }
}

/// `snake_case` to `PascalCase`: the non-empty pieces between underscores,
/// each capitalised, joined.
pub open spec fn spec_pascal_case(s: Seq<char>) -> Seq<char> {
    join_pascal(split_on(s, '_'))
}

/// An ASCII word with its first letter upper-cased and the rest
/// lower-cased.
pub open spec fn ascii_pascal_word(w: Seq<char>) -> Seq<char> {
    if w.len() == 0 {
        seq![]
    } else {
        seq![ascii_upper(w[0])] + w.drop_first().map_values(|c: char| ascii_lower(c))
    }
}

pub open spec fn join_ascii_pascal(ws: Seq<Seq<char>>) -> Seq<char>
    decreases ws.len(),
{
    if ws.len() == 0 {
        seq![]
    } else {
        join_ascii_pascal(ws.drop_last()) + ascii_pascal_word(ws.last())
    }
}

/// `spec_pascal_case` on ASCII text, where case changes letter by letter.
pub open spec fn spec_ascii_pascal_case(s: Seq<char>) -> Seq<char> {
    join_ascii_pascal(split_on(s, '_'))
}

fn pascal_word_exec(v: &Vec<char>, from: usize, to: usize) -> (r: String)
    requires
        from <= to <= v@.len(),
    ensures
        r@ == pascal_word(v@.subrange(from as int, to as int)),
        all_ascii(v@.subrange(from as int, to as int)) ==> r@ == ascii_pascal_word(v@.subrange(from as int, to as int)),
{
    if from == to {
        return String::new();
    }
    let ghost w = v@.subrange(from as int, to as int);
    let mut out = char_to_uppercase(v[from]);
    let rest = string_from_range(v, from + 1, to);
    let low = to_lowercase(rest.as_str());
    append_str(&mut out, low.as_str());
    proof {
        assert(w.drop_first() =~= v@.subrange(from + 1, to as int));
        if all_ascii(w) {
            assert(w[0] == v@[from as int]);
            assert(((v@[from as int]) as u32) < 128);
            assert forall|k: int| 0 <= k < rest@.len() implies (#[trigger] rest@[k] as u32) < 128 by {
                assert(rest@[k] == w[k + 1]);
            }
        }
    }
    out
}

pub fn to_pascal_case(s: &str) -> (r: String)
    ensures
        r@ == spec_pascal_case(s@),
        all_ascii(s@) ==> r@ == spec_ascii_pascal_case(s@),
{
    let v = chars_of(s);
    let mut out = String::new();
    let mut start: usize = 0;
    let mut i: usize = 0;
    let ghost mut done: Seq<Seq<char>> = seq![];
    proof {
        assert(v@.subrange(0, 0) =~= Seq::<char>::empty());
        assert(split_on(Seq::<char>::empty(), '_') =~= done.push(v@.subrange(0, 0)));
    }
    while i < v.len()
        invariant
            start <= i <= v@.len(),
            split_on(v@.subrange(0, i as int), '_') == done.push(v@.subrange(start as int, i as int)),
            out@ == join_pascal(done),
            v@ == s@,
            all_ascii(v@) ==> out@ == join_ascii_pascal(done),
        decreases v@.len() - i,
    {
        let ghost pre = v@.subrange(0, i as int);
        proof {
            assert(v@.subrange(0, i + 1).drop_last() =~= pre);
            assert(v@.subrange(0, i + 1).last() == v@[i as int]);
        }
        if v[i] == '_' {
            proof {
                if all_ascii(v@) {
                    assert forall|k: int| 0 <= k < v@.subrange(start as int, i as int).len()
                        implies (#[trigger] v@.subrange(start as int, i as int)[k] as u32) < 128 by {
                        assert(v@.subrange(start as int, i as int)[k] == v@[start + k]);
                    }
                }
            }
            let w = pascal_word_exec(&v, start, i);
            append_str(&mut out, w.as_str());
            proof {
                let old_done = done;
                done = done.push(v@.subrange(start as int, i as int));
                assert(done.drop_last() =~= old_done);
                assert(v@.subrange(i + 1, i + 1) =~= seq![]);
            }
            start = i + 1;
        } else {
            proof {
                let ps = split_on(pre, '_');
                assert(v@.subrange(start as int, i + 1) =~= v@.subrange(start as int, i as int).push(v@[i as int]));
                assert(ps.update(ps.len() - 1, ps.last().push(v@[i as int])) =~= done.push(v@.subrange(start as int, i + 1)));
            }
        }
        i = i + 1;
    }
    proof {
        if all_ascii(v@) {
            assert forall|k: int| 0 <= k < v@.subrange(start as int, v@.len() as int).len()
                implies (#[trigger] v@.subrange(start as int, v@.len() as int)[k] as u32) < 128 by {
                assert(v@.subrange(start as int, v@.len() as int)[k] == v@[start + k]);
            }
        }
    }
    let w = pascal_word_exec(&v, start, v.len());
    append_str(&mut out, w.as_str());
    proof {
        assert(v@.subrange(0, v@.len() as int) =~= v@);
        let ws = done.push(v@.subrange(start as int, v@.len() as int));
        assert(ws.drop_last() =~= done);
    }
    out
}


// ─── Cargo manifest ────────────────────────────────────────────────────────

/// The last component of a path, as `Path::file_name` gives it.
pub uninterp spec fn path_file_name(p: Seq<char>) -> Option<Seq<char>>;

/// The last component of a path without its extension, as
/// `Path::file_stem` gives it.
pub uninterp spec fn path_file_stem(p: Seq<char>) -> Option<Seq<char>>;

/// `std`'s `Path::file_name` on a path given as text, converted back to
/// text.
#[verifier::external_body]
fn file_name_of(p: &str) -> (r: Option<String>)
    ensures
        r matches Some(n) ==> path_file_name(p@) == Some(n@),
        r is None ==> path_file_name(p@) is None,
{
    match std::path::Path::new(p).file_name() {
        Some(n) => Some(n.to_string_lossy().to_string()),
        None => None,
    }
}

/// `std`'s `Path::file_stem` on a path given as text, converted back to
/// text.
#[verifier::external_body]
pub(crate) fn file_stem_of(p: &str) -> (r: Option<String>)
    ensures
        r matches Some(n) ==> path_file_stem(p@) == Some(n@),
        r is None ==> path_file_stem(p@) is None,
{
    match std::path::Path::new(p).file_stem() {
        Some(n) => Some(n.to_string_lossy().to_string()),
        None => None,
    }
}

pub open spec fn package_char(c: char) -> char {
    if unicode_alphanumeric(c) || c == '-' || c == '_' { c } else { '-' }
}

/// A directory name made into a package name: every character that is not
/// alphanumeric, `-` or `_` becomes `-`.
pub open spec fn spec_package_name(name: Seq<char>) -> Seq<char> {
    name.map_values(|c: char| package_char(c))
}

/// On ASCII text: letters, digits, `-` and `_` stay, anything else becomes
/// `-`.
pub open spec fn ascii_package_char(c: char) -> char {
    if is_ascii_letter(c) || is_ascii_digit(c) || c == '-' || c == '_' { c } else { '-' }
}

pub fn package_name(name: &str) -> (r: String)
    ensures
        r@ == spec_package_name(name@),
        all_ascii(name@) ==> r@ == name@.map_values(|c: char| ascii_package_char(c)),
{
    let v = chars_of(name);
    let mut out = String::new();
    let mut i: usize = 0;
    while i < v.len()
        invariant
            i <= v@.len(),
            out@ == v@.subrange(0, i as int).map_values(|c: char| package_char(c)),
            v@ == name@,
            all_ascii(v@) ==> out@ == v@.subrange(0, i as int).map_values(|c: char| ascii_package_char(c)),
        decreases v@.len() - i,
    {
        let c = v[i];
        let d = if is_alphanumeric(c) || c == '-' || c == '_' { c } else { '-' };
        push_char(&mut out, d);
        proof {
            assert(v@.subrange(0, i + 1).map_values(|c: char| package_char(c)) =~= v@.subrange(0, i as int).map_values(|c: char| package_char(c)).push(d));
            if all_ascii(v@) {
                assert((v@[i as int] as u32) < 128);
                assert(d == ascii_package_char(c));
                assert(v@.subrange(0, i + 1).map_values(|c: char| ascii_package_char(c)) =~= v@.subrange(0, i as int).map_values(|c: char| ascii_package_char(c)).push(d));
            }
        }
        i = i + 1;
    }
    proof {
        assert(v@.subrange(0, v@.len() as int) =~= v@);
    }
    out
}

/// The manifest of an exported project whose directory has the given last
/// component (`exported_game` when there is none).
pub open spec fn spec_manifest(file_name: Option<Seq<char>>) -> Seq<char> {
    let name = match file_name {
        Some(n) => n,
        None => "exported_game"@,
    };
    "[package]\nname = \""@ + spec_package_name(name)
        + "\"\nversion = \"0.1.0\"\nedition = \"2021\"\n\n[dependencies]\nbevy = \"0.18.1\"\n"@
}

/// `spec_manifest` for an ASCII directory name, whose package name maps
/// letter by letter.
pub open spec fn spec_ascii_manifest(file_name: Option<Seq<char>>) -> Seq<char> {
    let name = match file_name {
        Some(n) => n,
        None => "exported_game"@,
    };
    "[package]\nname = \""@ + name.map_values(|c: char| ascii_package_char(c))
        + "\"\nversion = \"0.1.0\"\nedition = \"2021\"\n\n[dependencies]\nbevy = \"0.18.1\"\n"@
}

pub fn manifest_for(file_name: Option<&str>) -> (r: String)
    ensures
        r@ == spec_manifest(
            match file_name {
                Some(n) => Some(n@),
                None => None,
            },
        ),
        (file_name matches Some(n) ==> all_ascii(n@)) ==> r@ == spec_ascii_manifest(
            match file_name {
                Some(n) => Some(n@),
                None => None,
            },
        ),
{
    proof {
        reveal_strlit("exported_game");
        assert(all_ascii("exported_game"@));
    }
    let pkg = match file_name {
        Some(n) => package_name(n),
        None => package_name("exported_game"),
    };
    let mut out = String::from_str("[package]\nname = \"");
    append_str(&mut out, pkg.as_str());
    append_str(&mut out, "\"\nversion = \"0.1.0\"\nedition = \"2021\"\n\n[dependencies]\nbevy = \"0.18.1\"\n");
    out
}

/// The manifest of the project exported into `output_dir`, named after the
/// directory.
pub fn generate_cargo_toml(output_dir: &str) -> (r: String)
    ensures
        r@ == spec_manifest(path_file_name(output_dir@)),
        (path_file_name(output_dir@) matches Some(n) ==> all_ascii(n)) ==> r@ == spec_ascii_manifest(path_file_name(output_dir@)),
{
    match file_name_of(output_dir) {
        Some(n) => manifest_for(Some(n.as_str())),
        None => manifest_for(None),
    }
}

// ─── Scripts ───────────────────────────────────────────────────────────────

/// A script of the exported project: its module, the marker component it
/// declares, its per-frame system and where its source is.
#[derive(Clone, Debug)]
pub struct ScriptInfo {
    pub mod_name: String,
    pub component_name: String,
    pub update_fn: String,
    pub source_path: String,
}

/// What an export produced: the output directory and the problems met.
#[derive(Clone, Debug)]
pub struct ExportResult {
    pub output_dir: String,
    pub errors: Vec<String>,
}

/// `pub mod <name>;` for every script, one per line.
pub open spec fn spec_scripts_mod(scripts: Seq<ScriptInfo>) -> Seq<char>
    decreases scripts.len(),
{
    if scripts.len() == 0 {
        seq![]
    } else {
        spec_scripts_mod(scripts.drop_last()) + "pub mod "@ + scripts.last().mod_name@ + ";\n"@
    }
}

pub fn generate_scripts_mod(scripts: &[ScriptInfo]) -> (r: String)
    ensures
        r@ == spec_scripts_mod(scripts@),
{
    let mut out = String::new();
    let mut i: usize = 0;
    while i < scripts.len()
        invariant
            i <= scripts@.len(),
            out@ == spec_scripts_mod(scripts@.subrange(0, i as int)),
        decreases scripts@.len() - i,
    {
        append_str(&mut out, "pub mod ");
        append_str(&mut out, scripts[i].mod_name.as_str());
        append_str(&mut out, ";\n");
        proof {
            assert(scripts@.subrange(0, i + 1).drop_last() =~= scripts@.subrange(0, i as int));
        }
        i = i + 1;
    }
    proof {
        assert(scripts@.subrange(0, scripts@.len() as int) =~= scripts@);
    }
    out
}

/// The stem a script reference is looked up by: the file stem of its path,
/// or the empty name when the path has none.
pub open spec fn spec_script_stem(path: Seq<char>) -> Seq<char> {
    match path_file_stem(path) {
        Some(s) => s,
        None => seq![],
    }
}

/// The first script whose module is named `stem`.
pub fn find_script_by_stem<'a>(scripts: &'a [ScriptInfo], stem: &str) -> (r: Option<&'a ScriptInfo>)
    ensures
        r matches Some(info) ==> exists|i: int|
            0 <= i < scripts@.len() && scripts@[i] == *info && info.mod_name@ == stem@
                && forall|j: int| 0 <= j < i ==> (#[trigger] scripts@[j]).mod_name@ != stem@,
        r is None ==> forall|j: int| 0 <= j < scripts@.len() ==> (#[trigger] scripts@[j]).mod_name@ != stem@,
{
    let mut i: usize = 0;
    while i < scripts.len()
        invariant
            i <= scripts@.len(),
            forall|j: int| 0 <= j < i ==> (#[trigger] scripts@[j]).mod_name@ != stem@,
        decreases scripts@.len() - i,
    {
        if str_equals(scripts[i].mod_name.as_str(), stem) {
            return Some(&scripts[i]);
        }
        i = i + 1;
    }
    None
}

/// The first script whose module is named after the stem of `path`.
pub fn find_script<'a>(scripts: &'a [ScriptInfo], path: &str) -> (r: Option<&'a ScriptInfo>)
    ensures
        r matches Some(info) ==> exists|i: int|
            0 <= i < scripts@.len() && scripts@[i] == *info && info.mod_name@ == spec_script_stem(path@)
                && forall|j: int| 0 <= j < i ==> (#[trigger] scripts@[j]).mod_name@ != spec_script_stem(path@),
        r is None ==> forall|j: int| 0 <= j < scripts@.len() ==> (#[trigger] scripts@[j]).mod_name@ != spec_script_stem(path@),
{
    let stem = match file_stem_of(path) {
        Some(s) => s,
        None => String::new(),
    };
    find_script_by_stem(scripts, stem.as_str())
}

// ─── Expressions ───────────────────────────────────────────────────────────

/// The mesh constructor the exported code uses for a primitive.
pub open spec fn spec_mesh_primitive_expr(p: ScenePrimitive) -> Seq<char> {
    match p {
        ScenePrimitive::Cube => "Cuboid::default()"@,
        ScenePrimitive::Sphere => "Sphere::default()"@,
        ScenePrimitive::Cylinder => "Cylinder::default()"@,
        ScenePrimitive::Capsule => "Capsule3d::default()"@,
        ScenePrimitive::Plane => "Plane3d::default().mesh().size(1.0, 1.0)"@,
        ScenePrimitive::Torus => "Torus::default()"@,
        ScenePrimitive::Cone => "Cone::default()"@,
        ScenePrimitive::Tetrahedron => "Tetrahedron::default()"@,
    }
}

pub fn mesh_primitive_expr(p: &ScenePrimitive) -> (r: &'static str)
    ensures
        r@ == spec_mesh_primitive_expr(*p),
{
    match p {
        ScenePrimitive::Cube => "Cuboid::default()",
        ScenePrimitive::Sphere => "Sphere::default()",
        ScenePrimitive::Cylinder => "Cylinder::default()",
        ScenePrimitive::Capsule => "Capsule3d::default()",
        ScenePrimitive::Plane => "Plane3d::default().mesh().size(1.0, 1.0)",
        ScenePrimitive::Torus => "Torus::default()",
        ScenePrimitive::Cone => "Cone::default()",
        ScenePrimitive::Tetrahedron => "Tetrahedron::default()",
    }
}


// ─── Script naming convention ──────────────────────────────────────────────

pub open spec fn strip_cr(p: Seq<char>) -> Seq<char> {
    if p.len() > 0 && p.last() == '\r' {
        p.drop_last()
    } else {
        p
    }
}

/// The lines of a text, as `str::lines` yields them: split at `\n`, a `\r`
/// before a `\n` dropped, no empty line after a final `\n`.
pub open spec fn spec_lines(s: Seq<char>) -> Seq<Seq<char>> {
    let ps = split_on(s, '\n');
    let full = ps.drop_last().map_values(|p: Seq<char>| strip_cr(p));
    if ps.last().len() == 0 {
        full
    } else {
        full.push(ps.last())
    }
}

pub open spec fn opt_view(o: Option<String>) -> Option<Seq<char>> {
    match o {
        Some(s) => Some(s@),
        None => None,
    }
}

/// One line of a script seen by the convention scanner. The state is the
/// component found so far, whether the previous line was a derive of
/// `Component`, and the update function found so far.
pub open spec fn scan_line(st: (Option<Seq<char>>, bool, Option<Seq<char>>), line: Seq<char>) -> (Option<Seq<char>>, bool, Option<Seq<char>>) {
    let t = trim(line);
    if contains_seq(t, "derive"@) && contains_seq(t, "Component"@) {
        (st.0, true, st.2)
    } else {
        let sname = take_ident(t.subrange("pub struct "@.len() as int, t.len() as int));
        let comp = if st.1 && starts_with(t, "pub struct "@) && sname.len() > 0 {
            Some(sname)
        } else {
            st.0
        };
        let fname = take_ident(t.subrange("pub fn "@.len() as int, t.len() as int));
        let upd = if starts_with(t, "pub fn "@) && (ends_with(fname, "_update"@) || ends_with(fname, "_system"@)) {
            Some(fname)
        } else {
            st.2
        };
        (comp, false, upd)
    }
}

pub open spec fn scan_lines(ls: Seq<Seq<char>>) -> (Option<Seq<char>>, bool, Option<Seq<char>>)
    decreases ls.len(),
{
    if ls.len() == 0 {
        (None, false, None)
    } else {
        scan_line(scan_lines(ls.drop_last()), ls.last())
    }
}

/// The marker component and the per-frame function a script declares: the
/// last `pub struct` right after a derive of `Component`, and the last
/// `pub fn` whose name ends in `_update` or `_system`; when absent, the
/// Pascal-case stem and `<stem>_update`.
pub open spec fn spec_parse_script(content: Seq<char>, stem: Seq<char>) -> (Seq<char>, Seq<char>) {
    let st = scan_lines(spec_lines(content));
    (
        match st.0 {
            Some(c) => c,
            None => spec_pascal_case(stem),
        },
        match st.2 {
            Some(f) => f,
            None => stem + "_update"@,
        },
    )
}

/// The names a script is given when its source cannot be read.
pub open spec fn spec_script_fallback(stem: Seq<char>) -> (Seq<char>, Seq<char>) {
    (spec_pascal_case(stem), stem + "_update"@)
}

/// `scan_line` on an ASCII line: white space and identifiers as ASCII has
/// them.
pub open spec fn scan_line_ascii(st: (Option<Seq<char>>, bool, Option<Seq<char>>), line: Seq<char>) -> (Option<Seq<char>>, bool, Option<Seq<char>>) {
    let t = ascii_trim(line);
    if contains_seq(t, "derive"@) && contains_seq(t, "Component"@) {
        (st.0, true, st.2)
    } else {
        let sname = ascii_take_ident(t.subrange("pub struct "@.len() as int, t.len() as int));
        let comp = if st.1 && starts_with(t, "pub struct "@) && sname.len() > 0 {
            Some(sname)
        } else {
            st.0
        };
        let fname = ascii_take_ident(t.subrange("pub fn "@.len() as int, t.len() as int));
        let upd = if starts_with(t, "pub fn "@) && (ends_with(fname, "_update"@) || ends_with(fname, "_system"@)) {
            Some(fname)
        } else {
            st.2
        };
        (comp, false, upd)
    }
}

pub open spec fn scan_lines_ascii(ls: Seq<Seq<char>>) -> (Option<Seq<char>>, bool, Option<Seq<char>>)
    decreases ls.len(),
{
    if ls.len() == 0 {
        (None, false, None)
    } else {
        scan_line_ascii(scan_lines_ascii(ls.drop_last()), ls.last())
    }
}

/// `spec_parse_script` on an ASCII source and stem.
pub open spec fn spec_parse_script_ascii(content: Seq<char>, stem: Seq<char>) -> (Seq<char>, Seq<char>) {
    let st = scan_lines_ascii(spec_lines(content));
    (
        match st.0 {
            Some(c) => c,
            None => spec_ascii_pascal_case(stem),
        },
        match st.2 {
            Some(f) => f,
            None => stem + "_update"@,
        },
    )
}

/// The end of the identifier that starts at `a` in `v[a..b]`.
fn ident_end(v: &Vec<char>, a: usize, b: usize) -> (k: usize)
    requires
        a <= b <= v@.len(),
    ensures
        a <= k <= b,
        take_ident(v@.subrange(a as int, b as int)) == v@.subrange(a as int, k as int),
        all_ascii(v@.subrange(a as int, b as int)) ==> ascii_take_ident(v@.subrange(a as int, b as int)) == v@.subrange(a as int, k as int),
{
    let ghost asc = all_ascii(v@.subrange(a as int, b as int));
    let mut k = a;
    while k < b && (is_alphanumeric(v[k]) || v[k] == '_')
        invariant
            a <= k <= b <= v@.len(),
            asc == all_ascii(v@.subrange(a as int, b as int)),
            take_ident(v@.subrange(a as int, b as int)) == v@.subrange(a as int, k as int) + take_ident(v@.subrange(k as int, b as int)),
            asc ==> ascii_take_ident(v@.subrange(a as int, b as int)) == v@.subrange(a as int, k as int) + ascii_take_ident(v@.subrange(k as int, b as int)),
        decreases b - k,
    {
        proof {
            let w = v@.subrange(k as int, b as int);
            assert(w[0] == v@[k as int]);
            assert(w.drop_first() =~= v@.subrange(k + 1, b as int));
            assert(v@.subrange(a as int, k + 1) =~= v@.subrange(a as int, k as int) + seq![v@[k as int]]);
            if asc {
                assert(v@.subrange(a as int, b as int)[k - a] == v@[k as int]);
            }
        }
        k = k + 1;
    }
    proof {
        if k < b {
            assert(v@.subrange(k as int, b as int)[0] == v@[k as int]);
            if asc {
                assert(v@.subrange(a as int, b as int)[k - a] == v@[k as int]);
            }
        }
        assert(v@.subrange(a as int, k as int) + Seq::<char>::empty() =~= v@.subrange(a as int, k as int));
    }
    k
}

/// Whether `v[a..b]` starts with `p`.
fn starts_with_at(v: &Vec<char>, a: usize, b: usize, p: &Vec<char>) -> (r: bool)
    requires
        a <= b <= v@.len(),
    ensures
        r == starts_with(v@.subrange(a as int, b as int), p@),
{
    let r = matches_at(v, a, b, p);
    proof {
        if p@.len() <= b - a {
            assert(v@.subrange(0, b as int).subrange(a as int, a + p@.len()) =~= v@.subrange(a as int, b as int).subrange(0, p@.len() as int));
        }
    }
    r
}

/// Whether `v[a..b]` ends with `p`.
fn ends_with_at(v: &Vec<char>, a: usize, b: usize, p: &Vec<char>) -> (r: bool)
    requires
        a <= b <= v@.len(),
    ensures
        r == ends_with(v@.subrange(a as int, b as int), p@),
{
    if p.len() > b - a {
        return false;
    }
    let r = matches_at(v, b - p.len(), b, p);
    proof {
        assert(v@.subrange(0, b as int).subrange(b - p@.len(), b as int) =~= v@.subrange(a as int, b as int).subrange((b - a) - p@.len(), (b - a) as int));
    }
    r
}

/// The scanner's step on the line `v[ls..le]`.
fn scan_one(
    v: &Vec<char>,
    ls: usize,
    le: usize,
    st: (Option<String>, bool, Option<String>),
    pats: &ScanPatterns,
) -> (r: (Option<String>, bool, Option<String>))
    requires
        ls <= le <= v@.len(),
        pats.wf(),
    ensures
        (opt_view(r.0), r.1, opt_view(r.2)) == scan_line((opt_view(st.0), st.1, opt_view(st.2)), v@.subrange(ls as int, le as int)),
        all_ascii(v@.subrange(ls as int, le as int)) ==> (opt_view(r.0), r.1, opt_view(r.2))
            == scan_line_ascii((opt_view(st.0), st.1, opt_view(st.2)), v@.subrange(ls as int, le as int)),
{
    let ghost asc = all_ascii(v@.subrange(ls as int, le as int));
    let (ts, te) = trim_bounds(v, ls, le);
    let ghost t = v@.subrange(ts as int, te as int);
    proof {
        if asc {
            lemma_ascii_sub(v@, ls as int, le as int, ts as int, te as int);
            assert forall|a: int| ts <= a <= te implies all_ascii(#[trigger] v@.subrange(a, te as int)) by {
                lemma_ascii_sub(v@, ls as int, le as int, a, te as int);
            }
        }
    }
    if contains_in(v, ts, te, &pats.derive) && contains_in(v, ts, te, &pats.component) {
        return (st.0, true, st.2);
    }
    let (comp0, hit, upd0) = st;
    let mut comp = comp0;
    if hit && starts_with_at(v, ts, te, &pats.pub_struct) {
        let a = ts + pats.pub_struct.len();
        let k = ident_end(v, a, te);
        proof {
            assert(t.subrange(pats.pub_struct@.len() as int, t.len() as int) =~= v@.subrange(a as int, te as int));
        }
        if k > a {
            comp = Some(string_from_range(v, a, k));
        }
    } else {
        proof {
            if hit {
                assert(!starts_with(t, "pub struct "@));
            }
        }
    }
    let mut upd = upd0;
    if starts_with_at(v, ts, te, &pats.pub_fn) {
        let a = ts + pats.pub_fn.len();
        let k = ident_end(v, a, te);
        proof {
            assert(t.subrange(pats.pub_fn@.len() as int, t.len() as int) =~= v@.subrange(a as int, te as int));
        }
        if ends_with_at(v, a, k, &pats.update) || ends_with_at(v, a, k, &pats.system) {
            upd = Some(string_from_range(v, a, k));
        }
    }
    (comp, false, upd)
}

/// The texts the scanner looks for.
struct ScanPatterns {
    derive: Vec<char>,
    component: Vec<char>,
    pub_struct: Vec<char>,
    pub_fn: Vec<char>,
    update: Vec<char>,
    system: Vec<char>,
}

impl ScanPatterns {
    spec fn wf(&self) -> bool {
        &&& self.derive@ == "derive"@
        &&& self.component@ == "Component"@
        &&& self.pub_struct@ == "pub struct "@
        &&& self.pub_fn@ == "pub fn "@
        &&& self.update@ == "_update"@
        &&& self.system@ == "_system"@
    }

    fn new() -> (r: Self)
        ensures
            r.wf(),
    {
        ScanPatterns {
            derive: chars_of("derive"),
            component: chars_of("Component"),
            pub_struct: chars_of("pub struct "),
            pub_fn: chars_of("pub fn "),
            update: chars_of("_update"),
            system: chars_of("_system"),
        }
    }
}

/// The fallback names of a script with the given stem.
pub fn script_fallback(stem: &str) -> (r: (String, String))
    ensures
        r.0@ == spec_script_fallback(stem@).0,
        r.1@ == spec_script_fallback(stem@).1,
        all_ascii(stem@) ==> r.0@ == spec_ascii_pascal_case(stem@),
{
    let comp = to_pascal_case(stem);
    let mut f = String::from_str(stem);
    append_str(&mut f, "_update");
    (comp, f)
}

/// Find the marker component and the per-frame function a script's source
/// declares; see `spec_parse_script`.
pub fn parse_script_source(content: &str, fallback_stem: &str) -> (r: (String, String))
    ensures
        r.0@ == spec_parse_script(content@, fallback_stem@).0,
        r.1@ == spec_parse_script(content@, fallback_stem@).1,
        all_ascii(content@) && all_ascii(fallback_stem@) ==> r.0@ == spec_parse_script_ascii(content@, fallback_stem@).0
            && r.1@ == spec_parse_script_ascii(content@, fallback_stem@).1,
{
    let v = chars_of(content);
    let pats = ScanPatterns::new();
    let mut st: (Option<String>, bool, Option<String>) = (None, false, None);
    let mut start: usize = 0;
    let ghost mut done: Seq<Seq<char>> = seq![];
    proof {
        assert(v@.subrange(0, 0) =~= Seq::<char>::empty());
        assert(split_on(Seq::<char>::empty(), '\n') =~= done.push(seq![]));
        assert(done.map_values(|p: Seq<char>| strip_cr(p)) =~= Seq::<Seq<char>>::empty());
    }
    loop
        invariant_except_break
            split_on(v@.subrange(0, start as int), '\n') == done.push(seq![]),
            (opt_view(st.0), st.1, opt_view(st.2)) == scan_lines(done.map_values(|p: Seq<char>| strip_cr(p))),
            all_ascii(v@) ==> (opt_view(st.0), st.1, opt_view(st.2)) == scan_lines_ascii(done.map_values(|p: Seq<char>| strip_cr(p))),
        invariant
            start <= v@.len(),
            pats.wf(),
        ensures
            (opt_view(st.0), st.1, opt_view(st.2)) == scan_lines(spec_lines(v@)),
            all_ascii(v@) ==> (opt_view(st.0), st.1, opt_view(st.2)) == scan_lines_ascii(spec_lines(v@)),
        decreases v@.len() - start,
    {
        let mut j = start;
        while j < v.len() && v[j] != '\n'
            invariant
                start <= j <= v@.len(),
                forall|k: int| start <= k < j ==> v@[k] != '\n',
            decreases v@.len() - j,
        {
            j = j + 1;
        }
        let ghost seg = v@.subrange(start as int, j as int);
        proof {
            if all_ascii(v@) {
                assert(v@.subrange(0, v@.len() as int) =~= v@);
                lemma_ascii_sub(v@, 0, v@.len() as int, start as int, j as int);
                if j > start {
                    lemma_ascii_sub(v@, 0, v@.len() as int, start as int, (j - 1) as int);
                }
            }
            assert forall|k: int| 0 <= k < seg.len() implies seg[k] != '\n' by {
                assert(seg[k] == v@[start + k]);
            }
            lemma_split_append(v@.subrange(0, start as int), seg, '\n');
            assert(v@.subrange(0, start as int) + seg =~= v@.subrange(0, j as int));
            assert(Seq::<char>::empty() + seg =~= seg);
            assert(done.push(seq![]).update(done.len() as int, seg) =~= done.push(seg));
        }
        if j == v.len() {
            let ghost full = done.map_values(|p: Seq<char>| strip_cr(p));
            proof {
                assert(v@.subrange(0, v@.len() as int) =~= v@);
                assert(split_on(v@, '\n') == done.push(seg));
                assert(done.push(seg).drop_last() =~= done);
                assert(done.push(seg).last() == seg);
            }
            if j > start {
                st = scan_one(&v, start, j, st, &pats);
                proof {
                    assert(full.push(seg).drop_last() =~= full);
                    assert(full.push(seg).last() == seg);
                    assert(spec_lines(v@) == full.push(seg));
                }
            } else {
                proof {
                    assert(seg.len() == 0);
                    assert(spec_lines(v@) == full);
                }
            }
            break;
        }
        let le = if j > start && v[j - 1] == '\r' { j - 1 } else { j };
        proof {
            if j > start && v@[j - 1] == '\r' {
                assert(seg.last() == v@[j - 1]);
                assert(seg.drop_last() =~= v@.subrange(start as int, j - 1));
            }
            assert(v@.subrange(start as int, le as int) == strip_cr(seg));
        }
        st = scan_one(&v, start, le, st, &pats);
        proof {
            let old_full = done.map_values(|p: Seq<char>| strip_cr(p));
            let old_done = done;
            done = done.push(seg);
            assert(done.map_values(|p: Seq<char>| strip_cr(p)) =~= old_full.push(strip_cr(seg)));
            assert(done.map_values(|p: Seq<char>| strip_cr(p)).drop_last() =~= old_full);
            assert(v@.subrange(0, j + 1) =~= v@.subrange(0, j as int).push('\n'));
            assert(v@.subrange(0, j + 1).drop_last() =~= v@.subrange(0, j as int));
        }
        start = j + 1;
    }
    let (comp, _hit, upd) = st;
    let c = match comp {
        Some(c) => c,
        None => to_pascal_case(fallback_stem),
    };
    let f = match upd {
        Some(f) => f,
        None => {
            let mut f = String::from_str(fallback_stem);
            append_str(&mut f, "_update");
            f
        },
    };
    (c, f)
}


// ─── The generated main.rs ─────────────────────────────────────────────────

/// One `scripts::<module>::<system>,` line per script, in order.
pub open spec fn spec_system_lines(scripts: Seq<ScriptInfo>) -> Seq<char>
    decreases scripts.len(),
{
    if scripts.len() == 0 {
        seq![]
    } else {
        spec_system_lines(scripts.drop_last()) + "            scripts::"@ + scripts.last().mod_name@ + "::"@
            + scripts.last().update_fn@ + ",\n"@
    }
}

/// The start of the generated `main.rs`: the imports and `fn main`, which
/// registers the scene setup and, when there are scripts, their systems.
pub open spec fn spec_main_fn(scripts: Seq<ScriptInfo>) -> Seq<char> {
    "use bevy::prelude::*;\n\nmod scripts;\n\n"@
        + "fn main() {\n"@
        + "    App::new()\n"@
        + "        .add_plugins(DefaultPlugins)\n"@
        + "        .add_systems(Startup, setup_scene)\n"@
        + (if scripts.len() > 0 {
            "        .add_systems(Update, (\n"@ + spec_system_lines(scripts) + "        ))\n"@
        } else {
            seq![]
        })
        + "        .run();\n}\n\n"@
}

pub fn main_fn_source(scripts: &[ScriptInfo]) -> (r: String)
    ensures
        r@ == spec_main_fn(scripts@),
{
    let mut o = String::from_str("use bevy::prelude::*;\n\nmod scripts;\n\n");
    append_str(&mut o, "fn main() {\n");
    append_str(&mut o, "    App::new()\n");
    append_str(&mut o, "        .add_plugins(DefaultPlugins)\n");
    append_str(&mut o, "        .add_systems(Startup, setup_scene)\n");
    let ghost head = o@;
    if scripts.len() > 0 {
        append_str(&mut o, "        .add_systems(Update, (\n");
        let ghost open = o@;
        let mut i: usize = 0;
        while i < scripts.len()
            invariant
                i <= scripts@.len(),
                o@ == open + spec_system_lines(scripts@.subrange(0, i as int)),
            decreases scripts@.len() - i,
        {
            append_str(&mut o, "            scripts::");
            append_str(&mut o, scripts[i].mod_name.as_str());
            append_str(&mut o, "::");
            append_str(&mut o, scripts[i].update_fn.as_str());
            append_str(&mut o, ",\n");
            proof {
                assert(scripts@.subrange(0, i + 1).drop_last() =~= scripts@.subrange(0, i as int));
            }
            i = i + 1;
        }
        proof {
            assert(scripts@.subrange(0, i as int) =~= scripts@);
        }
        append_str(&mut o, "        ))\n");
    } else {
        proof {
            assert(head + Seq::<char>::empty() =~= head);
        }
    }
    append_str(&mut o, "        .run();\n}\n\n");
    o
}

/// The line that registers a script's update system.
pub open spec fn registered_system(s: ScriptInfo) -> Seq<char> {
    "            scripts::"@ + s.mod_name@ + "::"@ + s.update_fn@ + ",\n"@
}

proof fn lemma_system_lines_append(a: Seq<ScriptInfo>, b: Seq<ScriptInfo>)
    ensures
        spec_system_lines(a + b) == spec_system_lines(a) + spec_system_lines(b),
    decreases b.len(),
{
    if b.len() == 0 {
        assert(a + b =~= a);
        assert(spec_system_lines(a) + Seq::<char>::empty() =~= spec_system_lines(a));
    } else {
        lemma_system_lines_append(a, b.drop_last());
        assert((a + b).drop_last() =~= a + b.drop_last());
        assert((a + b).last() == b.last());
        assert(spec_system_lines(a + b) =~= spec_system_lines(a) + spec_system_lines(b));
    }
}

/// The system lines around the `k`-th script's line.
proof fn lemma_system_lines_split(s: Seq<ScriptInfo>, k: int)
    requires
        0 <= k < s.len(),
    ensures
        spec_system_lines(s) == spec_system_lines(s.take(k)) + registered_system(s[k]) + spec_system_lines(s.skip(k + 1)),
{
    let one = seq![s[k]];
    assert(s =~= s.take(k) + one + s.skip(k + 1));
    lemma_system_lines_append(s.take(k) + one, s.skip(k + 1));
    lemma_system_lines_append(s.take(k), one);
    assert(one.drop_last() =~= Seq::<ScriptInfo>::empty());
    assert(spec_system_lines(one.drop_last()) == Seq::<char>::empty());
    assert(one.last() == s[k]);
    assert(spec_system_lines(one) =~= registered_system(s[k]));
}

/// The opening of the `Update` tuple in the generated `main`.
pub open spec fn update_open() -> Seq<char> {
    "        .add_systems(Update, (\n"@
}

/// The close of the `Update` tuple in the generated `main`.
pub open spec fn update_close() -> Seq<char> {
    "        ))\n"@
}

spec fn main_head() -> Seq<char> {
    "use bevy::prelude::*;\n\nmod scripts;\n\n"@ + "fn main() {\n"@ + "    App::new()\n"@
        + "        .add_plugins(DefaultPlugins)\n"@ + "        .add_systems(Startup, setup_scene)\n"@
}

proof fn lemma_occurs_mid(a: Seq<char>, x: Seq<char>, b: Seq<char>)
    ensures
        occurs_at(a + x + b, x, a.len() as int),
{
    assert((a + x + b).subrange(a.len() as int, (a.len() + x.len()) as int) =~= x);
}

proof fn lemma_main_shape(scripts: Seq<ScriptInfo>)
    requires
        scripts.len() > 0,
    ensures
        spec_main_fn(scripts) == main_head() + update_open() + spec_system_lines(scripts) + update_close()
            + "        .run();\n}\n\n"@,
{
    assert(spec_main_fn(scripts) =~= main_head() + update_open() + spec_system_lines(scripts) + update_close()
        + "        .run();\n}\n\n"@);
}

proof fn lemma_registered_inside(scripts: Seq<ScriptInfo>, i: int)
    requires
        0 <= i < scripts.len(),
    ensures
        occurs_before(spec_main_fn(scripts), update_open(), registered_system(scripts[i])),
        occurs_before(spec_main_fn(scripts), registered_system(scripts[i]), update_close()),
{
    let m = spec_main_fn(scripts);
    let h = main_head();
    let u = update_open();
    let c = update_close();
    let t = "        .run();\n}\n\n"@;
    let l = spec_system_lines(scripts);
    lemma_main_shape(scripts);
    lemma_system_lines_split(scripts, i);
    let pre = spec_system_lines(scripts.take(i));
    let r = registered_system(scripts[i]);
    let post = spec_system_lines(scripts.skip(i + 1));
    assert(m =~= h + u + (l + c + t));
    lemma_occurs_mid(h, u, l + c + t);
    assert(m =~= (h + u + pre) + r + (post + c + t));
    lemma_occurs_mid(h + u + pre, r, post + c + t);
    assert(m =~= (h + u + l) + c + t);
    lemma_occurs_mid(h + u + l, c, t);
    assert(occurs_at(m, u, h.len() as int));
    assert(occurs_at(m, r, (h + u + pre).len() as int));
    assert(occurs_at(m, c, (h + u + l).len() as int));
}

proof fn lemma_registered_in_order(scripts: Seq<ScriptInfo>, i: int, j: int)
    requires
        0 <= i < j < scripts.len(),
    ensures
        occurs_before(spec_main_fn(scripts), registered_system(scripts[i]), registered_system(scripts[j])),
{
    let m = spec_main_fn(scripts);
    let h = main_head();
    let u = update_open();
    let c = update_close();
    let t = "        .run();\n}\n\n"@;
    lemma_main_shape(scripts);
    lemma_system_lines_split(scripts, i);
    let rest = scripts.skip(i + 1);
    lemma_system_lines_split(rest, j - i - 1);
    assert(rest[j - i - 1] == scripts[j]);
    let pre = spec_system_lines(scripts.take(i));
    let ri = registered_system(scripts[i]);
    let mid = spec_system_lines(rest.take(j - i - 1));
    let rj = registered_system(scripts[j]);
    let post = spec_system_lines(rest.skip(j - i));
    assert(m =~= (h + u + pre) + ri + (mid + rj + post + c + t));
    lemma_occurs_mid(h + u + pre, ri, mid + rj + post + c + t);
    assert(m =~= (h + u + pre + ri + mid) + rj + (post + c + t));
    lemma_occurs_mid(h + u + pre + ri + mid, rj, post + c + t);
    assert(occurs_at(m, ri, (h + u + pre).len() as int));
    assert(occurs_at(m, rj, (h + u + pre + ri + mid).len() as int));
}

/// The generated `main` registers every script's update system inside the
/// `Update` tuple, in the list's order.
pub proof fn law_main_registers_every_script(scripts: Seq<ScriptInfo>)
    ensures
        forall|i: int| 0 <= i < scripts.len() ==> {
            &&& occurs_before(spec_main_fn(scripts), update_open(), #[trigger] registered_system(scripts[i]))
            &&& occurs_before(spec_main_fn(scripts), registered_system(scripts[i]), update_close())
        },
        forall|i: int, j: int| 0 <= i < j < scripts.len() ==> occurs_before(
            spec_main_fn(scripts), #[trigger] registered_system(scripts[i]), #[trigger] registered_system(scripts[j])),
{
    assert forall|i: int| 0 <= i < scripts.len() implies {
        &&& occurs_before(spec_main_fn(scripts), update_open(), #[trigger] registered_system(scripts[i]))
        &&& occurs_before(spec_main_fn(scripts), registered_system(scripts[i]), update_close())
    } by {
        lemma_registered_inside(scripts, i);
    }
    assert forall|i: int, j: int| 0 <= i < j < scripts.len() implies occurs_before(
        spec_main_fn(scripts), #[trigger] registered_system(scripts[i]), #[trigger] registered_system(scripts[j])) by {
        lemma_registered_in_order(scripts, i, j);
    }
}

/// Whether a mesh node occurs anywhere in the forest.
pub open spec fn spec_tree_has_mesh(s: Seq<SceneNodeView>) -> bool
    decreases s,
{
    s.len() > 0 && (s[0].kind is Mesh || spec_tree_has_mesh(s[0].children) || spec_tree_has_mesh(s.drop_first()))
}

pub fn tree_has_mesh(nodes: &[SceneNode]) -> (r: bool)
    ensures
        r == spec_tree_has_mesh(forest_view(nodes@)),
    decreases nodes@,
{
    let ghost s = forest_view(nodes@);
    proof {
        lemma_forest_view(nodes@);
        assert(s.subrange(0, s.len() as int) =~= s);
    }
    let mut i: usize = 0;
    while i < nodes.len()
        invariant
            i <= nodes@.len(),
            s == forest_view(nodes@),
            s.len() == nodes@.len(),
            forall|j: int| 0 <= j < nodes@.len() ==> #[trigger] s[j] == nodes@[j]@,
            spec_tree_has_mesh(s) == spec_tree_has_mesh(s.subrange(i as int, s.len() as int)),
        decreases nodes@.len() - i,
    {
        let ghost rest = s.subrange(i as int, s.len() as int);
        proof {
            assert(rest[0] == s[i as int]);
            assert(rest.drop_first() =~= s.subrange(i + 1, s.len() as int));
        }
        let is_mesh = match nodes[i].kind {
            SceneNodeKind::Mesh(_) => true,
            _ => false,
        };
        if is_mesh || tree_has_mesh(nodes[i].children.as_slice()) {
            return true;
        }
        i = i + 1;
    }
    false
}

/// The signature of the generated `setup_scene` and the camera it spawns:
/// mesh and material stores are asked for only when the scene has meshes.
pub open spec fn spec_setup_header(has_meshes: bool) -> Seq<char> {
    "fn setup_scene(\n"@
        + "    mut commands: Commands,\n"@
        + (if has_meshes {
            "    mut meshes: ResMut<Assets<Mesh>>,\n"@ + "    mut materials: ResMut<Assets<StandardMaterial>>,\n"@
        } else {
            seq![]
        })
        + ") {\n"@
        + "    // Camera\n"@
        + "    commands.spawn((\n"@
        + "        Camera3d::default(),\n"@
        + "        Transform::from_xyz(8.0, 6.0, 8.0).looking_at(Vec3::new(0.0, 1.0, 0.0), Vec3::Y),\n"@
        + "    ));\n\n"@
}

pub fn setup_scene_header(has_meshes: bool) -> (r: String)
    ensures
        r@ == spec_setup_header(has_meshes),
{
    let mut o = String::from_str("fn setup_scene(\n");
    append_str(&mut o, "    mut commands: Commands,\n");
    let ghost head = o@;
    if has_meshes {
        append_str(&mut o, "    mut meshes: ResMut<Assets<Mesh>>,\n");
        append_str(&mut o, "    mut materials: ResMut<Assets<StandardMaterial>>,\n");
    } else {
        proof {
            assert(head + Seq::<char>::empty() =~= head);
        }
    }
    append_str(&mut o, ") {\n");
    append_str(&mut o, "    // Camera\n");
    append_str(&mut o, "    commands.spawn((\n");
    append_str(&mut o, "        Camera3d::default(),\n");
    append_str(&mut o, "        Transform::from_xyz(8.0, 6.0, 8.0).looking_at(Vec3::new(0.0, 1.0, 0.0), Vec3::Y),\n");
    append_str(&mut o, "    ));\n\n");
    o
}

/// The bit pattern of `0.5_f32`, the default roughness.
pub const F32_HALF_BITS: u32 = 0x3f00_0000;

/// The bit pattern of `1.0_f32`, the default scale.
pub const F32_UNIT_BITS: u32 = 0x3f80_0000;

/// Which parts of a node's transform the generated code writes out: a
/// rotation when an angle is not zero, a scale when a factor is not one.
pub fn transform_parts(props: &SceneNodeProps) -> (r: (bool, bool))
    ensures
        r.0 == !(spec_is_zero(props.rotation_euler[0]) && spec_is_zero(props.rotation_euler[1])
            && spec_is_zero(props.rotation_euler[2])),
        r.1 == (props.scale[0] != F32_UNIT_BITS || props.scale[1] != F32_UNIT_BITS || props.scale[2] != F32_UNIT_BITS),
{
    let r = props.rotation_euler;
    let s = props.scale;
    (
        !(is_zero(r[0]) && is_zero(r[1]) && is_zero(r[2])),
        s[0] != F32_UNIT_BITS || s[1] != F32_UNIT_BITS || s[2] != F32_UNIT_BITS,
    )
}

/// Which fields of a full `StandardMaterial` the generated code writes
/// out: metallic when not zero, roughness when not one half, emission when
/// a channel is not zero. With none of them a plain colour is written.
pub fn material_parts(props: &SceneNodeProps) -> (r: (bool, bool, bool))
    ensures
        r.0 == !spec_is_zero(props.metallic),
        r.1 == (props.roughness != F32_HALF_BITS),
        r.2 == !(spec_is_zero(props.emissive[0]) && spec_is_zero(props.emissive[1])
            && spec_is_zero(props.emissive[2]) && spec_is_zero(props.emissive[3])),
{
    let e = props.emissive;
    (
        !is_zero(props.metallic),
        props.roughness != F32_HALF_BITS,
        !(is_zero(e[0]) && is_zero(e[1]) && is_zero(e[2]) && is_zero(e[3])),
    )
}

// ─── Steps of an export ────────────────────────────────────────────────────

/// The steps of writing an exported project, in order.
#[derive(Clone, Copy, Debug, PartialEq, Eq, Structural)]
pub enum ExportStep {
    CreateDirs,
    WriteManifest,
    CopyScript(usize),
    WriteScriptsMod,
    WriteMain,
    Finished,
}

/// How a step went: done, failed with the given message, or (copying a
/// script) its source file was not there.
pub enum StepOutcome {
    Done,
    Failed(String),
    Missing,
}

pub open spec fn outcome_view(o: StepOutcome) -> Option<Option<Seq<char>>> {
    match o {
        StepOutcome::Done => None,
        StepOutcome::Failed(e) => Some(Some(e@)),
        StepOutcome::Missing => Some(None),
    }
}

/// How many steps are left at most; every step lowers it.
pub open spec fn steps_left(step: ExportStep, n_scripts: nat) -> nat {
    match step {
        ExportStep::CreateDirs => n_scripts + 4,
        ExportStep::WriteManifest => n_scripts + 3,
        ExportStep::CopyScript(i) => if i < n_scripts { (n_scripts - i) as nat + 2 } else { 3 },
        ExportStep::WriteScriptsMod => 2,
        ExportStep::WriteMain => 1,
        ExportStep::Finished => 0,
    }
}

/// The step after copying the scripts from `i` on.
pub open spec fn scripts_from(i: int, n_scripts: nat) -> ExportStep {
    if i < n_scripts { ExportStep::CopyScript(i as usize) } else { ExportStep::WriteScriptsMod }
}

/// The export's policy: what comes after `step` given how it went, and the
/// problem to record. A failure to create the directories ends the export;
/// any other failure is recorded and the export goes on. A failed step
/// with no message (a missing script source) reports the source's path.
pub open spec fn spec_export_step(step: ExportStep, outcome: Option<Option<Seq<char>>>, scripts: Seq<ScriptInfo>) -> (ExportStep, Option<Seq<char>>) {
    let n = scripts.len();
    match step {
        ExportStep::CreateDirs => match outcome {
            None => (ExportStep::WriteManifest, None),
            Some(e) => (ExportStep::Finished, Some("Failed to create output dirs: "@ + e.unwrap_or(seq![]))),
        },
        ExportStep::WriteManifest => (
            scripts_from(0, n),
            match outcome { None => None, Some(e) => Some("Failed to write Cargo.toml: "@ + e.unwrap_or(seq![])) },
        ),
        ExportStep::CopyScript(i) => (
            scripts_from(i + 1, n),
            if i < n {
                match outcome {
                    None => None,
                    Some(Some(e)) => Some("Failed to copy script "@ + scripts[i as int].mod_name@ + ": "@ + e),
                    Some(None) => Some("Script not found: "@ + scripts[i as int].source_path@),
                }
            } else {
                None
            },
        ),
        ExportStep::WriteScriptsMod => (
            ExportStep::WriteMain,
            match outcome { None => None, Some(e) => Some("Failed to write scripts/mod.rs: "@ + e.unwrap_or(seq![])) },
        ),
        ExportStep::WriteMain => (
            ExportStep::Finished,
            match outcome { None => None, Some(e) => Some("Failed to write main.rs: "@ + e.unwrap_or(seq![])) },
        ),
        ExportStep::Finished => (ExportStep::Finished, None),
    }
}

fn failure_message(prefix: &str, outcome: &StepOutcome) -> (r: String)
    ensures
        r@ == prefix@ + match outcome {
            StepOutcome::Failed(e) => e@,
            _ => Seq::<char>::empty(),
        },
{
    let mut m = String::from_str(prefix);
    match outcome {
        StepOutcome::Failed(e) => append_str(&mut m, e.as_str()),
        _ => {},
    }
    proof {
        assert(m@ =~= prefix@ + match outcome {
            StepOutcome::Failed(e) => e@,
            _ => Seq::<char>::empty(),
        });
    }
    m
}

/// Record how `step` went and give the next step.
pub fn export_step(step: ExportStep, outcome: StepOutcome, scripts: &[ScriptInfo], errors: &mut Vec<String>) -> (next: ExportStep)
    ensures
        next == spec_export_step(step, outcome_view(outcome), scripts@).0,
        match spec_export_step(step, outcome_view(outcome), scripts@).1 {
            Some(m) => final(errors)@.len() == old(errors)@.len() + 1
                && final(errors)@.subrange(0, old(errors)@.len() as int) == old(errors)@
                && final(errors)@.last()@ == m,
            None => final(errors)@ == old(errors)@,
        },
        step != ExportStep::Finished ==> steps_left(next, scripts@.len()) < steps_left(step, scripts@.len()),
{
    let n = scripts.len();
    let failed = match &outcome {
        StepOutcome::Done => false,
        _ => true,
    };
    let ghost before = errors@;
    let next = match step {
        ExportStep::CreateDirs => {
            if failed {
                errors.push(failure_message("Failed to create output dirs: ", &outcome));
                ExportStep::Finished
            } else {
                ExportStep::WriteManifest
            }
        },
        ExportStep::WriteManifest => {
            if failed {
                errors.push(failure_message("Failed to write Cargo.toml: ", &outcome));
            }
            if 0 < n { ExportStep::CopyScript(0) } else { ExportStep::WriteScriptsMod }
        },
        ExportStep::CopyScript(i) => {
            if i < n {
                match &outcome {
                    StepOutcome::Done => {},
                    StepOutcome::Failed(e) => {
                        let mut m = String::from_str("Failed to copy script ");
                        append_str(&mut m, scripts[i].mod_name.as_str());
                        append_str(&mut m, ": ");
                        append_str(&mut m, e.as_str());
                        errors.push(m);
                    },
                    StepOutcome::Missing => {
                        let mut m = String::from_str("Script not found: ");
                        append_str(&mut m, scripts[i].source_path.as_str());
                        errors.push(m);
                    },
                }
                if i + 1 < n { ExportStep::CopyScript(i + 1) } else { ExportStep::WriteScriptsMod }
            } else {
                ExportStep::WriteScriptsMod
            }
        },
        ExportStep::WriteScriptsMod => {
            if failed {
                errors.push(failure_message("Failed to write scripts/mod.rs: ", &outcome));
            }
            ExportStep::WriteMain
        },
        ExportStep::WriteMain => {
            if failed {
                errors.push(failure_message("Failed to write main.rs: ", &outcome));
            }
            ExportStep::Finished
        },
        ExportStep::Finished => ExportStep::Finished,
    };
    proof {
        if errors@.len() == before.len() + 1 {
            assert(errors@.subrange(0, before.len() as int) =~= before);
        }
    }
    next
}

// ─── Layout of the generated scene code ────────────────────────────────────

/// The texts of a node's code that print `f32` values, made by the caller:
/// the transform and material expressions, and the light's colour,
/// intensity, range and outer angle.
pub struct SceneCodeParts {
    pub transform: String,
    pub material: String,
    pub light_color: String,
    pub intensity: String,
    pub range: String,
    pub outer_angle: String,
}

pub open spec fn spec_bool_text(b: bool) -> Seq<char> {
    if b { "true"@ } else { "false"@ }
}

fn bool_text(b: bool) -> (r: &'static str)
    ensures
        r@ == spec_bool_text(b),
{
    if b { "true" } else { "false" }
}

/// The transform expression: the translation, then a rotation and a scale
/// where `transform_parts` asks for them, from the printed vectors.
pub open spec fn spec_transform_code(props: SceneNodeProps, translation: Seq<char>, rotation: Seq<char>, scale: Seq<char>) -> Seq<char> {
    "Transform::from_translation(Vec3::new("@ + translation + "))"@
        + (if !(spec_is_zero(props.rotation_euler[0]) && spec_is_zero(props.rotation_euler[1]) && spec_is_zero(props.rotation_euler[2])) {
            "\n            .with_rotation(Quat::from_euler(EulerRot::XYZ, "@ + rotation + "))"@
        } else {
            seq![]
        })
        + (if props.scale[0] != F32_UNIT_BITS || props.scale[1] != F32_UNIT_BITS || props.scale[2] != F32_UNIT_BITS {
            "\n            .with_scale(Vec3::new("@ + scale + "))"@
        } else {
            seq![]
        })
}

pub fn transform_code(props: &SceneNodeProps, translation: &str, rotation: &str, scale: &str) -> (r: String)
    ensures
        r@ == spec_transform_code(*props, translation@, rotation@, scale@),
{
    let (has_rot, has_scale) = transform_parts(props);
    let mut e = String::from_str("Transform::from_translation(Vec3::new(");
    append_str(&mut e, translation);
    append_str(&mut e, "))");
    let ghost a = e@;
    if has_rot {
        append_str(&mut e, "\n            .with_rotation(Quat::from_euler(EulerRot::XYZ, ");
        append_str(&mut e, rotation);
        append_str(&mut e, "))");
    }
    let ghost b = e@;
    if has_scale {
        append_str(&mut e, "\n            .with_scale(Vec3::new(");
        append_str(&mut e, scale);
        append_str(&mut e, "))");
    }
    proof {
        assert(e@ =~= spec_transform_code(*props, translation@, rotation@, scale@));
    }
    e
}

/// The material expression: a plain colour, or a `StandardMaterial` with
/// the fields `material_parts` asks for, from the printed values.
pub open spec fn spec_material_code(props: SceneNodeProps, base: Seq<char>, metallic: Seq<char>, roughness: Seq<char>, emissive: Seq<char>) -> Seq<char> {
    let m = !spec_is_zero(props.metallic);
    let r = props.roughness != F32_HALF_BITS;
    let e = !(spec_is_zero(props.emissive[0]) && spec_is_zero(props.emissive[1]) && spec_is_zero(props.emissive[2])
        && spec_is_zero(props.emissive[3]));
    if !(m || r || e) {
        "Color::srgba("@ + base + ")"@
    } else {
        "StandardMaterial {\n"@ + "                base_color: Color::srgba("@ + base + "),\n"@
            + (if m { "                metallic: "@ + metallic + ",\n"@ } else { seq![] })
            + (if r { "                perceptual_roughness: "@ + roughness + ",\n"@ } else { seq![] })
            + (if e { "                emissive: LinearRgba::new("@ + emissive + "),\n"@ } else { seq![] })
            + "                ..default()\n            }"@
    }
}

pub fn material_code(props: &SceneNodeProps, base: &str, metallic: &str, roughness: &str, emissive: &str) -> (r: String)
    ensures
        r@ == spec_material_code(*props, base@, metallic@, roughness@, emissive@),
{
    let (m, r, e) = material_parts(props);
    if !(m || r || e) {
        let mut c = String::from_str("Color::srgba(");
        append_str(&mut c, base);
        append_str(&mut c, ")");
        proof {
            assert(c@ =~= spec_material_code(*props, base@, metallic@, roughness@, emissive@));
        }
        return c;
    }
    let mut c = String::from_str("StandardMaterial {\n");
    append_str(&mut c, "                base_color: Color::srgba(");
    append_str(&mut c, base);
    append_str(&mut c, "),\n");
    let ghost c0 = c@;
    if m {
        append_str(&mut c, "                metallic: ");
        append_str(&mut c, metallic);
        append_str(&mut c, ",\n");
    }
    let ghost c1 = c@;
    if r {
        append_str(&mut c, "                perceptual_roughness: ");
        append_str(&mut c, roughness);
        append_str(&mut c, ",\n");
    }
    let ghost c2 = c@;
    if e {
        append_str(&mut c, "                emissive: LinearRgba::new(");
        append_str(&mut c, emissive);
        append_str(&mut c, "),\n");
    }
    append_str(&mut c, "                ..default()\n            }");
    proof {
        assert(c@ =~= spec_material_code(*props, base@, metallic@, roughness@, emissive@));
    }
    c
}

/// The first lines of a light: its type, its colour and its strength.
pub open spec fn spec_light_head(ind: Seq<char>, head: Seq<char>, p: SceneCodeParts, amount: Seq<char>) -> Seq<char> {
    ind + head + ind + "    color: "@ + p.light_color@ + ",\n"@ + ind + amount + p.intensity@ + ",\n"@
}

/// One `label value,` line.
pub open spec fn spec_line(ind: Seq<char>, label: Seq<char>, value: Seq<char>) -> Seq<char> {
    ind + label + value + ",\n"@
}

/// The end of a light's struct expression.
pub open spec fn spec_light_end(ind: Seq<char>) -> Seq<char> {
    ind + "    ..default()\n"@ + ind + "},\n"@
}

/// The lines of a mesh: the shape and the material.
pub open spec fn spec_mesh_code(prim: ScenePrimitive, ind: Seq<char>, p: SceneCodeParts) -> Seq<char> {
    ind + "Mesh3d(meshes.add("@ + spec_mesh_primitive_expr(prim) + ")),\n"@
        + ind + "MeshMaterial3d(materials.add("@ + p.material@ + ")),\n"@
}

/// The components a node's kind adds, one per line at indentation `ind`.
pub open spec fn spec_kind_code(kind: SceneNodeKind, props: SceneNodeProps, ind: Seq<char>, p: SceneCodeParts) -> Seq<char> {
    let shadows = spec_line(ind, "    shadows_enabled: "@, spec_bool_text(props.light_shadows));
    match kind {
        SceneNodeKind::Mesh(prim) => spec_mesh_code(prim, ind, p),
        SceneNodeKind::Light(SceneLightKind::Point) => spec_light_head(ind, "PointLight {\n"@, p, "    intensity: "@)
            + spec_line(ind, "    range: "@, p.range@) + shadows + spec_light_end(ind),
        SceneNodeKind::Light(SceneLightKind::Directional) => spec_light_head(ind, "DirectionalLight {\n"@, p, "    illuminance: "@)
            + shadows + spec_light_end(ind),
        SceneNodeKind::Light(SceneLightKind::Spot) => spec_light_head(ind, "SpotLight {\n"@, p, "    intensity: "@)
            + spec_line(ind, "    range: "@, p.range@) + shadows
            + spec_line(ind, "    outer_angle: "@, p.outer_angle@) + spec_light_end(ind),
        SceneNodeKind::Empty => ind + "Visibility::default(),\n"@,
    }
}

fn light_head(ind: &str, head: &str, p: &SceneCodeParts, amount: &str) -> (r: String)
    ensures
        r@ == spec_light_head(ind@, head@, *p, amount@),
{
    let mut o = String::from_str(ind);
    append_str(&mut o, head);
    append_str(&mut o, ind);
    append_str(&mut o, "    color: ");
    append_str(&mut o, p.light_color.as_str());
    append_str(&mut o, ",\n");
    append_str(&mut o, ind);
    append_str(&mut o, amount);
    append_str(&mut o, p.intensity.as_str());
    append_str(&mut o, ",\n");
    o
}

fn line(ind: &str, label: &str, value: &str) -> (r: String)
    ensures
        r@ == spec_line(ind@, label@, value@),
{
    let mut o = String::from_str(ind);
    append_str(&mut o, label);
    append_str(&mut o, value);
    append_str(&mut o, ",\n");
    o
}

fn light_end(ind: &str) -> (r: String)
    ensures
        r@ == spec_light_end(ind@),
{
    let mut o = String::from_str(ind);
    append_str(&mut o, "    ..default()\n");
    append_str(&mut o, ind);
    append_str(&mut o, "},\n");
    o
}

fn mesh_code(prim: &ScenePrimitive, ind: &str, p: &SceneCodeParts) -> (r: String)
    ensures
        r@ == spec_mesh_code(*prim, ind@, *p),
{
    let mut o = String::from_str(ind);
    append_str(&mut o, "Mesh3d(meshes.add(");
    append_str(&mut o, mesh_primitive_expr(prim));
    append_str(&mut o, ")),\n");
    append_str(&mut o, ind);
    append_str(&mut o, "MeshMaterial3d(materials.add(");
    append_str(&mut o, p.material.as_str());
    append_str(&mut o, ")),\n");
    o
}

fn kind_code(kind: &SceneNodeKind, props: &SceneNodeProps, ind: &str, p: &SceneCodeParts) -> (r: String)
    ensures
        r@ == spec_kind_code(*kind, *props, ind@, *p),
{
    let shadows = line(ind, "    shadows_enabled: ", bool_text(props.light_shadows));
    match kind {
        SceneNodeKind::Mesh(prim) => mesh_code(prim, ind, p),
        SceneNodeKind::Light(SceneLightKind::Point) => {
            let mut o = light_head(ind, "PointLight {\n", p, "    intensity: ");
            append_str(&mut o, line(ind, "    range: ", p.range.as_str()).as_str());
            append_str(&mut o, shadows.as_str());
            append_str(&mut o, light_end(ind).as_str());
            o
        },
        SceneNodeKind::Light(SceneLightKind::Directional) => {
            let mut o = light_head(ind, "DirectionalLight {\n", p, "    illuminance: ");
            append_str(&mut o, shadows.as_str());
            append_str(&mut o, light_end(ind).as_str());
            o
        },
        SceneNodeKind::Light(SceneLightKind::Spot) => {
            let mut o = light_head(ind, "SpotLight {\n", p, "    intensity: ");
            append_str(&mut o, line(ind, "    range: ", p.range.as_str()).as_str());
            append_str(&mut o, shadows.as_str());
            append_str(&mut o, line(ind, "    outer_angle: ", p.outer_angle.as_str()).as_str());
            append_str(&mut o, light_end(ind).as_str());
            o
        },
        SceneNodeKind::Empty => {
            let mut o = String::from_str(ind);
            append_str(&mut o, "Visibility::default(),\n");
            o
        },
    }
}

/// The code that spawns `n` at indentation `depth` from `spawner`, with
/// `children` the code of its children (one level deeper, from `parent`):
/// a comment with its name, its kind's components and its transform, then
/// its children.
pub open spec fn spec_scene_node_code(n: SceneNodeView, depth: nat, spawner: Seq<char>, p: SceneCodeParts, children: Seq<Seq<char>>) -> Seq<char> {
    let ind = spec_indent(depth);
    ind + "// "@ + n.name + "\n"@ + ind + spawner + ".spawn((\n"@
        + spec_kind_code(n.kind, n.props, spec_indent(depth + 1), p)
        + ind + "    "@ + p.transform@ + ",\n"@
        + if children.len() == 0 {
            ind + "));\n\n"@
        } else {
            ind + ")).with_children(|parent| {\n"@ + join_suffixed(children, seq![]) + ind + "});\n\n"@
        }
}

#[verifier::rlimit(30)]
pub fn scene_node_code(n: &SceneNode, depth: usize, spawner: &str, p: &SceneCodeParts, children: &Vec<String>) -> (r: String)
    requires
        depth < usize::MAX,
    ensures
        r@ == spec_scene_node_code(n@, depth as nat, spawner@, *p, strings_view(children@)),
{
    let ind = indent(depth);
    let inner = indent(depth + 1);
    let mut o = String::new();
    append_str(&mut o, ind.as_str());
    append_str(&mut o, "// ");
    append_str(&mut o, n.name.as_str());
    append_str(&mut o, "\n");
    append_str(&mut o, ind.as_str());
    append_str(&mut o, spawner);
    append_str(&mut o, ".spawn((\n");
    let k = kind_code(&n.kind, &n.props, inner.as_str(), p);
    append_str(&mut o, k.as_str());
    append_str(&mut o, ind.as_str());
    append_str(&mut o, "    ");
    append_str(&mut o, p.transform.as_str());
    append_str(&mut o, ",\n");
    let ghost head = o@;
    if children.len() == 0 {
        append_str(&mut o, ind.as_str());
        append_str(&mut o, "));\n\n");
    } else {
        append_str(&mut o, ind.as_str());
        append_str(&mut o, ")).with_children(|parent| {\n");
        let mut i: usize = 0;
        let ghost cv = strings_view(children@);
        let ghost mid = o@;
        proof {
            assert(cv.subrange(0, 0) =~= Seq::<Seq<char>>::empty());
            assert(o@ =~= mid + join_suffixed(cv.subrange(0, 0), seq![]));
        }
        while i < children.len()
            invariant
                i <= children@.len(),
                cv == strings_view(children@),
                o@ == mid + join_suffixed(cv.subrange(0, i as int), seq![]),
            decreases children@.len() - i,
        {
            append_str(&mut o, children[i].as_str());
            proof {
                assert(cv.subrange(0, i + 1).drop_last() =~= cv.subrange(0, i as int));
                assert(o@ =~= mid + join_suffixed(cv.subrange(0, i + 1), seq![]));
            }
            i = i + 1;
        }
        proof {
            assert(cv.subrange(0, i as int) =~= cv);
        }
        append_str(&mut o, ind.as_str());
        append_str(&mut o, "});\n\n");
    }
    proof {
        assert(o@ =~= spec_scene_node_code(n@, depth as nat, spawner@, *p, strings_view(children@)));
    }
    o
}

/// A node's spawn code holds the components of its kind.
proof fn lemma_node_code_holds_kind(n: SceneNodeView, depth: nat, spawner: Seq<char>, p: SceneCodeParts, children: Seq<Seq<char>>)
    ensures
        contains_seq(
            spec_scene_node_code(n, depth, spawner, p, children),
            spec_kind_code(n.kind, n.props, spec_indent(depth + 1), p),
        ),
{
    let code = spec_scene_node_code(n, depth, spawner, p, children);
    let kc = spec_kind_code(n.kind, n.props, spec_indent(depth + 1), p);
    let ind = spec_indent(depth);
    let a = ind + "// "@ + n.name + "\n"@ + ind + spawner + ".spawn((\n"@;
    let b = code.subrange((a.len() + kc.len()) as int, code.len() as int);
    assert(code =~= a + kc + b);
    lemma_contains_middle(a, kc, b);
}

/// The lines of a light's struct: colour, strength, range (where `range`
/// is given), shadows, then `extra` (a spot light's outer angle).
pub open spec fn light_block(
    i: Seq<char>,
    head: Seq<char>,
    p: SceneCodeParts,
    amount: Seq<char>,
    range: bool,
    shadows: bool,
    extra: Seq<char>,
) -> Seq<char> {
    i + head + i + "    color: "@ + p.light_color@ + ",\n"@ + i + amount + p.intensity@ + ",\n"@
        + (if range { i + "    range: "@ + p.range@ + ",\n"@ } else { seq![] })
        + i + "    shadows_enabled: "@ + spec_bool_text(shadows) + ",\n"@ + extra
        + i + "    ..default()\n"@ + i + "},\n"@
}

proof fn lemma_block_has_range(i: Seq<char>, head: Seq<char>, p: SceneCodeParts, amount: Seq<char>, shadows: bool, extra: Seq<char>)
    ensures
        contains_seq(light_block(i, head, p, amount, true, shadows, extra), i + "    range: "@ + p.range@ + ",\n"@),
{
    let blk = light_block(i, head, p, amount, true, shadows, extra);
    let a = i + head + i + "    color: "@ + p.light_color@ + ",\n"@ + i + amount + p.intensity@ + ",\n"@;
    let r = i + "    range: "@ + p.range@ + ",\n"@;
    let b = blk.subrange((a.len() + r.len()) as int, blk.len() as int);
    assert(blk =~= a + r + b);
    lemma_contains_middle(a, r, b);
}

/// The components of a point light, as a block of lines.
proof fn lemma_point_light(props: SceneNodeProps, i: Seq<char>, p: SceneCodeParts)
    ensures
        spec_kind_code(SceneNodeKind::Light(SceneLightKind::Point), props, i, p)
            == light_block(i, "PointLight {\n"@, p, "    intensity: "@, true, props.light_shadows, seq![]),
{
    assert(spec_kind_code(SceneNodeKind::Light(SceneLightKind::Point), props, i, p)
        =~= light_block(i, "PointLight {\n"@, p, "    intensity: "@, true, props.light_shadows, seq![]));
}

/// The components of a spot light, as a block of lines.
proof fn lemma_spot_light(props: SceneNodeProps, i: Seq<char>, p: SceneCodeParts)
    ensures
        spec_kind_code(SceneNodeKind::Light(SceneLightKind::Spot), props, i, p)
            == light_block(i, "SpotLight {\n"@, p, "    intensity: "@, true, props.light_shadows,
                i + "    outer_angle: "@ + p.outer_angle@ + ",\n"@),
{
    assert(spec_kind_code(SceneNodeKind::Light(SceneLightKind::Spot), props, i, p)
        =~= light_block(i, "SpotLight {\n"@, p, "    intensity: "@, true, props.light_shadows,
            i + "    outer_angle: "@ + p.outer_angle@ + ",\n"@));
}

/// The components of a directional light, as a block of lines.
proof fn lemma_directional_light(props: SceneNodeProps, i: Seq<char>, p: SceneCodeParts)
    ensures
        spec_kind_code(SceneNodeKind::Light(SceneLightKind::Directional), props, i, p)
            == light_block(i, "DirectionalLight {\n"@, p, "    illuminance: "@, false, props.light_shadows, seq![]),
{
    assert(spec_kind_code(SceneNodeKind::Light(SceneLightKind::Directional), props, i, p)
        =~= light_block(i, "DirectionalLight {\n"@, p, "    illuminance: "@, false, props.light_shadows, seq![]));
}

/// Every property of a light reaches its spawn code: one level deeper than
/// the node, the light's struct is written whole, with its colour, its
/// intensity (a directional light's illuminance), a point or spot light's
/// range, whether it casts shadows and a spot light's outer angle, each on a
/// line of its own, in that order.
pub proof fn law_light_code_has_every_property(
    n: SceneNodeView,
    depth: nat,
    spawner: Seq<char>,
    p: SceneCodeParts,
    children: Seq<Seq<char>>,
)
    ensures
        n.kind == SceneNodeKind::Light(SceneLightKind::Point) ==> contains_seq(
            spec_scene_node_code(n, depth, spawner, p, children),
            light_block(spec_indent(depth + 1), "PointLight {\n"@, p, "    intensity: "@, true, n.props.light_shadows, seq![]),
        ),
        n.kind == SceneNodeKind::Light(SceneLightKind::Spot) ==> contains_seq(
            spec_scene_node_code(n, depth, spawner, p, children),
            light_block(spec_indent(depth + 1), "SpotLight {\n"@, p, "    intensity: "@, true, n.props.light_shadows,
                spec_indent(depth + 1) + "    outer_angle: "@ + p.outer_angle@ + ",\n"@),
        ),
        n.kind == SceneNodeKind::Light(SceneLightKind::Directional) ==> contains_seq(
            spec_scene_node_code(n, depth, spawner, p, children),
            light_block(spec_indent(depth + 1), "DirectionalLight {\n"@, p, "    illuminance: "@, false, n.props.light_shadows, seq![]),
        ),
        (n.kind == SceneNodeKind::Light(SceneLightKind::Point) || n.kind == SceneNodeKind::Light(SceneLightKind::Spot))
            ==> contains_seq(
            spec_scene_node_code(n, depth, spawner, p, children),
            spec_indent(depth + 1) + "    range: "@ + p.range@ + ",\n"@,
        ),
{
    let code = spec_scene_node_code(n, depth, spawner, p, children);
    let i = spec_indent(depth + 1);
    let kc = spec_kind_code(n.kind, n.props, i, p);
    let r = i + "    range: "@ + p.range@ + ",\n"@;
    lemma_node_code_holds_kind(n, depth, spawner, p, children);
    if n.kind == SceneNodeKind::Light(SceneLightKind::Point) {
        lemma_point_light(n.props, i, p);
        lemma_block_has_range(i, "PointLight {\n"@, p, "    intensity: "@, n.props.light_shadows, seq![]);
        crate::ui_codegen::lemma_contains_trans(code, kc, r);
    } else if n.kind == SceneNodeKind::Light(SceneLightKind::Spot) {
        lemma_spot_light(n.props, i, p);
        lemma_block_has_range(i, "SpotLight {\n"@, p, "    intensity: "@, n.props.light_shadows,
            i + "    outer_angle: "@ + p.outer_angle@ + ",\n"@);
        crate::ui_codegen::lemma_contains_trans(code, kc, r);
    } else if n.kind == SceneNodeKind::Light(SceneLightKind::Directional) {
        lemma_directional_light(n.props, i, p);
    }
}

/// A mesh's spawn code holds, one level deeper than the node, its shape and
/// then its material, each on a line of its own.
pub proof fn law_mesh_code_has_shape_and_material(
    n: SceneNodeView,
    depth: nat,
    spawner: Seq<char>,
    p: SceneCodeParts,
    children: Seq<Seq<char>>,
)
    ensures
        n.kind matches SceneNodeKind::Mesh(prim) ==> contains_seq(
            spec_scene_node_code(n, depth, spawner, p, children),
            spec_indent(depth + 1) + "Mesh3d(meshes.add("@ + spec_mesh_primitive_expr(prim) + ")),\n"@
                + spec_indent(depth + 1) + "MeshMaterial3d(materials.add("@ + p.material@ + ")),\n"@,
        ),
{
    lemma_node_code_holds_kind(n, depth, spawner, p, children);
}

/// A node's spawn code places it by its transform, on a line of its own
/// inside the spawned bundle, and spawns each of its children with it (the
/// code of each child is in it).
pub proof fn law_node_code_has_transform_and_children(
    n: SceneNodeView,
    depth: nat,
    spawner: Seq<char>,
    p: SceneCodeParts,
    children: Seq<Seq<char>>,
)
    ensures
        contains_seq(spec_scene_node_code(n, depth, spawner, p, children), spec_indent(depth) + "    "@ + p.transform@ + ",\n"@),
        forall|k: int| 0 <= k < children.len() ==> contains_seq(
            spec_scene_node_code(n, depth, spawner, p, children), #[trigger] children[k]),
{
    let code = spec_scene_node_code(n, depth, spawner, p, children);
    let ind = spec_indent(depth);
    let a = ind + "// "@ + n.name + "\n"@ + ind + spawner + ".spawn((\n"@
        + spec_kind_code(n.kind, n.props, spec_indent(depth + 1), p);
    let tl = ind + "    "@ + p.transform@ + ",\n"@;
    let b = code.subrange((a.len() + tl.len()) as int, code.len() as int);
    assert(code =~= a + tl + b);
    lemma_contains_middle(a, tl, b);
    if children.len() > 0 {
        let j = join_suffixed(children, seq![]);
        let a2 = a + tl + ind + ")).with_children(|parent| {\n"@;
        let b2 = ind + "});\n\n"@;
        assert(code =~= a2 + j + b2);
        lemma_contains_middle(a2, j, b2);
        assert forall|k: int| 0 <= k < children.len() implies contains_seq(code, #[trigger] children[k]) by {
            crate::ui_codegen::lemma_join_contains(children, seq![], k);
            crate::ui_codegen::lemma_contains_trans(code, j, children[k]);
        }
    }
}

} // verus!
