//! Mapping a file's location to its fully qualified module path. A path
//! is a sequence of file-system segments. The resolver finds the first
//! compilation unit whose manifest directory is an ancestor of the path
//! and joins the unit's name with the path relative to that directory;
//! with no owning unit it falls back to the path relative to the local
//! source root. Within the relative path, the terminal segment loses
//! the source extension and is dropped altogether when it is the self
//! marker; the other segments stand as written.

use vstd::prelude::*;

verus! {

use crate::text::join_segments;
use crate::text::join_with;
use crate::text::str_eq;
use crate::text::strip_end;
use crate::text::strip_end_once;
use vstd::string::StringExecFns;

/// Metadata of one compilation unit: its name and the file-system path
/// of its manifest file, as segments.
pub struct UnitMeta {
    pub name: String,
    pub manifest_path: Vec<String>,
}

/// The directory holding a manifest: the manifest path without its final
/// segment. An empty path has no parent directory.
pub open spec fn manifest_parent(manifest: Seq<Seq<char>>) -> Option<Seq<Seq<char>>> {
    if manifest.len() == 0 {
        Option::None
    } else {
        Option::Some(manifest.drop_last())
    }
}

/// `prefix` is a file-system ancestor of `path`: a segment-wise prefix.
pub open spec fn segs_prefix_of(prefix: Seq<Seq<char>>, path: Seq<Seq<char>>) -> bool {
    prefix.len() <= path.len() && forall|i: int| 0 <= i < prefix.len() ==> path[i] == prefix[i]
}

/// The terminal path segment as a module-path part: the source extension
/// stripped from its end.
pub open spec fn module_segment(seg: Seq<char>) -> Seq<char> {
    strip_end(seg, ".rs"@)
}

/// The module-path parts of a relative file path: the terminal segment
/// loses its extension and is dropped altogether when that leaves the
/// self marker; every other segment stands as written.
pub open spec fn module_parts(segs: Seq<Seq<char>>) -> Seq<Seq<char>> {
    if segs.len() == 0 {
        Seq::empty()
    } else {
        let part = module_segment(segs.last());
        if part == "mod"@ {
            segs.drop_last()
        } else {
            segs.drop_last().push(part)
        }
    }
}

/// The module path of a relative file path: its parts joined with the
/// scope separator.
pub open spec fn module_path_of(segs: Seq<Seq<char>>) -> Seq<char> {
    join_with(module_parts(segs), "::"@)
}

/// The name of the first unit whose manifest directory is an ancestor of
/// `path`, scanning the units in their given order. The scan stops with
/// no result at a unit whose manifest path has no parent directory.
pub open spec fn crate_root_for_file_spec(
    path: Seq<Seq<char>>,
    units: Seq<UnitMeta>,
) -> Option<Seq<char>>
    decreases units.len(),
{
    if units.len() == 0 {
        Option::None
    } else if units[0].manifest_path@.len() == 0 {
        Option::None
    } else if segs_prefix_of(units[0].manifest_path.deep_view().drop_last(), path) {
        Option::Some(units[0].name@)
    } else {
        crate_root_for_file_spec(path, units.drop_first())
    }
}

/// The manifest directory of the first unit carrying `name`, when that
/// unit exists and its manifest path has a parent directory.
pub open spec fn crate_root_path_spec(
    name: Seq<char>,
    units: Seq<UnitMeta>,
) -> Option<Seq<Seq<char>>>
    decreases units.len(),
{
    if units.len() == 0 {
        Option::None
    } else if units[0].name@ == name {
        manifest_parent(units[0].manifest_path.deep_view())
    } else {
        crate_root_path_spec(name, units.drop_first())
    }
}

/// The fully qualified module path of a file. With an owning unit: the
/// unit's name, the scope separator, and the path relative to the unit's
/// root. With none: the path relative to the local source root, with no
/// prefix. Nothing when neither root is an ancestor of the path.
pub open spec fn resolve_module_path_spec(
    path: Seq<Seq<char>>,
    units: Seq<UnitMeta>,
) -> Option<Seq<char>> {
    match crate_root_for_file_spec(path, units) {
        Option::Some(name) => match crate_root_path_spec(name, units) {
            Option::Some(root) => if segs_prefix_of(root, path) {
                Option::Some(name + "::"@ + module_path_of(path.skip(root.len() as int)))
            } else {
                Option::None
            },
            Option::None => Option::None,
        },
        Option::None => if path.len() > 0 && path[0] == "src"@ {
            Option::Some(module_path_of(path.drop_first()))
        } else {
            Option::None
        },
    }
}

/// Law: a terminal segment that strips to the self marker is dropped,
/// not appended: the module path of a directory's marker file is the
/// join of the directory segments alone.
pub proof fn lemma_self_marker_dropped(segs: Seq<Seq<char>>, last: Seq<char>)
    requires
        module_segment(last) == "mod"@,
    ensures
        module_path_of(segs.push(last)) == join_with(segs, "::"@),
{
    assert(segs.push(last).drop_last() =~= segs);
    assert(segs.push(last).last() == last);
}

/// Law: any other terminal segment is appended: the module path of a
/// file under a directory is the join of the directory segments, the
/// separator, and the stripped terminal segment — the stripped segment
/// alone when the directory contributes nothing.
pub proof fn lemma_named_segment_appended(segs: Seq<Seq<char>>, last: Seq<char>)
    requires
        module_segment(last) != "mod"@,
    ensures
        module_path_of(segs.push(last)) == if segs.len() == 0 {
            module_segment(last)
        } else {
            join_with(segs, "::"@) + "::"@ + module_segment(last)
        },
{
    assert(segs.push(last).drop_last() =~= segs);
    assert(segs.push(last).last() == last);
    let part = module_segment(last);
    assert(module_parts(segs.push(last)) == segs.push(part));
    assert(segs.push(part).drop_last() =~= segs);
    assert(segs.push(part).last() == part);
    if segs.len() == 0 {
        assert(segs.push(part)[0] == part);
    }
}

/// Converts a relative file path to a module path: strips the source
/// extension from the terminal segment, drops that segment entirely when
/// what remains is the self marker, keeps every other segment as
/// written, and joins the parts with the scope separator.
pub fn relative_path_to_module_path(path: &Vec<String>) -> (r: String)
    ensures
        r@ == module_path_of(path.deep_view()),
{
    if path.len() == 0 {
        return String::new();
    }
    let end = path.len() - 1;
    let mut parts: Vec<String> = Vec::new();
    let mut i: usize = 0;
    while i < end
        invariant
            i <= end,
            end == path@.len() - 1,
            parts.deep_view() == path.deep_view().take(i as int),
        decreases end - i,
    {
        let ghost parts_view = parts.deep_view();
        proof {
            assert(path.deep_view()[i as int] == path@[i as int]@);
            assert(path.deep_view().take(i + 1).drop_last() =~= path.deep_view().take(i as int));
            assert(path.deep_view().take(i + 1).last() == path.deep_view()[i as int]);
        }
        parts.push(path[i].clone());
        proof {
            assert(parts.deep_view() =~= parts_view.push(path.deep_view()[i as int]));
            assert(parts.deep_view() =~= path.deep_view().take(i + 1));
        }
        i = i + 1;
    }
    proof {
        assert(path.deep_view().take(end as int) =~= path.deep_view().drop_last());
        assert(path.deep_view().last() == path@[end as int]@);
    }
    let stripped = strip_end_once(path[end].as_str(), ".rs");
    let ghost stripped_view = stripped@;
    if !str_eq(stripped.as_str(), "mod") {
        let ghost parts_view = parts.deep_view();
        parts.push(stripped);
        proof {
            assert(parts.deep_view() =~= parts_view.push(stripped_view));
        }
    }
    join_segments(&parts, "::")
}

/// Whether `prefix` is a segment-wise ancestor of `path`.
fn segs_is_prefix(prefix: &Vec<String>, path: &Vec<String>) -> (r: bool)
    ensures
        r == segs_prefix_of(prefix.deep_view(), path.deep_view()),
{
    if prefix.len() > path.len() {
        return false;
    }
    let mut i: usize = 0;
    while i < prefix.len()
        invariant
            i <= prefix.len(),
            prefix.len() <= path.len(),
            prefix@.len() == prefix.deep_view().len(),
            path@.len() == path.deep_view().len(),
            forall|j: int| 0 <= j < i ==> path.deep_view()[j] == prefix.deep_view()[j],
        decreases prefix.len() - i,
    {
        proof {
            assert(prefix.deep_view()[i as int] == prefix@[i as int]@);
            assert(path.deep_view()[i as int] == path@[i as int]@);
        }
        if !str_eq(path[i].as_str(), prefix[i].as_str()) {
            return false;
        }
        i = i + 1;
    }
    true
}

/// The manifest directory: every segment of the manifest path but the
/// last, or nothing when the path is empty.
fn manifest_parent_of(manifest: &Vec<String>) -> (r: Option<Vec<String>>)
    ensures
        match r {
            Option::Some(p) => manifest_parent(manifest.deep_view()) == Option::Some(p.deep_view()),
            Option::None => manifest_parent(manifest.deep_view()) is None,
        },
{
    if manifest.len() == 0 {
        return Option::None;
    }
    let end = manifest.len() - 1;
    let mut out: Vec<String> = Vec::new();
    let mut i: usize = 0;
    while i < end
        invariant
            i <= end,
            end == manifest.len() - 1,
            out.deep_view() == manifest.deep_view().take(i as int),
        decreases end - i,
    {
        let ghost out_view = out.deep_view();
        proof {
            assert(manifest.deep_view()[i as int] == manifest@[i as int]@);
            assert(manifest.deep_view().take(i + 1).drop_last() =~= manifest.deep_view().take(
                i as int,
            ));
            assert(manifest.deep_view().take(i + 1).last() == manifest.deep_view()[i as int]);
        }
        out.push(manifest[i].clone());
        proof {
            assert(out.deep_view() =~= out_view.push(manifest.deep_view()[i as int]));
            assert(out.deep_view() =~= manifest.deep_view().take(i + 1));
        }
        i = i + 1;
    }
    proof {
        assert(manifest.deep_view().take(end as int) =~= manifest.deep_view().drop_last());
    }
    Option::Some(out)
}

/// The name of the first unit whose manifest directory is an ancestor of
/// `path`.
pub fn crate_root_for_file(path: &Vec<String>, units: &Vec<UnitMeta>) -> (r: Option<String>)
    ensures
        match r {
            Option::Some(name) => crate_root_for_file_spec(path.deep_view(), units@)
                == Option::Some(name@),
            Option::None => crate_root_for_file_spec(path.deep_view(), units@) is None,
        },
{
    proof {
        assert(units@.skip(0) =~= units@);
    }
    let mut i: usize = 0;
    while i < units.len()
        invariant
            i <= units.len(),
            crate_root_for_file_spec(path.deep_view(), units@) == crate_root_for_file_spec(
                path.deep_view(),
                units@.skip(i as int),
            ),
        decreases units.len() - i,
    {
        proof {
            assert(units@.skip(i as int)[0] == units@[i as int]);
            assert(units@.skip(i as int).drop_first() =~= units@.skip(i + 1));
        }
        let unit = &units[i];
        match manifest_parent_of(&unit.manifest_path) {
            Option::None => {
                return Option::None;
            },
            Option::Some(root) => {
                if segs_is_prefix(&root, path) {
                    return Option::Some(unit.name.clone());
                }
            },
        }
        i = i + 1;
    }
    Option::None
}

/// The manifest directory of the first unit carrying `name`.
pub fn crate_root_path(name: &str, units: &Vec<UnitMeta>) -> (r: Option<Vec<String>>)
    ensures
        match r {
            Option::Some(p) => crate_root_path_spec(name@, units@) == Option::Some(p.deep_view()),
            Option::None => crate_root_path_spec(name@, units@) is None,
        },
{
    proof {
        assert(units@.skip(0) =~= units@);
    }
    let mut i: usize = 0;
    while i < units.len()
        invariant
            i <= units.len(),
            crate_root_path_spec(name@, units@) == crate_root_path_spec(
                name@,
                units@.skip(i as int),
            ),
        decreases units.len() - i,
    {
        proof {
            assert(units@.skip(i as int)[0] == units@[i as int]);
            assert(units@.skip(i as int).drop_first() =~= units@.skip(i + 1));
        }
        let unit = &units[i];
        if str_eq(unit.name.as_str(), name) {
            return manifest_parent_of(&unit.manifest_path);
        }
        i = i + 1;
    }
    Option::None
}

/// The segments of `path` from position `from` on.
fn path_tail(path: &Vec<String>, from: usize) -> (r: Vec<String>)
    requires
        from <= path@.len(),
    ensures
        r.deep_view() == path.deep_view().skip(from as int),
{
    let mut out: Vec<String> = Vec::new();
    let mut i: usize = from;
    while i < path.len()
        invariant
            from <= i <= path.len(),
            out.deep_view() == path.deep_view().subrange(from as int, i as int),
        decreases path.len() - i,
    {
        let ghost out_view = out.deep_view();
        proof {
            assert(path.deep_view()[i as int] == path@[i as int]@);
            assert(path.deep_view().subrange(from as int, i + 1).drop_last() =~= path.deep_view()
                .subrange(from as int, i as int));
            assert(path.deep_view().subrange(from as int, i + 1).last() == path.deep_view()[
                i as int
            ]);
        }
        out.push(path[i].clone());
        proof {
            assert(out.deep_view() =~= out_view.push(path.deep_view()[i as int]));
            assert(out.deep_view() =~= path.deep_view().subrange(from as int, i + 1));
        }
        i = i + 1;
    }
    proof {
        assert(path.deep_view().subrange(from as int, path@.len() as int) =~= path.deep_view()
            .skip(from as int));
    }
    out
}

/// Resolves the fully qualified module path of the file at `path`, or
/// nothing when no unit root and no local source root is its ancestor.
pub fn resolve_module_path(path: &Vec<String>, units: &Vec<UnitMeta>) -> (r: Option<String>)
    ensures
        (match r {
            Option::Some(s) => resolve_module_path_spec(path.deep_view(), units@) == Option::Some(
                s@,
            ),
            Option::None => resolve_module_path_spec(path.deep_view(), units@) is None,
        }),
{
    match crate_root_for_file(path, units) {
        Option::Some(crate_name) => {
            match crate_root_path(crate_name.as_str(), units) {
                Option::None => Option::None,
                Option::Some(root) => {
                    if segs_is_prefix(&root, path) {
                        let rel = path_tail(path, root.len());
                        let tail = relative_path_to_module_path(&rel);
                        let mut out = String::from_str(crate_name.as_str());
                        out.append("::");
                        out.append(tail.as_str());
                        Option::Some(out)
                    } else {
                        Option::None
                    }
                },
            }
        },
        Option::None => {
            if path.len() > 0 && str_eq(path[0].as_str(), "src") {
                proof {
                    assert(path.deep_view()[0] == path@[0]@);
                    assert(path.deep_view().skip(1) =~= path.deep_view().drop_first());
                }
                let rel = path_tail(path, 1);
                Option::Some(relative_path_to_module_path(&rel))
            } else {
                Option::None
            }
        },
    }
}

} // verus!
