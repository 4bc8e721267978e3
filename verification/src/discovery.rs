//! The decisions behind source discovery: which directories the walk
//! descends into, which file names count as source files, and which
//! external compilation units' roots are scanned at all. The walk itself
//! reads the file system and stays outside; it consults these functions
//! for every entry it meets.

use vstd::prelude::*;

verus! {

use crate::modpath::UnitMeta;
use crate::text::ends_with;
use crate::text::is_prefix_of;
use crate::text::str_ends_with;
use crate::text::str_eq;
use crate::text::str_starts_with;
use vstd::string::StrSliceExecFns;

/// A directory of this name is pruned from the walk: fixture, example
/// and test subtrees are never scanned.
pub open spec fn dir_included(name: Seq<char>) -> bool {
    !(name == "fixtures"@ || name == "examples"@ || name == "tests"@)
}

/// A source file's name ends in the source extension with a non-empty
/// stem before it.
pub open spec fn is_source_file_name(name: Seq<char>) -> bool {
    ends_with(name, ".rs"@) && name.len() > ".rs"@.len()
}

/// The manifest directories of the units whose names start with the
/// selection prefix, in unit order; units whose manifest path has no
/// parent directory contribute nothing.
pub open spec fn scan_roots_spec(units: Seq<UnitMeta>, prefix: Seq<char>) -> Seq<Seq<Seq<char>>>
    decreases units.len(),
{
    if units.len() == 0 {
        Seq::empty()
    } else {
        let rest = scan_roots_spec(units.drop_last(), prefix);
        let unit = units.last();
        if is_prefix_of(prefix, unit.name@) && unit.manifest_path@.len() > 0 {
            rest.push(unit.manifest_path.deep_view().drop_last())
        } else {
            rest
        }
    }
}

/// Whether the walk descends into a directory entry with this file name.
pub fn should_include_dir(name: &str) -> (r: bool)
    ensures
        r == dir_included(name@),
{
    !(str_eq(name, "fixtures") || str_eq(name, "examples") || str_eq(name, "tests"))
}

/// Whether a file with this name is a source file.
pub fn is_source_file(name: &str) -> (r: bool)
    ensures
        r == is_source_file_name(name@),
{
    proof {
        reveal_strlit(".rs");
    }
    str_ends_with(name, ".rs") && name.unicode_len() > 3
}

/// The roots whose trees are scanned for a unit list: the manifest
/// directory of every unit whose name starts with `prefix`.
pub fn dependency_scan_roots(units: &Vec<UnitMeta>, prefix: &str) -> (roots: Vec<Vec<String>>)
    ensures
        roots.deep_view() == scan_roots_spec(units@, prefix@),
{
    let mut roots: Vec<Vec<String>> = Vec::new();
    let mut i: usize = 0;
    while i < units.len()
        invariant
            i <= units.len(),
            roots.deep_view() == scan_roots_spec(units@.take(i as int), prefix@),
        decreases units.len() - i,
    {
        proof {
            assert(units@.take(i + 1).drop_last() =~= units@.take(i as int));
            assert(units@.take(i + 1).last() == units@[i as int]);
        }
        let unit = &units[i];
        if str_starts_with(unit.name.as_str(), prefix) && unit.manifest_path.len() > 0 {
            let end = unit.manifest_path.len() - 1;
            let mut root: Vec<String> = Vec::new();
            let mut j: usize = 0;
            while j < end
                invariant
                    j <= end,
                    end == unit.manifest_path@.len() - 1,
                    root.deep_view() == unit.manifest_path.deep_view().take(j as int),
                decreases end - j,
            {
                let ghost root_view = root.deep_view();
                proof {
                    assert(unit.manifest_path.deep_view()[j as int] == unit.manifest_path@[
                        j as int
                    ]@);
                    assert(unit.manifest_path.deep_view().take(j + 1).drop_last()
                        =~= unit.manifest_path.deep_view().take(j as int));
                    assert(unit.manifest_path.deep_view().take(j + 1).last()
                        == unit.manifest_path.deep_view()[j as int]);
                }
                root.push(unit.manifest_path[j].clone());
                proof {
                    assert(root.deep_view() =~= root_view.push(
                        unit.manifest_path.deep_view()[j as int],
                    ));
                    assert(root.deep_view() =~= unit.manifest_path.deep_view().take(j + 1));
                }
                j = j + 1;
            }
            proof {
                assert(unit.manifest_path.deep_view().take(end as int) =~= unit.manifest_path
                    .deep_view().drop_last());
            }
            let ghost roots_view = roots.deep_view();
            let ghost root_final = root.deep_view();
            roots.push(root);
            proof {
                assert(roots.deep_view() =~= roots_view.push(root_final));
            }
        }
        i = i + 1;
    }
    proof {
        assert(units@.take(units@.len() as int) =~= units@);
    }
    roots
}

} // verus!
