//! The run over a whole project: a store of parsed files, each with its
//! path, walked in order; every file whose module path resolves
//! contributes the findings of its declaration walk, and files whose
//! path resolves to nothing are silently left out.

use vstd::prelude::*;

verus! {

use crate::modpath::UnitMeta;
use crate::modpath::resolve_module_path;
use crate::modpath::resolve_module_path_spec;
use crate::syntax::SyntaxTree;
use crate::walker::collect_reflect_types;
use crate::walker::decl_list_findings;
use vstd::seq_lib::lemma_seq_concat_contains_all_elements;
use vstd::seq_lib::to_multiset_contains;

/// One discovered file: its path as segments, and its parsed syntax
/// tree.
pub struct ParsedFile {
    pub path: Vec<String>,
    pub tree: SyntaxTree,
}

/// The findings of one file: none when its module path does not resolve,
/// else those of walking its declarations under that path, starting from
/// the externally visible root scope.
pub open spec fn file_findings(f: ParsedFile, units: Seq<UnitMeta>, public_only: bool) -> Seq<
    Seq<char>,
> {
    match resolve_module_path_spec(f.path.deep_view(), units) {
        Option::Some(path) => decl_list_findings(f.tree.items@, path, public_only, true),
        Option::None => Seq::empty(),
    }
}

/// The findings of a run: those of the stored files, in store order.
pub open spec fn project_findings(
    files: Seq<ParsedFile>,
    units: Seq<UnitMeta>,
    public_only: bool,
) -> Seq<Seq<char>>
    decreases files.len(),
{
    if files.len() == 0 {
        Seq::empty()
    } else {
        project_findings(files.drop_last(), units, public_only) + file_findings(
            files.last(),
            units,
            public_only,
        )
    }
}

/// Records one parsed file in the module store.
pub fn build_module_tree(path: Vec<String>, tree: SyntaxTree, module_tree: &mut Vec<ParsedFile>)
    ensures
        final(module_tree)@ == old(module_tree)@.push((ParsedFile { path, tree })),
{
    module_tree.push(ParsedFile { path, tree });
}

/// Walks every stored file and returns the fully qualified findings of
/// the whole run, in store order.
pub fn collect_project_reflect_types(
    module_tree: &Vec<ParsedFile>,
    units: &Vec<UnitMeta>,
    public_only: bool,
) -> (reflect_types: Vec<String>)
    ensures
        reflect_types.deep_view() == project_findings(module_tree@, units@, public_only),
{
    let mut reflect_types: Vec<String> = Vec::new();
    let mut i: usize = 0;
    while i < module_tree.len()
        invariant
            i <= module_tree.len(),
            reflect_types.deep_view() == project_findings(
                module_tree@.take(i as int),
                units@,
                public_only,
            ),
        decreases module_tree.len() - i,
    {
        proof {
            assert(module_tree@.take(i + 1).drop_last() =~= module_tree@.take(i as int));
            assert(module_tree@.take(i + 1).last() == module_tree@[i as int]);
        }
        let ghost before = reflect_types.deep_view();
        let file = &module_tree[i];
        match resolve_module_path(&file.path, units) {
            Option::Some(path) => {
                collect_reflect_types(&file.tree, path.as_str(), &mut reflect_types, public_only, true);
            },
            Option::None => {
                proof {
                    assert(before + Seq::<Seq<char>>::empty() =~= before);
                }
            },
        }
        i = i + 1;
    }
    proof {
        assert(module_tree@.take(module_tree@.len() as int) =~= module_tree@);
    }
    reflect_types
}

/// A finding occurs in a run exactly when some stored file produces it.
proof fn lemma_finding_from_some_file(
    files: Seq<ParsedFile>,
    units: Seq<UnitMeta>,
    public_only: bool,
    x: Seq<char>,
)
    ensures
        project_findings(files, units, public_only).contains(x) <==> exists|i: int|
            0 <= i < files.len() && file_findings(files[i], units, public_only).contains(x),
    decreases files.len(),
{
    if files.len() == 0 {
    } else {
        lemma_finding_from_some_file(files.drop_last(), units, public_only, x);
        lemma_seq_concat_contains_all_elements(
            project_findings(files.drop_last(), units, public_only),
            file_findings(files.last(), units, public_only),
            x,
        );
        if project_findings(files, units, public_only).contains(x) {
            if file_findings(files.last(), units, public_only).contains(x) {
                assert(file_findings(files[files.len() - 1], units, public_only).contains(x));
            } else {
                let i = choose|i: int|
                    0 <= i < files.drop_last().len() && file_findings(
                        files.drop_last()[i],
                        units,
                        public_only,
                    ).contains(x);
                assert(files.drop_last()[i] == files[i]);
            }
        }
        if exists|i: int|
            0 <= i < files.len() && file_findings(files[i], units, public_only).contains(x) {
            let i = choose|i: int|
                0 <= i < files.len() && file_findings(files[i], units, public_only).contains(x);
            if i < files.len() - 1 {
                assert(files.drop_last()[i] == files[i]);
                assert(file_findings(files.drop_last()[i], units, public_only).contains(x));
            }
        }
    }
}

/// Law: for one store of files, the set of findings does not depend on
/// the order in which discovery yielded them: two runs over the same
/// files, however ordered, produce the same set of findings. The order
/// of the findings list itself is not part of this guarantee.
pub proof fn lemma_findings_set_order_independent(
    files1: Seq<ParsedFile>,
    files2: Seq<ParsedFile>,
    units: Seq<UnitMeta>,
    public_only: bool,
)
    requires
        files1.to_multiset() == files2.to_multiset(),
    ensures
        project_findings(files1, units, public_only).to_set() == project_findings(
            files2,
            units,
            public_only,
        ).to_set(),
{
    let findings1 = project_findings(files1, units, public_only);
    let findings2 = project_findings(files2, units, public_only);
    assert forall|x: Seq<char>| findings1.contains(x) implies findings2.contains(x) by {
        lemma_finding_from_some_file(files1, units, public_only, x);
        lemma_finding_from_some_file(files2, units, public_only, x);
        let i = choose|i: int|
            0 <= i < files1.len() && file_findings(files1[i], units, public_only).contains(x);
        to_multiset_contains(files1, files1[i]);
        to_multiset_contains(files2, files1[i]);
        let j = choose|j: int| 0 <= j < files2.len() && files2[j] == files1[i];
        assert(file_findings(files2[j], units, public_only).contains(x));
    }
    assert forall|x: Seq<char>| findings2.contains(x) implies findings1.contains(x) by {
        lemma_finding_from_some_file(files1, units, public_only, x);
        lemma_finding_from_some_file(files2, units, public_only, x);
        let i = choose|i: int|
            0 <= i < files2.len() && file_findings(files2[i], units, public_only).contains(x);
        to_multiset_contains(files2, files2[i]);
        to_multiset_contains(files1, files2[i]);
        let j = choose|j: int| 0 <= j < files1.len() && files1[j] == files2[i];
        assert(file_findings(files1[j], units, public_only).contains(x));
    }
    assert(findings1.to_set() =~= findings2.to_set());
}

} // verus!
