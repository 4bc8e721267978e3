//! The visibility-propagating walk over a parsed file's declarations.
//! It descends nested scopes carrying an accumulated "ancestor chain
//! externally visible" flag, applies the detection predicate to each
//! type definition, and accumulates the fully qualified findings.

use vstd::prelude::*;

verus! {

use crate::syntax::Decl;
use crate::syntax::SyntaxTree;
use crate::syntax::derives_reflect_and_component_but_no_reflect_component;
use crate::syntax::has_cfg_test;
use crate::syntax::has_test_guard;
use crate::syntax::missing_registration;
use vstd::string::StringExecFns;

/// `name` appended to `path` with the scope separator between them.
pub open spec fn qualified(path: Seq<char>, name: Seq<char>) -> Seq<char> {
    path + "::"@ + name
}

/// The findings that walking one declaration under module path `path`
/// produces. A qualifying type definition yields one entry, kept only
/// when it is reachable or the public-only policy is off; a test-guarded
/// scope yields nothing; any other scope with an inline body is entered
/// with the visibility flag narrowed by its own modifier.
pub open spec fn decl_findings(
    d: Decl,
    path: Seq<char>,
    public_only: bool,
    parent_public: bool,
) -> Seq<Seq<char>>
    decreases d,
{
    match d {
        Decl::TypeDef { name, public, annotations } => {
            if missing_registration(annotations@) && (!public_only || (public && parent_public)) {
                seq![qualified(path, name@)]
            } else {
                Seq::empty()
            }
        },
        Decl::Scope { name, public, annotations, body } => {
            if has_test_guard(annotations@) {
                Seq::empty()
            } else {
                match body {
                    Option::Some(b) => decl_list_findings(
                        b@,
                        qualified(path, name@),
                        public_only,
                        public && parent_public,
                    ),
                    Option::None => Seq::empty(),
                }
            }
        },
        Decl::Other => Seq::empty(),
    }
}

/// The findings of a declaration list: the findings of its declarations,
/// in order.
pub open spec fn decl_list_findings(
    items: Seq<Decl>,
    path: Seq<char>,
    public_only: bool,
    parent_public: bool,
) -> Seq<Seq<char>>
    decreases items,
{
    if items.len() == 0 {
        Seq::empty()
    } else {
        decl_list_findings(items.drop_last(), path, public_only, parent_public)
            + decl_findings(items.last(), path, public_only, parent_public)
    }
}

/// Law: a test-guarded scope is skipped with its entire subtree; it
/// contributes no finding, whatever the visibility flags say.
pub proof fn lemma_test_guard_suppresses(
    d: Decl,
    path: Seq<char>,
    public_only: bool,
    parent_public: bool,
)
    requires
        d is Scope,
        has_test_guard(d->Scope_annotations@),
    ensures
        decl_findings(d, path, public_only, parent_public) == Seq::<Seq<char>>::empty(),
{
}

/// Law: with the public-only policy active, nothing below an ancestor
/// chain that is not externally visible is reported; a declaration only
/// visible through such a chain never reaches the findings.
pub proof fn lemma_invisible_ancestors_hide_decl(d: Decl, path: Seq<char>)
    ensures
        decl_findings(d, path, true, false) == Seq::<Seq<char>>::empty(),
    decreases d,
{
    match d {
        Decl::TypeDef { .. } => {
        },
        Decl::Scope { name, public, annotations, body } => {
            if !has_test_guard(annotations@) {
                match body {
                    Option::Some(b) => {
                        lemma_invisible_ancestors_hide_list(b@, qualified(path, name@));
                    },
                    Option::None => {
                    },
                }
            }
        },
        Decl::Other => {
        },
    }
}

/// Law: with the public-only policy active, a declaration list below a
/// non-visible ancestor chain yields no finding at all.
pub proof fn lemma_invisible_ancestors_hide_list(items: Seq<Decl>, path: Seq<char>)
    ensures
        decl_list_findings(items, path, true, false) == Seq::<Seq<char>>::empty(),
    decreases items,
{
    if items.len() == 0 {
    } else {
        lemma_invisible_ancestors_hide_list(items.drop_last(), path);
        lemma_invisible_ancestors_hide_decl(items.last(), path);
        assert(decl_list_findings(items, path, true, false) =~= Seq::<Seq<char>>::empty());
    }
}

/// `path`, the scope separator, and `name`, concatenated.
pub fn qualify(path: &str, name: &str) -> (r: String)
    ensures
        r@ == qualified(path@, name@),
{
    let mut out = String::from_str(path);
    out.append("::");
    out.append(name);
    out
}

/// Walks one declaration list, appending to `reflect_types` the fully
/// qualified findings below it.
fn collect_in_decls(
    items: &Vec<Decl>,
    mod_path: &str,
    reflect_types: &mut Vec<String>,
    public_only: bool,
    parent_is_public: bool,
)
    ensures
        final(reflect_types).deep_view() == old(reflect_types).deep_view()
            + decl_list_findings(items@, mod_path@, public_only, parent_is_public),
    decreases items@,
{
    let ghost orig = reflect_types.deep_view();
    let mut i: usize = 0;
    while i < items.len()
        invariant
            i <= items.len(),
            reflect_types.deep_view() == orig + decl_list_findings(
                items@.take(i as int),
                mod_path@,
                public_only,
                parent_is_public,
            ),
        decreases items@.len() - i,
    {
        let ghost before = reflect_types.deep_view();
        let ghost d = items@[i as int];
        match &items[i] {
            Decl::TypeDef { name, public, annotations } => {
                let hit = derives_reflect_and_component_but_no_reflect_component(annotations);
                let item_is_public = *public && parent_is_public;
                if hit && (!public_only || item_is_public) {
                    let full_path = qualify(mod_path, name.as_str());
                    proof {
                        assert(decl_findings(d, mod_path@, public_only, parent_is_public)
                            =~= seq![full_path@]);
                    }
                    reflect_types.push(full_path);
                    proof {
                        assert(reflect_types.deep_view() =~= before.push(
                            qualified(mod_path@, name@),
                        ));
                    }
                }
            },
            Decl::Scope { name, public, annotations, body } => {
                if !has_cfg_test(annotations) {
                    let item_is_public = *public && parent_is_public;
                    match body {
                        Option::Some(b) => {
                            if public_only && !item_is_public {
                                proof {
                                    lemma_invisible_ancestors_hide_list(
                                        b@,
                                        qualified(mod_path@, name@),
                                    );
                                }
                            } else {
                                let nested = qualify(mod_path, name.as_str());
                                proof {
                                    assert(decreases_to!(items@ => d));
                                    assert(d->Scope_body == Option::Some(*b));
                                    assert(decreases_to!(d => d->Scope_body));
                                    assert(decreases_to!(d->Scope_body => (*b)));
                                    assert(decreases_to!((*b) => b@));
                                }
                                collect_in_decls(
                                    b,
                                    nested.as_str(),
                                    reflect_types,
                                    public_only,
                                    item_is_public,
                                );
                            }
                        },
                        Option::None => {
                        },
                    }
                }
            },
            Decl::Other => {
            },
        }
        proof {
            let fi = decl_list_findings(
                items@.take(i as int),
                mod_path@,
                public_only,
                parent_is_public,
            );
            let di = decl_findings(d, mod_path@, public_only, parent_is_public);
            assert(items@.take(i + 1).drop_last() =~= items@.take(i as int));
            assert(items@.take(i + 1).last() == d);
            assert(decl_list_findings(
                items@.take(i + 1),
                mod_path@,
                public_only,
                parent_is_public,
            ) == fi + di);
            assert(reflect_types.deep_view() =~= orig + (fi + di));
        }
        i = i + 1;
    }
    proof {
        assert(items@.take(items@.len() as int) =~= items@);
    }
}

/// Recursively collects the qualifying type definitions of one parsed
/// file, each as `module path`, separator, `type name`, respecting the
/// visibility policy.
pub fn collect_reflect_types(
    tree: &SyntaxTree,
    mod_path: &str,
    reflect_types: &mut Vec<String>,
    public_only: bool,
    parent_is_public: bool,
)
    ensures
        final(reflect_types).deep_view() == old(reflect_types).deep_view()
            + decl_list_findings(tree.items@, mod_path@, public_only, parent_is_public),
{
    collect_in_decls(&tree.items, mod_path, reflect_types, public_only, parent_is_public);
}

} // verus!
