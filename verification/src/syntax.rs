//! The scanner's view of a parsed source file: declarations, their
//! visibility modifiers and their annotations, together with the
//! detection predicate that spots a type declaring the `Reflect` and
//! `Component` capabilities without the companion `#[reflect(Component)]`
//! registration, and the test-guard check.

use vstd::prelude::*;

verus! {

use crate::text::contains_pattern;
use crate::text::str_contains;
use crate::text::str_eq;

/// A list-shaped annotation attached to a declaration: a name followed
/// by a parenthesised argument list, such as `derive(Reflect, Component)`.
/// `args` holds the arguments that are single identifiers; `raw` holds
/// the argument tokens as written, for the literal substring test that
/// the test-guard check performs. Annotations of any other shape never
/// influence the scan and are not represented.
pub struct Annotation {
    pub name: String,
    pub args: Vec<String>,
    pub raw: String,
}

/// One declaration of a parsed source file.
pub enum Decl {
    /// A record-like or tagged-union-like type definition.
    TypeDef { name: String, public: bool, annotations: Vec<Annotation> },
    /// A named nested scope; `body` holds its inline declaration list and
    /// is absent when the scope's contents live in another file.
    Scope { name: String, public: bool, annotations: Vec<Annotation>, body: Option<Vec<Decl>> },
    /// Any other declaration kind; the scan ignores it.
    Other,
}

/// The ordered top-level declarations of one parsed source file.
pub struct SyntaxTree {
    pub items: Vec<Decl>,
}

/// The annotation is named `name` and lists `ident` among its arguments.
pub open spec fn annotation_carries(a: Annotation, name: Seq<char>, ident: Seq<char>) -> bool {
    a.name@ == name && a.args.deep_view().contains(ident)
}

/// Some annotation in the list is named `name` and lists `ident`.
pub open spec fn some_annotation_carries(
    attrs: Seq<Annotation>,
    name: Seq<char>,
    ident: Seq<char>,
) -> bool {
    exists|i: int| 0 <= i < attrs.len() && annotation_carries(attrs[i], name, ident)
}

/// The annotations declare the `Reflect` capability.
pub open spec fn declares_reflect(attrs: Seq<Annotation>) -> bool {
    some_annotation_carries(attrs, "derive"@, "Reflect"@)
}

/// The annotations declare the `Component` capability.
pub open spec fn declares_component(attrs: Seq<Annotation>) -> bool {
    some_annotation_carries(attrs, "derive"@, "Component"@)
}

/// The annotations carry the `reflect(Component)` registration marker.
pub open spec fn has_reflect_component(attrs: Seq<Annotation>) -> bool {
    some_annotation_carries(attrs, "reflect"@, "Component"@)
}

/// The detection predicate: both capabilities declared, registration
/// marker absent.
pub open spec fn missing_registration(attrs: Seq<Annotation>) -> bool {
    declares_reflect(attrs) && declares_component(attrs) && !has_reflect_component(attrs)
}

/// The annotation is a conditional-compilation marker whose argument
/// tokens contain `test` as a literal substring.
pub open spec fn is_test_guard(a: Annotation) -> bool {
    a.name@ == "cfg"@ && contains_pattern(a.raw@, "test"@)
}

/// Some annotation in the list is a test guard.
pub open spec fn has_test_guard(attrs: Seq<Annotation>) -> bool {
    exists|i: int| 0 <= i < attrs.len() && is_test_guard(attrs[i])
}

/// The declaration carries the public visibility modifier. Declarations
/// that are neither type definitions nor scopes count as not public.
pub open spec fn decl_public(d: Decl) -> bool {
    match d {
        Decl::TypeDef { public, .. } => public,
        Decl::Scope { public, .. } => public,
        Decl::Other => false,
    }
}

/// Whether the annotation is named `name` and lists `ident` among its
/// arguments. Shared by the capability and the registration checks.
pub fn annotation_has_ident(a: &Annotation, name: &str, ident: &str) -> (r: bool)
    ensures
        r == annotation_carries(*a, name@, ident@),
{
    if !str_eq(a.name.as_str(), name) {
        return false;
    }
    let mut i: usize = 0;
    while i < a.args.len()
        invariant
            i <= a.args.len(),
            a.name@ == name@,
            forall|j: int| 0 <= j < i ==> a.args.deep_view()[j] != ident@,
        decreases a.args.len() - i,
    {
        proof {
            assert(a.args.deep_view()[i as int] == a.args@[i as int]@);
        }
        if str_eq(a.args[i].as_str(), ident) {
            return true;
        }
        i = i + 1;
    }
    false
}

/// Whether some annotation in the list is named `name` and lists `ident`.
pub fn has_annotation_with(attrs: &Vec<Annotation>, name: &str, ident: &str) -> (r: bool)
    ensures
        r == some_annotation_carries(attrs@, name@, ident@),
{
    let mut i: usize = 0;
    while i < attrs.len()
        invariant
            i <= attrs.len(),
            forall|j: int| 0 <= j < i ==> !annotation_carries(attrs@[j], name@, ident@),
        decreases attrs.len() - i,
    {
        if annotation_has_ident(&attrs[i], name, ident) {
            return true;
        }
        i = i + 1;
    }
    false
}

/// The detection predicate on a type definition's annotation list: the
/// `Reflect` and `Component` capabilities are both declared and the
/// `reflect(Component)` registration marker is absent.
pub fn derives_reflect_and_component_but_no_reflect_component(attrs: &Vec<Annotation>) -> (r:
    bool)
    ensures
        r == missing_registration(attrs@),
{
    let reflect_declared = has_annotation_with(attrs, "derive", "Reflect");
    let component_declared = has_annotation_with(attrs, "derive", "Component");
    let registered = has_annotation_with(attrs, "reflect", "Component");
    reflect_declared && component_declared && !registered
}

/// Whether some annotation marks the declaration as test-only.
pub fn has_cfg_test(attrs: &Vec<Annotation>) -> (r: bool)
    ensures
        r == has_test_guard(attrs@),
{
    let mut i: usize = 0;
    while i < attrs.len()
        invariant
            i <= attrs.len(),
            forall|j: int| 0 <= j < i ==> !is_test_guard(attrs@[j]),
        decreases attrs.len() - i,
    {
        if str_eq(attrs[i].name.as_str(), "cfg") && str_contains(attrs[i].raw.as_str(), "test") {
            return true;
        }
        i = i + 1;
    }
    false
}

/// Whether the declaration carries the public visibility modifier.
pub fn is_public(d: &Decl) -> (r: bool)
    ensures
        r == decl_public(*d),
{
    match d {
        Decl::TypeDef { public, .. } => *public,
        Decl::Scope { public, .. } => *public,
        Decl::Other => false,
    }
}

/// Law: the detection predicate is true exactly for the one combination
/// in which both capabilities are declared and the registration marker
/// is absent; on the other seven combinations of the three flags it is
/// false.
pub proof fn lemma_detection_truth_table(attrs: Seq<Annotation>)
    ensures
        missing_registration(attrs) <==> (declares_reflect(attrs) && declares_component(attrs)
            && !has_reflect_component(attrs)),
{
}

} // verus!
