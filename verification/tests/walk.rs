use reflect_scan::syntax::{Annotation, Decl, SyntaxTree};
use reflect_scan::walker::{collect_reflect_types, qualify};

fn ann(name: &str, args: &[&str]) -> Annotation {
    Annotation {
        name: name.to_string(),
        args: args.iter().map(|s| s.to_string()).collect(),
        raw: args.join(", "),
    }
}

fn qualifying_type(name: &str, public: bool) -> Decl {
    Decl::TypeDef {
        name: name.to_string(),
        public,
        annotations: vec![ann("derive", &["Reflect", "Component"])],
    }
}

fn scope(name: &str, public: bool, annotations: Vec<Annotation>, body: Option<Vec<Decl>>) -> Decl {
    Decl::Scope {
        name: name.to_string(),
        public,
        annotations,
        body,
    }
}

fn walk(tree: &SyntaxTree, public_only: bool) -> Vec<String> {
    let mut found = Vec::new();
    collect_reflect_types(tree, "root", &mut found, public_only, true);
    found
}

#[test]
fn qualifying_public_type_is_reported() {
    let tree = SyntaxTree {
        items: vec![qualifying_type("Gadget", true)],
    };
    assert_eq!(walk(&tree, true), vec!["root::Gadget".to_string()]);
}

#[test]
fn registered_type_is_not_reported() {
    let tree = SyntaxTree {
        items: vec![Decl::TypeDef {
            name: "Gadget".to_string(),
            public: true,
            annotations: vec![
                ann("derive", &["Reflect", "Component"]),
                ann("reflect", &["Component"]),
            ],
        }],
    };
    assert_eq!(walk(&tree, true), Vec::<String>::new());
}

#[test]
fn private_type_is_reported_only_without_the_policy() {
    let tree = SyntaxTree {
        items: vec![qualifying_type("Hidden", false)],
    };
    assert_eq!(walk(&tree, true), Vec::<String>::new());
    assert_eq!(walk(&tree, false), vec!["root::Hidden".to_string()]);
}

#[test]
fn nested_scopes_extend_the_path() {
    let tree = SyntaxTree {
        items: vec![scope(
            "outer",
            true,
            vec![],
            Some(vec![scope(
                "inner",
                true,
                vec![],
                Some(vec![qualifying_type("Gadget", true)]),
            )]),
        )],
    };
    assert_eq!(walk(&tree, true), vec!["root::outer::inner::Gadget".to_string()]);
}

#[test]
fn test_guarded_scope_is_never_reported() {
    // A qualifying, fully public type sits inside a test-guarded scope.
    let tree = SyntaxTree {
        items: vec![scope(
            "guarded",
            true,
            vec![Annotation {
                name: "cfg".to_string(),
                args: vec![],
                raw: "test".to_string(),
            }],
            Some(vec![qualifying_type("Gadget", true)]),
        )],
    };
    assert_eq!(walk(&tree, true), Vec::<String>::new());
    assert_eq!(walk(&tree, false), Vec::<String>::new());
}

#[test]
fn private_ancestor_hides_public_descendants() {
    // outer is private, inner is declared public, the type is public:
    // outer's non-visibility propagates down and excludes the type.
    let tree = SyntaxTree {
        items: vec![scope(
            "outer",
            false,
            vec![],
            Some(vec![scope(
                "inner",
                true,
                vec![],
                Some(vec![qualifying_type("Gadget", true)]),
            )]),
        )],
    };
    assert_eq!(walk(&tree, true), Vec::<String>::new());
    assert_eq!(
        walk(&tree, false),
        vec!["root::outer::inner::Gadget".to_string()]
    );
}

#[test]
fn scope_without_inline_body_yields_nothing() {
    let tree = SyntaxTree {
        items: vec![scope("elsewhere", true, vec![], None)],
    };
    assert_eq!(walk(&tree, true), Vec::<String>::new());
}

#[test]
fn other_declarations_are_ignored() {
    let tree = SyntaxTree {
        items: vec![Decl::Other, qualifying_type("Gadget", true), Decl::Other],
    };
    assert_eq!(walk(&tree, true), vec!["root::Gadget".to_string()]);
}

#[test]
fn findings_accumulate_in_walk_order() {
    let tree = SyntaxTree {
        items: vec![
            qualifying_type("First", true),
            scope(
                "middle",
                true,
                vec![],
                Some(vec![qualifying_type("Second", true)]),
            ),
            qualifying_type("Third", true),
        ],
    };
    assert_eq!(
        walk(&tree, true),
        vec![
            "root::First".to_string(),
            "root::middle::Second".to_string(),
            "root::Third".to_string(),
        ]
    );
}

#[test]
fn qualify_joins_with_separator() {
    assert_eq!(qualify("a::b", "C"), "a::b::C");
}
