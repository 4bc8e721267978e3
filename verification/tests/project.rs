use reflect_scan::modpath::UnitMeta;
use reflect_scan::pipeline::{build_module_tree, collect_project_reflect_types, ParsedFile};
use reflect_scan::syntax::{Annotation, Decl, SyntaxTree};

fn segs(parts: &[&str]) -> Vec<String> {
    parts.iter().map(|s| s.to_string()).collect()
}

fn ann(name: &str, args: &[&str]) -> Annotation {
    Annotation {
        name: name.to_string(),
        args: args.iter().map(|s| s.to_string()).collect(),
        raw: args.join(", "),
    }
}

fn gadget_file(registered: bool) -> SyntaxTree {
    let mut annotations = vec![ann("derive", &["Reflect", "Component"])];
    if registered {
        annotations.push(ann("reflect", &["Component"]));
    }
    SyntaxTree {
        items: vec![Decl::TypeDef {
            name: "Gadget".to_string(),
            public: true,
            annotations,
        }],
    }
}

fn run(files: Vec<(Vec<String>, SyntaxTree)>, units: &Vec<UnitMeta>) -> Vec<String> {
    let mut store: Vec<ParsedFile> = Vec::new();
    for (path, tree) in files {
        build_module_tree(path, tree, &mut store);
    }
    collect_project_reflect_types(&store, units, true)
}

#[test]
fn end_to_end_missing_registration_is_the_only_finding() {
    let units: Vec<UnitMeta> = Vec::new();
    let findings = run(
        vec![(segs(&["src", "widgets.rs"]), gadget_file(false))],
        &units,
    );
    assert_eq!(findings, vec!["widgets::Gadget".to_string()]);
}

#[test]
fn end_to_end_registration_empties_the_findings() {
    let units: Vec<UnitMeta> = Vec::new();
    let findings = run(
        vec![(segs(&["src", "widgets.rs"]), gadget_file(true))],
        &units,
    );
    assert_eq!(findings, Vec::<String>::new());
}

#[test]
fn unresolved_files_are_silently_skipped() {
    let units: Vec<UnitMeta> = Vec::new();
    let findings = run(
        vec![
            (segs(&["build", "gen.rs"]), gadget_file(false)),
            (segs(&["src", "widgets.rs"]), gadget_file(false)),
        ],
        &units,
    );
    assert_eq!(findings, vec!["widgets::Gadget".to_string()]);
}

#[test]
fn duplicate_paths_yield_duplicate_findings() {
    let units: Vec<UnitMeta> = Vec::new();
    let findings = run(
        vec![
            (segs(&["src", "widgets.rs"]), gadget_file(false)),
            (segs(&["src", "widgets.rs"]), gadget_file(false)),
        ],
        &units,
    );
    assert_eq!(
        findings,
        vec!["widgets::Gadget".to_string(), "widgets::Gadget".to_string()]
    );
}

#[test]
fn findings_set_does_not_depend_on_discovery_order() {
    let units: Vec<UnitMeta> = Vec::new();
    let forward = run(
        vec![
            (segs(&["src", "widgets.rs"]), gadget_file(false)),
            (segs(&["src", "sprockets.rs"]), gadget_file(false)),
        ],
        &units,
    );
    let backward = run(
        vec![
            (segs(&["src", "sprockets.rs"]), gadget_file(false)),
            (segs(&["src", "widgets.rs"]), gadget_file(false)),
        ],
        &units,
    );
    let mut forward_sorted = forward.clone();
    forward_sorted.sort();
    let mut backward_sorted = backward.clone();
    backward_sorted.sort();
    assert_eq!(forward_sorted, backward_sorted);
    assert_eq!(forward.len(), 2);
}

#[test]
fn dependency_file_is_reported_under_its_unit() {
    let units = vec![UnitMeta {
        name: "bevy_core".to_string(),
        manifest_path: segs(&["/", "deps", "bevy_core", "Cargo.toml"]),
    }];
    let findings = run(
        vec![(
            segs(&["/", "deps", "bevy_core", "src", "name.rs"]),
            gadget_file(false),
        )],
        &units,
    );
    assert_eq!(findings, vec!["bevy_core::src::name::Gadget".to_string()]);
}
