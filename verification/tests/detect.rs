use reflect_scan::syntax::{
    annotation_has_ident, derives_reflect_and_component_but_no_reflect_component, has_cfg_test,
    is_public, Annotation, Decl,
};

fn ann(name: &str, args: &[&str]) -> Annotation {
    Annotation {
        name: name.to_string(),
        args: args.iter().map(|s| s.to_string()).collect(),
        raw: args.join(", "),
    }
}

fn attrs_for(declares_reflect: bool, declares_component: bool, registered: bool) -> Vec<Annotation> {
    let mut attrs = Vec::new();
    let mut derive_args: Vec<&str> = vec!["Debug"];
    if declares_reflect {
        derive_args.push("Reflect");
    }
    if declares_component {
        derive_args.push("Component");
    }
    attrs.push(ann("derive", &derive_args));
    if registered {
        attrs.push(ann("reflect", &["Component"]));
    }
    attrs
}

#[test]
fn detection_truth_table() {
    for mask in 0..8u32 {
        let declares_reflect = mask & 1 != 0;
        let declares_component = mask & 2 != 0;
        let registered = mask & 4 != 0;
        let attrs = attrs_for(declares_reflect, declares_component, registered);
        let expected = declares_reflect && declares_component && !registered;
        assert_eq!(
            derives_reflect_and_component_but_no_reflect_component(&attrs),
            expected,
            "flags: {} {} {}",
            declares_reflect,
            declares_component,
            registered
        );
    }
}

#[test]
fn detection_across_separate_derive_lists() {
    let attrs = vec![ann("derive", &["Reflect"]), ann("derive", &["Component"])];
    assert!(derives_reflect_and_component_but_no_reflect_component(&attrs));
}

#[test]
fn registration_in_any_position_suppresses() {
    let attrs = vec![
        ann("reflect", &["Component"]),
        ann("derive", &["Reflect", "Component"]),
    ];
    assert!(!derives_reflect_and_component_but_no_reflect_component(&attrs));
}

#[test]
fn reflect_annotation_with_other_ident_does_not_register() {
    let attrs = vec![
        ann("derive", &["Reflect", "Component"]),
        ann("reflect", &["Resource"]),
    ];
    assert!(derives_reflect_and_component_but_no_reflect_component(&attrs));
}

#[test]
fn annotation_ident_lookup() {
    let a = ann("derive", &["Reflect", "Component"]);
    assert!(annotation_has_ident(&a, "derive", "Reflect"));
    assert!(annotation_has_ident(&a, "derive", "Component"));
    assert!(!annotation_has_ident(&a, "derive", "Resource"));
    assert!(!annotation_has_ident(&a, "reflect", "Component"));
}

#[test]
fn cfg_test_is_a_substring_match() {
    let guarded = vec![Annotation {
        name: "cfg".to_string(),
        args: vec![],
        raw: "test".to_string(),
    }];
    assert!(has_cfg_test(&guarded));

    let composite = vec![Annotation {
        name: "cfg".to_string(),
        args: vec![],
        raw: "all(test, feature = \"extra\")".to_string(),
    }];
    assert!(has_cfg_test(&composite));

    let other_name = vec![Annotation {
        name: "allow".to_string(),
        args: vec![],
        raw: "test".to_string(),
    }];
    assert!(!has_cfg_test(&other_name));

    let other_tokens = vec![Annotation {
        name: "cfg".to_string(),
        args: vec![],
        raw: "feature = \"serialize\"".to_string(),
    }];
    assert!(!has_cfg_test(&other_tokens));
}

#[test]
fn visibility_of_declarations() {
    let public_type = Decl::TypeDef {
        name: "Gadget".to_string(),
        public: true,
        annotations: vec![],
    };
    let private_scope = Decl::Scope {
        name: "inner".to_string(),
        public: false,
        annotations: vec![],
        body: None,
    };
    assert!(is_public(&public_type));
    assert!(!is_public(&private_scope));
    assert!(!is_public(&Decl::Other));
}
