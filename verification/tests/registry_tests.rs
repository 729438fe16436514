use isolate_boot::registry::{ExtensionDescriptor, compose};

fn descriptor(name: &str, deps: Vec<&str>, sources: Vec<&str>, ops: Vec<&str>) -> ExtensionDescriptor {
    ExtensionDescriptor {
        name: name.to_string(),
        deps: deps.into_iter().map(|d| d.to_string()).collect(),
        sources: sources.into_iter().map(|s| s.to_string()).collect(),
        op_names: ops.into_iter().map(|o| o.to_string()).collect(),
        init_requests: Vec::new(),
    }
}

#[test]
fn compose_keeps_the_input_order() {
    let descs = vec![
        descriptor("base", vec![], vec!["globalThis.base = 1;"], vec!["op_base"]),
        descriptor("console", vec!["base"], vec!["console = {};"], vec!["op_print"]),
        descriptor("url", vec!["base"], vec!["URL = {};"], vec!["op_url_parse"]),
    ];
    let registry = match compose(descs) {
        Ok(r) => r,
        Err(e) => panic!("compose failed on {}", e.extension),
    };
    let names: Vec<&str> = registry.descriptors().iter().map(|d| d.name.as_str()).collect();
    assert_eq!(names, vec!["base", "console", "url"]);
}

#[test]
fn compose_rejects_console_before_base() {
    let descs = vec![
        descriptor("Console", vec!["Base"], vec![], vec![]),
        descriptor("Base", vec![], vec![], vec![]),
    ];
    match compose(descs) {
        Ok(_) => panic!("composition must fail"),
        Err(e) => {
            assert_eq!(e.extension, "Console");
            assert_eq!(e.missing_dependency, "Base");
        },
    }
}

#[test]
fn compose_reports_the_first_violation_only() {
    let descs = vec![
        descriptor("a", vec![], vec![], vec![]),
        descriptor("b", vec!["missing_one"], vec![], vec![]),
        descriptor("c", vec!["missing_two"], vec![], vec![]),
    ];
    match compose(descs) {
        Ok(_) => panic!("composition must fail"),
        Err(e) => {
            assert_eq!(e.extension, "b");
            assert_eq!(e.missing_dependency, "missing_one");
        },
    }
}

#[test]
fn compose_rejects_a_self_dependency() {
    let descs = vec![descriptor("solo", vec!["solo"], vec![], vec![])];
    match compose(descs) {
        Ok(_) => panic!("composition must fail"),
        Err(e) => {
            assert_eq!(e.extension, "solo");
            assert_eq!(e.missing_dependency, "solo");
        },
    }
}

#[test]
fn fingerprint_lists_names_in_order() {
    let descs = vec![
        descriptor("webidl", vec![], vec![], vec![]),
        descriptor("console", vec!["webidl"], vec![], vec![]),
    ];
    let registry = compose(descs).ok().unwrap();
    let fp = registry.fingerprint();
    assert_eq!(fp, vec!["webidl".to_string(), "console".to_string()]);
}

#[test]
fn strip_bindings_empties_sources_and_keeps_ops() {
    let descs = vec![
        descriptor("base", vec![], vec!["globalThis.base = 1;"], vec!["op_a", "op_b"]),
        descriptor("console", vec!["base"], vec!["console = {};"], vec!["op_print"]),
    ];
    let registry = compose(descs).ok().unwrap();
    let stripped = registry.strip_bindings();
    assert_eq!(stripped.len(), 2);
    for d in stripped.descriptors().iter() {
        assert!(d.sources.is_empty());
        assert!(d.init_requests.is_empty());
    }
    assert_eq!(stripped.descriptors()[0].op_names, vec!["op_a".to_string(), "op_b".to_string()]);
    assert_eq!(stripped.descriptors()[1].op_names, vec!["op_print".to_string()]);
    assert_eq!(stripped.fingerprint(), registry.fingerprint());
}

#[test]
fn check_ordering_holds_for_every_registry() {
    let descs = vec![descriptor("base", vec![], vec![], vec![])];
    let registry = compose(descs).ok().unwrap();
    assert!(registry.check_ordering());
    assert!(registry.strip_bindings().check_ordering());
}
