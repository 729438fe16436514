use isolate_boot::capability::{CapabilityKind, CapabilityRequest};
use isolate_boot::registry::{ExtensionDescriptor, compose};
use isolate_boot::snapshot::{BuildError, build, fingerprint_matches, load};

fn descriptor(name: &str, deps: Vec<&str>, sources: Vec<&str>) -> ExtensionDescriptor {
    ExtensionDescriptor {
        name: name.to_string(),
        deps: deps.into_iter().map(|d| d.to_string()).collect(),
        sources: sources.into_iter().map(|s| s.to_string()).collect(),
        op_names: Vec::new(),
        init_requests: Vec::new(),
    }
}

#[test]
fn build_records_fingerprint_and_bindings() {
    let descs = vec![
        descriptor("base", vec![], vec!["globalThis.base = 1;"]),
        descriptor("console", vec!["base"], vec!["console = {};", "console.log = op_print;"]),
    ];
    let registry = compose(descs).ok().unwrap();
    let snap = match build(&registry) {
        Ok(s) => s,
        Err(_) => panic!("build must succeed"),
    };
    assert_eq!(snap.fingerprint, vec!["base".to_string(), "console".to_string()]);
    assert_eq!(
        snap.bindings,
        vec![
            "globalThis.base = 1;".to_string(),
            "console = {};".to_string(),
            "console.log = op_print;".to_string(),
        ]
    );
}

#[test]
fn build_fails_on_a_privileged_touch() {
    let mut net = descriptor("net", vec![], vec!["connect();"]);
    net.init_requests.push(CapabilityRequest {
        kind: CapabilityKind::NetworkUrl,
        target: Some("https://example.com".to_string()),
        op_name: "connect".to_string(),
    });
    let descs = vec![descriptor("base", vec![], vec![]), net];
    let registry = compose(descs).ok().unwrap();
    match build(&registry) {
        Ok(_) => panic!("build must fail"),
        Err(BuildError::PrivilegedTouch { extension, reason }) => {
            assert_eq!(extension, "net");
            assert_eq!(reason, "permission checks are unreachable in this context");
        },
    }
}

#[test]
fn load_keeps_the_recorded_parts() {
    let snap = load(
        vec!["base".to_string()],
        vec!["globalThis.base = 1;".to_string()],
    );
    assert_eq!(snap.fingerprint, vec!["base".to_string()]);
    assert_eq!(snap.bindings, vec!["globalThis.base = 1;".to_string()]);
}

#[test]
fn fingerprint_comparison_is_bit_exact() {
    let a = vec!["base".to_string(), "console".to_string()];
    let b = vec!["base".to_string(), "console".to_string()];
    let c = vec!["console".to_string(), "base".to_string()];
    let d = vec!["base".to_string()];
    assert!(fingerprint_matches(&a, &b));
    assert!(!fingerprint_matches(&a, &c));
    assert!(!fingerprint_matches(&a, &d));
}
