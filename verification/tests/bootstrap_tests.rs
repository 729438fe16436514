use isolate_boot::bootstrap::{RunError, ScriptOutcome, StartError, start};
use isolate_boot::capability::{CapabilityAuthority, CapabilityKind, CapabilityRequest};
use isolate_boot::options::BootstrapOptions;
use isolate_boot::registry::{ExtensionDescriptor, ValidatedRegistry, compose};
use isolate_boot::snapshot::{Snapshot, build};

fn descriptor(name: &str, deps: Vec<&str>, sources: Vec<&str>, ops: Vec<&str>) -> ExtensionDescriptor {
    ExtensionDescriptor {
        name: name.to_string(),
        deps: deps.into_iter().map(|d| d.to_string()).collect(),
        sources: sources.into_iter().map(|s| s.to_string()).collect(),
        op_names: ops.into_iter().map(|o| o.to_string()).collect(),
        init_requests: Vec::new(),
    }
}

fn sample_registry() -> ValidatedRegistry {
    let descs = vec![
        descriptor("base", vec![], vec!["globalThis.base = 1;"], vec!["op_base"]),
        descriptor(
            "console",
            vec!["base"],
            vec!["console = {};"],
            vec!["op_print", "op_error"],
        ),
    ];
    compose(descs).ok().unwrap()
}

fn options() -> BootstrapOptions {
    BootstrapOptions {
        args: vec!["app".to_string()],
        locale: "en-US".to_string(),
        user_agent: "Mach/0.0.0".to_string(),
        is_tty: false,
        no_color: true,
        has_node_modules_dir: false,
        node_ipc_fd: Some(7),
    }
}

#[test]
fn cold_start_registers_ops_and_evaluates_sources() {
    let registry = sample_registry();
    let iso = start(
        &registry,
        CapabilityAuthority::PermitAll,
        options(),
        None,
        "file:///main.js".to_string(),
    )
    .ok()
    .unwrap();
    assert!(iso.was_cold_started());
    assert_eq!(
        iso.op_names(),
        &vec!["op_base".to_string(), "op_print".to_string(), "op_error".to_string()]
    );
    assert_eq!(
        iso.binding_fragments(),
        &vec!["globalThis.base = 1;".to_string(), "console = {};".to_string()]
    );
    assert_eq!(iso.pipe_fd(), Some(7));
    assert_eq!(iso.main_module(), "file:///main.js");
    assert!(!iso.is_completed());
}

#[test]
fn snapshot_start_matches_cold_start() {
    let registry = sample_registry();
    let snap = build(&registry).ok().unwrap();

    let cold = start(
        &registry,
        CapabilityAuthority::PermitAll,
        options(),
        None,
        "file:///main.js".to_string(),
    )
    .ok()
    .unwrap();

    let stripped = registry.strip_bindings();
    let warm = start(
        &stripped,
        CapabilityAuthority::PermitAll,
        options(),
        Some(&snap),
        "file:///main.js".to_string(),
    )
    .ok()
    .unwrap();

    assert!(cold.was_cold_started());
    assert!(!warm.was_cold_started());
    assert_eq!(warm.binding_fragments(), cold.binding_fragments());
    assert_eq!(warm.op_names(), cold.op_names());
}

#[test]
fn mismatched_fingerprint_fails_before_anything_runs() {
    let registry = sample_registry();
    let other = compose(vec![descriptor("base", vec![], vec![], vec![])]).ok().unwrap();
    let stale = build(&other).ok().unwrap();
    let r = start(
        &registry,
        CapabilityAuthority::PermitAll,
        options(),
        Some(&stale),
        "file:///main.js".to_string(),
    );
    match r {
        Ok(_) => panic!("start must fail on a stale snapshot"),
        Err(e) => assert_eq!(e, StartError::FingerprintMismatch),
    }
}

#[test]
fn reordered_fingerprint_is_a_mismatch() {
    let registry = sample_registry();
    let snap = build(&registry).ok().unwrap();
    let reordered = Snapshot {
        fingerprint: vec!["console".to_string(), "base".to_string()],
        bindings: snap.bindings,
    };
    let r = start(
        &registry,
        CapabilityAuthority::PermitAll,
        options(),
        Some(&reordered),
        "file:///main.js".to_string(),
    );
    assert!(r.is_err());
}

#[test]
fn terminal_result_propagates() {
    let registry = sample_registry();
    let mut iso = start(
        &registry,
        CapabilityAuthority::PermitAll,
        options(),
        None,
        "file:///main.js".to_string(),
    )
    .ok()
    .unwrap();
    let r = iso.finish_run(ScriptOutcome::Completed);
    assert!(r.is_ok());
    assert!(iso.is_completed());

    let mut failing = start(
        &registry,
        CapabilityAuthority::PermitAll,
        options(),
        None,
        "file:///bad.js".to_string(),
    )
    .ok()
    .unwrap();
    match failing.finish_run(ScriptOutcome::Uncaught { message: "boom".to_string() }) {
        Ok(()) => panic!("an uncaught exception must propagate"),
        Err(RunError::Uncaught { message }) => assert_eq!(message, "boom"),
    }
}

#[test]
fn capability_gate_follows_the_isolate_authority() {
    let registry = sample_registry();
    let iso = start(
        &registry,
        CapabilityAuthority::DenyAll,
        options(),
        None,
        "file:///main.js".to_string(),
    )
    .ok()
    .unwrap();
    let d = iso.request_capability(&CapabilityRequest {
        kind: CapabilityKind::FilesystemRead,
        target: Some("/etc/passwd".to_string()),
        op_name: "readFile".to_string(),
    });
    assert!(d.is_deny());
    assert!(!d.reason_text().is_empty());
}
