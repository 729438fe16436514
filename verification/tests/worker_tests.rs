use isolate_boot::capability::CapabilityAuthority;
use isolate_boot::options::{BootstrapOptions, CliMainWorkerOptions};
use isolate_boot::registry::{ExtensionDescriptor, ValidatedRegistry, compose};
use isolate_boot::snapshot::build;
use isolate_boot::worker::{
    SharedWorkerState, SpawnError, WorkerHost, WorkerOpError, WorkerSpawnRequest, WorkerType,
};

fn descriptor(name: &str, deps: Vec<&str>, sources: Vec<&str>) -> ExtensionDescriptor {
    ExtensionDescriptor {
        name: name.to_string(),
        deps: deps.into_iter().map(|d| d.to_string()).collect(),
        sources: sources.into_iter().map(|s| s.to_string()).collect(),
        op_names: Vec::new(),
        init_requests: Vec::new(),
    }
}

fn sample_registry() -> ValidatedRegistry {
    compose(vec![
        descriptor("base", vec![], vec!["globalThis.base = 1;"]),
        descriptor("channel", vec!["base"], vec!["BroadcastChannel = {};"]),
    ])
    .ok()
    .unwrap()
}

fn shared_state() -> SharedWorkerState {
    SharedWorkerState::new(
        1,
        2,
        3,
        4,
        CliMainWorkerOptions {
            argv: vec!["app".to_string()],
            argv0: Some("app".to_string()),
            skip_op_registration: false,
            maybe_root_package_json_deps: None,
        },
    )
}

fn root_options() -> BootstrapOptions {
    BootstrapOptions {
        args: vec!["app".to_string()],
        locale: "en-US".to_string(),
        user_agent: "Mach/0.0.0".to_string(),
        is_tty: true,
        no_color: false,
        has_node_modules_dir: true,
        node_ipc_fd: Some(9),
    }
}

fn sample_host() -> WorkerHost {
    WorkerHost::new(
        shared_state(),
        sample_registry(),
        None,
        0,
        CapabilityAuthority::PermitAll,
        root_options(),
        "file:///main.js".to_string(),
    )
    .ok()
    .unwrap()
}

fn spawn_request(id: u64, module: &str) -> WorkerSpawnRequest {
    WorkerSpawnRequest {
        worker_id: id,
        main_module: module.to_string(),
        worker_type: WorkerType::Dedicated,
        authority: CapabilityAuthority::PermitAll,
    }
}

#[test]
fn host_starts_with_one_live_root() {
    let host = sample_host();
    assert_eq!(host.worker_count(), 1);
    assert!(host.is_alive(0));
    assert_eq!(host.message_count(), 0);
    assert_eq!(host.shared().argv(), &vec!["app".to_string()]);
}

#[test]
fn nested_chain_observes_the_deepest_publish() {
    let mut host = sample_host();
    assert_eq!(host.spawn(0, spawn_request(1, "file:///w1.js")).ok(), Some(1));
    assert_eq!(host.spawn(1, spawn_request(2, "file:///w2.js")).ok(), Some(2));
    assert_eq!(host.spawn(2, spawn_request(3, "file:///w3.js")).ok(), Some(3));

    for id in [1u64, 2, 3] {
        assert!(host.subscribe(id).is_ok());
    }
    assert!(host.publish(3, "ping".to_string()).is_ok());

    for id in [1u64, 2, 3] {
        let seen = host.observed_messages(id);
        assert_eq!(seen, vec!["ping".to_string()]);
    }
    assert_eq!(host.observed_messages(0), Vec::<String>::new());
}

#[test]
fn spawned_workers_share_the_snapshot() {
    let registry = sample_registry();
    let snap = build(&registry).ok().unwrap();
    let mut host = WorkerHost::new(
        shared_state(),
        registry,
        Some(snap),
        0,
        CapabilityAuthority::PermitAll,
        root_options(),
        "file:///main.js".to_string(),
    )
    .ok()
    .unwrap();
    assert!(host.spawn(0, spawn_request(1, "file:///w1.js")).is_ok());
    assert!(host.spawn(1, spawn_request(2, "file:///w2.js")).is_ok());
    assert_eq!(host.worker_count(), 3);
}

#[test]
fn terminating_a_mid_chain_worker_spares_the_rest() {
    let mut host = sample_host();
    host.spawn(0, spawn_request(1, "file:///w1.js")).ok().unwrap();
    host.spawn(1, spawn_request(2, "file:///w2.js")).ok().unwrap();
    host.spawn(2, spawn_request(3, "file:///w3.js")).ok().unwrap();
    host.spawn(1, spawn_request(4, "file:///sibling.js")).ok().unwrap();

    assert!(host.terminate(2).is_ok());

    assert!(host.is_alive(0));
    assert!(host.is_alive(1));
    assert!(!host.is_alive(2));
    assert!(host.is_alive(3));
    assert!(host.is_alive(4));

    // The shared bundle stays usable by the survivors.
    assert!(host.subscribe(4).is_ok());
    assert!(host.publish(1, "still here".to_string()).is_ok());
    assert_eq!(host.observed_messages(4), vec!["still here".to_string()]);
    assert_eq!(host.shared().fs(), 1);
}

#[test]
fn a_terminated_worker_is_no_delivery_target() {
    let mut host = sample_host();
    host.spawn(0, spawn_request(1, "file:///w1.js")).ok().unwrap();
    host.subscribe(1).ok().unwrap();
    host.subscribe(0).ok().unwrap();
    host.terminate(1).ok().unwrap();
    host.publish(0, "after".to_string()).ok().unwrap();
    assert_eq!(host.observed_messages(1), Vec::<String>::new());
    assert_eq!(host.observed_messages(0), vec!["after".to_string()]);
}

#[test]
fn spawn_rejections_leave_the_hierarchy_alone() {
    let mut host = sample_host();
    assert_eq!(host.spawn(42, spawn_request(1, "file:///w.js")).err(), Some(
        SpawnError::UnknownParent,
    ));
    host.spawn(0, spawn_request(1, "file:///w.js")).ok().unwrap();
    assert_eq!(host.spawn(0, spawn_request(1, "file:///dup.js")).err(), Some(
        SpawnError::DuplicateWorkerId,
    ));
    host.terminate(1).ok().unwrap();
    assert_eq!(host.spawn(1, spawn_request(5, "file:///w5.js")).err(), Some(
        SpawnError::ParentTerminated,
    ));
    assert_eq!(host.worker_count(), 2);
}

#[test]
fn channel_operations_name_their_failures() {
    let mut host = sample_host();
    assert_eq!(host.publish(9, "nobody".to_string()).err(), Some(WorkerOpError::UnknownWorker));
    assert_eq!(host.subscribe(9).err(), Some(WorkerOpError::UnknownWorker));
    host.spawn(0, spawn_request(1, "file:///w.js")).ok().unwrap();
    host.terminate(1).ok().unwrap();
    assert_eq!(host.publish(1, "dead".to_string()).err(), Some(
        WorkerOpError::WorkerTerminated,
    ));
    assert_eq!(host.subscribe(1).err(), Some(WorkerOpError::WorkerTerminated));
    assert_eq!(host.message_count(), 0);
}

#[test]
fn a_worker_inherits_options_but_not_the_pipe() {
    let mut host = sample_host();
    host.spawn(0, spawn_request(1, "file:///w1.js")).ok().unwrap();

    let root = host.worker(0).unwrap();
    assert!(root.parent.is_none());
    assert_eq!(root.isolate.pipe_fd(), Some(9));

    let child = host.worker(1).unwrap();
    assert_eq!(child.parent, Some(0));
    assert_eq!(child.worker_type, WorkerType::Dedicated);
    assert_eq!(child.isolate.main_module(), "file:///w1.js");
    // Inherited from the parent's options.
    assert_eq!(child.isolate.options_ref().args, vec!["app".to_string()]);
    assert_eq!(child.isolate.options_ref().locale, "en-US");
    assert_eq!(child.isolate.options_ref().user_agent, "Mach/0.0.0");
    assert!(child.isolate.options_ref().is_tty);
    // Never handed down.
    assert_eq!(child.isolate.pipe_fd(), None);
    assert!(host.worker(9).is_none());
}

#[test]
fn terminate_unknown_worker_is_an_error() {
    let mut host = sample_host();
    assert_eq!(host.terminate(7).err(), Some(WorkerOpError::UnknownWorker));
    assert_eq!(host.worker_count(), 1);
}
