use build_driver::signal::{
    cleanup_command, termination_exit_code, ContainerRuntime, ContainerSignalId, SignalRegistry,
};

fn id(path: &str) -> ContainerSignalId {
    ContainerSignalId::new(path.to_owned(), ContainerRuntime::Podman, false)
}

fn swept_paths(registry: &SignalRegistry) -> Vec<String> {
    registry.sweep().into_iter().map(|r| r.cid_file).collect()
}

#[test]
fn sweep_covers_every_registered_container_in_order() {
    let mut registry = SignalRegistry::new();
    registry.register(id("/tmp/a/cid"));
    registry.register(id("/tmp/b/cid"));
    registry.register(id("/tmp/c/cid"));
    assert_eq!(swept_paths(&registry), vec!["/tmp/a/cid", "/tmp/b/cid", "/tmp/c/cid"]);
}

#[test]
fn unregistered_containers_are_untouched_by_a_sweep() {
    let mut registry = SignalRegistry::new();
    registry.register(id("/tmp/a/cid"));
    registry.register(id("/tmp/b/cid"));
    registry.unregister(&id("/tmp/a/cid"));
    assert_eq!(swept_paths(&registry), vec!["/tmp/b/cid"]);
    registry.unregister(&id("/tmp/b/cid"));
    assert_eq!(swept_paths(&registry), Vec::<String>::new());
}

#[test]
fn unregistering_an_unknown_id_changes_nothing() {
    let mut registry = SignalRegistry::new();
    registry.register(id("/tmp/a/cid"));
    registry.unregister(&id("/tmp/unknown/cid"));
    assert_eq!(swept_paths(&registry), vec!["/tmp/a/cid"]);
}

#[test]
fn unregistering_removes_one_occurrence_only() {
    let mut registry = SignalRegistry::new();
    registry.register(id("/tmp/a/cid"));
    registry.register(id("/tmp/a/cid"));
    registry.unregister(&id("/tmp/a/cid"));
    assert_eq!(swept_paths(&registry), vec!["/tmp/a/cid"]);
}

#[test]
fn registrations_differing_only_in_privilege_are_distinct() {
    let mut registry = SignalRegistry::new();
    let privileged = ContainerSignalId::new("/tmp/a/cid".to_owned(), ContainerRuntime::Podman, true);
    registry.register(id("/tmp/a/cid"));
    registry.register(privileged.clone());
    registry.unregister(&privileged);
    let swept = registry.sweep();
    assert_eq!(swept.len(), 1);
    assert!(!swept[0].privileged);
}

#[test]
fn cleanup_commands_are_time_bounded_stops() {
    assert_eq!(
        cleanup_command(ContainerRuntime::Podman, "0123abcd"),
        vec!["podman", "stop", "-t", "2", "0123abcd"]
    );
    assert_eq!(
        cleanup_command(ContainerRuntime::Docker, "0123abcd"),
        vec!["docker", "stop", "-t", "2", "0123abcd"]
    );
}

#[test]
fn signal_aborts_exit_non_zero() {
    assert_ne!(termination_exit_code(), 0);
}
