use workspaces::backend::{MemVolumeBackend, VolumeBackend};
use workspaces::engine::{clean, create, expire, extend, filesystems, list, rename};
use workspaces::errors::LifecycleError;
use workspaces::config::Filesystem;
use workspaces::policy::Actor;
use workspaces::schedule::WsState;
use workspaces::store::{MemStore, Store};

const DAY: i64 = 86400;
const NOW: i64 = 1_700_000_000;

fn pool() -> Filesystem {
    Filesystem {
        name: String::from("p"),
        root: String::from("tank/workspaces"),
        max_duration: 90,
        expired_retention: 7,
        disabled: false,
    }
}

fn alice() -> Actor {
    Actor { name: String::from("alice"), privileged: false }
}

fn root_actor() -> Actor {
    Actor { name: String::from("root"), privileged: true }
}

#[test]
fn create_returns_mountpoint_and_provisions_volume() {
    let mut store = MemStore::new();
    let mut backend = MemVolumeBackend::new();
    let fs = pool();
    let m = create(&mut store, &mut backend, &fs, "alice", "ws1", 10, &alice(), NOW).unwrap();
    assert_eq!(m, "/tank/workspaces/alice/ws1");
    assert!(backend.has_volume("tank/workspaces/alice/ws1"));
    assert_eq!(backend.readonly_flag("tank/workspaces/alice/ws1"), Some(false));
    assert_eq!(store.get_expiration("p", "alice", "ws1"), Some(NOW + 10 * DAY));
}

#[test]
fn second_create_with_same_key_conflicts() {
    let mut store = MemStore::new();
    let mut backend = MemVolumeBackend::new();
    let fs = pool();
    create(&mut store, &mut backend, &fs, "alice", "ws1", 10, &alice(), NOW).unwrap();
    let again = create(&mut store, &mut backend, &fs, "alice", "ws1", 20, &alice(), NOW + 5);
    assert_eq!(again, Err(LifecycleError::WorkspaceExists));
    // exactly one record and one volume remain
    let records = store.list_records(&None, &None);
    assert_eq!(records.len(), 1);
    assert_eq!(store.get_expiration("p", "alice", "ws1"), Some(NOW + 10 * DAY));
    assert!(backend.has_volume("tank/workspaces/alice/ws1"));
}

#[test]
fn extend_converges_to_larger_duration_in_either_order() {
    let fs = pool();
    for (d1, d2) in [(5i64, 20i64), (20, 5)] {
        let mut store = MemStore::new();
        let mut backend = MemVolumeBackend::new();
        create(&mut store, &mut backend, &fs, "alice", "ws1", 1, &alice(), NOW).unwrap();
        extend(&mut store, &mut backend, &fs, "alice", "ws1", d1, &alice(), NOW).unwrap();
        extend(&mut store, &mut backend, &fs, "alice", "ws1", d2, &alice(), NOW).unwrap();
        assert_eq!(store.get_expiration("p", "alice", "ws1"), Some(NOW + 20 * DAY));
    }
}

#[test]
fn extend_never_regresses() {
    let mut store = MemStore::new();
    let mut backend = MemVolumeBackend::new();
    let fs = pool();
    create(&mut store, &mut backend, &fs, "alice", "ws1", 30, &alice(), NOW).unwrap();
    extend(&mut store, &mut backend, &fs, "alice", "ws1", 5, &alice(), NOW).unwrap();
    assert_eq!(store.get_expiration("p", "alice", "ws1"), Some(NOW + 30 * DAY));
}

#[test]
fn expire_then_extend_restores_writability_and_touches_only_target() {
    let mut store = MemStore::new();
    let mut backend = MemVolumeBackend::new();
    let fs = pool();
    create(&mut store, &mut backend, &fs, "alice", "ws1", 10, &alice(), NOW).unwrap();
    create(&mut store, &mut backend, &fs, "alice", "ws2", 10, &alice(), NOW).unwrap();
    expire(&mut store, &mut backend, &fs, "alice", "ws1", &alice(), false, NOW + DAY).unwrap();
    assert_eq!(backend.readonly_flag("tank/workspaces/alice/ws1"), Some(true));
    extend(&mut store, &mut backend, &fs, "alice", "ws1", 15, &alice(), NOW + DAY).unwrap();
    assert_eq!(backend.readonly_flag("tank/workspaces/alice/ws1"), Some(false));
    assert_eq!(store.get_expiration("p", "alice", "ws1"), Some(NOW + DAY + 15 * DAY));
    // the sibling workspace is untouched
    assert_eq!(store.get_expiration("p", "alice", "ws2"), Some(NOW + 10 * DAY));
    assert_eq!(backend.readonly_flag("tank/workspaces/alice/ws2"), Some(false));
}

#[test]
fn grace_record_is_reported_readonly_and_kept_then_deleted_once() {
    let mut store = MemStore::new();
    let mut backend = MemVolumeBackend::new();
    let fs = pool();
    let config = workspaces::config::Config {
        default_filesystem: None,
        filesystems: vec![pool()],
    };
    create(&mut store, &mut backend, &fs, "alice", "ws1", 10, &alice(), NOW).unwrap();
    // expired, within the 7-day retention: grace
    let in_grace = NOW + 11 * DAY;
    let rows = list(&store, &config, &None, &None, in_grace);
    assert_eq!(rows.len(), 1);
    assert_eq!(rows[0].state, WsState::Grace);
    clean(&mut store, &mut backend, &config, in_grace);
    assert!(store.get_expiration("p", "alice", "ws1").is_some());
    assert!(backend.has_volume("tank/workspaces/alice/ws1"));
    assert_eq!(backend.readonly_flag("tank/workspaces/alice/ws1"), Some(true));
    // past expiration + retention: one clean destroys and removes
    let past_retention = NOW + 18 * DAY;
    clean(&mut store, &mut backend, &config, past_retention);
    assert_eq!(store.get_expiration("p", "alice", "ws1"), None);
    assert!(!backend.has_volume("tank/workspaces/alice/ws1"));
    // a repeated clean is a no-op for that key
    clean(&mut store, &mut backend, &config, past_retention);
    assert_eq!(store.get_expiration("p", "alice", "ws1"), None);
    assert!(!backend.has_volume("tank/workspaces/alice/ws1"));
    assert_eq!(store.list_records(&None, &None).len(), 0);
}

#[test]
fn clean_keeps_record_when_volume_destroy_fails() {
    let mut store = MemStore::new();
    let mut backend = MemVolumeBackend::new();
    let fs = pool();
    let config = workspaces::config::Config {
        default_filesystem: None,
        filesystems: vec![pool()],
    };
    create(&mut store, &mut backend, &fs, "alice", "ws1", 1, &alice(), NOW).unwrap();
    // the volume disappears behind the engine's back; destroy will fail
    backend.destroy("tank/workspaces/alice/ws1").unwrap();
    clean(&mut store, &mut backend, &config, NOW + 30 * DAY);
    // metadata is never deleted while the destroy has not succeeded
    assert!(store.get_expiration("p", "alice", "ws1").is_some());
}

#[test]
fn foreign_owner_is_rejected_before_any_mutation() {
    let mut store = MemStore::new();
    let mut backend = MemVolumeBackend::new();
    let fs = pool();
    let bob = Actor { name: String::from("bob"), privileged: false };
    create(&mut store, &mut backend, &fs, "alice", "ws1", 10, &alice(), NOW).unwrap();

    let r = create(&mut store, &mut backend, &fs, "alice", "ws2", 10, &bob, NOW);
    assert_eq!(r, Err(LifecycleError::InsufficientPrivileges));
    let r = rename(&mut store, &mut backend, &fs, "alice", "ws1", "ws9", &bob);
    assert_eq!(r, Err(LifecycleError::InsufficientPrivileges));
    let r = extend(&mut store, &mut backend, &fs, "alice", "ws1", 50, &bob, NOW);
    assert_eq!(r, Err(LifecycleError::InsufficientPrivileges));

    // nothing was touched
    assert_eq!(store.list_records(&None, &None).len(), 1);
    assert_eq!(store.get_expiration("p", "alice", "ws1"), Some(NOW + 10 * DAY));
    assert!(!backend.has_volume("tank/workspaces/alice/ws2"));
    assert!(backend.has_volume("tank/workspaces/alice/ws1"));
    assert_eq!(backend.readonly_flag("tank/workspaces/alice/ws1"), Some(false));
}

#[test]
fn privileged_actor_may_act_on_any_owner() {
    let mut store = MemStore::new();
    let mut backend = MemVolumeBackend::new();
    let fs = pool();
    create(&mut store, &mut backend, &fs, "alice", "ws1", 10, &root_actor(), NOW).unwrap();
    extend(&mut store, &mut backend, &fs, "alice", "ws1", 20, &root_actor(), NOW).unwrap();
    assert_eq!(store.get_expiration("p", "alice", "ws1"), Some(NOW + 20 * DAY));
}

#[test]
fn scenario_ninety_day_filesystem() {
    // max_duration = 90d, expired_retention = 7d
    let mut store = MemStore::new();
    let mut backend = MemVolumeBackend::new();
    let fs = pool();
    let config = workspaces::config::Config {
        default_filesystem: None,
        filesystems: vec![pool()],
    };
    create(&mut store, &mut backend, &fs, "alice", "ws1", 10, &alice(), NOW).unwrap();
    assert!(backend.has_volume("tank/workspaces/alice/ws1"));
    assert_eq!(store.get_expiration("p", "alice", "ws1"), Some(NOW + 10 * DAY));
    // at now + 11d: listed as grace, volume read-only after the sweep
    let rows = list(&store, &config, &None, &None, NOW + 11 * DAY);
    assert_eq!(rows.len(), 1);
    assert_eq!(rows[0].state, WsState::Grace);
    clean(&mut store, &mut backend, &config, NOW + 11 * DAY);
    assert_eq!(backend.readonly_flag("tank/workspaces/alice/ws1"), Some(true));
    // at now + 18d: the sweep destroys the volume and deletes the record
    clean(&mut store, &mut backend, &config, NOW + 18 * DAY);
    assert!(!backend.has_volume("tank/workspaces/alice/ws1"));
    assert_eq!(store.get_expiration("p", "alice", "ws1"), None);
}

#[test]
fn scenario_duration_cap_binds_only_unprivileged() {
    let mut store = MemStore::new();
    let mut backend = MemVolumeBackend::new();
    let fs = pool();
    let r = create(&mut store, &mut backend, &fs, "alice", "ws1", 100, &alice(), NOW);
    assert_eq!(r, Err(LifecycleError::TooHighDuration));
    assert_eq!(store.list_records(&None, &None).len(), 0);
    assert!(!backend.has_volume("tank/workspaces/alice/ws1"));
    // the identical call as a privileged actor succeeds
    create(&mut store, &mut backend, &fs, "alice", "ws1", 100, &root_actor(), NOW).unwrap();
    assert_eq!(store.get_expiration("p", "alice", "ws1"), Some(NOW + 100 * DAY));
}

#[test]
fn disabled_filesystem_rejects_create_and_extend() {
    let mut store = MemStore::new();
    let mut backend = MemVolumeBackend::new();
    let mut fs = pool();
    fs.disabled = true;
    let r = create(&mut store, &mut backend, &fs, "alice", "ws1", 10, &alice(), NOW);
    assert_eq!(r, Err(LifecycleError::FilesystemDisabled));
    // privileged bypasses the disabled flag
    create(&mut store, &mut backend, &fs, "alice", "ws1", 10, &root_actor(), NOW).unwrap();
    let r = extend(&mut store, &mut backend, &fs, "alice", "ws1", 10, &alice(), NOW);
    assert_eq!(r, Err(LifecycleError::FilesystemDisabled));
}

#[test]
fn rename_moves_record_and_volume() {
    let mut store = MemStore::new();
    let mut backend = MemVolumeBackend::new();
    let fs = pool();
    create(&mut store, &mut backend, &fs, "alice", "ws1", 10, &alice(), NOW).unwrap();
    rename(&mut store, &mut backend, &fs, "alice", "ws1", "ws2", &alice()).unwrap();
    assert_eq!(store.get_expiration("p", "alice", "ws1"), None);
    assert_eq!(store.get_expiration("p", "alice", "ws2"), Some(NOW + 10 * DAY));
    assert!(!backend.has_volume("tank/workspaces/alice/ws1"));
    assert!(backend.has_volume("tank/workspaces/alice/ws2"));
}

#[test]
fn rename_to_existing_name_conflicts() {
    let mut store = MemStore::new();
    let mut backend = MemVolumeBackend::new();
    let fs = pool();
    create(&mut store, &mut backend, &fs, "alice", "ws1", 10, &alice(), NOW).unwrap();
    create(&mut store, &mut backend, &fs, "alice", "ws2", 20, &alice(), NOW).unwrap();
    let r = rename(&mut store, &mut backend, &fs, "alice", "ws1", "ws2", &alice());
    assert_eq!(r, Err(LifecycleError::WorkspaceExists));
    assert_eq!(store.get_expiration("p", "alice", "ws1"), Some(NOW + 10 * DAY));
    assert_eq!(store.get_expiration("p", "alice", "ws2"), Some(NOW + 20 * DAY));
}

#[test]
fn rename_of_missing_workspace_is_unknown() {
    let mut store = MemStore::new();
    let mut backend = MemVolumeBackend::new();
    let fs = pool();
    let r = rename(&mut store, &mut backend, &fs, "alice", "nope", "ws2", &alice());
    assert_eq!(r, Err(LifecycleError::UnknownWorkspace));
}

#[test]
fn extend_and_expire_of_missing_workspace_are_unknown() {
    let mut store = MemStore::new();
    let mut backend = MemVolumeBackend::new();
    let fs = pool();
    let r = extend(&mut store, &mut backend, &fs, "alice", "nope", 5, &alice(), NOW);
    assert_eq!(r, Err(LifecycleError::UnknownWorkspace));
    let r = expire(&mut store, &mut backend, &fs, "alice", "nope", &alice(), false, NOW);
    assert_eq!(r, Err(LifecycleError::UnknownWorkspace));
}

#[test]
fn expire_terminally_lets_next_clean_delete() {
    let mut store = MemStore::new();
    let mut backend = MemVolumeBackend::new();
    let fs = pool();
    let config = workspaces::config::Config {
        default_filesystem: None,
        filesystems: vec![pool()],
    };
    create(&mut store, &mut backend, &fs, "alice", "ws1", 30, &alice(), NOW).unwrap();
    expire(&mut store, &mut backend, &fs, "alice", "ws1", &alice(), true, NOW).unwrap();
    // the expiration is pushed a whole retention window into the past
    assert_eq!(store.get_expiration("p", "alice", "ws1"), Some(NOW - 7 * DAY));
    clean(&mut store, &mut backend, &config, NOW + 1);
    assert_eq!(store.get_expiration("p", "alice", "ws1"), None);
    assert!(!backend.has_volume("tank/workspaces/alice/ws1"));
}

#[test]
fn expire_without_flag_starts_grace() {
    let mut store = MemStore::new();
    let mut backend = MemVolumeBackend::new();
    let fs = pool();
    let config = workspaces::config::Config {
        default_filesystem: None,
        filesystems: vec![pool()],
    };
    create(&mut store, &mut backend, &fs, "alice", "ws1", 30, &alice(), NOW).unwrap();
    expire(&mut store, &mut backend, &fs, "alice", "ws1", &alice(), false, NOW).unwrap();
    assert_eq!(store.get_expiration("p", "alice", "ws1"), Some(NOW));
    assert_eq!(backend.readonly_flag("tank/workspaces/alice/ws1"), Some(true));
    // still in the grace window: the sweep keeps it
    clean(&mut store, &mut backend, &config, NOW + 1);
    assert!(store.get_expiration("p", "alice", "ws1").is_some());
    assert!(backend.has_volume("tank/workspaces/alice/ws1"));
}

#[test]
fn list_reports_volume_path_state_and_days() {
    let mut store = MemStore::new();
    let mut backend = MemVolumeBackend::new();
    let fs = pool();
    let config = workspaces::config::Config {
        default_filesystem: None,
        filesystems: vec![pool()],
    };
    create(&mut store, &mut backend, &fs, "alice", "ws1", 10, &alice(), NOW).unwrap();
    let rows = list(&store, &config, &None, &None, NOW + DAY / 2);
    assert_eq!(rows.len(), 1);
    assert_eq!(rows[0].filesystem, "p");
    assert_eq!(rows[0].user, "alice");
    assert_eq!(rows[0].name, "ws1");
    assert_eq!(rows[0].volume, "tank/workspaces/alice/ws1");
    assert_eq!(rows[0].state, WsState::Active);
    // 9.5 days to expiry, truncated to whole days
    assert_eq!(rows[0].days, 9);
    // in the grace window: 6.5 days to deletion
    let rows = list(&store, &config, &None, &None, NOW + 10 * DAY + DAY / 2);
    assert_eq!(rows[0].state, WsState::Grace);
    assert_eq!(rows[0].days, 6);
}

#[test]
fn list_filters_by_user_and_filesystem() {
    let mut store = MemStore::new();
    let mut backend = MemVolumeBackend::new();
    let fs = pool();
    let config = workspaces::config::Config {
        default_filesystem: None,
        filesystems: vec![pool()],
    };
    create(&mut store, &mut backend, &fs, "alice", "ws1", 10, &root_actor(), NOW).unwrap();
    create(&mut store, &mut backend, &fs, "bob", "ws2", 10, &root_actor(), NOW).unwrap();
    let rows = list(&store, &config, &Some(vec![String::from("bob")]), &None, NOW);
    assert_eq!(rows.len(), 1);
    assert_eq!(rows[0].user, "bob");
    let rows = list(&store, &config, &None, &Some(vec![String::from("q")]), NOW);
    assert_eq!(rows.len(), 0);
}

#[test]
fn filesystems_report_mirrors_configuration() {
    let mut backend = MemVolumeBackend::new();
    let config = workspaces::config::Config {
        default_filesystem: None,
        filesystems: vec![pool()],
    };
    // the report reads usage from the filesystem root, which must exist
    backend.create("tank/workspaces").unwrap();
    let rows = filesystems(&backend, &config).unwrap();
    assert_eq!(rows.len(), 1);
    assert_eq!(rows[0].name, "p");
    assert_eq!(rows[0].max_duration, 90);
    assert_eq!(rows[0].expired_retention, 7);
    assert!(!rows[0].disabled);
    assert_eq!(rows[0].total, rows[0].used.saturating_add(rows[0].available));
}

#[test]
fn filesystems_report_surfaces_backend_failure() {
    let backend = MemVolumeBackend::new();
    let config = workspaces::config::Config {
        default_filesystem: None,
        filesystems: vec![pool()],
    };
    // no root volume exists, so the usage query fails
    let r = filesystems(&backend, &config);
    assert!(matches!(r, Err(LifecycleError::Backend(_))));
}

#[test]
fn filesystems_report_of_empty_configuration_succeeds() {
    let backend = MemVolumeBackend::new();
    let config = workspaces::config::Config { default_filesystem: None, filesystems: vec![] };
    let rows = filesystems(&backend, &config).unwrap();
    assert_eq!(rows.len(), 0);
}

#[test]
fn clean_makes_grace_volumes_readonly_without_an_expire() {
    // a workspace can drift into grace without anyone calling expire;
    // the sweep alone must turn its volume read-only
    let mut store = MemStore::new();
    let mut backend = MemVolumeBackend::new();
    let fs = pool();
    let config = workspaces::config::Config {
        default_filesystem: None,
        filesystems: vec![pool()],
    };
    create(&mut store, &mut backend, &fs, "alice", "ws1", 1, &alice(), NOW).unwrap();
    assert_eq!(backend.readonly_flag("tank/workspaces/alice/ws1"), Some(false));
    clean(&mut store, &mut backend, &config, NOW + 2 * DAY);
    assert_eq!(backend.readonly_flag("tank/workspaces/alice/ws1"), Some(true));
    assert_eq!(store.get_expiration("p", "alice", "ws1"), Some(NOW + DAY));
}

