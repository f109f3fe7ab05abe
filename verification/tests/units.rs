use workspaces::columns::{FilesystemsColumns, WorkspacesColumns};
use workspaces::config::{resolve_filesystem, Config, Filesystem};
use workspaces::errors::LifecycleError;
use workspaces::naming::{parse_pathsafe, str_equal, to_volume_string};
use workspaces::numbers::parse_u64_decimal;
use workspaces::schedule::{classify, report_days_exec, target_time, WsState};
use workspaces::schema::{check_schema_version, NEWEST_DB_VERSION};

const DAY: i64 = 86400;
const NOW: i64 = 1_700_000_000;

fn fs(name: &str) -> Filesystem {
    Filesystem {
        name: String::from(name),
        root: format!("tank/{}", name),
        max_duration: 90,
        expired_retention: 7,
        disabled: false,
    }
}

#[test]
fn pathsafe_accepts_alphanumerics_underscore_and_dash() {
    assert_eq!(parse_pathsafe("ws-1_A").unwrap(), "ws-1_A");
    assert_eq!(parse_pathsafe("übung").unwrap(), "übung");
}

#[test]
fn pathsafe_rejects_empty_and_separators() {
    assert!(parse_pathsafe("").is_err());
    assert!(parse_pathsafe("a/b").is_err());
    assert!(parse_pathsafe("a b").is_err());
    assert!(parse_pathsafe("a.b").is_err());
    assert_eq!(parse_pathsafe("a/b").unwrap_err().str, "a/b");
}

#[test]
fn volume_string_joins_with_slashes() {
    assert_eq!(to_volume_string("tank/ws", "alice", "ws1"), "tank/ws/alice/ws1");
}

#[test]
fn str_equal_compares_contents() {
    assert!(str_equal("abc", "abc"));
    assert!(!str_equal("abc", "abd"));
    assert!(!str_equal("abc", "ab"));
    assert!(str_equal("", ""));
}

#[test]
fn decimal_parse_reads_exact_values() {
    assert_eq!(parse_u64_decimal("0"), Some(0));
    assert_eq!(parse_u64_decimal("123"), Some(123));
    assert_eq!(parse_u64_decimal("007"), Some(7));
    assert_eq!(parse_u64_decimal("18446744073709551615"), Some(u64::MAX));
}

#[test]
fn decimal_parse_rejects_junk_and_overflow() {
    assert_eq!(parse_u64_decimal(""), None);
    assert_eq!(parse_u64_decimal("12a"), None);
    assert_eq!(parse_u64_decimal("-1"), None);
    assert_eq!(parse_u64_decimal(" 1"), None);
    assert_eq!(parse_u64_decimal("18446744073709551616"), None);
}

#[test]
fn classify_follows_the_state_windows() {
    // active strictly before the expiration
    assert_eq!(classify(NOW, 7, NOW - 1), WsState::Active);
    // grace from the expiration up to retention's end
    assert_eq!(classify(NOW, 7, NOW), WsState::Grace);
    assert_eq!(classify(NOW, 7, NOW + 7 * DAY - 1), WsState::Grace);
    // deletable once expiration + retention has been reached
    assert_eq!(classify(NOW, 7, NOW + 7 * DAY), WsState::Deletable);
    // with no retention a record is deletable the moment it expires
    assert_eq!(classify(NOW, 0, NOW), WsState::Deletable);
}

#[test]
fn report_days_counts_whole_days() {
    assert_eq!(report_days_exec(NOW + 10 * DAY, 7, NOW), 10);
    assert_eq!(report_days_exec(NOW + 10 * DAY - 1, 7, NOW), 9);
    // grace counts down to deletion
    assert_eq!(report_days_exec(NOW, 7, NOW + DAY / 2), 6);
    assert_eq!(report_days_exec(NOW, 7, NOW + 7 * DAY), 0);
}

#[test]
fn target_time_adds_days() {
    assert_eq!(target_time(NOW, 10), NOW + 10 * DAY);
    assert_eq!(target_time(NOW, 0), NOW);
    assert_eq!(target_time(NOW, -3), NOW - 3 * DAY);
}

#[test]
fn schema_check_counts_pending_upgrades() {
    assert_eq!(check_schema_version(0), Ok(NEWEST_DB_VERSION));
    assert_eq!(check_schema_version(NEWEST_DB_VERSION), Ok(0));
    assert_eq!(
        check_schema_version(NEWEST_DB_VERSION + 1),
        Err(LifecycleError::SchemaTooNew)
    );
}

#[test]
fn resolve_prefers_the_given_name() {
    let config = Config {
        default_filesystem: Some(String::from("a")),
        filesystems: vec![fs("a"), fs("b")],
    };
    assert_eq!(resolve_filesystem(&config, &Some(String::from("b"))).unwrap(), "b");
    assert_eq!(
        resolve_filesystem(&config, &Some(String::from("zzz"))),
        Err(LifecycleError::UnknownWorkspace)
    );
}

#[test]
fn resolve_falls_back_to_default_then_singleton() {
    let with_default = Config {
        default_filesystem: Some(String::from("b")),
        filesystems: vec![fs("a"), fs("b")],
    };
    assert_eq!(resolve_filesystem(&with_default, &None).unwrap(), "b");

    let single = Config { default_filesystem: None, filesystems: vec![fs("only")] };
    assert_eq!(resolve_filesystem(&single, &None).unwrap(), "only");

    let ambiguous = Config { default_filesystem: None, filesystems: vec![fs("a"), fs("b")] };
    assert_eq!(
        resolve_filesystem(&ambiguous, &None),
        Err(LifecycleError::NoFilesystemSpecified)
    );
}

#[test]
fn resolve_rejects_a_bad_default() {
    let config = Config {
        default_filesystem: Some(String::from("gone")),
        filesystems: vec![fs("a"), fs("b")],
    };
    assert_eq!(resolve_filesystem(&config, &None), Err(LifecycleError::UnknownWorkspace));
}

#[test]
fn column_labels_match_headings() {
    assert_eq!(WorkspacesColumns::Name.label(), "NAME");
    assert_eq!(WorkspacesColumns::User.label(), "USER");
    assert_eq!(WorkspacesColumns::Fs.label(), "FS");
    assert_eq!(WorkspacesColumns::Size.label(), "SIZE");
    assert_eq!(WorkspacesColumns::Expiry.label(), "EXPIRY");
    assert_eq!(WorkspacesColumns::Mountpoint.label(), "MOUNTPOINT");
    assert_eq!(FilesystemsColumns::Name.label(), "NAME");
    assert_eq!(FilesystemsColumns::Used.label(), "USED");
    assert_eq!(FilesystemsColumns::Free.label(), "FREE");
    assert_eq!(FilesystemsColumns::Total.label(), "TOTAL");
    assert_eq!(FilesystemsColumns::Duration.label(), "DURATION");
    assert_eq!(FilesystemsColumns::Retention.label(), "RETENTION");
}
