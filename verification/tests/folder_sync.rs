use gmacftp::folder_sync::{
    build_preview, is_excluded, parse_exclusions, Snapshot, SyncAction, SyncComparison,
    SyncFileMetadata, SyncMode, SyncOptions, SyncReason, DEFAULT_EXCLUSIONS, MAX_RULESET_BYTES,
    MAX_RULES, MAX_RULE_BYTES,
};

fn metadata(bytes: u64, modified: i64) -> SyncFileMetadata {
    SyncFileMetadata { bytes, modified: Some(modified), sha256: None }
}

fn snapshot(files: Vec<(&str, SyncFileMetadata)>) -> Snapshot {
    let mut map = Snapshot::new();
    for (path, facts) in files {
        assert!(map.insert(path.to_string(), facts).is_none());
    }
    map
}

#[test]
fn exclusions_prune_components_and_support_wildcards() {
    let rules = parse_exclusions(".git, *.part, cache/**").unwrap();
    assert!(is_excluded(".git/objects/aa", &rules));
    assert!(is_excluded("nested/file.part", &rules));
    assert!(is_excluded("cache/a/b", &rules));
    assert!(!is_excluded("src/git.rs", &rules));
}

#[test]
fn dry_run_is_one_way_and_never_deletes_target_only_files() {
    let source = snapshot(vec![
        ("same.txt", metadata(10, 100)),
        ("changed.txt", metadata(20, 100)),
        ("new.txt", metadata(30, 100)),
        (".git/config", metadata(40, 100)),
    ]);
    let target = snapshot(vec![
        ("same.txt", metadata(10, 100)),
        ("changed.txt", metadata(19, 100)),
        ("target-only.txt", metadata(50, 100)),
    ]);
    let rules = parse_exclusions(DEFAULT_EXCLUSIONS).unwrap();
    let preview = build_preview(&source, &target, &rules, SyncOptions::default());

    assert_eq!(preview.unchanged, 1);
    assert_eq!(preview.target_only, 1);
    assert!(preview.deletions.is_empty());
    assert_eq!(preview.excluded, 1);
    assert_eq!(
        preview.actions,
        vec![
            SyncAction {
                relative_path: "changed.txt".into(),
                bytes: 20,
                reason: SyncReason::DifferentSize,
            },
            SyncAction {
                relative_path: "new.txt".into(),
                bytes: 30,
                reason: SyncReason::Missing,
            }
        ]
    );
}

#[test]
fn mirror_mode_lists_target_only_files_as_explicit_deletions() {
    let source = snapshot(vec![("same.txt", metadata(10, 100))]);
    let target = snapshot(vec![
        ("same.txt", metadata(10, 100)),
        ("old.txt", metadata(25, 90)),
        ("cache/ignored.tmp", metadata(4, 80)),
    ]);
    let preview = build_preview(
        &source,
        &target,
        &parse_exclusions("*.tmp").unwrap(),
        SyncOptions { mode: SyncMode::Mirror, ..SyncOptions::default() },
    );
    assert_eq!(preview.target_only, 1);
    assert_eq!(preview.deletions.len(), 1);
    assert_eq!(preview.deletions[0].relative_path, "old.txt");
    assert_eq!(preview.deletions[0].reason, SyncReason::TargetOnly);
}

#[test]
fn same_size_timestamp_change_is_not_silently_skipped() {
    let source = snapshot(vec![("changed.txt", metadata(10, 200))]);
    let target = snapshot(vec![("changed.txt", metadata(10, 100))]);
    let preview = build_preview(&source, &target, &[], SyncOptions::default());
    assert_eq!(preview.actions.len(), 1);
    assert_eq!(preview.actions[0].reason, SyncReason::DifferentModificationTime);
}

#[test]
fn timestamp_tolerance_and_clock_adjustment_are_applied() {
    let source = snapshot(vec![("same.txt", metadata(10, 100))]);
    let target = snapshot(vec![("same.txt", metadata(10, 3_701))]);
    let preview = build_preview(
        &source,
        &target,
        &[],
        SyncOptions { target_time_adjustment_seconds: -3_600, ..SyncOptions::default() },
    );
    assert_eq!(preview.unchanged, 1);
}

#[test]
fn newer_target_does_not_create_an_endless_one_way_sync_loop() {
    let source = snapshot(vec![("same.txt", metadata(10, 100))]);
    let target = snapshot(vec![("same.txt", metadata(10, 200))]);
    let preview = build_preview(&source, &target, &[], SyncOptions::default());
    assert_eq!(preview.unchanged, 1);
    assert!(preview.actions.is_empty());
}

#[test]
fn unavailable_timestamp_and_checksum_fail_safe_to_copy() {
    let uncertain = SyncFileMetadata { bytes: 10, ..SyncFileMetadata::default() };
    let source = snapshot(vec![("uncertain.txt", uncertain)]);
    let target = snapshot(vec![("uncertain.txt", uncertain)]);
    let timestamp = build_preview(&source, &target, &[], SyncOptions::default());
    assert_eq!(timestamp.actions[0].reason, SyncReason::ModificationTimeUnavailable);
    let checksum = build_preview(
        &source,
        &target,
        &[],
        SyncOptions { comparison: SyncComparison::Checksum, ..SyncOptions::default() },
    );
    assert_eq!(checksum.actions[0].reason, SyncReason::ChecksumUnavailable);
}

#[test]
fn unsafe_or_unbounded_rules_are_rejected() {
    assert!(parse_exclusions("../secret").is_err());
    assert!(parse_exclusions("ok, /absolute").is_err());
    assert!(parse_exclusions(&"x".repeat(MAX_RULE_BYTES + 1)).is_err());
}

#[test]
fn rules_are_bounded_in_number_and_size() {
    let many: Vec<String> = (0..=MAX_RULES).map(|i| format!("r{i}")).collect();
    assert!(parse_exclusions(&many.join(",")).is_err());
    assert_eq!(parse_exclusions(&many[1..].join(",")).unwrap().len(), MAX_RULES);
    assert!(parse_exclusions(&" ".repeat(MAX_RULESET_BYTES + 1)).is_err());
    assert!(parse_exclusions("").unwrap().is_empty());
}

#[test]
fn checksums_decide_where_they_are_known() {
    let with = |digest: u8| SyncFileMetadata {
        bytes: 10,
        modified: None,
        sha256: Some([digest; 32]),
    };
    let options = SyncOptions { comparison: SyncComparison::Checksum, ..SyncOptions::default() };
    let same = build_preview(
        &snapshot(vec![("a", with(1))]),
        &snapshot(vec![("a", with(1))]),
        &[],
        options,
    );
    assert_eq!(same.unchanged, 1);
    let other = build_preview(
        &snapshot(vec![("a", with(1))]),
        &snapshot(vec![("a", with(2))]),
        &[],
        options,
    );
    assert_eq!(other.actions[0].reason, SyncReason::DifferentChecksum);
}

#[test]
fn no_file_is_copied_and_deleted_at_once() {
    let source = snapshot(vec![("b", metadata(1, 1)), ("a", metadata(2, 2))]);
    let target = snapshot(vec![("c", metadata(3, 3)), ("a", metadata(9, 2))]);
    let preview = build_preview(
        &source,
        &target,
        &[],
        SyncOptions { mode: SyncMode::Mirror, ..SyncOptions::default() },
    );
    let copied: Vec<&str> = preview.actions.iter().map(|a| a.relative_path.as_str()).collect();
    let deleted: Vec<&str> = preview.deletions.iter().map(|a| a.relative_path.as_str()).collect();
    assert_eq!(copied, vec!["a", "b"]);
    assert_eq!(deleted, vec!["c"]);
}

#[test]
fn wildcards_stay_in_their_component() {
    let rules = parse_exclusions("src/*.o, docs/?.md, logs/**/*.gz").unwrap();
    assert!(is_excluded("src/b.o", &rules));
    assert!(!is_excluded("src/a/b.o", &rules));
    assert!(is_excluded("docs/a.md", &rules));
    assert!(!is_excluded("docs//.md", &rules));
    assert!(is_excluded("logs/2024/01/x.gz", &rules));
    assert!(!is_excluded("logs.gz", &rules));
    let below = parse_exclusions("cache/**").unwrap();
    assert!(is_excluded("cache/a/b/c", &below));
    assert!(!is_excluded("old/cache/a", &below));
    let anywhere = parse_exclusions("*.o").unwrap();
    assert!(is_excluded("src/a/b.o", &anywhere));
}

#[test]
fn the_modes_differ_in_the_deletions_alone() {
    let source = snapshot(vec![("a", metadata(1, 10)), ("b.tmp", metadata(1, 10))]);
    let target = snapshot(vec![("a", metadata(2, 10)), ("old", metadata(3, 10))]);
    let rules = parse_exclusions("*.tmp").unwrap();
    let one_way = build_preview(&source, &target, &rules, SyncOptions::default());
    let mirror = build_preview(
        &source,
        &target,
        &rules,
        SyncOptions { mode: SyncMode::Mirror, ..SyncOptions::default() },
    );
    assert_eq!(one_way.actions, mirror.actions);
    assert_eq!(one_way.unchanged, mirror.unchanged);
    assert_eq!(one_way.excluded, mirror.excluded);
    assert_eq!(one_way.target_only, mirror.target_only);
    assert!(one_way.deletions.is_empty());
    assert_eq!(mirror.deletions.len(), 1);
}

#[test]
fn rules_read_back_from_a_bare_comma_list() {
    let rules = parse_exclusions(" a , ./b/**,,c*").unwrap();
    assert_eq!(rules, vec!["a", "b/**", "c*"]);
    assert_eq!(parse_exclusions(&rules.join(",")).unwrap(), rules);
}
