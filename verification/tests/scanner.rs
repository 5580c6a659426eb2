use ferrite::catalog::{rule_by_id, rules};
use ferrite::scanner::{
    annotate_git, artifact_rels, batches, delete_plan, discover_step, emptied_tree_outcome, entry_step,
    file_removal_outcome, git_branch, git_gc, git_ignored_set, git_tracked_set, gitignore_block,
    gitignore_missing, ignore_payload, ignore_status, kept_file_outcome, long_path, matches_keep, nul_fields,
    path_input, removed_tree_outcome, slash_path, strip_verbatim, worth_listing, DeleteOutcome, DeletePlan,
    DiscoverStep, EntryStep, ProjectScan, GIT_BATCH, MAX_OCCURRENCES_SENT,
};

fn strings(list: &[&str]) -> Vec<String> {
    list.iter().map(|s| s.to_string()).collect()
}

fn scan_with(entries: &[(&str, &str, u64, u64)]) -> ProjectScan {
    let table = rules();
    let mut scan = ProjectScan::new();
    for (id, rel, size, files) in entries {
        let rule = rule_by_id(&table, id).unwrap();
        scan.record_artifact(rule, format!("C:\\w\\p\\{rel}"), rel.to_string(), *size, *files, true);
    }
    scan
}

#[test]
fn ignore_status_states() {
    assert_eq!(ignore_status(0, 0, 0), "na");
    assert_eq!(ignore_status(0, 2, 3), "tracked");
    assert_eq!(ignore_status(0, 0, 3), "none");
    assert_eq!(ignore_status(3, 0, 3), "all");
    assert_eq!(ignore_status(1, 1, 3), "partial");
    assert_eq!(ignore_status(2, 0, 3), "partial");
}

#[test]
fn record_artifact_groups_by_rule_in_first_seen_order() {
    let scan = scan_with(&[
        ("node_modules", "a/node_modules", 100, 10),
        ("pycache", "b/__pycache__", 5, 2),
        ("node_modules", "c/node_modules", 50, 4),
    ]);
    assert_eq!(scan.buckets.len(), 2);
    assert_eq!(scan.buckets[0].rule.id, "node_modules");
    assert_eq!(scan.buckets[0].size, 150);
    assert_eq!(scan.buckets[0].files, 14);
    assert_eq!(scan.buckets[0].occurrences.len(), 2);
    assert_eq!(scan.buckets[0].occurrences[1].rel, "c/node_modules");
    assert_eq!(scan.buckets[1].rule.id, "pycache");
    assert_eq!(scan.total_size, 155);
    assert_eq!(scan.total_files, 16);
    assert!(!scan.buckets[0].occurrences[0].ignored);
}

#[test]
fn plain_files_and_git_dir_count_in_totals_only() {
    let mut scan = ProjectScan::new();
    scan.record_plain_file(40);
    scan.record_git_dir(1000, 30, true);
    scan.record_git_dir(7, 1, false);
    assert_eq!(scan.total_size, 1047);
    assert_eq!(scan.total_files, 32);
    assert_eq!(scan.git_size, 1000);
    assert!(scan.buckets.is_empty());
}

#[test]
fn annotate_git_marks_occurrences_and_states() {
    let mut scan = scan_with(&[
        ("node_modules", "a/node_modules", 1, 1),
        ("node_modules", "b/node_modules", 1, 1),
        ("pycache", "src/__pycache__", 1, 1),
        ("venv", "venv", 1, 1),
    ]);
    assert_eq!(
        artifact_rels(&scan.buckets),
        strings(&["a/node_modules", "b/node_modules", "src/__pycache__", "venv"])
    );
    annotate_git(&mut scan.buckets, &strings(&["a/node_modules", "venv"]), &strings(&["src/__pycache__"]));
    assert_eq!(scan.buckets[0].ignore_status, "partial");
    assert!(scan.buckets[0].occurrences[0].ignored);
    assert!(!scan.buckets[0].occurrences[1].ignored);
    assert_eq!(scan.buckets[1].ignore_status, "tracked");
    assert_eq!(scan.buckets[1].tracked_count, 1);
    assert!(scan.buckets[1].occurrences[0].is_tracked);
    assert_eq!(scan.buckets[2].ignore_status, "all");
}

#[test]
fn annotate_git_without_occurrences_changes_nothing() {
    let mut buckets = Vec::new();
    annotate_git(&mut buckets, &strings(&["x"]), &strings(&[]));
    assert!(buckets.is_empty());
}

#[test]
fn delete_outcomes() {
    let ok = DeleteOutcome::success();
    assert!(ok.ok && ok.freed == 0 && ok.error.is_empty());
    let bad = DeleteOutcome::failure("denied".to_string());
    assert!(!bad.ok);
    assert_eq!(bad.error, "denied");
    let kept = kept_file_outcome(12);
    assert!(kept.ok && kept.kept_size == 12 && kept.kept_files == 1 && kept.freed == 0);
    let removed = file_removal_outcome(true, 30);
    assert!(removed.ok && removed.freed == 30);
    let refused = file_removal_outcome(false, 30);
    assert!(!refused.ok && refused.freed == 0);
    assert_eq!(refused.error, "deletion refused");
    let emptied = emptied_tree_outcome(100, 20, 2, true);
    assert!(emptied.ok && emptied.freed == 100 && emptied.kept_files == 2);
    let incomplete = emptied_tree_outcome(100, 0, 0, true);
    assert!(!incomplete.ok);
    assert_eq!(incomplete.error, "incomplete deletion");
    assert!(emptied_tree_outcome(5, 0, 0, false).ok);
    let tree = removed_tree_outcome(Ok(()), 77);
    assert!(tree.ok && tree.freed == 77);
    let tree_err = removed_tree_outcome(Err("busy".to_string()), 77);
    assert!(!tree_err.ok && tree_err.freed == 0);
    assert_eq!(tree_err.error, "busy");
}

#[test]
fn keep_patterns_and_delete_plan() {
    let keep = strings(&["*.exe"]);
    assert!(matches_keep("tool.EXE", &keep));
    assert!(!matches_keep("tool.dll", &keep));
    assert_eq!(delete_plan(false, true, "target", &keep), DeletePlan::AlreadyGone);
    assert_eq!(delete_plan(true, false, "app.exe", &keep), DeletePlan::KeepFile);
    assert_eq!(delete_plan(true, false, "app.pdb", &keep), DeletePlan::RemoveFile);
    assert_eq!(delete_plan(true, true, "target", &keep), DeletePlan::EmptyTree);
    assert_eq!(delete_plan(true, true, "target", &Vec::new()), DeletePlan::RemoveTree);
    assert_eq!(delete_plan(true, false, "app.exe", &Vec::new()), DeletePlan::RemoveFile);
}

#[test]
fn batches_split_at_the_git_limit() {
    assert_eq!(GIT_BATCH, 1500);
    let paths: Vec<String> = (0..3200).map(|i| format!("p{i}")).collect();
    let parts = batches(&paths);
    assert_eq!(parts.len(), 3);
    assert_eq!(parts[0].len(), 1500);
    assert_eq!(parts[2].len(), 200);
    assert_eq!(parts[1][0], "p1500");
    assert!(batches(&Vec::new()).is_empty());
}

#[test]
fn check_ignore_payload_is_nul_terminated() {
    let payload = ignore_payload(&strings(&["a/b", "é"]));
    assert_eq!(payload, b"a/b\0\xc3\xa9\0".to_vec());
    assert!(ignore_payload(&Vec::new()).is_empty());
}

#[test]
fn nul_fields_skip_empty_entries() {
    assert_eq!(nul_fields(&b"a\0\0b/c\0".to_vec()), strings(&["a", "b/c"]));
    assert_eq!(nul_fields(&b"".to_vec()), Vec::<String>::new());
    assert_eq!(nul_fields(&b"bad\xff\0".to_vec()), strings(&["bad\u{fffd}"]));
}

#[test]
fn ignored_set_deduplicates_across_batches() {
    let outputs = vec![b"a\0b\0".to_vec(), b"b\0c\0".to_vec()];
    assert_eq!(git_ignored_set(&outputs), strings(&["a", "b", "c"]));
}

#[test]
fn tracked_set_matches_paths_and_prefixes() {
    let chunks = vec![strings(&["target", "dist/", "build"]), strings(&["out"])];
    let results = vec![
        (true, b"target/debug/x\0dist/a.js\0buildx\0".to_vec()),
        (false, b"out\0".to_vec()),
    ];
    assert_eq!(git_tracked_set(&chunks, &results), strings(&["target", "dist/"]));
    let exact = vec![strings(&["notes.log"])];
    assert_eq!(git_tracked_set(&exact, &vec![(true, b"notes.log\0".to_vec())]), strings(&["notes.log"]));
}

#[test]
fn branch_is_trimmed_output_or_empty() {
    assert_eq!(git_branch(true, &b"main\n".to_vec()), "main");
    assert_eq!(git_branch(false, &b"main\n".to_vec()), "");
    assert_eq!(git_branch(true, &b"f\xffx\n".to_vec()), "f\u{fffd}x");
}

#[test]
fn gc_freed_never_negative() {
    let gc = git_gc(1000, true, "ignored".to_string(), 600);
    assert!(gc.ok && gc.freed == 400 && gc.error.is_empty());
    let grown = git_gc(100, true, String::new(), 150);
    assert_eq!(grown.freed, 0);
    let failed = git_gc(100, false, "fatal".to_string(), 100);
    assert!(!failed.ok);
    assert_eq!(failed.error, "fatal");
}

#[test]
fn gitignore_missing_patterns() {
    let patterns = strings(&["node_modules/", "dist/", "  ", "*.log"]);
    assert_eq!(
        gitignore_missing("# deps\n  node_modules/  \n", &patterns),
        strings(&["dist/", "*.log"])
    );
    assert_eq!(gitignore_missing("", &strings(&["a/"])), strings(&["a/"]));
}

#[test]
fn gitignore_block_layout() {
    let block = gitignore_block("node_modules/", "2026-07-27", &strings(&["dist/", "*.log"]));
    assert_eq!(block, "\n\n# ferrite 2026-07-27\ndist/\n*.log\n");
    let block = gitignore_block("a\n", "2026-07-27", &strings(&["b"]));
    assert_eq!(block, "\n# ferrite 2026-07-27\nb\n");
    let block = gitignore_block("", "2026-01-01", &strings(&["x/"]));
    assert_eq!(block, "\n# ferrite 2026-01-01\nx/\n");
}

#[test]
fn gitignore_fix_leaves_nothing_missing() {
    let current = "node_modules/\n.env";
    let patterns = strings(&["node_modules/", "dist/", "target/"]);
    let missing = gitignore_missing(current, &patterns);
    assert_eq!(missing, strings(&["dist/", "target/"]));
    let fixed = format!("{current}{}", gitignore_block(current, "2026-07-27", &missing));
    assert!(gitignore_missing(&fixed, &patterns).is_empty());
    assert!(fixed.starts_with(current));
}

#[test]
fn windows_path_forms() {
    assert_eq!(strip_verbatim("\\\\?\\C:\\work"), "C:\\work");
    assert_eq!(strip_verbatim("C:\\work"), "C:\\work");
    assert_eq!(long_path("C:\\work"), "\\\\?\\C:\\work");
    assert_eq!(long_path("\\\\server\\share\\x"), "\\\\?\\UNC\\server\\share\\x");
    assert_eq!(long_path("\\\\?\\C:\\x"), "\\\\?\\C:\\x");
    assert_eq!(slash_path("a\\b\\c"), "a/b/c");
}

#[test]
fn typed_paths_are_cleaned() {
    assert_eq!(path_input("  \"C:\\dev\"  ", None), "C:\\dev");
    assert_eq!(path_input("'/srv/code'", None), "/srv/code");
    assert_eq!(path_input("~/code", Some("/home/me".to_string())), "/home/me/code");
    assert_eq!(path_input("~/code", None), "~/code");
}

#[test]
fn discovery_listing_and_steps() {
    assert!(worth_listing("src", true, false));
    assert!(!worth_listing("node_modules", true, false));
    assert!(!worth_listing(".git", true, false));
    assert!(!worth_listing("link", true, true));
    assert!(!worth_listing("file.txt", false, false));
    let project = strings(&["Cargo.toml", "src"]);
    let plain = strings(&["docs", "notes.txt"]);
    assert_eq!(discover_step(Some(&project), 0, 1), DiscoverStep::Project);
    assert_eq!(discover_step(Some(&plain), 0, 3), DiscoverStep::Descend);
    assert_eq!(discover_step(Some(&plain), 2, 3), DiscoverStep::Skip);
    assert_eq!(discover_step(None, 0, 3), DiscoverStep::Skip);
}

#[test]
fn entry_classification() {
    let table = rules();
    let siblings = strings(&["Cargo.toml", "target", "src"]);
    assert!(matches!(entry_step(&table, "target", true, true, "app", &siblings), EntryStep::Skip));
    assert!(matches!(entry_step(&table, ".git", true, false, "app", &siblings), EntryStep::GitDir));
    match entry_step(&table, "target", true, false, "app", &siblings) {
        EntryStep::Artifact(rule) => assert_eq!(rule.id, "cargo_target"),
        other => panic!("unexpected {other:?}"),
    }
    assert!(matches!(entry_step(&table, "src", true, false, "app", &siblings), EntryStep::Descend));
    assert!(matches!(entry_step(&table, "main.rs", false, false, "src", &siblings), EntryStep::PlainFile));
    assert_eq!(MAX_OCCURRENCES_SENT, 150);
}
