use ferrite::catalog::{rule_by_id, rules};
use ferrite::report::build;
use ferrite::scanner::{annotate_git, ProjectScan};

fn scan_of(entries: &[(&str, &str, u64, u64)], extra_size: u64, extra_files: u64) -> ProjectScan {
    let table = rules();
    let mut scan = ProjectScan::new();
    for (id, rel, size, files) in entries {
        let rule = rule_by_id(&table, id).unwrap();
        scan.record_artifact(rule, format!("/w/p/{rel}"), rel.to_string(), *size, *files, true);
    }
    scan.record_git_dir(extra_size, extra_files, true);
    scan
}

#[test]
fn build_orders_items_and_occurrences_largest_first() {
    let scan = scan_of(
        &[
            ("pycache", "a/__pycache__", 10, 1),
            ("node_modules", "web/node_modules", 300, 30),
            ("pycache", "b/__pycache__", 40, 4),
            ("venv", "venv", 300, 9),
        ],
        50,
        5,
    );
    let (report, index) = build("p".to_string(), "/w/p".to_string(), true, "main".to_string(), scan, 7);
    assert_eq!(report.id, 7);
    assert_eq!(report.name, "p");
    assert_eq!(report.branch, "main");
    assert_eq!(report.git_size, 50);
    assert_eq!(report.total_size, 700);
    assert_eq!(report.total_files, 49);
    assert_eq!(report.reclaimable_size, 650);
    assert_eq!(report.reclaimable_files, 44);
    let ids: Vec<&str> = report.items.iter().map(|i| i.rule_id.as_str()).collect();
    assert_eq!(ids, vec!["node_modules", "venv", "pycache"]);
    let pyc = &report.items[2];
    assert_eq!(pyc.size, 50);
    assert_eq!(pyc.count, 2);
    assert_eq!(pyc.occurrences[0].rel, "b/__pycache__");
    assert_eq!(pyc.occurrences[1].rel, "a/__pycache__");
    assert_eq!(pyc.name, "__pycache__");
    assert_eq!(pyc.category, "python");
    assert_eq!(pyc.risk, "safe");
    assert_eq!(pyc.restore, "python");
    assert_eq!(pyc.ignore_pattern, "__pycache__/");
    assert_eq!(pyc.truncated, 0);
    assert_eq!(index.rules.len(), 3);
    assert_eq!(index.rules[0].rule_id, "pycache");
    assert_eq!(index.rules[0].entries.len(), 2);
    assert_eq!(index.rules[0].entries[1].rel, "b/__pycache__");
    assert_eq!(index.rules[0].entries[1].path, "/w/p/b/__pycache__");
}

#[test]
fn build_outside_git_reports_na_and_no_branch() {
    let mut scan = scan_of(&[("node_modules", "node_modules", 5, 1)], 0, 0);
    annotate_git(&mut scan.buckets, &vec!["node_modules".to_string()], &Vec::new());
    let (report, _) = build("p".to_string(), "/w/p".to_string(), false, "main".to_string(), scan, 0);
    assert_eq!(report.branch, "");
    assert_eq!(report.items[0].ignore_status, "na");
}

#[test]
fn build_truncates_long_occurrence_lists() {
    let entries: Vec<(String, u64)> = (0..160).map(|i| (format!("m{i}/__pycache__"), i as u64)).collect();
    let table = rules();
    let rule = rule_by_id(&table, "pycache").unwrap();
    let mut scan = ProjectScan::new();
    for (rel, size) in &entries {
        scan.record_artifact(rule, format!("/w/{rel}"), rel.clone(), *size, 1, true);
    }
    let (report, index) = build("w".to_string(), "/w".to_string(), true, String::new(), scan, 1);
    let item = &report.items[0];
    assert_eq!(item.count, 160);
    assert_eq!(item.occurrences.len(), 150);
    assert_eq!(item.truncated, 10);
    assert_eq!(item.occurrences[0].size, 159);
    assert_eq!(index.rules[0].entries.len(), 160);
}

#[test]
fn apply_removals_prunes_items_and_totals() {
    let scan = scan_of(
        &[
            ("node_modules", "a/node_modules", 100, 10),
            ("node_modules", "b/node_modules", 60, 6),
            ("pycache", "x/__pycache__", 20, 2),
        ],
        0,
        0,
    );
    let (mut report, _) = build("p".to_string(), "/w/p".to_string(), true, String::new(), scan, 0);
    assert_eq!(report.total_size, 180);
    report.apply_removals(&[
        ("node_modules".to_string(), "a/node_modules".to_string(), 100),
        ("pycache".to_string(), "x/__pycache__".to_string(), 20),
    ]);
    assert_eq!(report.items.len(), 1);
    let item = &report.items[0];
    assert_eq!(item.rule_id, "node_modules");
    assert_eq!(item.size, 60);
    assert_eq!(item.files, 6);
    assert_eq!(item.count, 1);
    assert_eq!(item.occurrences.len(), 1);
    assert_eq!(item.occurrences[0].rel, "b/node_modules");
    assert_eq!(report.reclaimable_size, 60);
    assert_eq!(report.reclaimable_files, 6);
    assert_eq!(report.total_size, 60);
}

#[test]
fn apply_removals_of_nothing_keeps_the_report() {
    let scan = scan_of(&[("venv", "venv", 9, 3)], 1, 1);
    let (mut report, _) = build("p".to_string(), "/w/p".to_string(), true, String::new(), scan, 0);
    report.apply_removals(&[]);
    assert_eq!(report.items.len(), 1);
    assert_eq!(report.reclaimable_size, 9);
    assert_eq!(report.total_size, 10);
}

#[test]
fn two_removals_equal_one_combined() {
    let make = || {
        let scan = scan_of(
            &[
                ("node_modules", "a/node_modules", 100, 10),
                ("node_modules", "b/node_modules", 60, 6),
                ("pycache", "x/__pycache__", 20, 2),
            ],
            5,
            1,
        );
        build("p".to_string(), "/w/p".to_string(), true, String::new(), scan, 0).0
    };
    let first = vec![("node_modules".to_string(), "a/node_modules".to_string(), 100)];
    let second = vec![("pycache".to_string(), "x/__pycache__".to_string(), 20)];
    let mut stepwise = make();
    stepwise.apply_removals(&first);
    stepwise.apply_removals(&second);
    let mut at_once = make();
    at_once.apply_removals(&[first[0].clone(), second[0].clone()]);
    assert_eq!(stepwise.items.len(), at_once.items.len());
    assert_eq!(stepwise.items[0].size, at_once.items[0].size);
    assert_eq!(stepwise.items[0].occurrences.len(), at_once.items[0].occurrences.len());
    assert_eq!(
        (stepwise.reclaimable_size, stepwise.total_size),
        (at_once.reclaimable_size, at_once.total_size)
    );
    assert_eq!((at_once.reclaimable_size, at_once.total_size), (60, 65));
}

fn occurrence(rel: &str, path: &str) -> ferrite::scanner::Occurrence {
    ferrite::scanner::Occurrence {
        path: path.to_string(),
        rel: rel.to_string(),
        size: 1,
        files: 1,
        is_dir: true,
        ignored: false,
        is_tracked: false,
    }
}

fn bucket_of(id: &str, occurrences: Vec<ferrite::scanner::Occurrence>) -> ferrite::scanner::Bucket {
    let table = rules();
    let size = occurrences.len() as u64;
    ferrite::scanner::Bucket {
        rule: rule_by_id(&table, id).unwrap(),
        size,
        files: size,
        occurrences,
        ignore_status: String::new(),
        tracked_count: 0,
    }
}

#[test]
fn build_merges_buckets_of_one_rule_into_one_table() {
    let scan = ProjectScan {
        buckets: vec![
            bucket_of("pycache", vec![occurrence("a", "/w/p/a")]),
            bucket_of("venv", vec![occurrence("venv", "/w/p/venv")]),
            bucket_of("pycache", vec![occurrence("b", "/w/p/b"), occurrence("a", "/w/p/a2")]),
        ],
        total_size: 4,
        total_files: 4,
        git_size: 0,
    };
    let (_, index) = build("p".to_string(), "/w/p".to_string(), false, String::new(), scan, 0);
    assert_eq!(index.rules.len(), 2);
    assert_eq!(index.rules[0].rule_id, "pycache");
    assert_eq!(index.rules[1].rule_id, "venv");
    let pyc = &index.rules[0].entries;
    assert_eq!(pyc.len(), 2);
    assert_eq!(pyc[0].rel, "a");
    assert_eq!(pyc[0].path, "/w/p/a2");
    assert_eq!(pyc[1].rel, "b");
    assert_eq!(pyc[1].path, "/w/p/b");
}
