use ferrite::catalog::{rule_by_id, rules};
use ferrite::report::build;
use ferrite::scanner::{git_gc, DeleteOutcome, ProjectScan};
use ferrite::server::{
    apply_clean, apply_gc, gitignore_plan, indexed_rels, is_safe_target, project_target, query_lang,
    refresh_ignore_status, requested_workspace, resolve_selection, route, scan_depth, sort_strings, split_url,
    summarize_clean, GitignoreTally, Job, Route, Selection, Target, clean_targets, gc_target, Refusal,
};

fn strings(list: &[&str]) -> Vec<String> {
    list.iter().map(|s| s.to_string()).collect()
}

fn job_with(paths: &[(&str, &str, u64)]) -> Job {
    let table = rules();
    let mut scan = ProjectScan::new();
    for (id, rel, size) in paths {
        let rule = rule_by_id(&table, id).unwrap();
        let path = if rel.starts_with("D:") {
            rel.to_string()
        } else {
            format!("C:\\w\\app\\{rel}")
        };
        scan.record_artifact(rule, path, rel.to_string(), *size, 1, true);
    }
    let (report, index) = build("app".to_string(), "C:\\w\\app".to_string(), true, "main".to_string(), scan, 0);
    Job {
        id: "1".to_string(),
        workspace: "C:\\w".to_string(),
        status: "done".to_string(),
        total: 1,
        done: 1,
        current: String::new(),
        projects: vec![report],
        index: vec![(0, index)],
        error: String::new(),
    }
}

fn select(project: usize, rule_id: &str, rels: Option<&[&str]>) -> Selection {
    Selection { project: Some(project), rule_id: Some(rule_id.to_string()), rels: rels.map(strings) }
}

#[test]
fn safety_check_refusals() {
    assert!(is_safe_target("C:\\w\\app\\target", "C:\\w", "C:\\w\\app"));
    assert!(is_safe_target("c:/W/App/Target", "C:\\w", "C:\\w\\app"));
    assert!(!is_safe_target("C:\\w", "C:\\w", "C:\\w\\app"));
    assert!(!is_safe_target("C:\\w\\app", "C:\\w", "C:\\w\\app"));
    assert!(!is_safe_target("C:\\w\\app\\.git\\objects", "C:\\w", "C:\\w\\app"));
    assert!(!is_safe_target("C:\\w\\app\\.GIT", "C:\\w", "C:\\w\\app"));
    assert!(!is_safe_target("D:\\elsewhere\\x", "C:\\w", "C:\\w\\app"));
    assert!(!is_safe_target("C:\\wx\\app\\target", "C:\\w", "C:\\w\\app"));
}

#[test]
fn selection_resolves_only_indexed_paths() {
    let job = job_with(&[("node_modules", "web\\node_modules", 10), ("pycache", "src\\__pycache__", 5)]);
    let targets = resolve_selection(&job, &vec![select(0, "node_modules", None)]);
    assert_eq!(targets.len(), 1);
    assert_eq!(targets[0].rel, "web\\node_modules");
    assert_eq!(targets[0].path, "C:\\w\\app\\web\\node_modules");
    assert_eq!(targets[0].rule_id, "node_modules");
    let forged = resolve_selection(&job, &vec![select(0, "node_modules", Some(&["..\\..\\Windows"]))]);
    assert!(forged.is_empty());
    assert!(resolve_selection(&job, &vec![select(3, "node_modules", None)]).is_empty());
    assert!(resolve_selection(&job, &vec![select(0, "no_rule", None)]).is_empty());
    let partial = Selection { project: Some(0), rule_id: None, rels: None };
    assert!(resolve_selection(&job, &vec![partial]).is_empty());
    let listed = resolve_selection(
        &job,
        &vec![select(0, "pycache", Some(&["src\\__pycache__", "nope"])), select(0, "node_modules", None)],
    );
    assert_eq!(listed.len(), 2);
    assert_eq!(listed[0].rule_id, "pycache");
    assert_eq!(listed[1].rule_id, "node_modules");
}

#[test]
fn selection_refuses_unsafe_indexed_paths() {
    let job = job_with(&[("venv", "D:\\outside\\venv", 3)]);
    assert!(resolve_selection(&job, &vec![select(0, "venv", None)]).is_empty());
}

fn target(project: usize, rule_id: &str, rel: &str) -> Target {
    Target { project, rule_id: rule_id.to_string(), rel: rel.to_string(), path: format!("C:\\w\\app\\{rel}") }
}

#[test]
fn clean_summary_counts_and_splits() {
    let targets = vec![target(0, "node_modules", "a"), target(0, "pycache", "b"), target(0, "venv", "c")];
    let mut kept = DeleteOutcome::success();
    kept.freed = 70;
    kept.kept_size = 5;
    kept.kept_files = 1;
    let mut gone = DeleteOutcome::success();
    gone.freed = 30;
    let outcomes = vec![kept, DeleteOutcome::failure("locked".to_string()), gone];
    let summary = summarize_clean(&targets, &outcomes, &vec![true, true, false]);
    assert_eq!(summary.freed, 100);
    assert_eq!(summary.kept_size, 5);
    assert_eq!(summary.kept_files, 1);
    assert_eq!(summary.removed.len(), 2);
    assert_eq!(summary.removed[0], (0, "node_modules".to_string(), "a".to_string(), 70));
    assert_eq!(summary.failures, vec![(0, "b".to_string(), "locked".to_string())]);
    assert_eq!(summary.fully_removed, vec![(0, "venv".to_string(), "c".to_string(), 30)]);
}

#[test]
fn apply_clean_updates_index_and_report() {
    let mut job = job_with(&[
        ("node_modules", "a\\node_modules", 10),
        ("node_modules", "b\\node_modules", 20),
        ("pycache", "__pycache__", 4),
    ]);
    apply_clean(&mut job, &vec![(0, "node_modules".to_string(), "b\\node_modules".to_string(), 20)]);
    let report = &job.projects[0];
    assert_eq!(report.items.len(), 2);
    assert_eq!(report.items[0].rule_id, "node_modules");
    assert_eq!(report.items[0].size, 10);
    assert_eq!(report.reclaimable_size, 14);
    assert_eq!(report.total_size, 14);
    let again = resolve_selection(&job, &vec![select(0, "node_modules", Some(&["b\\node_modules"]))]);
    assert!(again.is_empty());
    assert_eq!(indexed_rels(&job, 0), strings(&["a\\node_modules", "__pycache__"]));
}

#[test]
fn gitignore_plan_groups_sorted_unique_patterns() {
    let table = rules();
    let plan = gitignore_plan(
        &table,
        &vec![
            select(1, "pycache", None),
            select(0, "node_modules", None),
            select(1, "venv", None),
            select(1, "pycache", Some(&["x"])),
            select(0, "unknown", None),
        ],
    );
    assert_eq!(plan.len(), 2);
    assert_eq!(plan[0], (1, strings(&["__pycache__/", "venv/"])));
    assert_eq!(plan[1], (0, strings(&["node_modules/"])));
    assert_eq!(sort_strings(strings(&["b", "B", "a", "ab"])), strings(&["B", "a", "ab", "b"]));
}

#[test]
fn gitignore_tally_counts() {
    let mut tally = GitignoreTally::new();
    tally.record(3);
    tally.record(0);
    tally.skip();
    assert_eq!((tally.added, tally.repos, tally.skipped), (3, 1, 1));
}

#[test]
fn project_lookup_and_refresh() {
    let mut job = job_with(&[("node_modules", "a\\node_modules", 10), ("node_modules", "b\\node_modules", 1)]);
    assert_eq!(project_target(&job, 0), Some(("C:\\w\\app".to_string(), true)));
    assert_eq!(project_target(&job, 9), None);
    let states = refresh_ignore_status(&mut job, 0, &strings(&["a\\node_modules"]));
    assert_eq!(states, vec![("node_modules".to_string(), "partial".to_string())]);
    assert!(job.projects[0].items[0].occurrences[0].ignored);
    let states = refresh_ignore_status(&mut job, 0, &strings(&["a\\node_modules", "b\\node_modules"]));
    assert_eq!(states[0].1, "all");
    assert!(refresh_ignore_status(&mut job, 4, &Vec::new()).is_empty());
}

#[test]
fn gc_updates_repository_size() {
    let mut job = job_with(&[("venv", "venv", 10)]);
    job.projects[0].git_size = 500;
    job.projects[0].total_size = 510;
    apply_gc(&mut job, 0, &git_gc(500, true, String::new(), 200));
    assert_eq!(job.projects[0].git_size, 200);
    assert_eq!(job.projects[0].total_size, 210);
    apply_gc(&mut job, 0, &git_gc(200, false, "boom".to_string(), 200));
    assert_eq!(job.projects[0].git_size, 200);
    assert!(job.finished());
}

#[test]
fn routing_table() {
    assert_eq!(route(false, "/"), (Route::Index, String::new()));
    assert_eq!(route(false, "/static/app.js").0, Route::Script);
    assert_eq!(route(false, "/favicon.ico").0, Route::Icon32);
    assert_eq!(route(false, "/api/i18n/fr"), (Route::Catalog, "fr".to_string()));
    assert_eq!(route(true, "/api/scan"), (Route::StartScan, String::new()));
    assert_eq!(route(true, "/api/scan/7/cancel"), (Route::CancelScan, "7".to_string()));
    assert_eq!(route(false, "/api/scan/7"), (Route::ScanStatus, "7".to_string()));
    assert_eq!(route(true, "/api/clean").0, Route::Clean);
    assert_eq!(route(false, "/api/clean").0, Route::NotFound);
    assert_eq!(route(true, "/api/gitignore").0, Route::Gitignore);
    assert_eq!(route(true, "/api/gitgc").0, Route::GitGc);
    assert_eq!(route(false, "/nope").0, Route::NotFound);
}

#[test]
fn url_and_query_parsing() {
    assert_eq!(split_url("/api/i18n/fr?x=1&lang=en"), ("/api/i18n/fr".to_string(), "x=1&lang=en".to_string()));
    assert_eq!(split_url("/plain"), ("/plain".to_string(), String::new()));
    assert_eq!(query_lang("x=1&lang=en&lang=fr"), Some("en".to_string()));
    assert_eq!(query_lang("x=1"), None);
    assert_eq!(query_lang(""), None);
}

#[test]
fn scan_request_parameters() {
    assert_eq!(scan_depth(None), 2);
    assert_eq!(scan_depth(Some(0)), 1);
    assert_eq!(scan_depth(Some(9)), 6);
    assert_eq!(scan_depth(Some(4)), 4);
    assert_eq!(requested_workspace(Some("  C:\\dev  ")), Some("C:\\dev".to_string()));
    assert_eq!(requested_workspace(Some("   ")), None);
    assert_eq!(requested_workspace(None), None);
}

#[test]
fn job_lifecycle() {
    let mut job = Job::new("42".to_string(), "C:\\w".to_string());
    assert_eq!(job.status, "discovering");
    assert!(!job.finished());
    job.begin_scanning(2);
    assert_eq!((job.status.as_str(), job.total), ("scanning", 2));
    job.set_current("app".to_string());
    assert_eq!(job.current, "app");
    let (report, index) = build("app".to_string(), "C:\\w\\app".to_string(), false, String::new(), ProjectScan::new(), 0);
    job.add_project(report, index, 0);
    assert_eq!(job.done, 1);
    assert_eq!(job.projects.len(), 1);
    assert_eq!(job.index[0].0, 0);
    job.finish("cancelled");
    assert!(job.finished());
    assert_eq!(job.status, "cancelled");
}

#[test]
fn refusals_of_clean_and_gc_requests() {
    let job = job_with(&[("node_modules", "web\\node_modules", 10)]);
    assert_eq!(clean_targets(&job, &vec![select(0, "node_modules", None)]).unwrap().len(), 1);
    let refused = clean_targets(&job, &vec![select(0, "node_modules", Some(&["..\\x"]))]);
    assert_eq!(refused.unwrap_err(), Refusal::InvalidSelection);
    assert_eq!(gc_target(&job, 0), Ok("C:\\w\\app".to_string()));
    assert_eq!(gc_target(&job, 5), Err(Refusal::InvalidSelection));
    let mut outside = job.clone();
    outside.projects[0].is_git = false;
    assert_eq!(gc_target(&outside, 0), Err(Refusal::NotGit));
    assert_eq!((Refusal::NotGit.status(), Refusal::NotGit.key()), (400, "error.not_git"));
    assert_eq!((Refusal::JobNotFound.status(), Refusal::JobNotFound.key()), (404, "error.job_not_found"));
    assert_eq!(Refusal::InvalidSelection.key(), "error.invalid_selection");
}

#[test]
fn clean_leaves_job_progress_alone() {
    let mut job = job_with(&[("venv", "venv", 3)]);
    job.done = 1;
    job.current = "x".to_string();
    apply_clean(&mut job, &vec![(0, "venv".to_string(), "venv".to_string(), 3)]);
    assert_eq!((job.done, job.current.as_str(), job.id.as_str()), (1, "x", "1"));
    assert!(job.projects[0].items.is_empty());
}
