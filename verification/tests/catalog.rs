use ferrite::catalog::{display_name, find_rule, looks_like_project, project_markers, rule_by_id, rules, wildcard_match, Kind, CHECK, DATA, SAFE};

fn names(list: &[&str]) -> Vec<String> {
    list.iter().map(|s| s.to_string()).collect()
}

fn found(name: &str, is_dir: bool, parent: &str, siblings: &[&str]) -> Option<&'static str> {
    let table = rules();
    find_rule(&table, name, is_dir, parent, &names(siblings)).map(|rule| rule.id)
}

#[test]
fn catalogue_has_120_rules_with_known_risks() {
    let table = rules();
    assert_eq!(table.len(), 120);
    for rule in &table {
        assert!(rule.risk == SAFE || rule.risk == CHECK || rule.risk == DATA);
    }
}

#[test]
fn rule_ids_are_unique() {
    let table = rules();
    for (i, a) in table.iter().enumerate() {
        for b in table.iter().skip(i + 1) {
            assert_ne!(a.id, b.id);
        }
    }
}

#[test]
fn wildcard_star_and_question_mark() {
    assert!(wildcard_match("*.pyc", "module.pyc"));
    assert!(!wildcard_match("*.pyc", "module.py"));
    assert!(wildcard_match("cmake-build-*", "cmake-build-debug"));
    assert!(wildcard_match("a?c", "abc"));
    assert!(!wildcard_match("a?c", "ac"));
    assert!(wildcard_match("*", ""));
    assert!(wildcard_match("", ""));
    assert!(!wildcard_match("", "x"));
    assert!(wildcard_match("npm-debug.log*", "npm-debug.log.1234"));
    assert!(wildcard_match("*a*b*", "xxaxxbxx"));
    assert!(!wildcard_match("*a*b*", "xxbxxaxx"));
}

#[test]
fn wildcard_ignores_case() {
    assert!(wildcard_match("*.CSPROJ", "app.csproj"));
    assert!(wildcard_match("*.csproj", "App.CsProj"));
    assert!(wildcard_match("ÉTÉ*", "été-2024"));
}

#[test]
fn target_needs_cargo_or_maven_marker() {
    assert_eq!(found("target", true, "app", &["Cargo.toml", "src"]), Some("cargo_target"));
    assert_eq!(found("target", true, "app", &["pom.xml"]), Some("maven_target"));
    assert_eq!(found("target", true, "app", &["package.json"]), None);
    assert_eq!(found("target", true, "app", &[]), None);
}

#[test]
fn vendor_needs_composer_or_go_marker() {
    assert_eq!(found("vendor", true, "app", &["composer.json"]), Some("composer_vendor"));
    assert_eq!(found("vendor", true, "app", &["go.mod"]), Some("go_vendor"));
    assert_eq!(found("vendor", true, "app", &["Gemfile"]), None);
}

#[test]
fn bin_and_obj_need_a_dotnet_project_file() {
    assert_eq!(found("bin", true, "app", &["App.csproj"]), Some("dotnet_bin"));
    assert_eq!(found("obj", true, "app", &["Tool.csproj"]), Some("dotnet_bin"));
    assert_eq!(found("obj", true, "app", &["Tool.fsproj"]), None);
    assert_eq!(found("bin", true, "app", &["App.sln"]), None);
    assert_eq!(found("bin", true, "app", &["Makefile"]), None);
}

#[test]
fn no_rule_for_models_or_checkpoints_directories() {
    assert_eq!(found("models", true, "app", &["manage.py"]), None);
    assert_eq!(found("checkpoints", true, "app", &[]), None);
    assert_eq!(found("model.safetensors", false, "models", &[]), Some("model_weights"));
    assert_eq!(found("weights.gguf", false, "checkpoints", &[]), Some("model_weights"));
}

#[test]
fn yarn_cache_only_under_dot_yarn() {
    assert_eq!(found("cache", true, ".yarn", &[]), Some("yarn_cache"));
    assert_eq!(found("cache", true, "src", &[]), None);
    assert_eq!(found("cache", true, ".vitepress", &[]), Some("vitepress_out"));
}

#[test]
fn first_matching_rule_wins() {
    assert_eq!(found("dist", true, "app", &["setup.py"]), Some("py_dist"));
    assert_eq!(found("dist", true, "app", &[]), Some("generic_dist"));
    assert_eq!(found("build", true, "app", &["build.gradle"]), Some("gradle_build"));
    assert_eq!(found("build", true, "app", &[]), Some("generic_build"));
    assert_eq!(found("_build", true, "docs", &[]), Some("sphinx_build"));
    assert_eq!(found("_build", true, "app", &["mix.exs"]), Some("elixir_build"));
}

#[test]
fn kind_must_match() {
    assert_eq!(found("node_modules", true, "app", &[]), Some("node_modules"));
    assert_eq!(found("node_modules", false, "app", &[]), None);
    assert_eq!(found("module.pyc", false, "pkg", &[]), Some("pyc"));
    assert_eq!(found("module.pyc", true, "pkg", &[]), None);
    assert_eq!(found("thing.egg-info", true, "pkg", &[]), Some("egg_info"));
}

#[test]
fn file_globs_and_names() {
    assert_eq!(found(".DS_Store", false, "x", &[]), Some("os_junk"));
    assert_eq!(found("._resource", false, "x", &[]), Some("os_junk"));
    assert_eq!(found("server.log", false, "x", &[]), Some("log_files"));
    assert_eq!(found("README.md", false, "x", &[]), None);
}

#[test]
fn rule_lookup_by_id() {
    let table = rules();
    let rule = rule_by_id(&table, "cargo_target").unwrap();
    assert_eq!(rule.cat, "rust");
    assert_eq!(rule.risk, SAFE);
    assert!(rule.kind == Kind::Dir);
    assert_eq!(rule.requires, &["Cargo.toml"]);
    assert!(rule_by_id(&table, "no_such_rule").is_none());
    assert_eq!(rule_by_id(&table, "wandb").unwrap().risk, DATA);
}

#[test]
fn display_name_lists_at_most_four_parts() {
    let table = rules();
    assert_eq!(display_name(&rule_by_id(&table, "node_modules").unwrap()), "node_modules");
    assert_eq!(display_name(&rule_by_id(&table, "expo").unwrap()), ".expo .expo-shared");
    assert_eq!(display_name(&rule_by_id(&table, "yarn_cache").unwrap()), ".yarn/cache .yarn/unplugged");
    assert_eq!(
        display_name(&rule_by_id(&table, "venv").unwrap()),
        "venv .venv virtualenv env310 ..."
    );
    assert_eq!(
        display_name(&rule_by_id(&table, "os_junk").unwrap()),
        ".DS_Store Thumbs.db ehthumbs.db desktop.ini ..."
    );
    assert_eq!(display_name(&rule_by_id(&table, "rpt2_cache").unwrap()), ".rpt2_cache .rts2_cache_*");
    assert_eq!(
        display_name(&rule_by_id(&table, "legacy_task_cache").unwrap()),
        ".grunt .fusebox .dynamodb .node_modules_cache"
    );
}

#[test]
fn project_markers_recognise_projects() {
    assert_eq!(project_markers().len(), 23);
    assert!(looks_like_project(&names(&["src", "Cargo.toml"])));
    assert!(looks_like_project(&names(&[".git"])));
    assert!(looks_like_project(&names(&["Game.uproject"])));
    assert!(looks_like_project(&names(&["app.SLN"])));
    assert!(!looks_like_project(&names(&["notes.txt", "photos"])));
    assert!(!looks_like_project(&names(&[])));
}

#[test]
fn wildcard_star_in_name_is_an_ordinary_character() {
    assert!(wildcard_match("*b", "*ab"));
    assert!(wildcard_match("a*", "A*"));
    assert!(wildcard_match("?", "*"));
    assert!(!wildcard_match("*c", "*ab"));
}
