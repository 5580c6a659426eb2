use ferrite::i18n::{languages, lookup, lookup_parts, resolve, t, Catalogs, Locale, Node, DEFAULT_LANG};

fn text(s: &str) -> Node {
    Node::Text(s.to_string())
}

fn object(entries: Vec<(&str, Node)>) -> Node {
    Node::Object(entries.into_iter().map(|(k, v)| (k.to_string(), v)).collect())
}

fn catalogs() -> Catalogs {
    let fr = object(vec![
        ("meta", object(vec![("label", text("Français"))])),
        ("error", object(vec![("job_not_found", text("Tâche introuvable"))])),
        ("count", Node::Other),
    ]);
    let en = object(vec![
        ("meta", object(vec![("label", text("English"))])),
        (
            "error",
            object(vec![("job_not_found", text("Job not found")), ("invalid_selection", text("Invalid selection"))]),
        ),
    ]);
    Catalogs {
        locales: vec![Locale { code: "fr".to_string(), root: fr }, Locale { code: "en".to_string(), root: en }],
    }
}

#[test]
fn lookup_follows_dotted_keys() {
    let c = catalogs();
    let fr = &c.locales[0].root;
    assert_eq!(lookup(fr, "error.job_not_found"), Some("Tâche introuvable".to_string()));
    assert_eq!(lookup(fr, "error"), None);
    assert_eq!(lookup(fr, "count"), None);
    assert_eq!(lookup(fr, "error.job_not_found.x"), None);
    assert_eq!(lookup(fr, "missing.key"), None);
    let parts = vec!["meta".to_string(), "label".to_string()];
    assert_eq!(lookup_parts(fr, &parts), Some("Français".to_string()));
}

#[test]
fn translation_falls_back_to_english_then_key() {
    let c = catalogs();
    assert_eq!(t(&c, "fr", "error.job_not_found"), "Tâche introuvable");
    assert_eq!(t(&c, "fr", "error.invalid_selection"), "Invalid selection");
    assert_eq!(t(&c, "de", "error.job_not_found"), "Job not found");
    assert_eq!(t(&c, "fr", "no.such.key"), "no.such.key");
}

#[test]
fn resolve_takes_the_base_code() {
    let c = catalogs();
    assert_eq!(resolve(&c, Some("fr-FR")), "fr");
    assert_eq!(resolve(&c, Some(" fr ,en;q=0.8")), "fr");
    assert_eq!(resolve(&c, Some("de")), DEFAULT_LANG);
    assert_eq!(resolve(&c, None), "en");
    assert_eq!(resolve(&c, Some("")), "en");
}

#[test]
fn languages_sorted_by_code_with_labels() {
    let c = catalogs();
    assert_eq!(
        languages(&c),
        vec![("en".to_string(), "English".to_string()), ("fr".to_string(), "Français".to_string())]
    );
    let bare = Catalogs { locales: vec![Locale { code: "xx".to_string(), root: Node::Other }] };
    assert_eq!(languages(&bare), vec![("xx".to_string(), "xx".to_string())]);
}

#[test]
fn resolving_a_resolved_code_gives_it_back() {
    let c = catalogs();
    for requested in [Some("fr-CA"), Some(" en "), Some("zz"), None, Some("fr,en")] {
        let once = resolve(&c, requested);
        assert!(once == "fr" || once == "en");
        assert_eq!(resolve(&c, Some(once.as_str())), once);
    }
}
