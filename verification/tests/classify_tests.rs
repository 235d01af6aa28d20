use honey_health::convention::{Attribute, ComplexType, Group, Member, MemberValue, Type};
use honey_health::index::SemanticConventions;
use honey_health::suggestion::{Suggestion, SuggestionComment};

fn simple_attribute(id: &str, type_tag: &str, deprecated: Option<&str>) -> Attribute {
    Attribute {
        id: Some(id.to_string()),
        attr_type: Some(Type::Simple(type_tag.to_string())),
        deprecated: deprecated.map(|d| d.to_string()),
    }
}

fn one_group(prefix: &str, attributes: Vec<Attribute>) -> Group {
    Group {
        prefix: Some(prefix.to_string()),
        attributes: Some(attributes),
    }
}

fn http_method_index() -> SemanticConventions {
    let mut sc = SemanticConventions::new();
    sc.read_groups(vec![one_group(
        "http",
        vec![simple_attribute("method", "string", None)],
    )]);
    sc
}

#[test]
fn declared_name_matches() {
    let sc = http_method_index();
    assert_eq!(sc.get_suggestion("http.method"), Suggestion::Matching);
}

#[test]
fn wrong_case_extends_and_similar() {
    let sc = http_method_index();
    assert_eq!(
        sc.get_suggestion("http.Method"),
        Suggestion::Bad(vec![
            SuggestionComment::WrongCase,
            SuggestionComment::Extends("http".to_string()),
            SuggestionComment::Similar(vec!["http.method".to_string()]),
        ])
    );
}

#[test]
fn plain_unknown_name_has_no_namespace() {
    let sc = http_method_index();
    assert_eq!(
        sc.get_suggestion("database"),
        Suggestion::Bad(vec![SuggestionComment::NoNamespace])
    );
}

#[test]
fn uppercase_unknown_name_is_bad_twice() {
    let sc = http_method_index();
    assert_eq!(
        sc.get_suggestion("Database"),
        Suggestion::Bad(vec![
            SuggestionComment::WrongCase,
            SuggestionComment::NoNamespace,
        ])
    );
}

#[test]
fn empty_name_has_no_namespace() {
    let sc = http_method_index();
    assert_eq!(
        sc.get_suggestion(""),
        Suggestion::Bad(vec![SuggestionComment::NoNamespace])
    );
}

#[test]
fn redeclared_name_turns_deprecated() {
    let mut sc = http_method_index();
    sc.read_groups(vec![one_group(
        "http",
        vec![simple_attribute(
            "method",
            "string",
            Some("use http.request.method"),
        )],
    )]);
    assert_eq!(
        sc.get_suggestion("http.method"),
        Suggestion::Bad(vec![SuggestionComment::Deprecated(
            "use http.request.method".to_string()
        )])
    );
}

#[test]
fn template_name_matches() {
    let mut sc = SemanticConventions::new();
    sc.read_groups(vec![one_group(
        "http.request",
        vec![simple_attribute("header", "template[string]", None)],
    )]);
    assert_eq!(
        sc.get_suggestion("http.request.header.content-type"),
        Suggestion::Matching
    );
}

#[test]
fn deprecated_template_is_bad() {
    let mut sc = SemanticConventions::new();
    sc.read_groups(vec![one_group(
        "http.request",
        vec![simple_attribute("header", "template[string]", Some("gone"))],
    )]);
    assert_eq!(
        sc.get_suggestion("http.request.header.content-type"),
        Suggestion::Bad(vec![SuggestionComment::Deprecated("gone".to_string())])
    );
}

#[test]
fn later_declaration_wins() {
    let mut sc = SemanticConventions::new();
    sc.read_groups(vec![one_group(
        "db",
        vec![simple_attribute("system", "string", None)],
    )]);
    assert_eq!(sc.get_suggestion("db.system"), Suggestion::Matching);
    sc.read_groups(vec![one_group(
        "db",
        vec![simple_attribute("system", "string", Some("Use db.system.name"))],
    )]);
    assert_eq!(
        sc.get_suggestion("db.system"),
        Suggestion::Bad(vec![SuggestionComment::Deprecated(
            "Use db.system.name".to_string()
        )])
    );
}

#[test]
fn builtin_name_matches() {
    let sc = SemanticConventions::new();
    assert_eq!(sc.get_suggestion("duration_ms"), Suggestion::Matching);
    assert_eq!(sc.get_suggestion("meta.signal_type"), Suggestion::Matching);
}

#[test]
fn classification_is_idempotent() {
    let sc = http_method_index();
    let names = ["http.method", "http.Method", "database", "", "span.kind"];
    for name in names {
        assert_eq!(sc.get_suggestion(name), sc.get_suggestion(name));
    }
}

#[test]
fn read_groups_inserts_all_prefixes() {
    let mut sc = SemanticConventions::new();
    sc.read_groups(vec![one_group(
        "http.request",
        vec![simple_attribute("header", "template[string]", None)],
    )]);
    assert!(sc.contains_prefix("http"));
    assert!(sc.contains_prefix("http.request"));
    assert!(sc.contains_prefix("http.request.header"));
}

#[test]
fn attribute_without_id_is_skipped() {
    let mut sc = SemanticConventions::new();
    sc.read_groups(vec![one_group(
        "http",
        vec![Attribute {
            id: None,
            attr_type: Some(Type::Simple("string".to_string())),
            deprecated: None,
        }],
    )]);
    assert!(!sc.contains_prefix("http"));
    assert_eq!(
        sc.get_suggestion("database"),
        Suggestion::Bad(vec![SuggestionComment::NoNamespace])
    );
}

#[test]
fn group_without_prefix_is_skipped() {
    let mut sc = SemanticConventions::new();
    sc.read_groups(vec![Group {
        prefix: None,
        attributes: Some(vec![simple_attribute("method", "string", None)]),
    }]);
    assert!(!sc.contains_name("method"));
}

#[test]
fn similar_finds_close_names() {
    let sc = http_method_index();
    assert_eq!(
        sc.similar("http.methd"),
        Some(vec!["http.method".to_string()])
    );
    assert_eq!(sc.similar("zzz"), None);
}

#[test]
fn similar_skips_deprecated_names() {
    let mut sc = http_method_index();
    sc.read_groups(vec![one_group(
        "http",
        vec![simple_attribute("method", "string", Some("gone"))],
    )]);
    assert_eq!(sc.similar("http.methd"), None);
}

#[test]
fn enum_candidate_wants_matching_and_complex() {
    let mut sc = SemanticConventions::new();
    let complex = Attribute {
        id: Some("status".to_string()),
        attr_type: Some(Type::Complex(ComplexType {
            allow_custom_values: false,
            members: vec![
                Member {
                    value: MemberValue::StringType("ok".to_string()),
                },
                Member {
                    value: MemberValue::StringType("error".to_string()),
                },
            ],
        })),
        deprecated: None,
    };
    sc.read_groups(vec![
        one_group("rpc", vec![complex]),
        one_group("http", vec![simple_attribute("method", "string", None)]),
    ]);
    let matching = sc.get_suggestion("rpc.status");
    assert_eq!(matching, Suggestion::Matching);
    assert!(sc.enum_candidate("rpc.status", &matching).is_some());
    assert!(sc.enum_candidate("http.method", &matching).is_none());
    let missing = Suggestion::Missing(vec![]);
    assert!(sc.enum_candidate("rpc.status", &missing).is_none());
}

#[test]
fn unknown_namespaced_name_is_missing() {
    let sc = http_method_index();
    assert_eq!(
        sc.get_suggestion("http.request.method"),
        Suggestion::Missing(vec![SuggestionComment::Extends("http".to_string())])
    );
    assert_eq!(
        sc.get_suggestion("span.foo"),
        Suggestion::Missing(vec![SuggestionComment::Extends("span".to_string())])
    );
}
