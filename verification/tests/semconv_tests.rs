use honey_health::index::SemanticConventions;

#[test]
fn test_populate_builtins() {
    let mut sc = SemanticConventions {
        attribute_map: Vec::new(),
        prefixes: Vec::new(),
        templates: Vec::new(),
    };
    sc.populate_builtins();
    assert!(sc.contains_name("duration_ms"));
    assert!(sc.contains_prefix("meta"));
}

#[test]
fn test_contains_uppercase() {
    assert!(SemanticConventions::contains_uppercase("Test"));
    assert!(!SemanticConventions::contains_uppercase("test"));
}

#[test]
fn test_insert_prefixes() {
    let mut sc = SemanticConventions {
        attribute_map: Vec::new(),
        prefixes: Vec::new(),
        templates: Vec::new(),
    };
    sc.insert_prefixes("a.b.c");
    assert!(sc.contains_prefix("a"));
    assert!(sc.contains_prefix("a.b"));
    assert!(sc.contains_prefix("a.b.c"));
}

#[test]
fn test_prefix_exists() {
    let mut sc = SemanticConventions {
        attribute_map: Vec::new(),
        prefixes: Vec::new(),
        templates: Vec::new(),
    };
    sc.insert_prefixes("a.b.c");
    assert_eq!(sc.prefix_exists("a.b.c.d"), Some("a.b.c".to_string()));
    assert_eq!(sc.prefix_exists("a.d"), Some("a".to_string()));
    assert_eq!(sc.prefix_exists("x.y.z"), None);
}

#[test]
fn test_similar() {
    let mut sc = SemanticConventions {
        attribute_map: Vec::new(),
        prefixes: Vec::new(),
        templates: Vec::new(),
    };
    sc.insert_attribute("test".to_string(), None);
    assert_eq!(sc.similar("test"), Some(vec!["test".to_string()]));
    assert_eq!(sc.similar("x"), None);
}
