use honey_health::convention::{ComplexType, Member, MemberValue};
use honey_health::report::{longest_column_name, ColumnInfo, ColumnUsage, DatasetHealth};
use honey_health::strings::{
    i64_to_dec_string, join_strings, str_eq, trim_to_string, u64_to_dec_string,
};
use honey_health::suggestion::{Suggestion, SuggestionComment};

#[test]
fn verdict_names() {
    assert_eq!(Suggestion::Matching.get_name(), "Matching");
    assert_eq!(Suggestion::Missing(vec![]).get_name(), "Missing");
    assert_eq!(Suggestion::Bad(vec![]).get_name(), "Bad");
}

#[test]
fn comment_text_renderings() {
    assert_eq!(SuggestionComment::WrongCase.to_text(), "WrongCase");
    assert_eq!(SuggestionComment::NoNamespace.to_text(), "NoNamespace");
    assert_eq!(
        SuggestionComment::Similar(vec!["a".to_string(), "b".to_string()]).to_text(),
        "Similar to a b"
    );
    assert_eq!(
        SuggestionComment::Extends("http".to_string()).to_text(),
        "Extends http"
    );
    assert_eq!(
        SuggestionComment::Deprecated("use x".to_string()).to_text(),
        "Deprecated: use x"
    );
}

#[test]
fn comment_markdown_renderings() {
    assert_eq!(SuggestionComment::WrongCase.to_markdown(), "WrongCase");
    assert_eq!(SuggestionComment::NoNamespace.to_markdown(), "NoNamespace");
    assert_eq!(
        SuggestionComment::Similar(vec!["a".to_string(), "b".to_string()]).to_markdown(),
        "Similar to `a`, `b`"
    );
    assert_eq!(
        SuggestionComment::Extends("http".to_string()).to_markdown(),
        "Extends `http`"
    );
    assert_eq!(
        SuggestionComment::Deprecated("use x".to_string()).to_markdown(),
        "Deprecated: use x"
    );
}

#[test]
fn comments_join_with_semicolons() {
    let bad = Suggestion::Bad(vec![
        SuggestionComment::WrongCase,
        SuggestionComment::NoNamespace,
    ]);
    assert_eq!(bad.get_comments_string(false), "WrongCase; NoNamespace");
    assert_eq!(bad.get_comments_string(true), "WrongCase; NoNamespace");
    assert_eq!(Suggestion::Matching.get_comments_string(false), "");
    let one = Suggestion::Missing(vec![SuggestionComment::Extends("db".to_string())]);
    assert_eq!(one.get_comments_string(true), "Extends `db`");
}

#[test]
fn verdict_lines_are_padded() {
    assert_eq!(Suggestion::Matching.to_text(), "Matching");
    assert_eq!(
        Suggestion::Bad(vec![SuggestionComment::NoNamespace]).to_text(),
        "Bad      NoNamespace"
    );
    assert_eq!(
        Suggestion::Missing(vec![SuggestionComment::Extends("db".to_string())]).to_text(),
        "Missing  Extends db"
    );
}

#[test]
fn member_values_render_in_decimal() {
    assert_eq!(MemberValue::StringType("GET".to_string()).to_text(), "GET");
    assert_eq!(MemberValue::IntegerType(0).to_text(), "0");
    assert_eq!(MemberValue::IntegerType(-42).to_text(), "-42");
    assert_eq!(
        MemberValue::IntegerType(i64::MAX).to_text(),
        "9223372036854775807"
    );
    assert_eq!(
        MemberValue::IntegerType(i64::MIN).to_text(),
        "-9223372036854775808"
    );
}

#[test]
fn decimal_strings() {
    assert_eq!(u64_to_dec_string(0), "0");
    assert_eq!(u64_to_dec_string(10), "10");
    assert_eq!(u64_to_dec_string(107), "107");
    assert_eq!(u64_to_dec_string(u64::MAX), "18446744073709551615");
    assert_eq!(i64_to_dec_string(7), "7");
    assert_eq!(i64_to_dec_string(-1), "-1");
}

#[test]
fn string_helpers() {
    assert!(str_eq("abc", "abc"));
    assert!(!str_eq("abc", "abd"));
    assert!(!str_eq("abc", "ab"));
    assert_eq!(trim_to_string("  a b \t"), "a b");
    assert_eq!(trim_to_string(""), "");
    assert_eq!(trim_to_string(" \n "), "");
    assert_eq!(
        join_strings(&vec!["a".to_string(), "b".to_string()], "; "),
        "a; b"
    );
    assert_eq!(join_strings(&vec![], "; "), "");
}

fn string_members(values: &[&str]) -> ComplexType {
    ComplexType {
        allow_custom_values: false,
        members: values
            .iter()
            .map(|v| Member {
                value: MemberValue::StringType(v.to_string()),
            })
            .collect(),
    }
}

#[test]
fn undefined_variants_reports_the_unknown_value() {
    let ct = string_members(&["GET", "POST"]);
    let observed = vec!["GET".to_string(), "POST".to_string(), "PATCH".to_string()];
    assert_eq!(ct.undefined_variants(&observed), vec!["PATCH".to_string()]);
}

#[test]
fn undefined_variants_round_trip_is_empty() {
    let ct = string_members(&["GET", "POST"]);
    let observed = vec!["GET".to_string(), "POST".to_string()];
    assert_eq!(ct.undefined_variants(&observed), Vec::<String>::new());
}

#[test]
fn undefined_variants_edge_cases() {
    let ct = string_members(&[]);
    assert_eq!(ct.undefined_variants(&vec![]), Vec::<String>::new());
    assert_eq!(
        ct.undefined_variants(&vec!["A".to_string()]),
        vec!["A".to_string()]
    );
    let trimmed = string_members(&[" GET "]);
    assert_eq!(trimmed.get_simple_variants(), vec!["GET".to_string()]);
    assert_eq!(
        trimmed.undefined_variants(&vec!["GET  ".to_string()]),
        Vec::<String>::new()
    );
    let numeric = ComplexType {
        allow_custom_values: true,
        members: vec![Member {
            value: MemberValue::IntegerType(200),
        }],
    };
    assert_eq!(
        numeric.undefined_variants(&vec!["200".to_string(), "404".to_string()]),
        vec!["404".to_string()]
    );
}

#[test]
fn dataset_health_tallies() {
    let mut health = DatasetHealth::new();
    health.record(&Suggestion::Matching);
    health.record(&Suggestion::Matching);
    health.record(&Suggestion::Missing(vec![]));
    health.record(&Suggestion::Bad(vec![SuggestionComment::NoNamespace]));
    assert_eq!(health.matching, 2);
    assert_eq!(health.missing, 1);
    assert_eq!(health.bad, 1);
}

#[test]
fn column_usage_flags() {
    let usage = ColumnUsage::new(
        ColumnInfo {
            key_name: "http.method".to_string(),
            column_type: "string".to_string(),
        },
        Suggestion::Matching,
        3,
        1,
    );
    assert_eq!(usage.datasets, vec![false, true, false]);
    assert_eq!(usage.datasets_as_string(), "1,,x,,");
}

#[test]
fn column_usage_csv_row() {
    let usage = ColumnUsage::new(
        ColumnInfo {
            key_name: "Database".to_string(),
            column_type: "string".to_string(),
        },
        Suggestion::Bad(vec![
            SuggestionComment::WrongCase,
            SuggestionComment::NoNamespace,
        ]),
        2,
        0,
    );
    assert_eq!(
        usage.csv_row(),
        "Database,string,Bad,WrongCase; NoNamespace,1,x,,"
    );
}

#[test]
fn longest_column_name_has_a_floor() {
    assert_eq!(longest_column_name(&vec![]), 6);
    let usage = ColumnUsage::new(
        ColumnInfo {
            key_name: "http.request.method".to_string(),
            column_type: "string".to_string(),
        },
        Suggestion::Matching,
        1,
        0,
    );
    assert_eq!(longest_column_name(&vec![usage]), 19);
}
