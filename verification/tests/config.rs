use cargo_commitlint::config::{
    default_body_leading_blank, default_body_max_line_length, default_footer_leading_blank,
    default_footer_max_line_length, default_header_max_length, default_header_min_length,
    default_parser_correspondence, default_parser_pattern, default_rules, default_scope_case,
    default_scope_enum, default_scope_rule, default_subject_case, default_subject_empty,
    default_subject_full_stop, default_type_case, default_type_enum, default_type_rule, Config,
    Parser,
};
use cargo_commitlint::string_map::StringMap;

#[test]
fn default_configuration() {
    let config = Config::default();
    assert_eq!(
        config.rules.type_.enum_,
        vec![
            "build", "chore", "ci", "docs", "feat", "fix", "perf", "refactor", "revert", "style",
            "test"
        ]
    );
    assert_eq!(config.rules.type_.case, "lowercase");
    assert!(config.rules.scope.enum_.is_empty());
    assert_eq!(config.rules.scope.case, "lowercase");
    assert_eq!(config.rules.subject_case, vec!["sentence-case"]);
    assert!(!config.rules.subject_empty);
    assert_eq!(config.rules.subject_full_stop, ".");
    assert_eq!(config.rules.header_max_length, 72);
    assert_eq!(config.rules.header_min_length, 0);
    assert!(config.rules.body_leading_blank);
    assert_eq!(config.rules.body_max_line_length, 100);
    assert!(config.rules.footer_leading_blank);
    assert_eq!(config.rules.footer_max_line_length, 100);
    assert_eq!(
        config.parser.pattern,
        r"^(?P<type>\w+)(?:\((?P<scope>[^)]+)\))?(?P<breaking>!)?:\s(?P<subject>.*)$"
    );
    assert!(config.ignores.is_empty());
    for group in ["type", "scope", "subject", "breaking"] {
        assert_eq!(config.parser.correspondence.get(group), Some(&group.to_string()));
    }
    assert_eq!(config.parser.correspondence.get("other"), None);
}

#[test]
fn default_parts_agree_with_the_whole() {
    let rules = default_rules();
    assert_eq!(rules.type_.enum_, default_type_enum());
    assert_eq!(rules.type_.case, default_type_case());
    assert_eq!(default_type_rule().enum_, default_type_enum());
    assert_eq!(rules.scope.enum_, default_scope_enum());
    assert_eq!(default_scope_rule().case, default_scope_case());
    assert_eq!(rules.subject_case, default_subject_case());
    assert_eq!(rules.subject_empty, default_subject_empty());
    assert_eq!(rules.subject_full_stop, default_subject_full_stop());
    assert_eq!(rules.header_max_length, default_header_max_length());
    assert_eq!(rules.header_min_length, default_header_min_length());
    assert_eq!(rules.body_leading_blank, default_body_leading_blank());
    assert_eq!(rules.body_max_line_length, default_body_max_line_length());
    assert_eq!(rules.footer_leading_blank, default_footer_leading_blank());
    assert_eq!(rules.footer_max_line_length, default_footer_max_line_length());
    assert_eq!(Parser::default().pattern, default_parser_pattern());
    assert!(default_parser_correspondence().contains_key("breaking"));
}

#[test]
fn string_map_sets_and_replaces() {
    let mut map = StringMap::new();
    assert!(map.is_empty());
    assert_eq!(map.get("a"), None);
    map.insert("a".to_string(), "1".to_string());
    map.insert("b".to_string(), "2".to_string());
    map.insert("a".to_string(), "3".to_string());
    assert!(!map.is_empty());
    assert_eq!(map.get("a"), Some(&"3".to_string()));
    assert_eq!(map.get("b"), Some(&"2".to_string()));
    assert!(map.contains_key("b"));
    assert!(!map.contains_key("c"));
    assert!(!map.contains_key(""));
    let copy = map.clone();
    assert_eq!(copy.get("a"), Some(&"3".to_string()));
}

#[test]
fn string_map_pairs_name_each_key_once() {
    let mut map = StringMap::new();
    assert!(map.pairs().is_empty());
    map.insert("a".to_string(), "1".to_string());
    map.insert("b".to_string(), "2".to_string());
    map.insert("a".to_string(), "3".to_string());
    let mut pairs = map.pairs();
    pairs.sort();
    assert_eq!(
        pairs,
        vec![("a".to_string(), "3".to_string()), ("b".to_string(), "2".to_string())]
    );
    let mut groups: Vec<String> =
        default_parser_correspondence().pairs().into_iter().map(|(k, _)| k).collect();
    groups.sort();
    assert_eq!(groups, vec!["breaking", "scope", "subject", "type"]);
}
