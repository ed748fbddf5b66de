use cargo_commitlint::commit::{starts_footer, CommitMessage, ExtractionError};

const PATTERN: &str = r"^(?P<type>\w+)(?:\((?P<scope>[^)]+)\))?(?P<breaking>!)?:\s(?P<subject>.*)$";

#[test]
fn test_parse_simple_commit() {
    let msg = CommitMessage::from_str("feat: add new feature");
    assert_eq!(msg.header, "feat: add new feature");
}

#[test]
fn test_parse_with_scope() {
    let msg = CommitMessage::from_str("feat(api): add endpoint");
    let pattern = r"^(?P<type>\w+)(?:\((?P<scope>[^)]+)\))?(?P<breaking>!)?:\s(?P<subject>.*)$";
    let commit = msg.parse_conventional(pattern).unwrap();
    assert_eq!(commit.type_, "feat");
    assert_eq!(commit.scope, Some("api".to_string()));
}

#[test]
fn test_parse_with_body() {
    let msg = CommitMessage::from_str("feat: add feature\n\nThis is the body");
    assert_eq!(msg.body, Some("This is the body".to_string()));
}

#[test]
fn scope_commit_is_not_breaking() {
    let msg = CommitMessage::from_str("feat(api): add endpoint");
    let commit = msg.parse_conventional(PATTERN).unwrap();
    assert_eq!(commit.type_, "feat");
    assert_eq!(commit.scope, Some("api".to_string()));
    assert!(!commit.breaking);
    assert_eq!(commit.subject, "add endpoint");
    assert!(commit.footer.is_none());
    assert!(commit.body.is_none());
}

#[test]
fn breaking_change_footer_is_read() {
    let msg = CommitMessage::from_str("feat: drop v1\n\nBREAKING CHANGE: removes old API");
    assert_eq!(msg.body, None);
    assert_eq!(msg.footer, Some("BREAKING CHANGE: removes old API".to_string()));
    let commit = msg.parse_conventional(PATTERN).unwrap();
    let footer = commit.footer.unwrap();
    assert_eq!(footer.get("BREAKING CHANGE"), Some(&"removes old API".to_string()));
    assert!(commit.breaking);
}

#[test]
fn bang_marks_a_breaking_commit() {
    let msg = CommitMessage::from_str("feat(api)!: drop v1");
    let commit = msg.parse_conventional(PATTERN).unwrap();
    assert!(commit.breaking);
    assert_eq!(commit.scope, Some("api".to_string()));
    assert_eq!(commit.subject, "drop v1");
}

#[test]
fn empty_message_has_empty_header() {
    let msg = CommitMessage::from_str("");
    assert_eq!(msg.raw, "");
    assert_eq!(msg.header, "");
    assert_eq!(msg.body, None);
    assert_eq!(msg.footer, None);
}

#[test]
fn blank_second_line_belongs_to_no_segment() {
    let msg = CommitMessage::from_str("fix: a\n  \t\nbody one\nbody two");
    assert_eq!(msg.header, "fix: a");
    assert_eq!(msg.body, Some("body one\nbody two".to_string()));
    assert_eq!(msg.footer, None);
}

#[test]
fn second_line_that_is_not_blank_is_body() {
    let msg = CommitMessage::from_str("fix: a\nright away\n\nmore");
    assert_eq!(msg.body, Some("right away\n\nmore".to_string()));
}

#[test]
fn only_the_second_line_is_skipped() {
    let msg = CommitMessage::from_str("fix: a\n\n\nbody");
    assert_eq!(msg.body, Some("\nbody".to_string()));
}

#[test]
fn footer_is_sticky() {
    let msg = CommitMessage::from_str("fix: a\n\nbody\nFixes: #1\nplain text again\n\nlast");
    assert_eq!(msg.body, Some("body".to_string()));
    assert_eq!(msg.footer, Some("Fixes: #1\nplain text again\n\nlast".to_string()));
}

#[test]
fn footer_may_start_right_after_the_header() {
    let msg = CommitMessage::from_str("fix: a\nCloses: #12");
    assert_eq!(msg.body, None);
    assert_eq!(msg.footer, Some("Closes: #12".to_string()));
}

#[test]
fn hyphenated_token_starts_a_footer() {
    let msg = CommitMessage::from_str("fix: a\n\ntext\nCo-Authored-By: Someone <s@example.org>");
    assert_eq!(msg.body, Some("text".to_string()));
    assert_eq!(msg.footer, Some("Co-Authored-By: Someone <s@example.org>".to_string()));
}

#[test]
fn lines_that_only_look_like_tokens_stay_in_the_body() {
    for line in [
        "fixes: lower case first",
        "FIXES: all capitals",
        "F: one letter",
        "Fixes : space before colon",
        "Fixes-: hyphen at the end",
        "Fixes--By: two hyphens",
        "Fixes-by: small letter after hyphen",
        "-Fixes: hyphen first",
        " Fixes: space first",
        "Fixes1: digit",
        "Fixes",
        ": colon first",
        "Ünder: letter outside a to z",
        "BREAKING CHANGE without colon",
    ] {
        let raw = format!("fix: a\n\n{}", line);
        let msg = CommitMessage::from_str(&raw);
        assert_eq!(msg.body, Some(line.to_string()), "{}", line);
        assert_eq!(msg.footer, None, "{}", line);
    }
}

#[test]
fn lines_that_start_a_footer() {
    for line in [
        "Fixes:",
        "Fixes:no space",
        "Fixes: #1",
        "Co-Authored-By: x",
        "Reviewed-By:: two colons",
        "BREAKING CHANGE:",
        "BREAKING CHANGE: text",
        "BREAKING CHANGE:text",
    ] {
        let raw = format!("fix: a\n\n{}", line);
        let msg = CommitMessage::from_str(&raw);
        assert_eq!(msg.body, None, "{}", line);
        assert_eq!(msg.footer, Some(line.to_string()), "{}", line);
    }
}

#[test]
fn segments_agree_with_std_lines() {
    for raw in [
        "",
        "\n",
        "a",
        "a\n",
        "a\n\n",
        "a\r\nb\r\n",
        "a\rb",
        "a\n\nb\n\nc\n",
        "a\n\r\nb",
        "a\nb\r",
        "a\n\n\r\n\r\n",
        "one\n\ntwo\nFixes: x\nthree\n",
    ] {
        let msg = CommitMessage::from_str(raw);
        let lines: Vec<&str> = raw.lines().collect();
        assert_eq!(msg.raw, raw);
        assert_eq!(msg.header, lines.first().copied().unwrap_or(""), "{:?}", raw);
        let skip = if lines.len() >= 2 && lines[1].trim().is_empty() { 2 } else { 1 };
        let rest: Vec<&str> = lines.iter().skip(skip).copied().collect();
        let body_len = msg.body.as_ref().map_or(0, |b| b.matches('\n').count() + 1);
        let footer_len = msg.footer.as_ref().map_or(0, |f| f.matches('\n').count() + 1);
        assert_eq!(body_len + footer_len, rest.len(), "{:?}", raw);
        let mut joined: Vec<String> = Vec::new();
        if let Some(body) = &msg.body {
            joined.push(body.clone());
        }
        if let Some(footer) = &msg.footer {
            joined.push(footer.clone());
        }
        assert_eq!(joined.join("\n"), rest.join("\n"), "{:?}", raw);
    }
}

#[test]
fn footer_metadata_splits_on_the_first_colon() {
    let msg = CommitMessage::from_str(
        "fix: a\n\nRefs: http://example.org/1\n  Reviewed-By :  me  \nno colon here\nRefs: second",
    );
    let commit = msg.parse_conventional(PATTERN).unwrap();
    let footer = commit.footer.unwrap();
    assert_eq!(footer.get("Refs"), Some(&"second".to_string()));
    assert_eq!(footer.get("Reviewed-By"), Some(&"me".to_string()));
    assert_eq!(footer.get("no colon here"), None);
    assert!(!footer.contains_key("BREAKING CHANGE"));
    assert!(!commit.breaking);
}

#[test]
fn footer_without_entries_gives_no_metadata() {
    let msg = CommitMessage {
        raw: String::new(),
        header: "fix: a".to_string(),
        body: None,
        footer: Some("nothing to see\nhere".to_string()),
    };
    let commit = msg.parse_conventional(PATTERN).unwrap();
    assert!(commit.footer.is_none());
}

#[test]
fn header_that_does_not_match() {
    let msg = CommitMessage::from_str("no conventional header");
    match msg.parse_conventional(PATTERN) {
        Err(ExtractionError::NoMatch) => {}
        other => panic!("{:?}", other),
    }
    assert_eq!(
        ExtractionError::NoMatch.message(),
        "Commit message does not match conventional commit format"
    );
}

#[test]
fn pattern_that_does_not_compile() {
    let msg = CommitMessage::from_str("feat: x");
    match msg.parse_conventional("(unclosed") {
        Err(ExtractionError::InvalidPattern(text)) => {
            assert_eq!(text, regex::Regex::new("(unclosed").unwrap_err().to_string());
            assert_eq!(ExtractionError::InvalidPattern(text.clone()).message(), text);
        }
        other => panic!("{:?}", other),
    }
}

#[test]
fn pattern_without_the_type_group() {
    let msg = CommitMessage::from_str("feat: x");
    match msg.parse_conventional(r"^\w+: (?P<subject>.*)$") {
        Err(ExtractionError::MissingField(field)) => {
            assert_eq!(field, "type");
            assert_eq!(
                ExtractionError::MissingField(field).message(),
                "Missing 'type' in commit message"
            );
        }
        other => panic!("{:?}", other),
    }
}

#[test]
fn pattern_without_the_subject_group() {
    let msg = CommitMessage::from_str("feat: x");
    match msg.parse_conventional(r"^(?P<type>\w+): .*$") {
        Err(ExtractionError::MissingField(field)) => {
            assert_eq!(field, "subject");
            assert_eq!(
                ExtractionError::MissingField(field).message(),
                "Missing 'subject' in commit message"
            );
        }
        other => panic!("{:?}", other),
    }
}

#[test]
fn default_pattern_gives_type_and_subject() {
    for (header, type_, subject) in [
        ("feat: add", "feat", "add"),
        ("fix(core): mend", "fix", "mend"),
        ("docs!: rewrite", "docs", "rewrite"),
        ("x: y: z", "x", "y: z"),
        ("feat: ", "feat", ""),
    ] {
        let msg = CommitMessage::from_str(header);
        let commit = msg.parse_conventional(PATTERN).unwrap();
        assert_eq!(commit.type_, type_);
        assert!(!commit.type_.is_empty());
        assert_eq!(commit.subject, subject);
    }
}

#[test]
fn footer_starts_agree_with_the_regular_expression() {
    let token = regex::Regex::new(r"^[A-Z][a-z]+(?:-[A-Z][a-z]+)*:").unwrap();
    let alphabet = ['A', 'b', '-', ':', ' ', 'Z', 'é'];
    let mut lines: Vec<String> = vec![String::new()];
    let mut last: Vec<String> = vec![String::new()];
    for _ in 0..5 {
        let mut next = Vec::new();
        for line in &last {
            for c in alphabet {
                let mut longer = line.clone();
                longer.push(c);
                next.push(longer);
            }
        }
        lines.extend(next.iter().cloned());
        last = next;
    }
    assert_eq!(lines.len(), 1 + 7 + 49 + 343 + 2401 + 16807);
    for line in &lines {
        let expected = line.starts_with("BREAKING CHANGE:") || token.is_match(line);
        assert_eq!(starts_footer(line), expected, "{:?}", line);
    }
    for line in ["BREAKING CHANGE: x", "BREAKING CHANGE", "Signed-Off-By: a", "Ab-Cd-:"] {
        let expected = line.starts_with("BREAKING CHANGE:") || token.is_match(line);
        assert_eq!(starts_footer(line), expected, "{:?}", line);
    }
}
