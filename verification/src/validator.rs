//! The rule engine: every rule is checked, and every violation reported.

use crate::chars::{lowercase, numeric, uppercase, whitespace};
use crate::commit::{
    extract, extraction_view, failure_text, segment, CommitMessage, ConventionalCommit,
    ExtractionError, Failure, Fields, Segments,
};
use crate::config::{Config, ConfigView, RulesView};
use crate::pattern::{is_match, regex_error, regex_is_match};
use crate::text::{
    decimal, decimal_string, ends_with, join, join_strings, lines, same, split_lines, texts,
    to_chars, trim, trimmed, blank, is_blank,
};
use vstd::prelude::*;
use vstd::string::*;

verus! {

/// A violation, seen as plain text.
pub struct Violation {
    pub rule: Seq<char>,
    pub message: Seq<char>,
}

/// One rule that a commit message broke, with what to tell the user.
#[derive(Debug, Clone)]
pub struct ValidationError {
    pub rule: String,
    pub message: String,
}

impl View for ValidationError {
    type V = Violation;

    open spec fn view(&self) -> Violation {
        Violation { rule: self.rule@, message: self.message@ }
    }
}

/// The views of a list of errors.
pub open spec fn violations(errors: Seq<ValidationError>) -> Seq<Violation> {
    errors.map_values(|e: ValidationError| e@)
}

/// The outcome of a validation, seen as plain text.
pub open spec fn outcome_view(outcome: Result<(), Vec<ValidationError>>) -> Result<
    (),
    Seq<Violation>,
> {
    match outcome {
        Ok(()) => Ok(()),
        Err(errors) => Err(violations(errors@)),
    }
}

/// `violation` where `broken` holds, and nothing where it does not.
pub open spec fn when(broken: bool, violation: Violation) -> Seq<Violation> {
    if broken {
        seq![violation]
    } else {
        Seq::empty()
    }
}

/// Whether `text` is written in the case style named `case`. A style that is
/// not known asks for nothing.
pub open spec fn fits_case(text: Seq<char>, case: Seq<char>) -> bool {
    if case == "lowercase"@ {
        forall|i: int| 0 <= i < text.len() ==> !uppercase(#[trigger] text[i])
    } else if case == "uppercase"@ {
        forall|i: int| 0 <= i < text.len() ==> !lowercase(#[trigger] text[i])
    } else if case == "camel-case"@ {
        text.len() > 0 && lowercase(text[0])
    } else if case == "kebab-case"@ {
        forall|i: int| 0 <= i < text.len() ==> lowercase(#[trigger] text[i]) || text[i] == '-'
    } else if case == "pascal-case"@ {
        text.len() > 0 && uppercase(text[0])
    } else if case == "snake-case"@ {
        forall|i: int| 0 <= i < text.len() ==> lowercase(#[trigger] text[i]) || text[i] == '_'
    } else {
        true
    }
}

/// Whether a word starts at index `i` of `text`: a character that is no
/// whitespace, at the start or right after whitespace.
pub open spec fn word_starts_at(text: Seq<char>, i: int) -> bool {
    &&& 0 <= i < text.len()
    &&& !whitespace(text[i])
    &&& i == 0 || whitespace(text[i - 1])
}

/// Whether `subject` is written in the subject case style named `case`. A
/// style that is not known asks for nothing.
pub open spec fn fits_subject_case(subject: Seq<char>, case: Seq<char>) -> bool {
    if case == "lowercase"@ {
        forall|i: int| 0 <= i < subject.len() ==> !uppercase(#[trigger] subject[i])
    } else if case == "uppercase"@ {
        forall|i: int| 0 <= i < subject.len() ==> !lowercase(#[trigger] subject[i])
    } else if case == "sentence-case"@ {
        subject.len() == 0 || lowercase(subject[0]) || uppercase(subject[0]) || numeric(subject[0])
    } else if case == "start-case"@ {
        forall|i: int| #[trigger] word_starts_at(subject, i) ==> uppercase(subject[i])
    } else {
        true
    }
}

/// Whether `subject` fits one of the styles `cases`.
pub open spec fn fits_some_subject_case(subject: Seq<char>, cases: Seq<Seq<char>>) -> bool {
    exists|i: int| 0 <= i < cases.len() && fits_subject_case(subject, #[trigger] cases[i])
}

/// The violations of the rules on the length of the header.
pub open spec fn header_violations(rules: RulesView, header: Seq<char>) -> Seq<Violation> {
    when(
        header.len() > rules.header_max_length,
        Violation {
            rule: "header-max-length"@,
            message: "header must not be longer than "@ + decimal(rules.header_max_length)
                + " characters, current length is "@ + decimal(header.len()),
        },
    ) + when(
        header.len() < rules.header_min_length,
        Violation {
            rule: "header-min-length"@,
            message: "header must be at least "@ + decimal(rules.header_min_length)
                + " characters, current length is "@ + decimal(header.len()),
        },
    )
}

/// The violations of the rules on a type or a scope (`what` says which):
/// where `allowed` is not empty, `text` has to be in it; and `text` has to
/// fit `case`.
pub open spec fn word_violations(
    what: Seq<char>,
    allowed: Seq<Seq<char>>,
    case: Seq<char>,
    text: Seq<char>,
) -> Seq<Violation> {
    when(
        allowed.len() > 0 && !allowed.contains(text),
        Violation {
            rule: what + "-enum"@,
            message: what + " must be one of ["@ + join(allowed, ", "@) + "]"@,
        },
    ) + when(
        !fits_case(text, case),
        Violation { rule: what + "-case"@, message: what + " must be "@ + case },
    )
}

/// The violations of the rules on the subject.
pub open spec fn subject_violations(rules: RulesView, subject: Seq<char>) -> Seq<Violation> {
    when(
        rules.subject_empty && trim(subject).len() == 0,
        Violation { rule: "subject-empty"@, message: "subject must not be empty"@ },
    ) + when(
        rules.subject_case.len() > 0 && !fits_some_subject_case(subject, rules.subject_case),
        Violation {
            rule: "subject-case"@,
            message: "subject must match one of: "@ + join(rules.subject_case, ", "@),
        },
    ) + when(
        rules.subject_full_stop.len() > 0 && rules.subject_full_stop.is_suffix_of(subject),
        Violation {
            rule: "subject-full-stop"@,
            message: "subject must not end with '"@ + rules.subject_full_stop + "'"@,
        },
    )
}

/// The violations of the rules on the fields of a conventional commit, in
/// the order type, scope, subject.
pub open spec fn field_violations(rules: RulesView, fields: Fields) -> Seq<Violation> {
    word_violations("type"@, rules.type_.enum_, rules.type_.case, fields.type_) + (match fields.scope {
        Some(scope) => word_violations("scope"@, rules.scope.enum_, rules.scope.case, scope),
        None => Seq::empty(),
    }) + subject_violations(rules, fields.subject)
}

/// The violation that stands for a message without fields.
pub open spec fn failure_violation(failure: Failure) -> Violation {
    Violation {
        rule: "type-enum"@,
        message: "Invalid conventional commit format: "@ + failure_text(failure),
    }
}

/// The violations of line number `index` (from 0) of a body or a footer
/// (`what` says which): the first line has to be blank where `leading_blank`
/// is set, and no line may be longer than `max_length`.
pub open spec fn line_violations(
    what: Seq<char>,
    leading_blank: bool,
    max_length: nat,
    line: Seq<char>,
    index: nat,
) -> Seq<Violation> {
    when(
        index == 0 && leading_blank && !is_blank(line),
        Violation {
            rule: what + "-leading-blank"@,
            message: what + " must have leading blank line"@,
        },
    ) + when(
        line.len() > max_length,
        Violation {
            rule: what + "-max-line-length"@,
            message: what + " line "@ + decimal(index + 1) + " must not be longer than "@ + decimal(
                max_length,
            ) + " characters"@,
        },
    )
}

/// The violations of the lines `block` of a body or a footer, line by line.
pub open spec fn block_violations(
    what: Seq<char>,
    leading_blank: bool,
    max_length: nat,
    block: Seq<Seq<char>>,
) -> Seq<Violation>
    decreases block.len(),
{
    if block.len() == 0 {
        Seq::empty()
    } else {
        block_violations(what, leading_blank, max_length, block.drop_last()) + line_violations(
            what,
            leading_blank,
            max_length,
            block.last(),
            (block.len() - 1) as nat,
        )
    }
}

/// The violations of the rules on the body.
pub open spec fn body_violations(rules: RulesView, body: Seq<char>) -> Seq<Violation> {
    block_violations("body"@, rules.body_leading_blank, rules.body_max_line_length, lines(body))
}

/// The violations of the rules on the footer.
pub open spec fn footer_violations(rules: RulesView, footer: Seq<char>) -> Seq<Violation> {
    block_violations(
        "footer"@,
        rules.footer_leading_blank,
        rules.footer_max_line_length,
        lines(footer),
    )
}

/// Every violation of a message, given its segments and what came of taking
/// its header apart: those of the header's length; those of the fields, or
/// the one that says that there are none; those of the body; those of the
/// footer.
pub open spec fn message_violations(
    rules: RulesView,
    message: Segments,
    extraction: Result<Fields, Failure>,
) -> Seq<Violation> {
    header_violations(rules, message.header) + (match extraction {
        Ok(fields) => field_violations(rules, fields),
        Err(failure) => seq![failure_violation(failure)],
    }) + (match message.body {
        Some(body) => body_violations(rules, body),
        None => Seq::empty(),
    }) + (match message.footer {
        Some(footer) => footer_violations(rules, footer),
        None => Seq::empty(),
    })
}

/// Whether one of the patterns `ignores` is a regular expression that matches
/// `raw`.
pub open spec fn is_ignored(ignores: Seq<Seq<char>>, raw: Seq<char>) -> bool {
    exists|i: int|
        0 <= i < ignores.len() && regex_error(#[trigger] ignores[i]) is None && regex_is_match(
            ignores[i],
            raw,
        )
}

/// Every violation of the message `raw` under `config`, ignore patterns
/// aside.
pub open spec fn all_violations(config: ConfigView, raw: Seq<char>) -> Seq<Violation> {
    message_violations(config.rules, segment(raw), extract(segment(raw), config.parser.pattern))
}

/// What validating `raw` under `config` comes to: success where the message
/// is ignored or breaks no rule, else every violation in order.
pub open spec fn verdict(config: ConfigView, raw: Seq<char>) -> Result<(), Seq<Violation>> {
    if is_ignored(config.ignores, raw) || all_violations(config, raw).len() == 0 {
        Ok(())
    } else {
        Err(all_violations(config, raw))
    }
}

/// A message that an ignore pattern matches passes, whatever the rules are
/// and whatever else the message holds.
pub proof fn lemma_ignored_message_passes(config: ConfigView, raw: Seq<char>, i: int)
    requires
        0 <= i < config.ignores.len(),
        regex_error(config.ignores[i]) is None,
        regex_is_match(config.ignores[i], raw),
    ensures
        verdict(config, raw) == Ok::<(), Seq<Violation>>(()),
{
    assert(is_ignored(config.ignores, raw));
}

/// No rule on a type or a scope goes by the name `subject-case`.
proof fn lemma_word_rules_are_not_subject_case(
    what: Seq<char>,
    allowed: Seq<Seq<char>>,
    case: Seq<char>,
    text: Seq<char>,
)
    requires
        what == "type"@ || what == "scope"@,
    ensures
        forall|k: int|
            0 <= k < word_violations(what, allowed, case, text).len() ==> (
            #[trigger] word_violations(what, allowed, case, text)[k]).rule != "subject-case"@,
{
    reveal_strlit("type");
    reveal_strlit("scope");
    reveal_strlit("-enum");
    reveal_strlit("-case");
    reveal_strlit("subject-case");
    assert((what + "-enum"@).len() != "subject-case"@.len());
    assert((what + "-case"@).len() != "subject-case"@.len());
}

/// Subject case styles are alternatives: a subject that fits one of the
/// configured styles breaks no `subject-case` rule, whatever the other
/// styles are.
pub proof fn lemma_one_subject_case_suffices(rules: RulesView, fields: Fields, i: int)
    requires
        0 <= i < rules.subject_case.len(),
        fits_subject_case(fields.subject, rules.subject_case[i]),
    ensures
        forall|k: int|
            0 <= k < field_violations(rules, fields).len() ==> (#[trigger] field_violations(
                rules,
                fields,
            )[k]).rule != "subject-case"@,
{
    assert(fits_some_subject_case(fields.subject, rules.subject_case));
    lemma_word_rules_are_not_subject_case(
        "type"@,
        rules.type_.enum_,
        rules.type_.case,
        fields.type_,
    );
    if let Some(scope) = fields.scope {
        lemma_word_rules_are_not_subject_case(
            "scope"@,
            rules.scope.enum_,
            rules.scope.case,
            scope,
        );
    }
    reveal_strlit("subject-empty");
    reveal_strlit("subject-full-stop");
    reveal_strlit("subject-case");
    assert("subject-empty"@.len() != "subject-case"@.len());
    assert("subject-full-stop"@.len() != "subject-case"@.len());
}

/// Validation keeps no state: two outcomes of validating the same message
/// with the same validator hold the same violations in the same order.
pub proof fn lemma_validate_is_repeatable(
    validator: Validator,
    message: Seq<char>,
    first: Result<(), Vec<ValidationError>>,
    second: Result<(), Vec<ValidationError>>,
)
    requires
        validator.validates(message, first),
        validator.validates(message, second),
    ensures
        outcome_view(first) == outcome_view(second),
{
}

/// An error with the given rule and message.
fn error(rule: String, message: String) -> (e: ValidationError)
    ensures
        e@ == (Violation { rule: rule@, message: message@ }),
{
    ValidationError { rule, message }
}

/// `a` followed by `b`.
fn glue(a: &str, b: &str) -> (out: String)
    ensures
        out@ == a@ + b@,
{
    let mut out = String::from_str(a);
    out.append(b);
    out
}

/// Whether one of `allowed` is `text`.
fn listed(allowed: &Vec<String>, text: &str) -> (found: bool)
    ensures
        found == texts(allowed@).contains(text@),
{
    let mut i: usize = 0;
    while i < allowed.len()
        invariant
            i <= allowed@.len(),
            forall|j: int| 0 <= j < i ==> texts(allowed@)[j] != text@,
        decreases allowed@.len() - i,
    {
        if same(allowed[i].as_str(), text) {
            assert(texts(allowed@)[i as int] == text@);
            return true;
        }
        i += 1;
    }
    false
}

/// Whether every character of `text` is lowercase or `extra`.
fn all_lowercase_or(text: &str, extra: char) -> (all: bool)
    ensures
        all == (forall|i: int|
            0 <= i < text@.len() ==> lowercase(#[trigger] text@[i]) || text@[i] == extra),
{
    let chars = to_chars(text);
    let mut i: usize = 0;
    while i < chars.len()
        invariant
            i <= chars@.len(),
            chars@ == text@,
            forall|j: int| 0 <= j < i ==> lowercase(#[trigger] text@[j]) || text@[j] == extra,
        decreases chars@.len() - i,
    {
        if !(chars[i].is_lowercase() || chars[i] == extra) {
            return false;
        }
        i += 1;
    }
    true
}

/// Whether no character of `text` is uppercase.
fn no_uppercase(text: &str) -> (none: bool)
    ensures
        none == (forall|i: int| 0 <= i < text@.len() ==> !uppercase(#[trigger] text@[i])),
{
    let chars = to_chars(text);
    let mut i: usize = 0;
    while i < chars.len()
        invariant
            i <= chars@.len(),
            chars@ == text@,
            forall|j: int| 0 <= j < i ==> !uppercase(#[trigger] text@[j]),
        decreases chars@.len() - i,
    {
        if chars[i].is_uppercase() {
            return false;
        }
        i += 1;
    }
    true
}

/// Whether no character of `text` is lowercase.
fn no_lowercase(text: &str) -> (none: bool)
    ensures
        none == (forall|i: int| 0 <= i < text@.len() ==> !lowercase(#[trigger] text@[i])),
{
    let chars = to_chars(text);
    let mut i: usize = 0;
    while i < chars.len()
        invariant
            i <= chars@.len(),
            chars@ == text@,
            forall|j: int| 0 <= j < i ==> !lowercase(#[trigger] text@[j]),
        decreases chars@.len() - i,
    {
        if chars[i].is_lowercase() {
            return false;
        }
        i += 1;
    }
    true
}

/// Whether every word of `text` starts with an uppercase character.
fn words_capitalized(text: &str) -> (all: bool)
    ensures
        all == (forall|i: int| #[trigger] word_starts_at(text@, i) ==> uppercase(text@[i])),
{
    let chars = to_chars(text);
    let mut i: usize = 0;
    while i < chars.len()
        invariant
            i <= chars@.len(),
            chars@ == text@,
            forall|j: int| j < i && #[trigger] word_starts_at(text@, j) ==> uppercase(text@[j]),
        decreases chars@.len() - i,
    {
        let starts = !chars[i].is_whitespace() && (i == 0 || chars[i - 1].is_whitespace());
        if starts && !chars[i].is_uppercase() {
            assert(word_starts_at(text@, i as int));
            return false;
        }
        i += 1;
    }
    true
}

/// Checks commit messages against a configuration.
pub struct Validator {
    config: Config,
}

impl View for Validator {
    type V = ConfigView;

    closed spec fn view(&self) -> ConfigView {
        self.config@
    }
}

impl Validator {
    /// A validator that checks against `config`.
    pub fn new(config: Config) -> (validator: Validator)
        ensures
            validator@ == config@,
    {
        Validator { config }
    }

    /// Whether `outcome` is what validating `message` comes to.
    pub open spec fn validates(&self, message: Seq<char>, outcome: Result<(), Vec<ValidationError>>) -> bool {
        outcome_view(outcome) == verdict(self@, message)
    }

    /// Whether `text` is written in the case style named `case`.
    pub fn validate_case(&self, text: &str, case: &str) -> (fits: bool)
        ensures
            fits == fits_case(text@, case@),
    {
        if same(case, "lowercase") {
            no_uppercase(text)
        } else if same(case, "uppercase") {
            no_lowercase(text)
        } else if same(case, "camel-case") {
            let chars = to_chars(text);
            chars.len() > 0 && chars[0].is_lowercase()
        } else if same(case, "kebab-case") {
            all_lowercase_or(text, '-')
        } else if same(case, "pascal-case") {
            let chars = to_chars(text);
            chars.len() > 0 && chars[0].is_uppercase()
        } else if same(case, "snake-case") {
            all_lowercase_or(text, '_')
        } else {
            true
        }
    }

    /// Whether `subject` is written in the subject case style named
    /// `case_rule`.
    pub fn validate_subject_case(&self, subject: &str, case_rule: &str) -> (fits: bool)
        ensures
            fits == fits_subject_case(subject@, case_rule@),
    {
        if same(case_rule, "lowercase") {
            no_uppercase(subject)
        } else if same(case_rule, "uppercase") {
            no_lowercase(subject)
        } else if same(case_rule, "sentence-case") {
            let chars = to_chars(subject);
            chars.len() == 0 || chars[0].is_lowercase() || chars[0].is_uppercase()
                || chars[0].is_numeric()
        } else if same(case_rule, "start-case") {
            words_capitalized(subject)
        } else {
            true
        }
    }

    /// Whether `subject` fits one of the styles `cases`.
    fn fits_some_case(&self, subject: &str, cases: &Vec<String>) -> (fits: bool)
        ensures
            fits == fits_some_subject_case(subject@, texts(cases@)),
    {
        let mut i: usize = 0;
        while i < cases.len()
            invariant
                i <= cases@.len(),
                forall|j: int|
                    0 <= j < i ==> !fits_subject_case(subject@, #[trigger] texts(cases@)[j]),
            decreases cases@.len() - i,
        {
            if self.validate_subject_case(subject, cases[i].as_str()) {
                assert(fits_subject_case(subject@, texts(cases@)[i as int]));
                return true;
            }
            i += 1;
        }
        false
    }

    /// Checks the length of the header.
    pub fn validate_header(&self, header: &str) -> (errors: Vec<ValidationError>)
        ensures
            violations(errors@) == header_violations(self@.rules, header@),
    {
        let rules = &self.config.rules;
        let length = header.unicode_len();
        let mut errors: Vec<ValidationError> = Vec::new();
        if length > rules.header_max_length {
            let mut message = String::from_str("header must not be longer than ");
            message.append(decimal_string(rules.header_max_length).as_str());
            message.append(" characters, current length is ");
            message.append(decimal_string(length).as_str());
            errors.push(error(String::from_str("header-max-length"), message));
        }
        if length < rules.header_min_length {
            let mut message = String::from_str("header must be at least ");
            message.append(decimal_string(rules.header_min_length).as_str());
            message.append(" characters, current length is ");
            message.append(decimal_string(length).as_str());
            errors.push(error(String::from_str("header-min-length"), message));
        }
        assert(violations(errors@) =~= header_violations(self@.rules, header@));
        errors
    }

    /// Checks a type or a scope (`what` says which) against the list of
    /// those allowed and against its case style.
    fn validate_word(&self, what: &str, allowed: &Vec<String>, case: &str, text: &str) -> (errors:
        Vec<ValidationError>)
        ensures
            violations(errors@) == word_violations(what@, texts(allowed@), case@, text@),
    {
        let mut errors: Vec<ValidationError> = Vec::new();
        if allowed.len() > 0 && !listed(allowed, text) {
            let mut message = glue(what, " must be one of [");
            message.append(join_strings(allowed, ", ").as_str());
            message.append("]");
            errors.push(error(glue(what, "-enum"), message));
        }
        if !self.validate_case(text, case) {
            let mut message = glue(what, " must be ");
            message.append(case);
            errors.push(error(glue(what, "-case"), message));
        }
        assert(violations(errors@) =~= word_violations(what@, texts(allowed@), case@, text@));
        errors
    }

    /// Checks the subject: that it is not empty, its case, and its end.
    fn validate_subject(&self, subject: &str) -> (errors: Vec<ValidationError>)
        ensures
            violations(errors@) == subject_violations(self@.rules, subject@),
    {
        let rules = &self.config.rules;
        let mut errors: Vec<ValidationError> = Vec::new();
        if rules.subject_empty && trimmed(subject).as_str().unicode_len() == 0 {
            errors.push(
                error(
                    String::from_str("subject-empty"),
                    String::from_str("subject must not be empty"),
                ),
            );
        }
        if rules.subject_case.len() > 0 && !self.fits_some_case(subject, &rules.subject_case) {
            let mut message = String::from_str("subject must match one of: ");
            message.append(join_strings(&rules.subject_case, ", ").as_str());
            errors.push(error(String::from_str("subject-case"), message));
        }
        if rules.subject_full_stop.as_str().unicode_len() > 0 && ends_with(
            subject,
            rules.subject_full_stop.as_str(),
        ) {
            let mut message = String::from_str("subject must not end with '");
            message.append(rules.subject_full_stop.as_str());
            message.append("'");
            errors.push(error(String::from_str("subject-full-stop"), message));
        }
        assert(violations(errors@) =~= subject_violations(self@.rules, subject@));
        errors
    }

    /// Checks the fields of a conventional commit: type, scope where there
    /// is one, and subject. Every rule is checked, whatever the others say.
    pub fn validate_conventional_commit(
        &self,
        commit: &ConventionalCommit,
        _msg: &CommitMessage,
    ) -> (errors: Vec<ValidationError>)
        ensures
            violations(errors@) == field_violations(self@.rules, commit@),
    {
        let rules = &self.config.rules;
        let mut errors = self.validate_word(
            "type",
            &rules.type_.enum_,
            rules.type_.case.as_str(),
            commit.type_.as_str(),
        );
        match &commit.scope {
            Some(scope) => {
                let mut more = self.validate_word(
                    "scope",
                    &rules.scope.enum_,
                    rules.scope.case.as_str(),
                    scope.as_str(),
                );
                errors.append(&mut more);
            },
            None => {},
        }
        let mut more = self.validate_subject(commit.subject.as_str());
        errors.append(&mut more);
        assert(violations(errors@) =~= field_violations(self@.rules, commit@));
        errors
    }

    /// Checks the lines of a body or a footer (`what` says which).
    fn validate_block(&self, what: &str, leading_blank: bool, max_length: usize, text: &str) -> (errors:
        Vec<ValidationError>)
        ensures
            violations(errors@) == block_violations(
                what@,
                leading_blank,
                max_length as nat,
                lines(text@),
            ),
    {
        let block = split_lines(text);
        let mut errors: Vec<ValidationError> = Vec::new();
        let mut i: usize = 0;
        while i < block.len()
            invariant
                i <= block@.len(),
                violations(errors@) == block_violations(
                    what@,
                    leading_blank,
                    max_length as nat,
                    texts(block@).take(i as int),
                ),
            decreases block@.len() - i,
        {
            let line = block[i].as_str();
            let ghost before = violations(errors@);
            if i == 0 && leading_blank && !blank(line) {
                errors.push(
                    error(glue(what, "-leading-blank"), glue(what, " must have leading blank line")),
                );
            }
            if line.unicode_len() > max_length {
                let mut message = glue(what, " line ");
                message.append(decimal_string(i + 1).as_str());
                message.append(" must not be longer than ");
                message.append(decimal_string(max_length).as_str());
                message.append(" characters");
                errors.push(error(glue(what, "-max-line-length"), message));
            }
            proof {
                let taken = texts(block@).take(i + 1);
                assert(taken.drop_last() == texts(block@).take(i as int));
                assert(taken.last() == line@);
                assert(violations(errors@) =~= before + line_violations(
                    what@,
                    leading_blank,
                    max_length as nat,
                    line@,
                    i as nat,
                ));
            }
            i += 1;
        }
        assert(texts(block@).take(block@.len() as int) == texts(block@));
        errors
    }

    /// Checks the body: that it starts with a blank line where the rules ask
    /// for one, and the length of each line.
    pub fn validate_body(&self, body: &str) -> (errors: Vec<ValidationError>)
        ensures
            violations(errors@) == body_violations(self@.rules, body@),
    {
        self.validate_block(
            "body",
            self.config.rules.body_leading_blank,
            self.config.rules.body_max_line_length,
            body,
        )
    }

    /// Checks the footer: that it starts with a blank line where the rules
    /// ask for one, and the length of each line.
    pub fn validate_footer(&self, footer: &str) -> (errors: Vec<ValidationError>)
        ensures
            violations(errors@) == footer_violations(self@.rules, footer@),
    {
        self.validate_block(
            "footer",
            self.config.rules.footer_leading_blank,
            self.config.rules.footer_max_line_length,
            footer,
        )
    }

    /// Checks a message that has been cut into its segments, given what came
    /// of taking its header apart. A header that could not be taken apart is
    /// one violation, and leaves the rules on body and footer in force.
    pub fn validate_message(
        &self,
        message: &CommitMessage,
        extraction: &Result<ConventionalCommit, ExtractionError>,
    ) -> (errors: Vec<ValidationError>)
        ensures
            violations(errors@) == message_violations(
                self@.rules,
                message@,
                extraction_view(*extraction),
            ),
    {
        let mut errors = self.validate_header(message.header.as_str());
        match extraction {
            Ok(commit) => {
                let mut more = self.validate_conventional_commit(commit, message);
                errors.append(&mut more);
            },
            Err(failure) => {
                errors.push(
                    error(
                        String::from_str("type-enum"),
                        glue("Invalid conventional commit format: ", failure.message().as_str()),
                    ),
                );
            },
        }
        match &message.body {
            Some(body) => {
                let mut more = self.validate_body(body.as_str());
                errors.append(&mut more);
            },
            None => {},
        }
        match &message.footer {
            Some(footer) => {
                let mut more = self.validate_footer(footer.as_str());
                errors.append(&mut more);
            },
            None => {},
        }
        assert(violations(errors@) =~= message_violations(
            self@.rules,
            message@,
            extraction_view(*extraction),
        ));
        errors
    }

    /// Whether one of the ignore patterns is a regular expression that
    /// matches `commit_msg`.
    pub fn ignores(&self, commit_msg: &str) -> (ignored: bool)
        ensures
            ignored == is_ignored(self@.ignores, commit_msg@),
    {
        let patterns = &self.config.ignores;
        let mut i: usize = 0;
        while i < patterns.len()
            invariant
                i <= patterns@.len(),
                texts(patterns@) == self@.ignores,
                forall|j: int|
                    0 <= j < i ==> !(regex_error(#[trigger] texts(patterns@)[j]) is None
                        && regex_is_match(texts(patterns@)[j], commit_msg@)),
            decreases patterns@.len() - i,
        {
            match is_match(patterns[i].as_str(), commit_msg) {
                Some(true) => {
                    assert(regex_error(self@.ignores[i as int]) is None && regex_is_match(
                        self@.ignores[i as int],
                        commit_msg@,
                    ));
                    return true;
                },
                _ => {},
            }
            i += 1;
        }
        false
    }

    /// Validates `commit_msg`.
    ///
    /// A message that an ignore pattern matches passes unchecked. Any other
    /// message is cut into its segments, its header is taken apart with the
    /// configured pattern, and every rule is checked: the result is `Ok` where
    /// none is broken, else every violation, in the order of the rules.
    pub fn validate(&self, commit_msg: &str) -> (outcome: Result<(), Vec<ValidationError>>)
        ensures
            self.validates(commit_msg@, outcome),
    {
        if self.ignores(commit_msg) {
            return Ok(());
        }
        let message = CommitMessage::from_str(commit_msg);
        let extraction = message.parse_conventional(self.config.parser.pattern.as_str());
        let errors = self.validate_message(&message, &extraction);
        if errors.len() == 0 {
            Ok(())
        } else {
            Err(errors)
        }
    }
}

} // verus!
