//! The rules a commit message is held to, and their defaults.

use crate::string_map::StringMap;
use crate::text::texts;
use vstd::prelude::*;
use vstd::string::*;

verus! {

/// What a `TypeRule` says, seen as plain text.
pub struct TypeRuleView {
    pub enum_: Seq<Seq<char>>,
    pub case: Seq<char>,
}

/// What a `ScopeRule` says, seen as plain text.
pub struct ScopeRuleView {
    pub enum_: Seq<Seq<char>>,
    pub case: Seq<char>,
}

/// What `Rules` say, seen as plain text and numbers.
pub struct RulesView {
    pub type_: TypeRuleView,
    pub scope: ScopeRuleView,
    pub subject_case: Seq<Seq<char>>,
    pub subject_empty: bool,
    pub subject_full_stop: Seq<char>,
    pub header_max_length: nat,
    pub header_min_length: nat,
    pub body_leading_blank: bool,
    pub body_max_line_length: nat,
    pub footer_leading_blank: bool,
    pub footer_max_line_length: nat,
}

/// What a `Parser` says, seen as plain text.
pub struct ParserView {
    pub pattern: Seq<char>,
    pub correspondence: Map<Seq<char>, Seq<char>>,
}

/// What a `Config` says, seen as plain text and numbers.
pub struct ConfigView {
    pub rules: RulesView,
    pub parser: ParserView,
    pub ignores: Seq<Seq<char>>,
}

/// The types a commit may have, and the case they are written in.
#[derive(Debug, Clone)]
pub struct TypeRule {
    /// The types that are allowed; any type is, where the list is empty.
    pub enum_: Vec<String>,
    /// The name of the case style of a type.
    pub case: String,
}

/// The scopes a commit may have, and the case they are written in.
#[derive(Debug, Clone)]
pub struct ScopeRule {
    /// The scopes that are allowed; any scope is, where the list is empty.
    pub enum_: Vec<String>,
    /// The name of the case style of a scope.
    pub case: String,
}

/// Every rule on a commit message.
#[derive(Debug, Clone)]
pub struct Rules {
    pub type_: TypeRule,
    pub scope: ScopeRule,
    /// The names of the case styles of a subject; the subject has to fit one.
    pub subject_case: Vec<String>,
    /// Whether an empty subject is a violation.
    pub subject_empty: bool,
    /// What a subject must not end with; nothing is checked where it is empty.
    pub subject_full_stop: String,
    pub header_max_length: usize,
    pub header_min_length: usize,
    pub body_leading_blank: bool,
    pub body_max_line_length: usize,
    pub footer_leading_blank: bool,
    pub footer_max_line_length: usize,
}

/// How the header is taken apart.
#[derive(Debug, Clone)]
pub struct Parser {
    /// The regular expression for the header, with the groups `type`,
    /// `scope`, `breaking` and `subject`.
    pub pattern: String,
    /// Which group of the pattern stands for which field.
    pub correspondence: StringMap,
}

/// The whole configuration of the linter.
#[derive(Debug, Clone)]
pub struct Config {
    pub rules: Rules,
    pub parser: Parser,
    /// Regular expressions; a message that one of them matches is not
    /// checked at all.
    pub ignores: Vec<String>,
}

impl View for TypeRule {
    type V = TypeRuleView;

    open spec fn view(&self) -> TypeRuleView {
        TypeRuleView { enum_: texts(self.enum_@), case: self.case@ }
    }
}

impl View for ScopeRule {
    type V = ScopeRuleView;

    open spec fn view(&self) -> ScopeRuleView {
        ScopeRuleView { enum_: texts(self.enum_@), case: self.case@ }
    }
}

impl View for Rules {
    type V = RulesView;

    open spec fn view(&self) -> RulesView {
        RulesView {
            type_: self.type_@,
            scope: self.scope@,
            subject_case: texts(self.subject_case@),
            subject_empty: self.subject_empty,
            subject_full_stop: self.subject_full_stop@,
            header_max_length: self.header_max_length as nat,
            header_min_length: self.header_min_length as nat,
            body_leading_blank: self.body_leading_blank,
            body_max_line_length: self.body_max_line_length as nat,
            footer_leading_blank: self.footer_leading_blank,
            footer_max_line_length: self.footer_max_line_length as nat,
        }
    }
}

impl View for Parser {
    type V = ParserView;

    open spec fn view(&self) -> ParserView {
        ParserView { pattern: self.pattern@, correspondence: self.correspondence@ }
    }
}

impl View for Config {
    type V = ConfigView;

    open spec fn view(&self) -> ConfigView {
        ConfigView { rules: self.rules@, parser: self.parser@, ignores: texts(self.ignores@) }
    }
}

/// The types of the Conventional Commits convention.
pub open spec fn conventional_types() -> Seq<Seq<char>> {
    seq![
        "build"@,
        "chore"@,
        "ci"@,
        "docs"@,
        "feat"@,
        "fix"@,
        "perf"@,
        "refactor"@,
        "revert"@,
        "style"@,
        "test"@,
    ]
}

/// The header pattern of the Conventional Commits convention:
/// `type(scope)!: subject`, with scope and `!` optional.
pub open spec fn conventional_pattern() -> Seq<char> {
    r"^(?P<type>\w+)(?:\((?P<scope>[^)]+)\))?(?P<breaking>!)?:\s(?P<subject>.*)$"@
}

/// Each of the four groups standing for the field of its own name.
pub open spec fn conventional_correspondence() -> Map<Seq<char>, Seq<char>> {
    map![
        "type"@ => "type"@,
        "scope"@ => "scope"@,
        "subject"@ => "subject"@,
        "breaking"@ => "breaking"@,
    ]
}

/// The rules that hold where nothing else is configured.
pub open spec fn conventional_rules() -> RulesView {
    RulesView {
        type_: TypeRuleView { enum_: conventional_types(), case: "lowercase"@ },
        scope: ScopeRuleView { enum_: Seq::empty(), case: "lowercase"@ },
        subject_case: seq!["sentence-case"@],
        subject_empty: false,
        subject_full_stop: "."@,
        header_max_length: 72,
        header_min_length: 0,
        body_leading_blank: true,
        body_max_line_length: 100,
        footer_leading_blank: true,
        footer_max_line_length: 100,
    }
}

/// The configuration that holds where nothing else is configured.
pub open spec fn conventional_config() -> ConfigView {
    ConfigView {
        rules: conventional_rules(),
        parser: ParserView {
            pattern: conventional_pattern(),
            correspondence: conventional_correspondence(),
        },
        ignores: Seq::empty(),
    }
}

pub fn default_rules() -> (rules: Rules)
    ensures
        rules@ == conventional_rules(),
{
    Rules {
        type_: default_type_rule(),
        scope: default_scope_rule(),
        subject_case: default_subject_case(),
        subject_empty: default_subject_empty(),
        subject_full_stop: default_subject_full_stop(),
        header_max_length: default_header_max_length(),
        header_min_length: default_header_min_length(),
        body_leading_blank: default_body_leading_blank(),
        body_max_line_length: default_body_max_line_length(),
        footer_leading_blank: default_footer_leading_blank(),
        footer_max_line_length: default_footer_max_line_length(),
    }
}

pub fn default_type_rule() -> (rule: TypeRule)
    ensures
        rule@ == (TypeRuleView { enum_: conventional_types(), case: "lowercase"@ }),
{
    TypeRule { enum_: default_type_enum(), case: default_type_case() }
}

pub fn default_scope_rule() -> (rule: ScopeRule)
    ensures
        rule@ == (ScopeRuleView { enum_: Seq::empty(), case: "lowercase"@ }),
{
    ScopeRule { enum_: default_scope_enum(), case: default_scope_case() }
}

pub fn default_type_enum() -> (types: Vec<String>)
    ensures
        texts(types@) == conventional_types(),
{
    let mut types: Vec<String> = Vec::new();
    types.push(String::from_str("build"));
    types.push(String::from_str("chore"));
    types.push(String::from_str("ci"));
    types.push(String::from_str("docs"));
    types.push(String::from_str("feat"));
    types.push(String::from_str("fix"));
    types.push(String::from_str("perf"));
    types.push(String::from_str("refactor"));
    types.push(String::from_str("revert"));
    types.push(String::from_str("style"));
    types.push(String::from_str("test"));
    assert(texts(types@) =~= conventional_types());
    types
}

pub fn default_type_case() -> (case: String)
    ensures
        case@ == "lowercase"@,
{
    String::from_str("lowercase")
}

pub fn default_scope_enum() -> (scopes: Vec<String>)
    ensures
        texts(scopes@) == Seq::<Seq<char>>::empty(),
{
    let scopes: Vec<String> = Vec::new();
    assert(texts(scopes@) =~= Seq::<Seq<char>>::empty());
    scopes
}

pub fn default_scope_case() -> (case: String)
    ensures
        case@ == "lowercase"@,
{
    String::from_str("lowercase")
}

pub fn default_subject_case() -> (cases: Vec<String>)
    ensures
        texts(cases@) == seq!["sentence-case"@],
{
    let mut cases: Vec<String> = Vec::new();
    cases.push(String::from_str("sentence-case"));
    assert(texts(cases@) =~= seq!["sentence-case"@]);
    cases
}

pub fn default_subject_empty() -> (flag: bool)
    ensures
        !flag,
{
    false
}

pub fn default_subject_full_stop() -> (stop: String)
    ensures
        stop@ == "."@,
{
    String::from_str(".")
}

pub fn default_header_max_length() -> (length: usize)
    ensures
        length == 72,
{
    72
}

pub fn default_header_min_length() -> (length: usize)
    ensures
        length == 0,
{
    0
}

pub fn default_body_leading_blank() -> (flag: bool)
    ensures
        flag,
{
    true
}

pub fn default_body_max_line_length() -> (length: usize)
    ensures
        length == 100,
{
    100
}

pub fn default_footer_leading_blank() -> (flag: bool)
    ensures
        flag,
{
    true
}

pub fn default_footer_max_line_length() -> (length: usize)
    ensures
        length == 100,
{
    100
}

pub fn default_parser_pattern() -> (pattern: String)
    ensures
        pattern@ == conventional_pattern(),
{
    String::from_str(r"^(?P<type>\w+)(?:\((?P<scope>[^)]+)\))?(?P<breaking>!)?:\s(?P<subject>.*)$")
}

pub fn default_parser_correspondence() -> (map: StringMap)
    ensures
        map@ == conventional_correspondence(),
{
    let mut map = StringMap::new();
    map.insert(String::from_str("type"), String::from_str("type"));
    map.insert(String::from_str("scope"), String::from_str("scope"));
    map.insert(String::from_str("subject"), String::from_str("subject"));
    map.insert(String::from_str("breaking"), String::from_str("breaking"));
    assert(map@ =~= conventional_correspondence());
    map
}

impl Default for Parser {
    fn default() -> (parser: Parser)
        ensures
            parser@ == (ParserView {
                pattern: conventional_pattern(),
                correspondence: conventional_correspondence(),
            }),
    {
        Parser { pattern: default_parser_pattern(), correspondence: default_parser_correspondence() }
    }
}

impl Default for Config {
    fn default() -> (config: Config)
        ensures
            config@ == conventional_config(),
    {
        let ignores: Vec<String> = Vec::new();
        assert(texts(ignores@) =~= Seq::<Seq<char>>::empty());
        Config { rules: default_rules(), parser: Parser::default(), ignores }
    }
}

} // verus!
