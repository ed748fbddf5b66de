//! Commit messages: how a message falls into header, body and footer.

use crate::pattern::{capture, is_match, pattern_error, regex_capture, regex_error, regex_is_match};
use crate::string_map::StringMap;
use crate::text::{
    blank, count, find, is_blank, join, join_range, lemma_joined_lines_count,
    lemma_lines_have_no_line_feed, lines, option_text, position, slice, split_lines, starts_with,
    texts, to_chars, trim, trimmed,
};
use vstd::prelude::*;
use vstd::string::*;

verus! {

/// The marker that opens a breaking-change footer.
pub open spec fn breaking_marker() -> Seq<char> {
    "BREAKING CHANGE:"@
}

/// Whether `c` is one of the letters `A` to `Z`.
pub open spec fn is_capital(c: char) -> bool {
    'A' <= c <= 'Z'
}

/// Whether `c` is one of the letters `a` to `z`.
pub open spec fn is_small(c: char) -> bool {
    'a' <= c <= 'z'
}

/// Whether `token` is made of words joined by single hyphens, each word one
/// capital letter followed by one or more small letters, as in `Fixes` or
/// `Co-Authored-By`.
pub open spec fn is_capitalized_token(token: Seq<char>) -> bool {
    &&& token.len() > 0
    &&& forall|i: int|
        0 <= i < token.len() ==> {
            let c = #[trigger] token[i];
            &&& is_capital(c) || is_small(c) || c == '-'
            &&& is_capital(c) <==> i == 0 || token[i - 1] == '-'
            &&& is_capital(c) ==> i + 1 < token.len() && is_small(token[i + 1])
            &&& c == '-' ==> i + 1 < token.len()
        }
}

/// Whether a footer starts at `line`: the line begins with the
/// breaking-change marker, or with a capitalized token and a colon right
/// after it.
pub open spec fn is_footer_start(line: Seq<char>) -> bool {
    ||| breaking_marker().is_prefix_of(line)
    ||| position(line, ':') < line.len() && is_capitalized_token(
        line.take(position(line, ':') as int),
    )
}

/// The index of the first line at which a footer starts, or the number of
/// lines where there is none.
pub open spec fn footer_index(block: Seq<Seq<char>>) -> nat
    decreases block.len(),
{
    if block.len() == 0 || is_footer_start(block[0]) {
        0
    } else {
        1 + footer_index(block.drop_first())
    }
}

/// The lines after the header line: all but the first, and without the
/// second where it is blank.
pub open spec fn after_header(all: Seq<Seq<char>>) -> Seq<Seq<char>> {
    if all.len() >= 2 && is_blank(all[1]) {
        all.skip(2)
    } else if all.len() >= 1 {
        all.skip(1)
    } else {
        all
    }
}

/// The lines of the body of `raw`: those after the header, up to the first at
/// which a footer starts.
pub open spec fn body_lines(raw: Seq<char>) -> Seq<Seq<char>> {
    let rest = after_header(lines(raw));
    rest.take(footer_index(rest) as int)
}

/// The lines of the footer of `raw`: the first line after the header at which
/// a footer starts, and every line after it.
pub open spec fn footer_lines(raw: Seq<char>) -> Seq<Seq<char>> {
    let rest = after_header(lines(raw));
    rest.skip(footer_index(rest) as int)
}

/// A block of lines as one text; no text at all where there are no lines.
pub open spec fn block_text(block: Seq<Seq<char>>) -> Option<Seq<char>> {
    if block.len() == 0 {
        None
    } else {
        Some(join(block, seq!['\n']))
    }
}

/// What a commit message is, seen as plain text.
pub struct Segments {
    pub raw: Seq<char>,
    pub header: Seq<char>,
    pub body: Option<Seq<char>>,
    pub footer: Option<Seq<char>>,
}

/// The segments of the message `raw`.
pub open spec fn segment(raw: Seq<char>) -> Segments {
    Segments {
        raw,
        header: if lines(raw).len() > 0 {
            lines(raw)[0]
        } else {
            Seq::empty()
        },
        body: block_text(body_lines(raw)),
        footer: block_text(footer_lines(raw)),
    }
}

/// `footer_index` is in range, no footer starts before it, and one starts
/// at it.
pub proof fn lemma_footer_index(block: Seq<Seq<char>>)
    ensures
        footer_index(block) <= block.len(),
        forall|i: int| 0 <= i < footer_index(block) ==> !is_footer_start(#[trigger] block[i]),
        footer_index(block) < block.len() ==> is_footer_start(block[footer_index(block) as int]),
    decreases block.len(),
{
    if block.len() == 0 || is_footer_start(block[0]) {
    } else {
        let tail = block.drop_first();
        lemma_footer_index(tail);
        assert forall|i: int| 0 <= i < footer_index(block) implies !is_footer_start(
            #[trigger] block[i],
        ) by {
            if i > 0 {
                assert(block[i] == tail[i - 1]);
            }
        }
    }
}

/// An index at which a footer starts (or the end), with none starting before
/// it, is `footer_index`.
pub proof fn lemma_footer_index_is(block: Seq<Seq<char>>, k: int)
    requires
        0 <= k <= block.len(),
        forall|i: int| 0 <= i < k ==> !is_footer_start(#[trigger] block[i]),
        k < block.len() ==> is_footer_start(block[k]),
    ensures
        footer_index(block) == k,
    decreases k,
{
    if k > 0 {
        let tail = block.drop_first();
        assert(!is_footer_start(block[0]));
        assert forall|i: int| 0 <= i < k - 1 implies !is_footer_start(#[trigger] tail[i]) by {
            assert(tail[i] == block[i + 1]);
        }
        lemma_footer_index_is(tail, k - 1);
    }
}

/// The header line of `raw`, where it has one.
pub open spec fn header_lines(raw: Seq<char>) -> Seq<Seq<char>> {
    if lines(raw).len() >= 1 {
        lines(raw).take(1)
    } else {
        Seq::empty()
    }
}

/// The blank line of `raw` that separates the header from what follows,
/// where it has one.
pub open spec fn separator_lines(raw: Seq<char>) -> Seq<Seq<char>> {
    if lines(raw).len() >= 2 && is_blank(lines(raw)[1]) {
        lines(raw).subrange(1, 2)
    } else {
        Seq::empty()
    }
}

/// The number of lines of a segment: one more than it has line feeds, and
/// none where the segment is absent.
pub open spec fn line_count(text: Option<Seq<char>>) -> nat {
    match text {
        Some(text) => count(text, '\n') + 1,
        None => 0,
    }
}

/// Segmenting keeps every line, once, and in order: the lines of a message
/// are its header line, the blank separator where there is one, the lines of
/// the body, and the lines of the footer. Body and footer, as texts, have as
/// many lines as were put into them.
pub proof fn lemma_segments_partition_lines(raw: Seq<char>)
    ensures
        lines(raw) == header_lines(raw) + separator_lines(raw) + body_lines(raw) + footer_lines(
            raw,
        ),
        header_lines(raw).len() == 1 ==> header_lines(raw)[0] == segment(raw).header,
        header_lines(raw).len() == 0 ==> segment(raw).header.len() == 0,
        line_count(segment(raw).body) == body_lines(raw).len(),
        line_count(segment(raw).footer) == footer_lines(raw).len(),
        lines(raw).len() == header_lines(raw).len() + separator_lines(raw).len() + line_count(
            segment(raw).body,
        ) + line_count(segment(raw).footer),
{
    let all = lines(raw);
    let rest = after_header(all);
    lemma_footer_index(rest);
    lemma_lines_have_no_line_feed(raw);
    assert(all =~= header_lines(raw) + separator_lines(raw) + body_lines(raw) + footer_lines(raw));
    let body = body_lines(raw);
    if body.len() > 0 {
        assert forall|i: int| 0 <= i < body.len() implies !(#[trigger] body[i]).contains('\n') by {
            assert(body[i] == all[i + all.len() - rest.len()]);
        }
        lemma_joined_lines_count(body);
    }
    let footer = footer_lines(raw);
    if footer.len() > 0 {
        assert forall|i: int| 0 <= i < footer.len() implies !(#[trigger] footer[i]).contains(
            '\n',
        ) by {
            assert(footer[i] == all[i + all.len() - footer.len()]);
        }
        lemma_joined_lines_count(footer);
    }
}

/// Once a footer has started it does not end: every line from the first at
/// which a footer starts is a line of the footer, whatever it looks like.
pub proof fn lemma_footer_is_sticky(raw: Seq<char>, i: int, j: int)
    requires
        0 <= i <= j < after_header(lines(raw)).len(),
        is_footer_start(after_header(lines(raw))[i]),
    ensures
        body_lines(raw).len() <= i,
        j - body_lines(raw).len() < footer_lines(raw).len(),
        footer_lines(raw)[j - body_lines(raw).len()] == after_header(lines(raw))[j],
{
    lemma_footer_index(after_header(lines(raw)));
}

/// A commit message, cut into its segments.
#[derive(Debug, Clone)]
pub struct CommitMessage {
    pub raw: String,
    pub header: String,
    pub body: Option<String>,
    pub footer: Option<String>,
}

impl View for CommitMessage {
    type V = Segments;

    open spec fn view(&self) -> Segments {
        Segments {
            raw: self.raw@,
            header: self.header@,
            body: option_text(self.body),
            footer: option_text(self.footer),
        }
    }
}

/// Whether `token` is a capitalized token.
fn capitalized_token(token: &Vec<char>, len: usize) -> (found: bool)
    requires
        len <= token@.len(),
    ensures
        found == is_capitalized_token(token@.take(len as int)),
{
    if len == 0 {
        return false;
    }
    let ghost t = token@.take(len as int);
    let mut i: usize = 0;
    while i < len
        invariant
            i <= len <= token@.len(),
            t == token@.take(len as int),
            forall|j: int|
                0 <= j < i ==> {
                    let c = #[trigger] t[j];
                    &&& is_capital(c) || is_small(c) || c == '-'
                    &&& is_capital(c) <==> j == 0 || t[j - 1] == '-'
                    &&& is_capital(c) ==> j + 1 < t.len() && is_small(t[j + 1])
                    &&& c == '-' ==> j + 1 < t.len()
                },
        decreases len - i,
    {
        let c = token[i];
        let capital = 'A' <= c && c <= 'Z';
        let small = 'a' <= c && c <= 'z';
        let first = i == 0 || token[i - 1] == '-';
        let followed = i + 1 < len && 'a' <= token[i + 1] && token[i + 1] <= 'z';
        let fits = (capital || small || c == '-') && capital == first && (!capital || followed) && (
        c != '-' || i + 1 < len);
        if !fits {
            assert(t[i as int] == c);
            return false;
        }
        i += 1;
    }
    true
}

/// Whether a footer starts at `line`.
pub fn starts_footer(line: &str) -> (found: bool)
    ensures
        found == is_footer_start(line@),
{
    if starts_with(line, "BREAKING CHANGE:") {
        return true;
    }
    match find(line, ':') {
        Some(colon) => {
            let chars = to_chars(line);
            capitalized_token(&chars, colon)
        },
        None => false,
    }
}

impl CommitMessage {
    /// Cuts `msg` into header, body and footer.
    ///
    /// The header is the first line. A blank second line only separates and
    /// belongs to no segment. Of the lines after that, the body runs up to the
    /// first line at which a footer starts; that line and all after it are the
    /// footer.
    pub fn from_str(msg: &str) -> (message: CommitMessage)
        ensures
            message@ == segment(msg@),
    {
        let all = split_lines(msg);
        let n = all.len();
        let header = if n > 0 {
            all[0].clone()
        } else {
            String::new()
        };
        let first: usize = if n >= 2 && blank(all[1].as_str()) {
            2
        } else if n >= 1 {
            1
        } else {
            0
        };
        let ghost rest = after_header(lines(msg@));
        assert(rest == texts(all@).skip(first as int));
        let mut k: usize = first;
        while k < n && !starts_footer(all[k].as_str())
            invariant
                first <= k <= n,
                n == all@.len(),
                rest == texts(all@).skip(first as int),
                forall|j: int| 0 <= j < k - first ==> !is_footer_start(#[trigger] rest[j]),
            decreases n - k,
        {
            k += 1;
        }
        proof {
            reveal_strlit("\n");
            assert("\n"@ == seq!['\n']);
            lemma_footer_index_is(rest, k - first);
            assert(rest.take(k - first) == texts(all@).subrange(first as int, k as int));
            assert(rest.skip(k - first) == texts(all@).subrange(k as int, n as int));
        }
        let body = if k > first {
            Some(join_range(&all, first, k, "\n"))
        } else {
            None
        };
        let footer = if n > k {
            Some(join_range(&all, k, n, "\n"))
        } else {
            None
        };
        CommitMessage { raw: String::from_str(msg), header, body, footer }
    }

    /// Takes the header apart with the regular expression `pattern` and
    /// reads the footer, giving the fields of a conventional commit.
    ///
    /// Fails where `pattern` does not compile, where the header does not
    /// match it, and where the match has no group `type` or no group
    /// `subject`.
    pub fn parse_conventional(&self, pattern: &str) -> (outcome: Result<
        ConventionalCommit,
        ExtractionError,
    >)
        ensures
            extraction_view(outcome) == extract(self@, pattern@),
    {
        match pattern_error(pattern) {
            Some(text) => {
                return Err(ExtractionError::InvalidPattern(text));
            },
            None => {},
        }
        match is_match(pattern, self.header.as_str()) {
            Some(true) => {},
            _ => {
                return Err(ExtractionError::NoMatch);
            },
        }
        let type_ = capture(pattern, self.header.as_str(), "type");
        let scope = capture(pattern, self.header.as_str(), "scope");
        let breaking = capture(pattern, self.header.as_str(), "breaking");
        let subject = capture(pattern, self.header.as_str(), "subject");
        ConventionalCommit::from_captures(
            type_,
            scope,
            breaking.is_some(),
            subject,
            &self.body,
            &self.footer,
        )
    }
}

/// The key under which a breaking change is kept in the footer's metadata.
pub open spec fn breaking_key() -> Seq<char> {
    "BREAKING CHANGE"@
}

/// The key and value that a footer line gives, if it gives any: after the
/// breaking-change marker the rest of the line, else what stands before and
/// after the first colon; keys and values without the whitespace around them.
pub open spec fn footer_entry(line: Seq<char>) -> Option<(Seq<char>, Seq<char>)> {
    let colon = position(line, ':');
    if breaking_marker().is_prefix_of(line) {
        Some((breaking_key(), trim(line.skip(breaking_marker().len() as int))))
    } else if colon < line.len() {
        Some((trim(line.take(colon as int)), trim(line.skip(colon as int + 1))))
    } else {
        None
    }
}

/// The metadata of a footer: the entries of its lines, a later line
/// replacing what an earlier one gave for the same key.
pub open spec fn footer_metadata(block: Seq<Seq<char>>) -> Map<Seq<char>, Seq<char>>
    decreases block.len(),
{
    if block.len() == 0 {
        Map::empty()
    } else {
        let before = footer_metadata(block.drop_last());
        match footer_entry(block.last()) {
            Some((key, value)) => before.insert(key, value),
            None => before,
        }
    }
}

/// The fields of a conventional commit, seen as plain text.
pub struct Fields {
    pub type_: Seq<char>,
    pub scope: Option<Seq<char>>,
    pub breaking: bool,
    pub subject: Seq<char>,
    pub body: Option<Seq<char>>,
    pub footer: Option<Map<Seq<char>, Seq<char>>>,
}

/// Why a message has no fields, seen as plain text.
pub enum Failure {
    /// The pattern is no regular expression; with what is wrong with it.
    InvalidPattern(Seq<char>),
    /// The header does not match the pattern.
    NoMatch,
    /// The match lacks the group of this name.
    MissingField(Seq<char>),
}

/// The fields that the captured groups, the body and the footer give.
pub open spec fn assemble(
    type_: Option<Seq<char>>,
    scope: Option<Seq<char>>,
    breaking: bool,
    subject: Option<Seq<char>>,
    body: Option<Seq<char>>,
    footer: Option<Seq<char>>,
) -> Result<Fields, Failure> {
    let metadata = match footer {
        Some(text) => footer_metadata(lines(text)),
        None => Map::empty(),
    };
    match (type_, subject) {
        (None, _) => Err(Failure::MissingField("type"@)),
        (Some(_), None) => Err(Failure::MissingField("subject"@)),
        (Some(type_), Some(subject)) => Ok(
            Fields {
                type_,
                scope,
                breaking: breaking || metadata.contains_key(breaking_key()),
                subject,
                body,
                footer: if metadata == Map::<Seq<char>, Seq<char>>::empty() {
                    None
                } else {
                    Some(metadata)
                },
            },
        ),
    }
}

/// The fields of `message` under the header pattern `pattern`.
pub open spec fn extract(message: Segments, pattern: Seq<char>) -> Result<Fields, Failure> {
    match regex_error(pattern) {
        Some(text) => Err(Failure::InvalidPattern(text)),
        None => if !regex_is_match(pattern, message.header) {
            Err(Failure::NoMatch)
        } else {
            assemble(
                regex_capture(pattern, message.header, "type"@),
                regex_capture(pattern, message.header, "scope"@),
                regex_capture(pattern, message.header, "breaking"@) is Some,
                regex_capture(pattern, message.header, "subject"@),
                message.body,
                message.footer,
            )
        },
    }
}

/// Extraction succeeds exactly where the pattern compiles, the header
/// matches it, and the groups `type` and `subject` took part in the match.
/// Type, scope and subject are then what the groups captured, and the body
/// is the message's.
pub proof fn lemma_matching_header_is_extracted(message: Segments, pattern: Seq<char>)
    ensures
        extract(message, pattern) is Ok <==> {
            &&& regex_error(pattern) is None
            &&& regex_is_match(pattern, message.header)
            &&& regex_capture(pattern, message.header, "type"@) is Some
            &&& regex_capture(pattern, message.header, "subject"@) is Some
        },
        extract(message, pattern) matches Ok(fields) ==> {
            &&& Some(fields.type_) == regex_capture(pattern, message.header, "type"@)
            &&& fields.scope == regex_capture(pattern, message.header, "scope"@)
            &&& Some(fields.subject) == regex_capture(pattern, message.header, "subject"@)
            &&& fields.body == message.body
        },
{
}

/// What a failure says to the user.
pub open spec fn failure_text(failure: Failure) -> Seq<char> {
    match failure {
        Failure::InvalidPattern(text) => text,
        Failure::NoMatch => "Commit message does not match conventional commit format"@,
        Failure::MissingField(field) => "Missing '"@ + field + "' in commit message"@,
    }
}

/// The fields of a conventional commit.
#[derive(Debug, Clone)]
pub struct ConventionalCommit {
    pub type_: String,
    pub scope: Option<String>,
    pub breaking: bool,
    pub subject: String,
    pub body: Option<String>,
    pub footer: Option<StringMap>,
}

/// Why a message could not be read as a conventional commit.
#[derive(Debug, Clone)]
pub enum ExtractionError {
    /// The pattern is no regular expression; with what is wrong with it.
    InvalidPattern(String),
    /// The header does not match the pattern.
    NoMatch,
    /// The match lacks the group of this name.
    MissingField(String),
}

impl View for ConventionalCommit {
    type V = Fields;

    open spec fn view(&self) -> Fields {
        Fields {
            type_: self.type_@,
            scope: option_text(self.scope),
            breaking: self.breaking,
            subject: self.subject@,
            body: option_text(self.body),
            footer: match self.footer {
                Some(map) => Some(map@),
                None => None,
            },
        }
    }
}

impl View for ExtractionError {
    type V = Failure;

    open spec fn view(&self) -> Failure {
        match self {
            ExtractionError::InvalidPattern(text) => Failure::InvalidPattern(text@),
            ExtractionError::NoMatch => Failure::NoMatch,
            ExtractionError::MissingField(field) => Failure::MissingField(field@),
        }
    }
}

/// The outcome of an extraction, seen as plain text.
pub open spec fn extraction_view(outcome: Result<ConventionalCommit, ExtractionError>) -> Result<
    Fields,
    Failure,
> {
    match outcome {
        Ok(commit) => Ok(commit@),
        Err(error) => Err(error@),
    }
}

impl ExtractionError {
    /// What the error says to the user.
    pub fn message(&self) -> (text: String)
        ensures
            text@ == failure_text(self@),
    {
        match self {
            ExtractionError::InvalidPattern(text) => text.clone(),
            ExtractionError::NoMatch => String::from_str(
                "Commit message does not match conventional commit format",
            ),
            ExtractionError::MissingField(field) => {
                let mut text = String::from_str("Missing '");
                text.append(field.as_str());
                text.append("' in commit message");
                text
            },
        }
    }
}

/// A copy of an optional string.
fn copy_of(text: &Option<String>) -> (copy: Option<String>)
    ensures
        option_text(copy) == option_text(*text),
{
    match text {
        Some(text) => Some(text.clone()),
        None => None,
    }
}

/// The metadata that the lines of `footer` give.
pub fn parse_footer(footer: &str) -> (metadata: StringMap)
    ensures
        metadata@ == footer_metadata(lines(footer@)),
{
    let block = split_lines(footer);
    let mut metadata = StringMap::new();
    let mut i: usize = 0;
    while i < block.len()
        invariant
            i <= block@.len(),
            metadata@ == footer_metadata(texts(block@).take(i as int)),
        decreases block@.len() - i,
    {
        let line = block[i].as_str();
        let n = line.unicode_len();
        proof {
            reveal_strlit("BREAKING CHANGE:");
            let before = texts(block@).take(i as int);
            let after = texts(block@).take(i + 1);
            assert(after.drop_last() == before);
            assert(after.last() == line@);
            assert(line@.skip(16) == line@.subrange(16, n as int));
        }
        if starts_with(line, "BREAKING CHANGE:") {
            let rest = slice(line, 16, n);
            metadata.insert(String::from_str("BREAKING CHANGE"), trimmed(rest.as_str()));
        } else {
            match find(line, ':') {
                Some(colon) => {
                    let key = slice(line, 0, colon);
                    let value = slice(line, colon + 1, n);
                    assert(line@.take(colon as int) == line@.subrange(0, colon as int));
                    assert(line@.skip(colon + 1) == line@.subrange(colon + 1, n as int));
                    metadata.insert(trimmed(key.as_str()), trimmed(value.as_str()));
                },
                None => {},
            }
        }
        i += 1;
    }
    assert(texts(block@).take(block@.len() as int) == texts(block@));
    metadata
}

impl ConventionalCommit {
    /// The conventional commit that the captured groups of a header give,
    /// together with the body and the footer of the message.
    ///
    /// Fails where the group `type` or the group `subject` is missing. The
    /// commit is breaking where the group `breaking` took part in the match or
    /// the footer has a breaking-change entry.
    pub fn from_captures(
        type_: Option<String>,
        scope: Option<String>,
        breaking: bool,
        subject: Option<String>,
        body: &Option<String>,
        footer: &Option<String>,
    ) -> (outcome: Result<ConventionalCommit, ExtractionError>)
        ensures
            extraction_view(outcome) == assemble(
                option_text(type_),
                option_text(scope),
                breaking,
                option_text(subject),
                option_text(*body),
                option_text(*footer),
            ),
    {
        let type_ = match type_ {
            Some(type_) => type_,
            None => {
                return Err(ExtractionError::MissingField(String::from_str("type")));
            },
        };
        let subject = match subject {
            Some(subject) => subject,
            None => {
                return Err(ExtractionError::MissingField(String::from_str("subject")));
            },
        };
        let metadata = match footer {
            Some(text) => parse_footer(text.as_str()),
            None => StringMap::new(),
        };
        let breaking = breaking || metadata.contains_key("BREAKING CHANGE");
        let footer = if metadata.is_empty() {
            None
        } else {
            Some(metadata)
        };
        Ok(ConventionalCommit { type_, scope, breaking, subject, body: copy_of(body), footer })
    }
}

} // verus!
