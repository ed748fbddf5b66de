//! Strings as sequences of characters: the primitives the linter is built on.
//!
//! Every function here is stated over the view of a string, a `Seq<char>`, so
//! lengths and positions count characters, never bytes.

use crate::chars::whitespace;
use vstd::prelude::*;
use vstd::std_specs::iter::IteratorSpec;
use vstd::string::*;

verus! {

/// The views of a sequence of strings.
pub open spec fn texts(strings: Seq<String>) -> Seq<Seq<char>> {
    strings.map_values(|s: String| s@)
}

/// The view of an optional string.
pub open spec fn option_text(s: Option<String>) -> Option<Seq<char>> {
    match s {
        Some(s) => Some(s@),
        None => None,
    }
}

/// The index of the first `c` in `s`, or the length of `s` where it has none.
pub open spec fn position(s: Seq<char>, c: char) -> nat
    decreases s.len(),
{
    if s.len() == 0 || s[0] == c {
        0
    } else {
        1 + position(s.drop_first(), c)
    }
}

/// `position` is in range, nothing before it is `c`, and `c` stands at it.
pub proof fn lemma_position(s: Seq<char>, c: char)
    ensures
        position(s, c) <= s.len(),
        forall|i: int| 0 <= i < position(s, c) ==> s[i] != c,
        position(s, c) < s.len() ==> s[position(s, c) as int] == c,
        position(s, c) < s.len() <==> s.contains(c),
    decreases s.len(),
{
    if s.len() == 0 || s[0] == c {
    } else {
        let tail = s.drop_first();
        lemma_position(tail, c);
        assert forall|i: int| 0 <= i < position(s, c) implies s[i] != c by {
            if i > 0 {
                assert(s[i] == tail[i - 1]);
            }
        }
        if tail.contains(c) {
            let j = choose|j: int| 0 <= j < tail.len() && tail[j] == c;
            assert(s[j + 1] == c);
        }
        if s.contains(c) {
            let j = choose|j: int| 0 <= j < s.len() && s[j] == c;
            assert(tail[j - 1] == c);
        }
    }
}

/// An index with `c` at it (or the end) and no `c` before it is `position`.
pub proof fn lemma_position_is(s: Seq<char>, c: char, k: int)
    requires
        0 <= k <= s.len(),
        forall|i: int| 0 <= i < k ==> s[i] != c,
        k < s.len() ==> s[k] == c,
    ensures
        position(s, c) == k,
    decreases k,
{
    if k > 0 {
        let tail = s.drop_first();
        assert forall|i: int| 0 <= i < k - 1 implies tail[i] != c by {
            assert(tail[i] == s[i + 1]);
        }
        lemma_position_is(tail, c, k - 1);
    }
}

/// `line` without one carriage return at its end, if it has one there.
pub open spec fn strip_carriage_return(line: Seq<char>) -> Seq<char> {
    if line.len() > 0 && line.last() == '\r' {
        line.drop_last()
    } else {
        line
    }
}

/// The lines of `s`. A line ends at a line feed; the line feed, and a carriage
/// return right before it, are not part of the line. What follows the last
/// line feed is a line of its own unless it is empty, so one line feed at the
/// very end adds no line, and the empty string has no lines at all.
pub open spec fn lines(s: Seq<char>) -> Seq<Seq<char>>
    decreases s.len(),
{
    let n = position(s, '\n');
    if s.len() == 0 {
        Seq::empty()
    } else if n >= s.len() {
        seq![s]
    } else {
        seq![strip_carriage_return(s.take(n as int))] + lines(s.skip(n as int + 1))
    }
}

/// No line holds a line feed.
pub proof fn lemma_lines_have_no_line_feed(s: Seq<char>)
    ensures
        forall|i: int| 0 <= i < lines(s).len() ==> !(#[trigger] lines(s)[i]).contains('\n'),
    decreases s.len(),
{
    let n = position(s, '\n');
    lemma_position(s, '\n');
    if s.len() == 0 {
    } else if n >= s.len() {
    } else {
        let rest = s.skip(n as int + 1);
        lemma_lines_have_no_line_feed(rest);
        let head = strip_carriage_return(s.take(n as int));
        assert(!head.contains('\n')) by {
            if head.contains('\n') {
                let j = choose|j: int| 0 <= j < head.len() && head[j] == '\n';
                assert(s[j] == '\n');
            }
        }
        assert forall|i: int| 0 <= i < lines(s).len() implies !(#[trigger] lines(s)[i]).contains(
            '\n',
        ) by {
            if i > 0 {
                assert(lines(s)[i] == lines(rest)[i - 1]);
            }
        }
    }
}

/// `parts` in order, with `separator` between each two neighbours.
pub open spec fn join(parts: Seq<Seq<char>>, separator: Seq<char>) -> Seq<char>
    decreases parts.len(),
{
    if parts.len() == 0 {
        Seq::empty()
    } else if parts.len() == 1 {
        parts[0]
    } else {
        join(parts.drop_last(), separator) + separator + parts.last()
    }
}

/// How often `c` stands in `s`.
pub open spec fn count(s: Seq<char>, c: char) -> nat
    decreases s.len(),
{
    if s.len() == 0 {
        0
    } else {
        count(s.drop_last(), c) + if s.last() == c {
            1nat
        } else {
            0nat
        }
    }
}

/// The count in two texts put together is the sum of the counts in each.
pub proof fn lemma_count_add(a: Seq<char>, b: Seq<char>, c: char)
    ensures
        count(a + b, c) == count(a, c) + count(b, c),
    decreases b.len(),
{
    if b.len() == 0 {
        assert(a + b == a);
    } else {
        assert((a + b).drop_last() == a + b.drop_last());
        lemma_count_add(a, b.drop_last(), c);
    }
}

/// A text that does not hold `c` counts none.
pub proof fn lemma_count_absent(s: Seq<char>, c: char)
    requires
        !s.contains(c),
    ensures
        count(s, c) == 0,
    decreases s.len(),
{
    if s.len() > 0 {
        assert(s[s.len() - 1] != c);
        assert forall|i: int| 0 <= i < s.drop_last().len() implies s.drop_last()[i] != c by {
            assert(s.drop_last()[i] == s[i]);
        }
        lemma_count_absent(s.drop_last(), c);
    }
}

/// Lines without line feeds, joined by line feeds, hold one line feed less
/// than there are lines.
pub proof fn lemma_joined_lines_count(block: Seq<Seq<char>>)
    requires
        block.len() > 0,
        forall|i: int| 0 <= i < block.len() ==> !(#[trigger] block[i]).contains('\n'),
    ensures
        count(join(block, seq!['\n']), '\n') + 1 == block.len(),
    decreases block.len(),
{
    lemma_count_absent(block.last(), '\n');
    if block.len() > 1 {
        let front = block.drop_last();
        assert forall|i: int| 0 <= i < front.len() implies !(#[trigger] front[i]).contains(
            '\n',
        ) by {
            assert(front[i] == block[i]);
        }
        lemma_joined_lines_count(front);
        lemma_count_add(join(front, seq!['\n']) + seq!['\n'], block.last(), '\n');
        lemma_count_add(join(front, seq!['\n']), seq!['\n'], '\n');
        assert(count(seq!['\n'], '\n') == 1) by {
            reveal_with_fuel(count, 2);
            assert(seq!['\n'].drop_last() == Seq::<char>::empty());
        }
    } else {
        assert(block.last() == block[0]);
    }
}

/// `s` without the whitespace at its start.
pub open spec fn trim_start(s: Seq<char>) -> Seq<char>
    decreases s.len(),
{
    if s.len() > 0 && whitespace(s[0]) {
        trim_start(s.drop_first())
    } else {
        s
    }
}

/// `s` without the whitespace at its end.
pub open spec fn trim_end(s: Seq<char>) -> Seq<char>
    decreases s.len(),
{
    if s.len() > 0 && whitespace(s.last()) {
        trim_end(s.drop_last())
    } else {
        s
    }
}

/// `s` without the whitespace at its start and at its end.
pub open spec fn trim(s: Seq<char>) -> Seq<char> {
    trim_end(trim_start(s))
}

/// Whether `s` holds nothing but whitespace.
pub open spec fn is_blank(s: Seq<char>) -> bool {
    forall|i: int| 0 <= i < s.len() ==> whitespace(#[trigger] s[i])
}

/// The ten decimal digits.
pub open spec fn digit(d: nat) -> char {
    seq!['0', '1', '2', '3', '4', '5', '6', '7', '8', '9'][d as int]
}

/// `n` in decimal, without leading zeros.
pub open spec fn decimal(n: nat) -> Seq<char>
    decreases n,
{
    if n < 10 {
        seq![digit(n)]
    } else {
        decimal(n / 10).push(digit(n % 10))
    }
}

/// The characters of `s`, in order.
pub fn to_chars(s: &str) -> (chars: Vec<char>)
    ensures
        chars@ == s@,
{
    let mut chars: Vec<char> = Vec::new();
    for c in it: s.chars()
        invariant
            chars@ == it.seq().take(it.index()),
            it.seq() == s@,
    {
        chars.push(c);
    }
    chars
}

/// The characters of `s` from `from` up to, not including, `to`, as a string
/// of their own.
pub fn slice(s: &str, from: usize, to: usize) -> (part: String)
    requires
        from <= to <= s@.len(),
    ensures
        part@ == s@.subrange(from as int, to as int),
{
    String::from_str(s.substring_char(from, to))
}

/// Whether `a` and `b` hold the same characters.
pub fn same(a: &str, b: &str) -> (equal: bool)
    ensures
        equal == (a@ == b@),
{
    let x = to_chars(a);
    let y = to_chars(b);
    if x.len() != y.len() {
        return false;
    }
    let mut i: usize = 0;
    while i < x.len()
        invariant
            i <= x.len(),
            x.len() == y.len(),
            x@ == a@,
            y@ == b@,
            forall|j: int| 0 <= j < i ==> x@[j] == y@[j],
        decreases x.len() - i,
    {
        if x[i] != y[i] {
            return false;
        }
        i += 1;
    }
    assert(x@ =~= y@);
    true
}

/// Whether `s` begins with `prefix`.
pub fn starts_with(s: &str, prefix: &str) -> (found: bool)
    ensures
        found == prefix@.is_prefix_of(s@),
{
    let x = to_chars(s);
    let p = to_chars(prefix);
    if p.len() > x.len() {
        return false;
    }
    let mut i: usize = 0;
    while i < p.len()
        invariant
            i <= p.len() <= x.len(),
            x@ == s@,
            p@ == prefix@,
            forall|j: int| 0 <= j < i ==> x@[j] == p@[j],
        decreases p.len() - i,
    {
        if x[i] != p[i] {
            assert(x@.subrange(0, p@.len() as int)[i as int] != p@[i as int]);
            return false;
        }
        i += 1;
    }
    assert(x@.subrange(0, p@.len() as int) =~= p@);
    true
}

/// Whether `s` ends with `suffix`.
pub fn ends_with(s: &str, suffix: &str) -> (found: bool)
    ensures
        found == suffix@.is_suffix_of(s@),
{
    let x = to_chars(s);
    let p = to_chars(suffix);
    if p.len() > x.len() {
        return false;
    }
    let offset: usize = x.len() - p.len();
    let mut i: usize = 0;
    while i < p.len()
        invariant
            i <= p.len() <= x.len(),
            offset == x.len() - p.len(),
            x@ == s@,
            p@ == suffix@,
            forall|j: int| 0 <= j < i ==> x@[offset + j] == p@[j],
        decreases p.len() - i,
    {
        if x[offset + i] != p[i] {
            assert(x@.subrange(offset as int, x@.len() as int)[i as int] != p@[i as int]);
            return false;
        }
        i += 1;
    }
    assert(x@.subrange(offset as int, x@.len() as int) =~= p@);
    true
}

/// Whether `s` holds nothing but whitespace.
pub fn blank(s: &str) -> (b: bool)
    ensures
        b == is_blank(s@),
{
    let x = to_chars(s);
    let mut i: usize = 0;
    while i < x.len()
        invariant
            i <= x.len(),
            x@ == s@,
            forall|j: int| 0 <= j < i ==> whitespace(#[trigger] x@[j]),
        decreases x.len() - i,
    {
        if !x[i].is_whitespace() {
            return false;
        }
        i += 1;
    }
    true
}

/// Whether `needle` stands in `s` from index `at` on.
pub open spec fn occurs_at(needle: Seq<char>, s: Seq<char>, at: int) -> bool {
    &&& 0 <= at
    &&& at + needle.len() <= s.len()
    &&& s.subrange(at, at + needle.len()) == needle
}

/// Whether `needle` stands somewhere in `s`.
pub open spec fn occurs_in(needle: Seq<char>, s: Seq<char>) -> bool {
    exists|at: int| occurs_at(needle, s, at)
}

/// Whether `needle` stands somewhere in `s`.
pub fn contains(s: &str, needle: &str) -> (found: bool)
    ensures
        found == occurs_in(needle@, s@),
{
    let x = to_chars(s);
    let p = to_chars(needle);
    if p.len() > x.len() {
        return false;
    }
    let last: usize = x.len() - p.len();
    let mut at: usize = 0;
    loop
        invariant
            at <= last,
            p@.len() <= x@.len() <= usize::MAX,
            last == x@.len() - p@.len(),
            x@ == s@,
            p@ == needle@,
            forall|k: int| 0 <= k < at ==> !occurs_at(needle@, s@, k),
        decreases last - at,
    {
        let mut i: usize = 0;
        while i < p.len() && x[at + i] == p[i]
            invariant
                i <= p@.len(),
                at <= last,
                p@.len() <= x@.len() <= usize::MAX,
                last == x@.len() - p@.len(),
                forall|j: int| 0 <= j < i ==> x@[at + j] == p@[j],
            decreases p@.len() - i,
        {
            i += 1;
        }
        if i == p.len() {
            assert(s@.subrange(at as int, at + needle@.len()) =~= needle@);
            assert(occurs_at(needle@, s@, at as int));
            return true;
        }
        assert(!occurs_at(needle@, s@, at as int)) by {
            if occurs_at(needle@, s@, at as int) {
                assert(s@.subrange(at as int, at + needle@.len())[i as int] == needle@[i as int]);
            }
        }
        if at == last {
            return false;
        }
        at += 1;
    }
}

/// The index of the first `c` in `s`, or `None` where `s` holds no `c`.
pub fn find(s: &str, c: char) -> (at: Option<usize>)
    ensures
        match at {
            Some(k) => k == position(s@, c) && k < s@.len(),
            None => position(s@, c) == s@.len(),
        },
{
    let x = to_chars(s);
    let mut i: usize = 0;
    while i < x.len()
        invariant
            i <= x.len(),
            x@ == s@,
            forall|j: int| 0 <= j < i ==> x@[j] != c,
        decreases x.len() - i,
    {
        if x[i] == c {
            proof {
                lemma_position_is(s@, c, i as int);
            }
            return Some(i);
        }
        i += 1;
    }
    proof {
        lemma_position_is(s@, c, i as int);
    }
    None
}

/// The lines of `s`, each as a string of its own.
pub fn split_lines(s: &str) -> (out: Vec<String>)
    ensures
        texts(out@) == lines(s@),
{
    let chars = to_chars(s);
    let n = chars.len();
    let mut out: Vec<String> = Vec::new();
    let mut start: usize = 0;
    let mut i: usize = 0;
    proof {
        assert(s@.skip(0) == s@);
        assert(texts(out@) + lines(s@) == lines(s@));
    }
    while i < n
        invariant
            start <= i <= n,
            n == chars@.len(),
            chars@ == s@,
            forall|j: int| start <= j < i ==> s@[j] != '\n',
            lines(s@) == texts(out@) + lines(s@.skip(start as int)),
        decreases n - i,
    {
        if chars[i] == '\n' {
            let end = if i > start && chars[i - 1] == '\r' {
                i - 1
            } else {
                i
            };
            let line = slice(s, start, end);
            proof {
                let rest = s@.skip(start as int);
                lemma_position_is(rest, '\n', i - start);
                assert(rest.take(i - start) == s@.subrange(start as int, i as int));
                assert(strip_carriage_return(rest.take(i - start)) == line@);
                assert(rest.skip(i - start + 1) == s@.skip(i + 1));
                assert(texts(out@.push(line)) == texts(out@).push(line@));
                assert(texts(out@) + (seq![line@] + lines(s@.skip(i + 1))) == texts(out@).push(
                    line@,
                ) + lines(s@.skip(i + 1)));
            }
            out.push(line);
            start = i + 1;
        }
        i += 1;
    }
    if start < n {
        let line = slice(s, start, n);
        proof {
            let rest = s@.skip(start as int);
            lemma_position_is(rest, '\n', n - start);
            assert(rest == line@);
            assert(texts(out@.push(line)) == texts(out@).push(line@));
        }
        out.push(line);
    } else {
        assert(texts(out@) + Seq::<Seq<char>>::empty() == texts(out@));
    }
    out
}

/// The strings of `parts` from `from` up to, not including, `to`, in order,
/// with `separator` between each two neighbours.
pub fn join_range(parts: &Vec<String>, from: usize, to: usize, separator: &str) -> (out: String)
    requires
        from <= to <= parts@.len(),
    ensures
        out@ == join(texts(parts@).subrange(from as int, to as int), separator@),
{
    let mut out = String::new();
    let mut i: usize = from;
    while i < to
        invariant
            from <= i <= to <= parts@.len(),
            out@ == join(texts(parts@).subrange(from as int, i as int), separator@),
        decreases to - i,
    {
        proof {
            let before = texts(parts@).subrange(from as int, i as int);
            let after = texts(parts@).subrange(from as int, i + 1);
            assert(after.drop_last() == before);
            assert(after.last() == parts@[i as int]@);
            if i == from {
                assert(Seq::<char>::empty() + parts@[i as int]@ == parts@[i as int]@);
            }
        }
        if i > from {
            out.append(separator);
        }
        out.append(parts[i].as_str());
        i += 1;
    }
    out
}

/// `parts` in order, with `separator` between each two neighbours.
pub fn join_strings(parts: &Vec<String>, separator: &str) -> (out: String)
    ensures
        out@ == join(texts(parts@), separator@),
{
    assert(texts(parts@).subrange(0, parts@.len() as int) == texts(parts@));
    join_range(parts, 0, parts.len(), separator)
}

/// `trim_start` drops the first `k` characters where they are all whitespace.
proof fn lemma_trim_start_skips(s: Seq<char>, k: int)
    requires
        0 <= k <= s.len(),
        forall|i: int| 0 <= i < k ==> whitespace(#[trigger] s[i]),
    ensures
        trim_start(s) == trim_start(s.skip(k)),
    decreases k,
{
    if k == 0 {
        assert(s.skip(0) == s);
    } else {
        let tail = s.drop_first();
        assert(whitespace(s[0]));
        assert forall|i: int| 0 <= i < k - 1 implies whitespace(#[trigger] tail[i]) by {
            assert(tail[i] == s[i + 1]);
        }
        lemma_trim_start_skips(tail, k - 1);
        assert(tail.skip(k - 1) == s.skip(k));
    }
}

/// `trim_end` drops the characters from `k` on where they are all whitespace.
proof fn lemma_trim_end_takes(s: Seq<char>, k: int)
    requires
        0 <= k <= s.len(),
        forall|i: int| k <= i < s.len() ==> whitespace(#[trigger] s[i]),
    ensures
        trim_end(s) == trim_end(s.take(k)),
    decreases s.len() - k,
{
    if k == s.len() {
        assert(s.take(k) == s);
    } else {
        let front = s.drop_last();
        assert(whitespace(s[s.len() - 1]));
        assert forall|i: int| k <= i < front.len() implies whitespace(#[trigger] front[i]) by {
            assert(front[i] == s[i]);
        }
        lemma_trim_end_takes(front, k);
        assert(front.take(k) == s.take(k));
    }
}

/// `s` without the whitespace at its start and at its end.
pub fn trimmed(s: &str) -> (out: String)
    ensures
        out@ == trim(s@),
{
    let chars = to_chars(s);
    let n = chars.len();
    let mut from: usize = 0;
    while from < n && chars[from].is_whitespace()
        invariant
            from <= n,
            n == chars@.len(),
            chars@ == s@,
            forall|i: int| 0 <= i < from ==> whitespace(#[trigger] s@[i]),
        decreases n - from,
    {
        from += 1;
    }
    let mut to: usize = n;
    while to > from && chars[to - 1].is_whitespace()
        invariant
            from <= to <= n,
            n == chars@.len(),
            chars@ == s@,
            forall|i: int| to <= i < n ==> whitespace(#[trigger] s@[i]),
        decreases to,
    {
        to -= 1;
    }
    proof {
        let rest = s@.skip(from as int);
        lemma_trim_start_skips(s@, from as int);
        assert(trim_start(rest) == rest) by {
            if from < n {
                assert(rest[0] == s@[from as int]);
            }
        }
        assert forall|i: int| to - from <= i < rest.len() implies whitespace(#[trigger] rest[i]) by {
            assert(rest[i] == s@[from + i]);
        }
        lemma_trim_end_takes(rest, to - from);
        let kept = rest.take(to - from);
        assert(kept == s@.subrange(from as int, to as int));
        assert(trim_end(kept) == kept) by {
            if to > from {
                assert(kept.last() == s@[to - 1]);
            }
        }
    }
    slice(s, from, to)
}

/// The digit `d` as a string of one character.
fn digit_string(d: usize) -> (out: &'static str)
    requires
        d < 10,
    ensures
        out@ == seq![digit(d as nat)],
{
    proof {
        reveal_strlit("0");
        reveal_strlit("1");
        reveal_strlit("2");
        reveal_strlit("3");
        reveal_strlit("4");
        reveal_strlit("5");
        reveal_strlit("6");
        reveal_strlit("7");
        reveal_strlit("8");
        reveal_strlit("9");
    }
    let out = match d {
        0 => "0",
        1 => "1",
        2 => "2",
        3 => "3",
        4 => "4",
        5 => "5",
        6 => "6",
        7 => "7",
        8 => "8",
        _ => "9",
    };
    assert(out@ =~= seq![digit(d as nat)]);
    out
}

/// `n` in decimal, without leading zeros.
pub fn decimal_string(n: usize) -> (out: String)
    ensures
        out@ == decimal(n as nat),
{
    let mut out = String::from_str(digit_string(n % 10));
    let mut rest: usize = n / 10;
    while rest > 0
        invariant
            decimal(n as nat) == (if rest > 0 {
                decimal(rest as nat)
            } else {
                Seq::empty()
            }) + out@,
        decreases rest,
    {
        let head = String::from_str(digit_string(rest % 10));
        proof {
            let low = seq![digit((rest % 10) as nat)];
            if rest >= 10 {
                assert(decimal(rest as nat) + out@ == decimal((rest / 10) as nat) + (low + out@));
            } else {
                assert(decimal(rest as nat) + out@ == Seq::<char>::empty() + (low + out@));
            }
        }
        out = head.concat(out.as_str());
        rest = rest / 10;
    }
    assert(Seq::<char>::empty() + out@ == out@);
    out
}

} // verus!
