//! Lexical helpers: lines, words, prefixes, occurrences and brackets.

use crate::text;
use crate::text::{chars_of, find_from, join_list, matches_at, position_of, space, string_of};
use vstd::prelude::*;

verus! {

/// A line without the carriage return at its end.
pub open spec fn without_return(s: Seq<char>) -> Seq<char> {
    if s.len() > 0 && s.last() == '\r' {
        s.drop_last()
    } else {
        s
    }
}

/// The lines of a text: each ends with a line feed, or a carriage return and a
/// line feed, that do not belong to it; the last need not end so.
pub open spec fn lines(s: Seq<char>) -> Seq<Seq<char>>
    decreases s.len(),
{
    let at = text::first_at(s, '\n', 0);
    if s.len() == 0 {
        Seq::empty()
    } else if 0 <= at < s.len() {
        seq![without_return(s.take(at))] + lines(s.skip(at + 1))
    } else {
        seq![s]
    }
}

/// The lines of a text.
pub fn lines_of(s: &str) -> (r: Vec<String>)
    ensures
        text::texts(r@) == lines(s@),
{
    let chars = chars_of(s);
    let mut out: Vec<String> = Vec::new();
    let mut from: usize = 0;
    assert(s@.skip(0) =~= s@);
    assert(text::texts(out@) + lines(s@) =~= lines(s@));
    while from < chars.len()
        invariant
            chars@ == s@,
            from <= chars@.len(),
            text::texts(out@) + lines(s@.skip(from as int)) == lines(s@),
        decreases chars@.len() - from,
    {
        let ghost rest = s@.skip(from as int);
        let ghost before = text::texts(out@);
        let at: usize = position_of(&chars, '\n', from);
        proof {
            text::lemma_first_at_skip(s@, '\n', from as int);
            text::lemma_first_at(s@, '\n', from as int);
        }
        if at == chars.len() {
            let part = string_of(&chars, from, at);
            out.push(part);
            proof {
                assert(part@ =~= rest);
                assert(text::texts(out@) =~= before.push(part@));
                assert(text::texts(out@) + lines(s@.skip(at as int)) =~= before + seq![rest]);
            }
            from = at;
        } else {
            let to: usize = if at > from && chars[at - 1] == '\r' {
                at - 1
            } else {
                at
            };
            let part = string_of(&chars, from, to);
            out.push(part);
            proof {
                let line = rest.take(at - from);
                if at > from {
                    assert(line.last() == s@[at - 1]);
                }
                assert(part@ =~= without_return(line));
                assert(text::texts(out@) =~= before.push(part@));
                assert(rest.skip(at - from + 1) =~= s@.skip(at + 1));
                assert(text::texts(out@) + lines(s@.skip(at + 1)) =~= before + (seq![part@]
                    + lines(s@.skip(at + 1))));
            }
            from = at + 1;
        }
    }
    assert(s@.skip(from as int) =~= Seq::<char>::empty());
    assert(text::texts(out@) + lines(s@.skip(from as int)) =~= text::texts(out@));
    out
}

/// The end of the word that begins at `from`: the first white space, or the
/// end of the text.
pub open spec fn word_end(s: Seq<char>, from: int) -> int
    decreases s.len() - from,
{
    if from >= s.len() || from < 0 {
        s.len() as int
    } else if text::is_space(s[from]) {
        from
    } else {
        word_end(s, from + 1)
    }
}

/// The start of the first word from `from` on.
pub open spec fn word_start(s: Seq<char>, from: int) -> int
    decreases s.len() - from,
{
    if from >= s.len() || from < 0 {
        s.len() as int
    } else if text::is_space(s[from]) {
        word_start(s, from + 1)
    } else {
        from
    }
}

/// A word ends behind its start.
pub proof fn lemma_word(s: Seq<char>, from: int)
    requires
        0 <= from <= s.len(),
    ensures
        from <= word_start(s, from) <= s.len(),
        from <= word_end(s, from) <= s.len(),
        word_start(s, from) < s.len() ==> word_end(s, word_start(s, from)) > word_start(s, from),
    decreases s.len() - from,
{
    if from < s.len() {
        lemma_word(s, from + 1);
    }
}

/// The words of a text from `from` on: what stands between white space.
pub open spec fn words(s: Seq<char>, from: int) -> Seq<Seq<char>>
    decreases s.len() - from,
{
    let a = word_start(s, from);
    let b = word_end(s, a);
    if from < 0 || from > s.len() || a >= s.len() {
        Seq::empty()
    } else {
        proof {
            lemma_word(s, from);
            lemma_word(s, a);
        }
        seq![s.subrange(a, b)] + words(s, b)
    }
}

/// The words of a text with one space between them.
pub open spec fn squeezed(s: Seq<char>) -> Seq<char> {
    text::join(words(s, 0), " "@)
}

/// The words of a text.
pub fn words_of(s: &str) -> (r: Vec<String>)
    ensures
        text::texts(r@) == words(s@, 0),
{
    let chars = chars_of(s);
    let mut out: Vec<String> = Vec::new();
    let mut i: usize = 0;
    assert(text::texts(out@) + words(s@, 0) =~= words(s@, 0));
    loop
        invariant
            chars@ == s@,
            i <= chars@.len(),
            text::texts(out@) + words(s@, i as int) == words(s@, 0),
        decreases chars@.len() - i,
    {
        let ghost start = word_start(s@, i as int);
        let ghost before = text::texts(out@);
        let mut a: usize = i;
        while a < chars.len() && space(chars[a])
            invariant
                chars@ == s@,
                i <= a <= chars@.len(),
                start == word_start(s@, a as int),
            decreases chars@.len() - a,
        {
            a += 1;
        }
        assert(start == a);
        if a == chars.len() {
            assert(words(s@, i as int) =~= Seq::<Seq<char>>::empty());
            assert(text::texts(out@) =~= words(s@, 0));
            return out;
        }
        let ghost end = word_end(s@, a as int);
        let mut b: usize = a;
        while b < chars.len() && !space(chars[b])
            invariant
                chars@ == s@,
                a <= b <= chars@.len(),
                end == word_end(s@, b as int),
            decreases chars@.len() - b,
        {
            b += 1;
        }
        assert(end == b);
        let word = string_of(&chars, a, b);
        out.push(word);
        proof {
            lemma_word(s@, i as int);
            lemma_word(s@, a as int);
            assert(words(s@, i as int) =~= seq![word@] + words(s@, b as int));
            assert(text::texts(out@) =~= before.push(word@));
            assert(text::texts(out@) + words(s@, b as int) =~= before + (seq![word@] + words(
                s@,
                b as int,
            )));
        }
        i = b;
    }
}

/// The words of a text with one space between them.
pub fn squeeze(s: &str) -> (r: String)
    ensures
        r@ == squeezed(s@),
{
    let list = words_of(s);
    join_list(&list, " ")
}

/// What follows a prefix, where the text begins with it.
pub open spec fn after_prefix(s: Seq<char>, prefix: Seq<char>) -> Option<Seq<char>> {
    if text::has_prefix(s, prefix) {
        Some(s.skip(prefix.len() as int))
    } else {
        None
    }
}

/// The characters of an optional text.
pub open spec fn view_of(s: Option<String>) -> Option<Seq<char>> {
    match s {
        Some(t) => Some(t@),
        None => None,
    }
}

/// What follows a prefix, where the text begins with it.
pub fn strip_prefix(s: &str, prefix: &str) -> (r: Option<String>)
    ensures
        view_of(r) == after_prefix(s@, prefix@),
{
    let chars = chars_of(s);
    let start = chars_of(prefix);
    if matches_at(&chars, &start, 0) {
        let rest = string_of(&chars, start.len(), chars.len());
        assert(rest@ =~= s@.skip(prefix@.len() as int));
        Some(rest)
    } else {
        None
    }
}

/// The first position from `from` on at which `needle` occurs.
pub open spec fn found(hay: Seq<char>, needle: Seq<char>, from: int) -> Option<int>
    decreases hay.len() - from + 1,
{
    if from < 0 || from > hay.len() {
        None
    } else if text::occurs_at(hay, needle, from) {
        Some(from)
    } else {
        found(hay, needle, from + 1)
    }
}

/// What a first position is.
pub proof fn lemma_found(hay: Seq<char>, needle: Seq<char>, from: int)
    requires
        0 <= from <= hay.len() + 1,
    ensures
        match found(hay, needle, from) {
            Some(i) => from <= i && i + needle.len() <= hay.len() && text::occurs_at(
                hay,
                needle,
                i,
            ) && forall|j: int| from <= j < i ==> !text::occurs_at(hay, needle, j),
            None => forall|j: int| from <= j ==> !text::occurs_at(hay, needle, j),
        },
    decreases hay.len() - from + 1,
{
    if from <= hay.len() && !text::occurs_at(hay, needle, from) {
        lemma_found(hay, needle, from + 1);
    }
}

/// What stands before the first occurrence of `needle` and what follows it.
pub open spec fn cut(s: Seq<char>, needle: Seq<char>) -> Option<(Seq<char>, Seq<char>)> {
    match found(s, needle, 0) {
        Some(i) => Some((s.take(i), s.skip(i + needle.len()))),
        None => None,
    }
}

/// The characters of two optional texts.
pub open spec fn views_of(s: Option<(String, String)>) -> Option<(Seq<char>, Seq<char>)> {
    match s {
        Some(t) => Some((t.0@, t.1@)),
        None => None,
    }
}

/// What stands before the first occurrence of `needle` and what follows it.
pub fn split_once(s: &str, needle: &str) -> (r: Option<(String, String)>)
    ensures
        views_of(r) == cut(s@, needle@),
{
    let chars = chars_of(s);
    let sought = chars_of(needle);
    proof {
        lemma_found(s@, needle@, 0);
    }
    match find_from(&chars, &sought, 0) {
        Some(i) => {
            proof {
                let f = found(s@, needle@, 0);
                assert(f is Some);
                if f->0 < i {
                    assert(!text::occurs_at(s@, needle@, f->0));
                }
                assert(f->0 == i);
            }
            let n: usize = chars.len();
            let head = string_of(&chars, 0, i);
            let tail = string_of(&chars, i + sought.len(), n);
            assert(head@ =~= s@.take(i as int));
            assert(tail@ =~= s@.skip(i + needle@.len()));
            Some((head, tail))
        },
        None => None,
    }
}

/// What stands before the first occurrence of `needle`, or the whole text.
pub open spec fn before_first(s: Seq<char>, needle: Seq<char>) -> Seq<char> {
    match cut(s, needle) {
        Some(p) => p.0,
        None => s,
    }
}

/// What stands before the first occurrence of `needle`, or the whole text.
pub fn head_of(s: &str, needle: &str) -> (r: String)
    ensures
        r@ == before_first(s@, needle@),
{
    match split_once(s, needle) {
        Some((head, _tail)) => head,
        None => s.to_owned(),
    }
}

/// `s` without the white space at its start.
pub fn trimmed_start(s: &str) -> (r: String)
    ensures
        r@ == text::trim_start(s@),
{
    let chars = chars_of(s);
    let n: usize = chars.len();
    let mut a: usize = 0;
    assert(s@.skip(0) =~= s@);
    while a < n && space(chars[a])
        invariant
            chars@ == s@,
            n == chars@.len(),
            a <= n,
            text::trim_start(s@) == text::trim_start(s@.skip(a as int)),
        decreases n - a,
    {
        proof {
            let rest = s@.skip(a as int);
            assert(rest[0] == s@[a as int]);
            assert(rest.subrange(1, rest.len() as int) =~= s@.skip(a + 1));
        }
        a += 1;
    }
    let r = string_of(&chars, a, n);
    proof {
        let rest = s@.skip(a as int);
        assert(r@ =~= rest);
        if rest.len() > 0 {
            assert(rest[0] == s@[a as int]);
        }
    }
    r
}

/// `s` without the white space at its end.
pub fn trimmed_end(s: &str) -> (r: String)
    ensures
        r@ == text::trim_end(s@),
{
    let chars = chars_of(s);
    let mut b: usize = chars.len();
    assert(s@.take(b as int) =~= s@);
    while b > 0 && space(chars[b - 1])
        invariant
            chars@ == s@,
            b <= chars@.len(),
            text::trim_end(s@) == text::trim_end(s@.take(b as int)),
        decreases b,
    {
        proof {
            let rest = s@.take(b as int);
            assert(rest.last() == s@[b - 1]);
            assert(rest.drop_last() =~= s@.take(b - 1));
        }
        b -= 1;
    }
    let r = string_of(&chars, 0, b);
    proof {
        let rest = s@.take(b as int);
        assert(r@ =~= rest);
        if rest.len() > 0 {
            assert(rest.last() == s@[b - 1]);
        }
    }
    r
}

/// Trimming at the start leaves no more than there was.
pub proof fn lemma_trim_start_len(s: Seq<char>)
    ensures
        text::trim_start(s).len() <= s.len(),
    decreases s.len(),
{
    if s.len() > 0 && text::is_space(s[0]) {
        lemma_trim_start_len(s.subrange(1, s.len() as int));
    }
}

/// Whether a character is a letter or a number, as Unicode has it.
pub uninterp spec fn alphanumeric(c: char) -> bool;

/// Trusted: `char::is_alphanumeric` tells whether Unicode counts a character
/// among the letters or the numbers. Among the ASCII characters those are the
/// ten digits and the two alphabets; of the others only the name of the result
/// is known.
pub assume_specification[ char::is_alphanumeric ](c: char) -> (r: bool)
    ensures
        r == alphanumeric(c),
        (c as u32) < 128 ==> r == ('0' <= c <= '9' || 'A' <= c <= 'Z' || 'a' <= c <= 'z'),
;

/// The end of the name that begins at `from`: the first character that is no
/// letter, number or underscore.
pub open spec fn name_end(s: Seq<char>, from: int) -> int
    decreases s.len() - from,
{
    if from >= s.len() || from < 0 {
        s.len() as int
    } else if alphanumeric(s[from]) || s[from] == '_' {
        name_end(s, from + 1)
    } else {
        from
    }
}

/// The name at the start of a text.
pub open spec fn leading_name(s: Seq<char>) -> Seq<char> {
    s.take(name_end(s, 0))
}

/// The name at the start of a text.
pub fn name_at_start(s: &str) -> (r: String)
    ensures
        r@ == leading_name(s@),
{
    let chars = chars_of(s);
    let mut i: usize = 0;
    while i < chars.len() && (chars[i].is_alphanumeric() || chars[i] == '_')
        invariant
            chars@ == s@,
            i <= chars@.len(),
            name_end(s@, 0) == name_end(s@, i as int),
        decreases chars@.len() - i,
    {
        i += 1;
    }
    let r = string_of(&chars, 0, i);
    assert(r@ =~= leading_name(s@));
    r
}

/// Whether `c` opens a bracket; angle brackets and braces count where `all` is
/// set.
pub open spec fn opens(c: char, all: bool) -> bool {
    c == '(' || c == '[' || (all && (c == '<' || c == '{'))
}

/// Whether `c` closes a bracket; angle brackets and braces count where `all` is
/// set. The head of an arrow is no bracket.
pub open spec fn closes(c: char, arrow: bool, all: bool) -> bool {
    c == ')' || c == ']' || (all && (c == '}' || (c == '>' && !arrow)))
}

/// Whether the character at position `i` is the head of an arrow.
pub open spec fn heads_arrow(s: Seq<char>, i: int) -> bool {
    i > 0 && s[i] == '>' && s[i - 1] == '-'
}

/// The depth of brackets behind `c`, which no closing bracket takes below none.
pub open spec fn depth_behind(c: char, arrow: bool, all: bool, depth: nat) -> nat {
    if opens(c, all) {
        depth + 1
    } else if closes(c, arrow, all) && depth > 0 {
        (depth - 1) as nat
    } else {
        depth
    }
}

/// The depth of brackets in front of position `i`.
pub open spec fn depth_at(s: Seq<char>, all: bool, i: int) -> nat
    decreases i,
{
    if i <= 0 {
        0
    } else {
        depth_behind(s[i - 1], heads_arrow(s, i - 1), all, depth_at(s, all, i - 1))
    }
}

/// What a header, a list of parameters or a binding is cut at.
#[derive(Debug, Clone, Copy, PartialEq, Eq, Structural)]
pub enum Stop {
    /// The opening brace of a body, or the semicolon of a declaration.
    Body,
    /// A comma.
    Comma,
    /// A colon that is not part of a path separator.
    Binding,
    /// The parenthesis that opens a list of parameters.
    Params,
}

/// Whether a text may be cut at position `i`.
pub open spec fn stops_at(s: Seq<char>, stop: Stop, i: int) -> bool {
    match stop {
        Stop::Body => s[i] == '{' || s[i] == ';',
        Stop::Comma => s[i] == ',',
        Stop::Binding => s[i] == ':' && !(i > 0 && s[i - 1] == ':') && !(i + 1 < s.len() && s[i + 1]
            == ':'),
        Stop::Params => s[i] == '(',
    }
}

/// The first position from `from` on at which a text may be cut and that stands
/// in no bracket, or the length. Angle brackets and braces count but for the
/// header.
pub open spec fn first_stop(s: Seq<char>, stop: Stop, from: int) -> int
    decreases s.len() - from,
{
    if from < 0 || from >= s.len() {
        s.len() as int
    } else if stops_at(s, stop, from) && depth_at(s, stop != Stop::Body, from) == 0 {
        from
    } else {
        first_stop(s, stop, from + 1)
    }
}

/// A first position is within the text, and none before it will do.
pub proof fn lemma_first_stop(s: Seq<char>, stop: Stop, from: int)
    requires
        0 <= from <= s.len(),
    ensures
        from <= first_stop(s, stop, from) <= s.len(),
        first_stop(s, stop, from) < s.len() ==> stops_at(s, stop, first_stop(s, stop, from)),
        forall|i: int|
            from <= i < first_stop(s, stop, from) && #[trigger] stops_at(s, stop, i) ==> depth_at(
                s,
                stop != Stop::Body,
                i,
            ) > 0,
    decreases s.len() - from,
{
    if from < s.len() {
        lemma_first_stop(s, stop, from + 1);
    }
}

/// Whether a text may be cut at position `i`.
fn is_stop(chars: &Vec<char>, stop: Stop, i: usize) -> (r: bool)
    requires
        i < chars@.len(),
    ensures
        r == stops_at(chars@, stop, i as int),
{
    let n: usize = chars.len();
    match stop {
        Stop::Body => chars[i] == '{' || chars[i] == ';',
        Stop::Comma => chars[i] == ',',
        Stop::Binding => chars[i] == ':' && !(i > 0 && chars[i - 1] == ':') && !(i + 1 < n
            && chars[i + 1] == ':'),
        Stop::Params => chars[i] == '(',
    }
}

/// The first position at which a text may be cut, or the length.
pub fn find_stop(chars: &Vec<char>, stop: Stop) -> (r: usize)
    ensures
        r <= chars@.len(),
        r == first_stop(chars@, stop, 0),
{
    let n: usize = chars.len();
    let all: bool = stop != Stop::Body;
    let mut depth: usize = 0;
    let mut i: usize = 0;
    while i < n
        invariant
            i <= n,
            n == chars@.len(),
            all == (stop != Stop::Body),
            depth == depth_at(chars@, all, i as int),
            first_stop(chars@, stop, 0) == first_stop(chars@, stop, i as int),
        decreases n - i,
    {
        if depth == 0 && is_stop(chars, stop, i) {
            return i;
        }
        proof {
            lemma_depth(chars@, all, i as int);
        }
        let arrow: bool = i > 0 && chars[i] == '>' && chars[i - 1] == '-';
        depth = next_depth(chars[i], arrow, all, depth);
        i += 1;
    }
    n
}

/// The position of the parenthesis that closes the one at depth `depth`, or the
/// length.
pub open spec fn closing_from(s: Seq<char>, i: int, depth: nat) -> int
    decreases s.len() - i,
{
    if i < 0 || i >= s.len() {
        s.len() as int
    } else if s[i] == '(' {
        closing_from(s, i + 1, depth + 1)
    } else if s[i] == ')' {
        if depth <= 1 {
            i
        } else {
            closing_from(s, i + 1, (depth - 1) as nat)
        }
    } else {
        closing_from(s, i + 1, depth)
    }
}

/// The position of the parenthesis that closes the one at `open`, or the length.
pub fn matching_paren(chars: &Vec<char>, open: usize) -> (r: usize)
    requires
        open < chars@.len(),
        chars@[open as int] == '(',
    ensures
        open < r <= chars@.len(),
        r == closing_from(chars@, open + 1, 1),
{
    let n: usize = chars.len();
    let mut depth: usize = 1;
    let mut i: usize = open + 1;
    while i < n
        invariant
            open < i <= n,
            n == chars@.len(),
            1 <= depth <= i,
            closing_from(chars@, open + 1, 1) == closing_from(chars@, i as int, depth as nat),
        decreases n - i,
    {
        if chars[i] == '(' {
            depth += 1;
        } else if chars[i] == ')' {
            if depth == 1 {
                return i;
            }
            depth -= 1;
        }
        i += 1;
    }
    n
}

/// The parts of a text between the commas that stand in no bracket.
pub open spec fn top_level_parts(s: Seq<char>) -> Seq<Seq<char>>
    decreases s.len(),
{
    let at = first_stop(s, Stop::Comma, 0);
    if 0 <= at < s.len() {
        seq![s.take(at)] + top_level_parts(s.skip(at + 1))
    } else {
        seq![s]
    }
}

/// The parts of a text between the commas that stand in no bracket.
pub fn split_top_level(s: &str) -> (r: Vec<String>)
    ensures
        text::texts(r@) == top_level_parts(s@),
{
    let mut rest = s.to_owned();
    let mut out: Vec<String> = Vec::new();
    assert(text::texts(out@) + top_level_parts(s@) =~= top_level_parts(s@));
    loop
        invariant
            text::texts(out@) + top_level_parts(rest@) == top_level_parts(s@),
        decreases rest@.len(),
    {
        let ghost before = text::texts(out@);
        let chars = chars_of(rest.as_str());
        let at: usize = find_stop(&chars, Stop::Comma);
        if at == chars.len() {
            let ghost last = rest@;
            out.push(rest);
            proof {
                assert(text::texts(out@) =~= before.push(last));
                assert(text::texts(out@) =~= before + seq![last]);
            }
            return out;
        }
        let head = string_of(&chars, 0, at);
        let tail = string_of(&chars, at + 1, chars.len());
        proof {
            assert(head@ =~= rest@.take(at as int));
            assert(tail@ =~= rest@.skip(at + 1));
        }
        out.push(head);
        proof {
            assert(text::texts(out@) =~= before.push(head@));
            assert(text::texts(out@) + top_level_parts(tail@) =~= before + (seq![head@]
                + top_level_parts(tail@)));
        }
        rest = tail;
    }
}

/// The depth of brackets behind `c`.
pub fn next_depth(c: char, arrow: bool, all: bool, depth: usize) -> (r: usize)
    requires
        depth < usize::MAX,
    ensures
        r == depth_behind(c, arrow, all, depth as nat),
{
    if c == '(' || c == '[' || (all && (c == '<' || c == '{')) {
        depth + 1
    } else if (c == ')' || c == ']' || (all && (c == '}' || (c == '>' && !arrow)))) && depth > 0 {
        depth - 1
    } else {
        depth
    }
}

/// There are no more brackets than characters.
pub proof fn lemma_depth(s: Seq<char>, all: bool, i: int)
    requires
        0 <= i <= s.len(),
    ensures
        depth_at(s, all, i) <= i,
    decreases i,
{
    if i > 0 {
        lemma_depth(s, all, i - 1);
    }
}

/// A text is cut at the first place where the other text stands: what is before
/// and what is behind it make the text up again, and there is no earlier place.
pub proof fn law_cut_is_at_the_first_place(s: Seq<char>, needle: Seq<char>, j: int)
    ensures
        cut(s, needle) is Some ==> (cut(s, needle)->0).0 + needle + (cut(s, needle)->0).1 == s,
        cut(s, needle) is Some && 0 <= j < (cut(s, needle)->0).0.len() ==> !text::occurs_at(
            s,
            needle,
            j,
        ),
        cut(s, needle) is None ==> !text::occurs_at(s, needle, j),
        cut(s, needle) is None ==> before_first(s, needle) == s,
        cut(s, needle) is Some ==> before_first(s, needle) == (cut(s, needle)->0).0,
{
    lemma_found(s, needle, 0);
    if cut(s, needle) is Some {
        let i = found(s, needle, 0)->0;
        assert(s.take(i) + s.subrange(i, i + needle.len()) + s.skip(i + needle.len()) =~= s);
    }
}

/// What comes behind a prefix is the rest of the text.
pub proof fn law_prefix_is_taken_off(prefix: Seq<char>, rest: Seq<char>, s: Seq<char>)
    ensures
        after_prefix(prefix + rest, prefix) == Some(rest),
        after_prefix(s, prefix) is Some ==> prefix + after_prefix(s, prefix)->0 == s,
{
    text::law_prefix_is_what_comes_first(prefix, rest, s);
    assert((prefix + rest).skip(prefix.len() as int) =~= rest);
}

/// The first line of a text ends at the first line break, without a carriage
/// return before it; the lines behind it are those of the rest.
pub proof fn law_lines_end_at_breaks(line: Seq<char>, rest: Seq<char>)
    requires
        forall|i: int| 0 <= i < line.len() ==> line[i] != '\n',
    ensures
        lines(line + seq!['\n'] + rest).len() == lines(rest).len() + 1,
        lines(line + seq!['\n'] + rest).skip(1) == lines(rest),
        line.len() > 0 && line.last() == '\r' ==> lines(line + seq!['\n'] + rest)[0]
            == line.drop_last(),
        line.len() > 0 && line.last() != '\r' ==> lines(line + seq!['\n'] + rest)[0] == line,
        line.len() == 0 ==> lines(line + seq!['\n'] + rest)[0].len() == 0,
        line.len() > 0 ==> lines(line) == seq![line],
        lines(Seq::<char>::empty()).len() == 0,
{
    let s = line + seq!['\n'] + rest;
    let n = line.len() as int;
    text::lemma_first_at(s, '\n', 0);
    assert(s[n] == '\n');
    assert forall|i: int| 0 <= i < n implies s[i] != '\n' by {
        assert(s[i] == line[i]);
    }
    assert(text::first_at(s, '\n', 0) == n);
    assert(s.take(n) =~= line);
    assert(s.skip(n + 1) =~= rest);
    assert(lines(s) =~= seq![without_return(line)] + lines(rest));
    assert(lines(s).skip(1) =~= lines(rest));
    text::lemma_first_at(line, '\n', 0);
}

/// Words hold no space, and none is empty.
pub proof fn law_words_hold_no_space(s: Seq<char>, from: int, k: int, j: int)
    requires
        0 <= from <= s.len(),
        0 <= k < words(s, from).len(),
        0 <= j < words(s, from)[k].len(),
    ensures
        words(s, from)[k].len() > 0,
        !text::is_space(words(s, from)[k][j]),
    decreases s.len() - from,
{
    lemma_word(s, from);
    let a = word_start(s, from);
    lemma_word(s, a);
    let b = word_end(s, a);
    lemma_word_is_unbroken(s, a, j + a);
    if k > 0 {
        assert(words(s, from)[k] == words(s, b)[k - 1]);
        law_words_hold_no_space(s, b, k - 1, j);
    }
}

/// There is no space before the end of a word.
proof fn lemma_word_is_unbroken(s: Seq<char>, from: int, i: int)
    requires
        0 <= from <= s.len(),
    ensures
        from <= i < word_end(s, from) ==> !text::is_space(s[i]),
    decreases s.len() - from,
{
    if from < s.len() && !text::is_space(s[from]) {
        lemma_word_is_unbroken(s, from + 1, i);
    }
}

/// Brackets raise and lower the depth: inside angle and curly brackets too where all
/// count, and the head of an arrow never counts.
pub proof fn law_brackets_make_depth(depth: nat, arrow: bool, all: bool)
    ensures
        depth_behind('(', arrow, all, depth) == depth + 1,
        depth_behind('[', arrow, all, depth) == depth + 1,
        depth_behind('<', arrow, true, depth) == depth + 1,
        depth_behind('{', arrow, true, depth) == depth + 1,
        depth_behind('<', arrow, false, depth) == depth,
        depth_behind('{', arrow, false, depth) == depth,
        depth > 0 ==> depth_behind(')', arrow, all, depth) == depth - 1,
        depth > 0 ==> depth_behind(']', arrow, all, depth) == depth - 1,
        depth > 0 ==> depth_behind('>', false, true, depth) == depth - 1,
        depth > 0 ==> depth_behind('}', arrow, true, depth) == depth - 1,
        depth_behind('>', true, all, depth) == depth,
        depth_behind('a', arrow, all, depth) == depth,
        depth_behind(')', arrow, all, 0) == 0,
{
}

/// The parts between commas outside of brackets make the text up again.
pub proof fn law_top_level_parts_make_up_the_text(s: Seq<char>)
    ensures
        top_level_parts(s).len() >= 1,
        text::joined_by(top_level_parts(s), ',') == s,
    decreases s.len(),
{
    lemma_first_stop(s, Stop::Comma, 0);
    let at = first_stop(s, Stop::Comma, 0);
    if at < s.len() {
        let rest = s.skip(at + 1);
        law_top_level_parts_make_up_the_text(rest);
        let parts = top_level_parts(s);
        assert(parts =~= seq![s.take(at)] + top_level_parts(rest));
        assert(parts.skip(1) =~= top_level_parts(rest));
        assert(s[at] == ',');
        assert(s.take(at) + seq![','] + rest =~= s);
    }
}

} // verus!
