//! The query language: `class = "Name"` or `name = "Name"`.
use vstd::prelude::*;

verus! {

/// The window attribute that a query compares.
#[derive(Clone, Copy, Debug, PartialEq, Eq, Structural)]
pub enum AttributeKind {
    ClassName,
    WindowName,
}

/// Why a query string was rejected.
#[derive(Clone, Copy, Debug, PartialEq, Eq, Structural)]
pub enum ParseError {
    /// The query does not start with `class` or `name`.
    UnknownAttribute,
    /// No `=` follows the attribute.
    ExpectedEquals,
    /// No `"` opens the value.
    ExpectedQuote,
    /// The value has no closing `"`.
    UnterminatedString,
    /// Something follows the closing `"`.
    TrailingInput,
}

/// A parsed query: the attribute must equal `value` exactly.
#[derive(Clone, Debug, PartialEq, Eq)]
pub struct Condition {
    pub attribute: AttributeKind,
    pub value: String,
}

impl View for Condition {
    type V = (AttributeKind, Seq<char>);

    open spec fn view(&self) -> (AttributeKind, Seq<char>) {
        (self.attribute, self.value@)
    }
}

pub open spec fn is_ws(c: char) -> bool {
    c == ' ' || c == '\t'
}

pub open spec fn ends_word(c: char) -> bool {
    is_ws(c) || c == '=' || c == '"'
}

/// First index at or after `i` that ends the attribute word.
pub open spec fn word_end(s: Seq<char>, i: int) -> int
    decreases s.len() - i,
{
    if i < 0 || i >= s.len() {
        s.len() as int
    } else if ends_word(s[i]) {
        i
    } else {
        word_end(s, i + 1)
    }
}

/// First index at or after `i` that holds no whitespace.
pub open spec fn skip_ws(s: Seq<char>, i: int) -> int
    decreases s.len() - i,
{
    if i < 0 || i >= s.len() {
        s.len() as int
    } else if is_ws(s[i]) {
        skip_ws(s, i + 1)
    } else {
        i
    }
}

pub open spec fn class_word() -> Seq<char> {
    seq!['c', 'l', 'a', 's', 's']
}

pub open spec fn name_word() -> Seq<char> {
    seq!['n', 'a', 'm', 'e']
}

pub open spec fn keyword(w: Seq<char>) -> Option<AttributeKind> {
    if w == class_word() {
        Some(AttributeKind::ClassName)
    } else if w == name_word() {
        Some(AttributeKind::WindowName)
    } else {
        None
    }
}

/// Reads a quoted value from index `i` (just past the opening quote), with `acc`
/// read so far: `\x` stands for `x`, and `"` closes. Gives the value and the
/// index just past the closing quote, or nothing where no quote closes.
pub open spec fn quoted(s: Seq<char>, i: int, acc: Seq<char>) -> Option<(Seq<char>, int)>
    decreases s.len() - i,
{
    if i < 0 || i >= s.len() {
        None
    } else if s[i] == '"' {
        Some((acc, i + 1))
    } else if s[i] == '\\' {
        if i + 1 >= s.len() {
            None
        } else {
            quoted(s, i + 2, acc.push(s[i + 1]))
        }
    } else {
        quoted(s, i + 1, acc.push(s[i]))
    }
}

/// Whether a quote occurs at or after index `i`.
pub open spec fn quote_from(s: Seq<char>, i: int) -> bool {
    exists|k: int| i <= k < s.len() && s[k] == '"'
}

/// What a query string means, or why it is rejected. A quote after the closing
/// one was an unescaped quote inside the value, and leaves a string open.
pub open spec fn parse_query(s: Seq<char>) -> Result<(AttributeKind, Seq<char>), ParseError> {
    let e = word_end(s, 0);
    let eq = skip_ws(s, e);
    let q = skip_ws(s, eq + 1);
    if keyword(s.subrange(0, e)) is None {
        Err(ParseError::UnknownAttribute)
    } else if eq >= s.len() || s[eq] != '=' {
        Err(ParseError::ExpectedEquals)
    } else if q >= s.len() || s[q] != '"' {
        Err(ParseError::ExpectedQuote)
    } else {
        match quoted(s, q + 1, Seq::empty()) {
            None => Err(ParseError::UnterminatedString),
            Some((v, end)) => if end == s.len() {
                Ok((keyword(s.subrange(0, e))->0, v))
            } else if quote_from(s, end) {
                Err(ParseError::UnterminatedString)
            } else {
                Err(ParseError::TrailingInput)
            },
        }
    }
}

pub open spec fn parse_view(r: Result<Condition, ParseError>) -> Result<(AttributeKind, Seq<char>), ParseError> {
    match r {
        Ok(c) => Ok(c@),
        Err(e) => Err(e),
    }
}

/// Parsing is a function of the text: equal texts parse to equal conditions.
pub proof fn lemma_parse_deterministic(a: Seq<char>, b: Seq<char>)
    requires
        a == b,
    ensures
        parse_query(a) == parse_query(b),
{
}

/// A value in which no quote follows the opening one never closes.
pub proof fn lemma_quoted_unclosed(s: Seq<char>, i: int, acc: Seq<char>)
    requires
        0 <= i,
        forall|k: int| i <= k < s.len() ==> s[k] != '"',
    ensures
        quoted(s, i, acc) is None,
    decreases s.len() - i,
{
    if i < s.len() {
        if s[i] == '\\' {
            if i + 1 < s.len() {
                lemma_quoted_unclosed(s, i + 2, acc.push(s[i + 1]));
            }
        } else {
            lemma_quoted_unclosed(s, i + 1, acc.push(s[i]));
        }
    }
}

/// A query whose value is opened and never closed is rejected as an
/// unterminated string, whatever follows the opening quote.
pub proof fn lemma_missing_close_quote_rejected(s: Seq<char>)
    requires
        keyword(s.subrange(0, word_end(s, 0))) is Some,
        skip_ws(s, word_end(s, 0)) < s.len(),
        s[skip_ws(s, word_end(s, 0))] == '=',
        skip_ws(s, skip_ws(s, word_end(s, 0)) + 1) < s.len(),
        s[skip_ws(s, skip_ws(s, word_end(s, 0)) + 1)] == '"',
        forall|k: int|
            skip_ws(s, skip_ws(s, word_end(s, 0)) + 1) < k < s.len() ==> s[k] != '"',
    ensures
        parse_query(s) == Err::<(AttributeKind, Seq<char>), ParseError>(
            ParseError::UnterminatedString,
        ),
{
    let q = skip_ws(s, skip_ws(s, word_end(s, 0)) + 1);
    lemma_skip_ws_bounds(s, skip_ws(s, word_end(s, 0)) + 1);
    lemma_quoted_unclosed(s, q + 1, Seq::empty());
}

pub proof fn lemma_skip_ws_bounds(s: Seq<char>, i: int)
    ensures
        0 <= i <= s.len() ==> i <= skip_ws(s, i),
        skip_ws(s, i) <= s.len(),
    decreases s.len() - i,
{
    if 0 <= i < s.len() && is_ws(s[i]) {
        lemma_skip_ws_bounds(s, i + 1);
    }
}

/// Relies on std's `String::push`: appends one character.
#[verifier::external_body]
pub(crate) fn push_char(s: &mut String, c: char)
    ensures
        final(s)@ == old(s)@.push(c),
{
    s.push(c)
}

fn keyword_of(text: &str, e: usize) -> (r: Option<AttributeKind>)
    requires
        e <= text@.len(),
    ensures
        r == keyword(text@.subrange(0, e as int)),
{
    let ghost w = text@.subrange(0, e as int);
    assert(class_word().len() == 5 && class_word()[0] == 'c' && class_word()[1] == 'l'
        && class_word()[2] == 'a' && class_word()[3] == 's' && class_word()[4] == 's');
    assert(name_word().len() == 4 && name_word()[0] == 'n' && name_word()[1] == 'a'
        && name_word()[2] == 'm' && name_word()[3] == 'e');
    if e == 5 {
        let c0 = text.get_char(0);
        let c1 = text.get_char(1);
        let c2 = text.get_char(2);
        let c3 = text.get_char(3);
        let c4 = text.get_char(4);
        assert(w[0] == c0 && w[1] == c1 && w[2] == c2 && w[3] == c3 && w[4] == c4);
        if c0 == 'c' && c1 == 'l' && c2 == 'a' && c3 == 's' && c4 == 's' {
            assert(w =~= class_word());
            Some(AttributeKind::ClassName)
        } else {
            None
        }
    } else if e == 4 {
        let c0 = text.get_char(0);
        let c1 = text.get_char(1);
        let c2 = text.get_char(2);
        let c3 = text.get_char(3);
        assert(w[0] == c0 && w[1] == c1 && w[2] == c2 && w[3] == c3);
        if c0 == 'n' && c1 == 'a' && c2 == 'm' && c3 == 'e' {
            assert(w =~= name_word());
            Some(AttributeKind::WindowName)
        } else {
            None
        }
    } else {
        None
    }
}

fn skip_spaces(text: &str, start: usize) -> (r: usize)
    requires
        start <= text@.len(),
    ensures
        r as int == skip_ws(text@, start as int),
        start <= r <= text@.len(),
{
    let n = text.unicode_len();
    let mut i = start;
    while i < n && (text.get_char(i) == ' ' || text.get_char(i) == '\t')
        invariant
            start <= i <= n,
            n == text@.len(),
            skip_ws(text@, start as int) == skip_ws(text@, i as int),
        decreases n - i,
    {
        i = i + 1;
    }
    i
}

fn quote_at_or_after(text: &str, start: usize) -> (r: bool)
    ensures
        r == quote_from(text@, start as int),
{
    let n = text.unicode_len();
    let mut i = start;
    while i < n
        invariant
            start <= i,
            n == text@.len(),
            forall|k: int| start <= k < i && k < n ==> text@[k] != '"',
        decreases n - i,
    {
        if text.get_char(i) == '"' {
            return true;
        }
        i = i + 1;
    }
    false
}

/// Parses a query string.
pub fn parse(text: &str) -> (r: Result<Condition, ParseError>)
    ensures
        parse_view(r) == parse_query(text@),
{
    let ghost s = text@;
    let n = text.unicode_len();
    let mut e: usize = 0;
    while e < n && !(text.get_char(e) == ' ' || text.get_char(e) == '\t' || text.get_char(e) == '='
        || text.get_char(e) == '"')
        invariant
            e <= n,
            n == s.len(),
            s == text@,
            word_end(s, 0) == word_end(s, e as int),
        decreases n - e,
    {
        e = e + 1;
    }
    assert(word_end(s, 0) == e as int);
    let attribute = match keyword_of(text, e) {
        Some(a) => a,
        None => return Err(ParseError::UnknownAttribute),
    };
    let eq = skip_spaces(text, e);
    if eq >= n || text.get_char(eq) != '=' {
        return Err(ParseError::ExpectedEquals);
    }
    let q = skip_spaces(text, eq + 1);
    if q >= n || text.get_char(q) != '"' {
        return Err(ParseError::ExpectedQuote);
    }
    let mut value = String::new();
    let mut i: usize = q + 1;
    let ghost start = i as int;
    loop
        invariant_except_break
            quoted(s, start, Seq::empty()) == quoted(s, i as int, value@),
        invariant
            q < i <= n,
            n == s.len(),
            s == text@,
            start == q + 1,
            word_end(s, 0) == e as int,
            keyword(s.subrange(0, e as int)) == Some(attribute),
            eq as int == skip_ws(s, e as int),
            eq < n && s[eq as int] == '=',
            q as int == skip_ws(s, eq + 1),
            q < n && s[q as int] == '"',
        ensures
            quoted(s, start, Seq::empty()) == Some((value@, i as int)),
        decreases n - i,
    {
        if i >= n {
            assert(quoted(s, i as int, value@) is None);
            return Err(ParseError::UnterminatedString);
        }
        let c = text.get_char(i);
        if c == '"' {
            i = i + 1;
            break;
        } else if c == '\\' {
            if i + 1 >= n {
                assert(quoted(s, i as int, value@) is None);
                return Err(ParseError::UnterminatedString);
            }
            push_char(&mut value, text.get_char(i + 1));
            i = i + 2;
        } else {
            push_char(&mut value, c);
            i = i + 1;
        }
    }
    if i != n {
        if quote_at_or_after(text, i) {
            return Err(ParseError::UnterminatedString);
        }
        return Err(ParseError::TrailingInput);
    }
    Ok(Condition { attribute, value })
}

/// The keyword that names an attribute in a query.
pub open spec fn word_of(a: AttributeKind) -> Seq<char> {
    match a {
        AttributeKind::ClassName => class_word(),
        AttributeKind::WindowName => name_word(),
    }
}

/// The query `<word> = "<value>"`, with the value written as it stands.
pub open spec fn query_text(word: Seq<char>, value: Seq<char>) -> Seq<char> {
    word + seq![' ', '=', ' ', '"'] + value + seq!['"']
}

/// A value with neither a quote nor a backslash, which reads back as itself.
pub open spec fn is_plain(v: Seq<char>) -> bool {
    forall|k: int| 0 <= k < v.len() ==> v[k] != '"' && v[k] != '\\'
}

proof fn lemma_word_end_skips(s: Seq<char>, i: int, m: int)
    requires
        0 <= i <= m <= s.len(),
        forall|k: int| i <= k < m ==> !ends_word(s[k]),
    ensures
        word_end(s, i) == word_end(s, m),
    decreases m - i,
{
    if i < m {
        lemma_word_end_skips(s, i + 1, m);
    }
}

proof fn lemma_quoted_plain(s: Seq<char>, i: int, j: int, acc: Seq<char>)
    requires
        0 <= i <= j < s.len(),
        s[j] == '"',
        forall|k: int| i <= k < j ==> s[k] != '"' && s[k] != '\\',
    ensures
        quoted(s, i, acc) == Some((acc + s.subrange(i, j), j + 1)),
    decreases j - i,
{
    if i == j {
        assert(acc + s.subrange(i, j) =~= acc);
    } else {
        lemma_quoted_plain(s, i + 1, j, acc.push(s[i]));
        assert(acc.push(s[i]) + s.subrange(i + 1, j) =~= acc + s.subrange(i, j));
    }
}

/// A query built from an attribute's keyword and a plain value parses back to
/// that attribute and value.
pub proof fn lemma_plain_query_parses(a: AttributeKind, v: Seq<char>)
    requires
        is_plain(v),
    ensures
        parse_query(query_text(word_of(a), v)) == Ok::<(AttributeKind, Seq<char>), ParseError>((a, v)),
{
    let w = word_of(a);
    let s = query_text(w, v);
    let l = w.len() as int;
    assert(class_word().len() == 5 && class_word()[0] == 'c' && class_word()[1] == 'l'
        && class_word()[2] == 'a' && class_word()[3] == 's' && class_word()[4] == 's');
    assert(name_word().len() == 4 && name_word()[0] == 'n' && name_word()[1] == 'a'
        && name_word()[2] == 'm' && name_word()[3] == 'e');
    assert(s.len() == l + 5 + v.len());
    assert forall|k: int| 0 <= k < l implies s[k] == w[k] && !ends_word(s[k]) by {
        assert(s[k] == w[k]);
    }
    assert(s[l] == ' ' && s[l + 1] == '=' && s[l + 2] == ' ' && s[l + 3] == '"');
    assert forall|k: int| 0 <= k < v.len() implies s[l + 4 + k] == v[k] by {}
    let j = l + 4 + v.len();
    assert(s[j] == '"');
    lemma_word_end_skips(s, 0, l);
    assert(word_end(s, 0) == l);
    assert(s.subrange(0, l) =~= w);
    assert(keyword(w) == Some(a));
    assert(skip_ws(s, l + 1) == l + 1);
    assert(skip_ws(s, l) == l + 1);
    assert(skip_ws(s, l + 3) == l + 3);
    assert(skip_ws(s, l + 2) == l + 3);
    assert forall|k: int| l + 4 <= k < j implies s[k] != '"' && s[k] != '\\' by {
        assert(s[k] == v[k - l - 4]);
    }
    lemma_quoted_plain(s, l + 4, j, Seq::empty());
    assert(Seq::<char>::empty() + s.subrange(l + 4, j) =~= v);
}

fn push_chars(s: &mut String, t: &str)
    ensures
        final(s)@ == old(s)@ + t@,
{
    let n = t.unicode_len();
    let mut i: usize = 0;
    let ghost s0 = s@;
    while i < n
        invariant
            i <= n,
            n == t@.len(),
            s@ == s0 + t@.subrange(0, i as int),
        decreases n - i,
    {
        push_char(s, t.get_char(i));
        i = i + 1;
        assert(s@ =~= s0 + t@.subrange(0, i as int));
    }
    assert(t@.subrange(0, n as int) =~= t@);
}

/// The text of the query that compares `attribute` with `value`.
pub fn query_for(attribute: AttributeKind, value: &str) -> (r: String)
    ensures
        r@ == query_text(word_of(attribute), value@),
{
    let mut q = String::new();
    match attribute {
        AttributeKind::ClassName => {
            push_char(&mut q, 'c');
            push_char(&mut q, 'l');
            push_char(&mut q, 'a');
            push_char(&mut q, 's');
            push_char(&mut q, 's');
        },
        AttributeKind::WindowName => {
            push_char(&mut q, 'n');
            push_char(&mut q, 'a');
            push_char(&mut q, 'm');
            push_char(&mut q, 'e');
        },
    }
    assert(q@ =~= word_of(attribute));
    let ghost w = q@;
    push_char(&mut q, ' ');
    push_char(&mut q, '=');
    push_char(&mut q, ' ');
    push_char(&mut q, '"');
    assert(q@ =~= w + seq![' ', '=', ' ', '"']);
    push_chars(&mut q, value);
    push_char(&mut q, '"');
    assert(q@ =~= query_text(word_of(attribute), value@));
    q
}

/// The condition that `attribute` equals `value`, read through the query
/// language: a value holding a quote or a backslash may not read back as itself.
pub fn condition_for(attribute: AttributeKind, value: &str) -> (r: Result<Condition, ParseError>)
    ensures
        parse_view(r) == parse_query(query_text(word_of(attribute), value@)),
        is_plain(value@) ==> r is Ok && r->Ok_0@ == (attribute, value@),
{
    let q = query_for(attribute, value);
    proof {
        if is_plain(value@) {
            lemma_plain_query_parses(attribute, value@);
        }
    }
    parse(q.as_str())
}

} // verus!
