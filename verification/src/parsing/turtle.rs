//! The Turtle-style parser: tokenizer, identifier and object parsers, the
//! recursive triple parser with blank-property-list and collection
//! desugaring, and the graph parser.

use vstd::prelude::*;
use crate::parsing::ParserError;
use crate::text::push_char;
use crate::uri::{Uri, UriType};
use crate::object::{Literal, Object};
use crate::resource::Resource;
use crate::relationship::Relationship;
use crate::triple::{Triple, clone_triples};
use crate::graph::Graph;

verus! {

/// A directive keyword.
#[derive(Debug)]
pub enum Keyword {
    Prefix,
    Base,
}

/// One lexical token of the text format.
#[derive(Debug)]
pub enum Token {
    Keyword(Keyword),
    Whitespace,
    TripleSep,
    PredicateSep,
    ObjectSep,
    Word(String),
    PropertyListOpen,
    PropertyListClose,
    CollectionOpen,
    CollectionClose,
}

impl Clone for Keyword {
    fn clone(&self) -> (r: Self)
        ensures
            r == *self,
    {
        match self {
            Keyword::Prefix => Keyword::Prefix,
            Keyword::Base => Keyword::Base,
        }
    }
}

impl Clone for Token {
    fn clone(&self) -> (r: Self)
        ensures
            r == *self,
    {
        match self {
            Token::Keyword(k) => Token::Keyword(k.clone()),
            Token::Whitespace => Token::Whitespace,
            Token::TripleSep => Token::TripleSep,
            Token::PredicateSep => Token::PredicateSep,
            Token::ObjectSep => Token::ObjectSep,
            Token::Word(w) => Token::Word(w.clone()),
            Token::PropertyListOpen => Token::PropertyListOpen,
            Token::PropertyListClose => Token::PropertyListClose,
            Token::CollectionOpen => Token::CollectionOpen,
            Token::CollectionClose => Token::CollectionClose,
        }
    }
}

/// Whether a character has the White_Space property: the set that
/// tokenization treats as separating.
pub open spec fn spec_is_ws(c: char) -> bool {
    let u = c as u32;
    (9 <= u <= 13) || u == 32 || u == 0x85 || u == 0xA0 || u == 0x1680 || (0x2000 <= u
        <= 0x200A) || u == 0x2028 || u == 0x2029 || u == 0x202F || u == 0x205F || u == 0x3000
}

/// Whether a character has the White_Space property.
fn is_ws(c: char) -> (r: bool)
    ensures
        r == spec_is_ws(c),
{
    let u = c as u32;
    (9 <= u && u <= 13) || u == 32 || u == 0x85 || u == 0xA0 || u == 0x1680 || (0x2000 <= u && u
        <= 0x200A) || u == 0x2028 || u == 0x2029 || u == 0x202F || u == 0x205F || u == 0x3000
}

/// Whether a character may stand in an identifier: an ASCII letter or
/// digit, a hyphen, or an underscore.
pub open spec fn spec_is_word_char(c: char) -> bool {
    let u = c as u32;
    (48 <= u <= 57) || (65 <= u <= 90) || (97 <= u <= 122) || u == 45 || u == 95
}

/// Whether a character may stand in an identifier.
fn is_word_char(c: char) -> (r: bool)
    ensures
        r == spec_is_word_char(c),
{
    let u = c as u32;
    (48 <= u && u <= 57) || (65 <= u && u <= 90) || (97 <= u && u <= 122) || u == 45 || u == 95
}

/// Whether a character is an ASCII lowercase letter.
fn is_lower_char(c: char) -> (r: bool)
    ensures
        r == (97 <= c as u32 <= 122),
{
    let u = c as u32;
    97 <= u && u <= 122
}

impl Token {
    /// The printed form of one token, as the graph parser re-serializes
    /// token groups.
    pub fn to_text(&self) -> (r: String)
    {
        match self {
            Token::Keyword(Keyword::Base) => String::from_str("@base"),
            Token::Keyword(Keyword::Prefix) => String::from_str("@prefix"),
            Token::Whitespace => String::from_str(" "),
            Token::TripleSep => String::from_str("."),
            Token::PredicateSep => String::from_str(";"),
            Token::ObjectSep => String::from_str(","),
            Token::Word(w) => w.clone(),
            Token::PropertyListOpen => String::from_str("["),
            Token::PropertyListClose => String::from_str("]"),
            Token::CollectionOpen => String::from_str("("),
            Token::CollectionClose => String::from_str(")"),
        }
    }

    /// Re-serializes a token list: each non-whitespace token's printed
    /// form, each followed by a single space.
    pub fn vec_to_string(tokens: Vec<Token>) -> (r: String)
    {
        let mut s = String::new();
        let mut i: usize = 0;
        while i < tokens.len()
            decreases tokens@.len() - i,
        {
            match &tokens[i] {
                Token::Whitespace => {},
                t => {
                    s = s.concat(t.to_text().as_str()).concat(" ");
                },
            }
            i = i + 1;
        }
        s
    }
}

/// Whether `s` begins with the characters of `p`.
fn starts_with_text(s: &str, p: &str) -> (r: bool)
{
    let s_len = s.unicode_len();
    let p_len = p.unicode_len();
    if p_len > s_len {
        return false;
    }
    let mut i: usize = 0;
    while i < p_len
        invariant
            0 <= i <= p_len,
            p_len <= s_len,
            p_len == p@.len(),
            s_len == s@.len(),
        decreases p_len - i,
    {
        if s.get_char(i) != p.get_char(i) {
            return false;
        }
        i = i + 1;
    }
    true
}

/// The slice of `s` with leading and trailing white space removed.
fn trim_text<'a>(s: &'a str) -> (r: &'a str)
{
    let len = s.unicode_len();
    let mut start: usize = 0;
    while start < len && is_ws(s.get_char(start))
        invariant
            0 <= start <= len,
            len == s@.len(),
        decreases len - start,
    {
        start = start + 1;
    }
    let mut end: usize = len;
    while end > start && is_ws(s.get_char(end - 1))
        invariant
            start <= end <= len,
            len == s@.len(),
        decreases end,
    {
        end = end - 1;
    }
    s.substring_char(start, end)
}

/// The longest run of identifier characters in `s` starting at `from`:
/// the index just past its end.
fn word_run(s: &str, from: usize) -> (r: usize)
    requires
        from <= s@.len(),
    ensures
        from <= r <= s@.len(),
{
    let len = s.unicode_len();
    let mut i: usize = from;
    while i < len && is_word_char(s.get_char(i))
        invariant
            from <= i <= len,
            len == s@.len(),
        decreases len - i,
    {
        i = i + 1;
    }
    i
}

/// Matches an absolute URI: an optional angle bracket, `http://`, a
/// dotted host whose last label is lowercase, then a path whose last `#`
/// or `/` splits the namespace from the final name. Returns the
/// namespace (with its trailing delimiter) and the name.
fn match_full_url(s: &str) -> (r: Option<(String, String)>)
{
    let len = s.unicode_len();
    let mut i: usize = 0;
    if len > 0 && s.get_char(0) == '<' {
        i = 1;
    }
    let start = i;
    // The scheme.
    if i + 7 > len {
        return None;
    }
    if !(s.get_char(i) == 'h' && s.get_char(i + 1) == 't' && s.get_char(i + 2) == 't' && s.get_char(
        i + 3,
    ) == 'p' && s.get_char(i + 4) == ':' && s.get_char(i + 5) == '/' && s.get_char(i + 6) == '/') {
        return None;
    }
    let host_start = i + 7;
    // The host runs to the first slash.
    let mut j: usize = host_start;
    while j < len && s.get_char(j) != '/'
        invariant
            host_start <= j <= len,
            len == s@.len(),
        decreases len - j,
    {
        j = j + 1;
    }
    if j >= len || j == host_start {
        return None;
    }
    // The host is dotted labels of identifier characters, each at least
    // two long, and a lowercase final label.
    let mut label_start: usize = host_start;
    let mut label_count: usize = 0;
    let mut m: usize = host_start;
    while m < j
        invariant
            host_start <= label_start <= m <= j <= len,
            len == s@.len(),
            label_count <= m,
        decreases j - m,
    {
        let c = s.get_char(m);
        if c == '.' {
            if m - label_start < 2 {
                return None;
            }
            label_start = m + 1;
            label_count = label_count + 1;
        } else if !is_word_char(c) {
            return None;
        }
        m = m + 1;
    }
    // The final label: lowercase letters, at least two.
    if label_count == 0 {
        return None;
    }
    if j - label_start < 2 {
        return None;
    }
    let mut t: usize = label_start;
    while t < j
        invariant
            label_start <= t <= j <= len,
            len == s@.len(),
        decreases j - t,
    {
        if !is_lower_char(s.get_char(t)) {
            return None;
        }
        t = t + 1;
    }
    // The path region after the host's slash: a run of identifier
    // characters and slashes.
    let region_start = j + 1;
    let mut run_end: usize = region_start;
    while run_end < len && (is_word_char(s.get_char(run_end)) || s.get_char(run_end) == '/')
        invariant
            region_start <= run_end <= len,
            len == s@.len(),
        decreases len - run_end,
    {
        run_end = run_end + 1;
    }
    // The delimiter closing the namespace: a `#` just past the run, or
    // the last slash within it that a name follows.
    let mut delim: usize = 0;
    let mut have_delim = false;
    if run_end < len && s.get_char(run_end) == '#' && run_end + 1 < len && is_word_char(
        s.get_char(run_end + 1),
    ) {
        delim = run_end;
        have_delim = true;
    } else {
        let mut p: usize = run_end;
        while p > region_start
            invariant
                region_start <= p <= run_end <= len,
                len == s@.len(),
                have_delim ==> region_start <= delim < run_end,
            decreases p,
        {
            if s.get_char(p - 1) == '/' && p < run_end && is_word_char(s.get_char(p)) {
                delim = p - 1;
                have_delim = true;
                break;
            }
            p = p - 1;
        }
    }
    if !have_delim {
        return None;
    }
    let name_end = word_run(s, delim + 1);
    if name_end == delim + 1 {
        return None;
    }
    let namespace = s.substring_char(start, delim + 1).to_owned();
    let name = s.substring_char(delim + 1, name_end).to_owned();
    Some((namespace, name))
}

/// Matches a relative URI: `<`, an optional `#`, a name of identifier
/// characters, `>`. Returns the name.
fn match_relative_url(s: &str) -> (r: Option<String>)
{
    let len = s.unicode_len();
    if len == 0 || s.get_char(0) != '<' {
        return None;
    }
    let mut i: usize = 1;
    if i < len && s.get_char(i) == '#' {
        i = i + 1;
    }
    if i > len {
        return None;
    }
    let name_end = word_run(s, i);
    if name_end == i {
        return None;
    }
    if name_end >= len || s.get_char(name_end) != '>' {
        return None;
    }
    Some(s.substring_char(i, name_end).to_owned())
}

/// Matches a prefixed name: a prefix of identifier characters, a colon,
/// and a name of identifier characters. Returns the prefix (with its
/// colon) and the name.
fn match_prefixed(s: &str) -> (r: Option<(String, String)>)
{
    let len = s.unicode_len();
    let prefix_end = word_run(s, 0);
    if prefix_end == 0 {
        return None;
    }
    if prefix_end >= len || s.get_char(prefix_end) != ':' {
        return None;
    }
    let name_end = word_run(s, prefix_end + 1);
    if name_end == prefix_end + 1 {
        return None;
    }
    let prefix = s.substring_char(0, prefix_end + 1).to_owned();
    let name = s.substring_char(prefix_end + 1, name_end).to_owned();
    Some((prefix, name))
}

/// Matches a name under the empty prefix: a colon and a name of
/// identifier characters. Returns the name.
fn match_empty_prefix(s: &str) -> (r: Option<String>)
{
    let len = s.unicode_len();
    if len == 0 || s.get_char(0) != ':' {
        return None;
    }
    let name_end = word_run(s, 1);
    if name_end == 1 {
        return None;
    }
    Some(s.substring_char(1, name_end).to_owned())
}

/// The parser for the text format.
pub struct TurtleParser;

impl TurtleParser {
    /// Splits the input into tokens. Quoted and block-quoted stretches and
    /// comments are respected; a carriage return before a newline is
    /// dropped first.
    pub fn tokenize(s: &str) -> (r: Vec<Token>)
    {
        let n = s.unicode_len();
        let mut chars: Vec<char> = Vec::new();
        let mut i: usize = 0;
        while i < n
            invariant
                0 <= i <= n,
                n == s@.len(),
            decreases n - i,
        {
            let c = s.get_char(i);
            if c == '\r' && i + 1 < n && s.get_char(i + 1) == '\n' {
                // the carriage return of a CRLF pair is dropped
            } else {
                chars.push(c);
            }
            i = i + 1;
        }
        let mut tokens: Vec<Token> = Vec::new();
        let mut current = String::new();
        let mut quoted = false;
        let mut sequential_quotes: usize = 0;
        let mut block_quoted = false;
        let mut commented = false;
        let mut k: usize = 0;
        while k < chars.len()
            invariant
                sequential_quotes <= 2,
            decreases chars@.len() - k,
        {
            let c = chars[k];
            let ignored = quoted || block_quoted || commented;
            if (is_ws(c) || c == ',') && !ignored {
                if !current.as_str().is_empty() {
                    if current == String::from_str("@prefix") || current == String::from_str(
                        "PREFIX",
                    ) {
                        tokens.push(Token::Keyword(Keyword::Prefix));
                    } else if current == String::from_str("@base") || current == String::from_str(
                        "BASE",
                    ) {
                        tokens.push(Token::Keyword(Keyword::Base));
                    } else {
                        tokens.push(Token::Word(current));
                    }
                    current = String::new();
                }
                if c == ',' {
                    tokens.push(Token::ObjectSep);
                } else {
                    tokens.push(Token::Whitespace);
                }
                sequential_quotes = 0;
            } else if c == '.' && current.as_str().is_empty() && !ignored {
                tokens.push(Token::TripleSep);
                sequential_quotes = 0;
            } else if c == ';' && current.as_str().is_empty() && !ignored {
                tokens.push(Token::PredicateSep);
                sequential_quotes = 0;
            } else if c == '[' && current.as_str().is_empty() && !ignored {
                tokens.push(Token::PropertyListOpen);
                sequential_quotes = 0;
            } else if c == ']' && current.as_str().is_empty() && !ignored {
                tokens.push(Token::PropertyListClose);
                sequential_quotes = 0;
            } else if c == '(' && current.as_str().is_empty() && !ignored {
                tokens.push(Token::CollectionOpen);
                sequential_quotes = 0;
            } else if c == ')' && current.as_str().is_empty() && !ignored {
                tokens.push(Token::CollectionClose);
                sequential_quotes = 0;
            } else if c == '#' && current.as_str().is_empty() && !ignored {
                commented = true;
            } else if c == '\n' && ignored {
                commented = false;
            } else if !commented {
                if c == '"' {
                    quoted = !quoted;
                    sequential_quotes = sequential_quotes + 1;
                    if sequential_quotes == 3 {
                        block_quoted = !block_quoted;
                        sequential_quotes = 0;
                        quoted = false;
                    }
                }
                push_char(&mut current, c);
            }
            k = k + 1;
        }
        tokens
    }

    /// Parses an identifier from a string, trying the absolute, relative,
    /// prefixed and empty-prefix forms in that order; `a` abbreviates the
    /// typing predicate.
    pub fn uri(u: &str) -> (r: Result<Uri, ParserError>)
    {
        let u = trim_text(u);
        if let Some((namespace, name)) = match_full_url(u) {
            Ok(Uri { prefix: namespace, name, uri_type: UriType::Full })
        } else if let Some(name) = match_relative_url(u) {
            Ok(Uri { prefix: String::new(), name, uri_type: UriType::Relative })
        } else if let Some((prefix, name)) = match_prefixed(u) {
            Ok(Uri { prefix, name, uri_type: UriType::Prefixed })
        } else if let Some(name) = match_empty_prefix(u) {
            Ok(Uri { prefix: String::new(), name, uri_type: UriType::PrefixedWithBase })
        } else if u.to_owned() == String::from_str("a") {
            Ok(
                Uri {
                    prefix: String::from_str("http://www.w3.org/1999/02/22-rdf-syntax-ns/"),
                    name: String::from_str("type"),
                    uri_type: UriType::Full,
                },
            )
        } else {
            Err(ParserError(String::from_str("Invalid URI: ").concat(u)))
        }
    }

    /// Parses a subject from a string: an identifier in subject position.
    pub fn resource(r: &str) -> (res: Result<Resource, ParserError>)
    {
        match Self::uri(r) {
            Ok(u) => Ok(Resource(u)),
            Err(e) => Err(e),
        }
    }

    /// Parses a predicate from a string: an identifier in predicate
    /// position.
    pub fn relationship(r: &str) -> (res: Result<Relationship, ParserError>)
    {
        match Self::uri(r) {
            Ok(u) => Ok(Relationship(u)),
            Err(e) => Err(e),
        }
    }

    /// Parses an object from a string: a literal with an explicit
    /// datatype, a language-tagged literal, a resource identifier, a
    /// boolean literal, or a plain string literal, tried in that order.
    pub fn object(o: &str) -> (r: Result<Object, ParserError>)
    {
        let len = o.unicode_len();
        // A literal with an explicit datatype: the last `^^` with text on
        // both sides.
        let mut caret: usize = 0;
        let mut have_caret = false;
        if len >= 4 {
            let mut k: usize = len - 3;
            while k >= 1
                invariant
                    0 <= k <= len - 3,
                    len == o@.len(),
                    len >= 4,
                    have_caret ==> 1 <= caret <= len - 3,
                decreases k,
            {
                if !have_caret && o.get_char(k) == '^' && o.get_char(k + 1) == '^' {
                    caret = k;
                    have_caret = true;
                }
                k = k - 1;
            }
        }
        if have_caret {
            let value = o.substring_char(0, caret).to_owned();
            let datatype = match Self::uri(o.substring_char(caret + 2, len)) {
                Ok(u) => u,
                Err(e) => {
                    return Err(e);
                },
            };
            return Ok(Object::Literal(Literal { value, datatype, language: None }));
        }
        // A language-tagged literal: a final `@` with two to five
        // characters after it.
        let mut at: usize = 0;
        let mut have_at = false;
        if len >= 3 {
            let mut k: usize = len - 2;
            while k >= 1
                invariant
                    0 <= k <= len - 2,
                    len == o@.len(),
                    len >= 3,
                    have_at ==> 1 <= at <= len - 3,
                decreases k,
            {
                if !have_at && o.get_char(k) == '@' && len - k - 1 >= 2 && len - k - 1 <= 5 {
                    at = k;
                    have_at = true;
                }
                k = k - 1;
            }
        }
        if have_at {
            let value = o.substring_char(0, at).to_owned();
            let language = o.substring_char(at + 1, len).to_owned();
            let datatype = match Self::uri("xsd:string") {
                Ok(u) => u,
                Err(e) => {
                    return Err(e);
                },
            };
            return Ok(Object::Literal(Literal { value, datatype, language: Some(language) }));
        }
        // A resource identifier.
        if let Ok(u) = Self::uri(o) {
            return Ok(Object::Resource(u));
        }
        // A boolean literal.
        if o.to_owned() == String::from_str("true") || o.to_owned() == String::from_str("false") {
            let datatype = match Self::uri("xsd:boolean") {
                Ok(u) => u,
                Err(e) => {
                    return Err(e);
                },
            };
            return Ok(Object::Literal(Literal { value: o.to_owned(), datatype, language: None }));
        }
        // Anything else is a plain string literal.
        let datatype = match Self::uri("xsd:string") {
            Ok(u) => u,
            Err(e) => {
                return Err(e);
            },
        };
        Ok(Object::Literal(Literal { value: o.to_owned(), datatype, language: None }))
    }
}

/// How many tokens of a list satisfy a predicate.
pub open spec fn count_if(s: Seq<Token>, p: spec_fn(Token) -> bool) -> int
    decreases s.len(),
{
    if s.len() == 0 {
        0
    } else {
        count_if(s.drop_last(), p) + if p(s.last()) {
            1int
        } else {
            0int
        }
    }
}

/// How many property-list openers a token list holds.
pub open spec fn count_popens(s: Seq<Token>) -> int {
    count_if(s, |t: Token| t is PropertyListOpen)
}

/// How many collection openers a token list holds.
pub open spec fn count_copens(s: Seq<Token>) -> int {
    count_if(s, |t: Token| t is CollectionOpen)
}

/// A count is never negative.
pub proof fn lemma_count_nonneg(s: Seq<Token>, p: spec_fn(Token) -> bool)
    ensures
        count_if(s, p) >= 0,
    decreases s.len(),
{
    if s.len() > 0 {
        lemma_count_nonneg(s.drop_last(), p);
    }
}

/// A count splits at any point.
pub proof fn lemma_count_split(s: Seq<Token>, p: spec_fn(Token) -> bool, m: int)
    requires
        0 <= m <= s.len(),
    ensures
        count_if(s, p) == count_if(s.take(m), p) + count_if(s.skip(m), p),
    decreases s.len(),
{
    if m == s.len() {
        assert(s.take(m) =~= s);
        assert(s.skip(m) =~= Seq::<Token>::empty());
    } else {
        let dl = s.drop_last();
        lemma_count_split(dl, p, m);
        assert(dl.take(m) =~= s.take(m));
        assert(s.skip(m).drop_last() =~= dl.skip(m));
        assert(s.skip(m).last() == s.last());
    }
}

/// A token list without matches counts zero; one with a match counts at
/// least one.
pub proof fn lemma_count_at(s: Seq<Token>, p: spec_fn(Token) -> bool, i: int)
    requires
        0 <= i < s.len(),
        p(s[i]),
    ensures
        count_if(s, p) >= 1,
    decreases s.len(),
{
    if i == s.len() - 1 {
        lemma_count_nonneg(s.drop_last(), p);
    } else {
        lemma_count_at(s.drop_last(), p, i);
    }
}

/// A token list none of whose tokens match counts zero.
pub proof fn lemma_count_zero(s: Seq<Token>, p: spec_fn(Token) -> bool)
    requires
        forall|i: int| 0 <= i < s.len() ==> !p(s[i]),
    ensures
        count_if(s, p) == 0,
    decreases s.len(),
{
    if s.len() > 0 {
        lemma_count_zero(s.drop_last(), p);
    }
}

/// Copies the token range `[from, to)`.
fn subtokens(v: &Vec<Token>, from: usize, to: usize) -> (r: Vec<Token>)
    requires
        from <= to <= v@.len(),
    ensures
        r@ == v@.subrange(from as int, to as int),
{
    let mut out: Vec<Token> = Vec::new();
    let mut i: usize = from;
    proof {
        assert(v@.subrange(from as int, from as int) =~= Seq::<Token>::empty());
    }
    while i < to
        invariant
            from <= i <= to <= v@.len(),
            out@ == v@.subrange(from as int, i as int),
        decreases to - i,
    {
        out.push(v[i].clone());
        proof {
            assert(v@.subrange(from as int, i + 1) =~= v@.subrange(from as int, i as int).push(
                v@[i as int],
            ));
        }
        i = i + 1;
    }
    out
}

/// Appends a copy of the token range `[from, to)` to `out`.
fn push_range(out: &mut Vec<Token>, v: &Vec<Token>, from: usize, to: usize)
    requires
        from <= to <= v@.len(),
    ensures
        final(out)@ == old(out)@ + v@.subrange(from as int, to as int),
{
    let mut piece = subtokens(v, from, to);
    let ghost before = out@;
    let ghost piece_view = piece@;
    out.append(&mut piece);
    proof {
        assert(out@ == before + piece_view);
    }
}

/// The decimal digits of a number, as the blank-node labels are written.
fn format_number(n: usize) -> (r: String)
    decreases n,
{
    let digit = match n % 10 {
        0 => '0',
        1 => '1',
        2 => '2',
        3 => '3',
        4 => '4',
        5 => '5',
        6 => '6',
        7 => '7',
        8 => '8',
        _ => '9',
    };
    let mut s = if n >= 10 {
        format_number(n / 10)
    } else {
        String::new()
    };
    push_char(&mut s, digit);
    s
}

/// The label of the `n`-th blank node that parsing synthesizes.
fn blank_label(n: usize) -> (r: String)
{
    String::from_str("_:blank").concat(format_number(n).as_str())
}

/// A count splits over a concatenation.
pub proof fn lemma_count_concat(a: Seq<Token>, b: Seq<Token>, p: spec_fn(Token) -> bool)
    ensures
        count_if(a + b, p) == count_if(a, p) + count_if(b, p),
{
    lemma_count_split(a + b, p, a.len() as int);
    assert((a + b).take(a.len() as int) =~= a);
    assert((a + b).skip(a.len() as int) =~= b);
}

impl TurtleParser {
    /// Expands the inside of a collection into the equivalent nested blank
    /// property lists. Every member must be a plain word.
    fn expand_collection_tokens_naive(tokens: Vec<Token>) -> (r: Result<Vec<Token>, ParserError>)
        ensures
            r matches Ok(v) ==> count_copens(v@) == 0,
    {
        let mut tokens = tokens;
        let last: String = match tokens.pop() {
            Some(Token::Word(w)) => w,
            Some(_) => {
                return Err(
                    ParserError(String::from_str("Collections can only contain Words")),
                );
            },
            None => {
                return Err(ParserError(String::from_str("Collections cannot be empty")));
            },
        };
        let mut expanded: Vec<Token> = Vec::new();
        expanded.push(Token::PropertyListOpen);
        let mut i: usize = 0;
        while i < tokens.len()
            invariant
                forall|m: int|
                    0 <= m < expanded@.len() ==> !((#[trigger] expanded@[m]) is CollectionOpen),
            decreases tokens@.len() - i,
        {
            match &tokens[i] {
                Token::Word(w) => {
                    expanded.push(Token::Word(String::from_str("rdf:first")));
                    expanded.push(Token::Word(w.clone()));
                    expanded.push(Token::PredicateSep);
                    expanded.push(Token::Word(String::from_str("rdf:rest")));
                    expanded.push(Token::PropertyListOpen);
                },
                _ => {
                    return Err(
                        ParserError(String::from_str("Collections can only contain Words")),
                    );
                },
            }
            i = i + 1;
        }
        expanded.push(Token::Word(String::from_str("rdf:first")));
        expanded.push(Token::Word(last));
        expanded.push(Token::PredicateSep);
        expanded.push(Token::Word(String::from_str("rdf:rest")));
        expanded.push(Token::Word(String::from_str("rdf:nil")));
        expanded.push(Token::PropertyListClose);
        expanded.push(Token::PropertyListClose);
        proof {
            lemma_count_zero(expanded@, |t: Token| t is CollectionOpen);
        }
        Ok(expanded)
    }

    /// Rewrites every collection in the token list into blank property
    /// lists, innermost first as each splice re-scans from the start.
    fn expand_all_collections(tokens: Vec<Token>) -> (r: Result<Vec<Token>, ParserError>)
        ensures
            r matches Ok(v) ==> count_copens(v@) == 0,
    {
        let ghost cp = |t: Token| t is CollectionOpen;
        let mut tokens = tokens;
        proof {
            lemma_count_nonneg(tokens@, cp);
        }
        loop
            invariant
                count_if(tokens@, cp) >= 0,
                cp == (|t: Token| t is CollectionOpen),
            decreases count_if(tokens@, cp),
        {
            let len = tokens.len();
            // The first collection opener, if any.
            let mut open_at: usize = 0;
            let mut have_open = false;
            let mut i: usize = 0;
            while i < len
                invariant
                    0 <= i <= len,
                    len == tokens@.len(),
                    !have_open ==> forall|m: int|
                        0 <= m < i ==> !((#[trigger] tokens@[m]) is CollectionOpen),
                    have_open ==> open_at < len && tokens@[open_at as int] is CollectionOpen,
                decreases len - i,
            {
                match &tokens[i] {
                    Token::CollectionOpen => {
                        if !have_open {
                            open_at = i;
                            have_open = true;
                        }
                    },
                    _ => {},
                }
                i = i + 1;
            }
            if !have_open {
                proof {
                    lemma_count_zero(tokens@, cp);
                }
                return Ok(tokens);
            }
            // The position where the nesting returns to level zero after
            // the first opener.
            let mut depth: i128 = 0;
            let mut opened = false;
            let mut close_at: usize = 0;
            let mut have_close = false;
            let mut j: usize = 0;
            while j < len
                invariant
                    0 <= j <= len,
                    len == tokens@.len(),
                    -(j as int) <= depth <= j as int,
                    have_close ==> close_at < len,
                decreases len - j,
            {
                match &tokens[j] {
                    Token::CollectionOpen => {
                        opened = true;
                        depth = depth + 1;
                    },
                    Token::CollectionClose => {
                        depth = depth - 1;
                    },
                    _ => {},
                }
                if !have_close && depth == 0 && opened {
                    close_at = j;
                    have_close = true;
                }
                j = j + 1;
            }
            if !have_close {
                return Err(ParserError(String::from_str("Collection is not closed")));
            }
            if close_at <= open_at {
                return Err(ParserError(String::from_str("Collection is not closed")));
            }
            let collection_tokens = subtokens(&tokens, open_at + 1, close_at);
            let expanded = match Self::expand_collection_tokens_naive(collection_tokens) {
                Ok(v) => v,
                Err(e) => {
                    return Err(e);
                },
            };
            let mut new_tokens = subtokens(&tokens, 0, open_at);
            let ghost head = new_tokens@;
            let ghost expanded_view = expanded@;
            let mut expanded = expanded;
            new_tokens.append(&mut expanded);
            push_range(&mut new_tokens, &tokens, close_at + 1, len);
            proof {
                let whole = tokens@;
                lemma_count_split(whole, cp, open_at as int);
                lemma_count_split(whole.skip(open_at as int), cp, close_at + 1 - open_at);
                assert(whole.skip(open_at as int).take(close_at + 1 - open_at) =~= whole.subrange(
                    open_at as int,
                    close_at + 1,
                ));
                assert(whole.skip(open_at as int).skip(close_at + 1 - open_at) =~= whole.subrange(
                    close_at + 1,
                    len as int,
                ));
                lemma_count_at(
                    whole.subrange(open_at as int, close_at + 1),
                    cp,
                    0,
                );
                lemma_count_concat(head + expanded_view, whole.subrange(close_at + 1, len as int), cp);
                lemma_count_concat(head, expanded_view, cp);
                assert(new_tokens@ == (head + expanded_view) + whole.subrange(
                    close_at + 1,
                    len as int,
                ));
                assert(head =~= whole.take(open_at as int));
                lemma_count_nonneg(new_tokens@, cp);
                lemma_count_nonneg(whole.take(open_at as int), cp);
                lemma_count_nonneg(whole.subrange(close_at + 1, len as int), cp);
            }
            tokens = new_tokens;
        }
    }

    /// Parses one statement's tokens into facts, desugaring blank
    /// property lists: a bracketed group becomes a synthesized blank-node
    /// subject whose inner facts come first; predicate lists (`;`) and
    /// object lists (`,`) continue the surrounding statement.
    fn parse_triple_recursive(
        tokens: Vec<Token>,
        triples: Vec<Triple>,
        blank_node_num: &mut usize,
    ) -> (r: Result<Vec<Triple>, ParserError>)
        decreases 2 * count_popens(tokens@) + tokens@.len(),
    {
        proof {
            lemma_count_nonneg(tokens@, |t: Token| t is PropertyListOpen);
        }
        let mut triples = triples;
        let len = tokens.len();
        if len == 0 {
            return Err(ParserError(String::from_str("A statement cannot be empty")));
        }
        match &tokens[0] {
            Token::Word(subject_word) => {
                if len < 2 {
                    return Err(
                        ParserError(String::from_str("Predicate must be a valid URI")),
                    );
                }
                match &tokens[1] {
                    Token::Word(predicate_word) => {
                        if len < 3 {
                            return Err(
                                ParserError(
                                    String::from_str(
                                        "Object must be a resource, literal, or a property list",
                                    ),
                                ),
                            );
                        }
                        match &tokens[2] {
                            Token::Word(object_word) => {
                                let subject = match Self::resource(subject_word.as_str()) {
                                    Ok(s) => s,
                                    Err(e) => {
                                        return Err(e);
                                    },
                                };
                                let predicate = match Self::relationship(predicate_word.as_str()) {
                                    Ok(p) => p,
                                    Err(e) => {
                                        return Err(e);
                                    },
                                };
                                let object = match Self::object(object_word.as_str()) {
                                    Ok(o) => o,
                                    Err(e) => {
                                        return Err(e);
                                    },
                                };
                                triples.push((subject, predicate, object).into());
                                if len < 4 {
                                    return Err(
                                        ParserError(
                                            String::from_str(
                                                "Triple must end with ' .' or continue with ',' or ' ;'",
                                            ),
                                        ),
                                    );
                                }
                                match &tokens[3] {
                                    Token::TripleSep => Ok(triples),
                                    Token::PredicateSep => {
                                        // Drop the parsed predicate and
                                        // object, keep the subject.
                                        let mut rest = subtokens(&tokens, 0, 1);
                                        push_range(&mut rest, &tokens, 4, len);
                                        proof {
                                            let p = |t: Token| t is PropertyListOpen;
                                            lemma_count_concat(
                                                tokens@.subrange(0, 1),
                                                tokens@.subrange(4, len as int),
                                                p,
                                            );
                                            lemma_count_split(tokens@, p, 4);
                                            assert(tokens@.skip(4) =~= tokens@.subrange(
                                                4,
                                                len as int,
                                            ));
                                            lemma_count_split(tokens@.take(4), p, 1);
                                            assert(tokens@.take(4).take(1) =~= tokens@.subrange(
                                                0,
                                                1,
                                            ));
                                            lemma_count_nonneg(tokens@.take(4).skip(1), p);
                                            lemma_count_nonneg(rest@, p);
                                        }
                                        Self::parse_triple_recursive(rest, triples, blank_node_num)
                                    },
                                    Token::ObjectSep => {
                                        // Drop the parsed object, keep
                                        // subject and predicate.
                                        let mut rest = subtokens(&tokens, 0, 2);
                                        push_range(&mut rest, &tokens, 4, len);
                                        proof {
                                            let p = |t: Token| t is PropertyListOpen;
                                            lemma_count_concat(
                                                tokens@.subrange(0, 2),
                                                tokens@.subrange(4, len as int),
                                                p,
                                            );
                                            lemma_count_split(tokens@, p, 4);
                                            assert(tokens@.skip(4) =~= tokens@.subrange(
                                                4,
                                                len as int,
                                            ));
                                            lemma_count_split(tokens@.take(4), p, 2);
                                            assert(tokens@.take(4).take(2) =~= tokens@.subrange(
                                                0,
                                                2,
                                            ));
                                            lemma_count_nonneg(tokens@.take(4).skip(2), p);
                                            lemma_count_nonneg(rest@, p);
                                        }
                                        Self::parse_triple_recursive(rest, triples, blank_node_num)
                                    },
                                    _ => Err(
                                        ParserError(
                                            String::from_str(
                                                "Triple must end with ' .' or continue with ',' or ' ;'",
                                            ),
                                        ),
                                    ),
                                }
                            },
                            Token::PropertyListOpen => {
                                // A blank property list in object
                                // position: number it, parse its inside
                                // first, then continue with its label as
                                // the object.
                                if *blank_node_num == usize::MAX {
                                    return Err(
                                        ParserError(String::from_str("Too many blank nodes")),
                                    );
                                }
                                *blank_node_num = *blank_node_num + 1;
                                let label = blank_label(*blank_node_num);
                                // Where the bracket nesting, counted from
                                // the object onward, returns to level
                                // zero past its start.
                                let mut depth: i128 = 0;
                                let mut split_at: usize = 0;
                                let mut have_split = false;
                                let mut mr: usize = 2;
                                while mr < len
                                    invariant
                                        2 <= mr <= len,
                                        len == tokens@.len(),
                                        -(mr as int) <= depth <= mr as int,
                                        have_split ==> 2 < split_at < len,
                                    decreases len - mr,
                                {
                                    match &tokens[mr] {
                                        Token::PropertyListOpen => {
                                            depth = depth + 1;
                                        },
                                        Token::PropertyListClose => {
                                            depth = depth - 1;
                                        },
                                        _ => {},
                                    }
                                    if !have_split && depth == 0 && mr - 2 + 1 > 2 {
                                        split_at = mr;
                                        have_split = true;
                                    }
                                    mr = mr + 1;
                                }
                                if !have_split {
                                    return Err(
                                        ParserError(
                                            String::from_str("Property list is not closed"),
                                        ),
                                    );
                                }
                                let mut inner: Vec<Token> = Vec::new();
                                inner.push(Token::Word(label.clone()));
                                push_range(&mut inner, &tokens, 3, split_at);
                                inner.push(Token::TripleSep);
                                proof {
                                    let p = |t: Token| t is PropertyListOpen;
                                    assert(inner@ =~= seq![Token::Word(label)] + tokens@.subrange(
                                        3,
                                        split_at as int,
                                    ) + seq![Token::TripleSep]);
                                    lemma_count_concat(
                                        seq![Token::Word(label)] + tokens@.subrange(
                                            3,
                                            split_at as int,
                                        ),
                                        seq![Token::TripleSep],
                                        p,
                                    );
                                    lemma_count_concat(
                                        seq![Token::Word(label)],
                                        tokens@.subrange(3, split_at as int),
                                        p,
                                    );
                                    reveal_with_fuel(count_if, 2);
                                    // The whole splits around the bracket
                                    // at 2 and the split element.
                                    lemma_count_split(tokens@, p, 3);
                                    lemma_count_split(tokens@.take(3), p, 2);
                                    lemma_count_split(tokens@.skip(3), p, split_at - 3);
                                    lemma_count_split(
                                        tokens@.skip(3).skip(split_at - 3),
                                        p,
                                        1,
                                    );
                                    assert(tokens@.take(3).take(2) =~= tokens@.subrange(0, 2));
                                    assert(tokens@.take(3).skip(2) =~= seq![tokens@[2]]);
                                    assert(tokens@.skip(3).take(split_at - 3) =~= tokens@.subrange(
                                        3,
                                        split_at as int,
                                    ));
                                    assert(tokens@.skip(3).skip(split_at - 3).take(1)
                                        =~= seq![tokens@[split_at as int]]);
                                    assert(tokens@.skip(3).skip(split_at - 3).skip(1)
                                        =~= tokens@.subrange(split_at + 1, len as int));
                                    lemma_count_nonneg(tokens@.subrange(0, 2), p);
                                    lemma_count_nonneg(
                                        tokens@.subrange(split_at + 1, len as int),
                                        p,
                                    );
                                    lemma_count_nonneg(seq![tokens@[split_at as int]], p);
                                    lemma_count_nonneg(tokens@.subrange(3, split_at as int), p);
                                    lemma_count_nonneg(inner@, p);
                                }
                                let inner_triples = match Self::parse_triple_recursive(
                                    inner,
                                    clone_triples(&triples),
                                    blank_node_num,
                                ) {
                                    Ok(ts) => ts,
                                    Err(e) => {
                                        return Err(e);
                                    },
                                };
                                let mut rest = subtokens(&tokens, 0, 2);
                                rest.push(Token::Word(label));
                                push_range(&mut rest, &tokens, split_at + 1, len);
                                proof {
                                    let p = |t: Token| t is PropertyListOpen;
                                    assert(rest@ =~= (tokens@.subrange(0, 2) + seq![rest@[2]])
                                        + tokens@.subrange(split_at + 1, len as int));
                                    lemma_count_concat(
                                        tokens@.subrange(0, 2) + seq![rest@[2]],
                                        tokens@.subrange(split_at + 1, len as int),
                                        p,
                                    );
                                    lemma_count_concat(
                                        tokens@.subrange(0, 2),
                                        seq![rest@[2]],
                                        p,
                                    );
                                    lemma_count_nonneg(rest@, p);
                                }
                                Self::parse_triple_recursive(rest, inner_triples, blank_node_num)
                            },
                            _ => Err(
                                ParserError(
                                    String::from_str(
                                        "Object must be a resource, literal, or a property list",
                                    ),
                                ),
                            ),
                        }
                    },
                    _ => Err(ParserError(String::from_str("Predicate must be a valid URI"))),
                }
            },
            Token::PropertyListOpen => {
                // A blank property list in subject position.
                if *blank_node_num == usize::MAX {
                    return Err(ParserError(String::from_str("Too many blank nodes")));
                }
                *blank_node_num = *blank_node_num + 1;
                let label = blank_label(*blank_node_num);
                let mut depth: i128 = 0;
                let mut split_at: usize = 0;
                let mut have_split = false;
                let mut mr: usize = 0;
                while mr < len
                    invariant
                        0 <= mr <= len,
                        len == tokens@.len(),
                        -(mr as int) <= depth <= mr as int,
                        have_split ==> 0 < split_at < len,
                    decreases len - mr,
                {
                    match &tokens[mr] {
                        Token::PropertyListOpen => {
                            depth = depth + 1;
                        },
                        Token::PropertyListClose => {
                            depth = depth - 1;
                        },
                        _ => {},
                    }
                    if !have_split && depth == 0 && mr > 0 {
                        split_at = mr;
                        have_split = true;
                    }
                    mr = mr + 1;
                }
                if !have_split {
                    return Err(ParserError(String::from_str("Property list is not closed")));
                }
                let mut inner: Vec<Token> = Vec::new();
                inner.push(Token::Word(label));
                push_range(&mut inner, &tokens, 1, split_at);
                inner.push(Token::TripleSep);
                proof {
                    let p = |t: Token| t is PropertyListOpen;
                    assert(inner@ =~= seq![inner@[0]] + tokens@.subrange(1, split_at as int)
                        + seq![Token::TripleSep]);
                    lemma_count_concat(
                        seq![inner@[0]] + tokens@.subrange(1, split_at as int),
                        seq![Token::TripleSep],
                        p,
                    );
                    lemma_count_concat(seq![inner@[0]], tokens@.subrange(1, split_at as int), p);
                    reveal_with_fuel(count_if, 2);
                    lemma_count_split(tokens@, p, 1);
                    lemma_count_split(tokens@.skip(1), p, split_at - 1);
                    assert(tokens@.take(1) =~= seq![tokens@[0]]);
                    assert(tokens@.skip(1).take(split_at - 1) =~= tokens@.subrange(
                        1,
                        split_at as int,
                    ));
                    assert(tokens@.skip(1).skip(split_at - 1) =~= tokens@.subrange(
                        split_at as int,
                        len as int,
                    ));
                    lemma_count_nonneg(tokens@.subrange(split_at as int, len as int), p);
                    lemma_count_nonneg(tokens@.subrange(1, split_at as int), p);
                    lemma_count_nonneg(inner@, p);
                }
                let inner_triples = match Self::parse_triple_recursive(
                    inner,
                    clone_triples(&triples),
                    blank_node_num,
                ) {
                    Ok(ts) => ts,
                    Err(e) => {
                        return Err(e);
                    },
                };
                if inner_triples.len() == 0 {
                    return Err(
                        ParserError(String::from_str("Property list holds no statement")),
                    );
                }
                let first_subject = inner_triples[0].subject.to_text();
                let mut rest: Vec<Token> = Vec::new();
                rest.push(Token::Word(first_subject));
                push_range(&mut rest, &tokens, split_at + 1, len);
                proof {
                    let p = |t: Token| t is PropertyListOpen;
                    assert(rest@ =~= seq![rest@[0]] + tokens@.subrange(split_at + 1, len as int));
                    lemma_count_concat(
                        seq![rest@[0]],
                        tokens@.subrange(split_at + 1, len as int),
                        p,
                    );
                    reveal_with_fuel(count_if, 2);
                    lemma_count_split(tokens@, p, 1);
                    lemma_count_split(tokens@.skip(1), p, split_at - 1);
                    lemma_count_split(tokens@.skip(1).skip(split_at - 1), p, 1);
                    assert(tokens@.take(1) =~= seq![tokens@[0]]);
                    assert(tokens@.skip(1).skip(split_at - 1).take(1)
                        =~= seq![tokens@[split_at as int]]);
                    assert(tokens@.skip(1).skip(split_at - 1).skip(1) =~= tokens@.subrange(
                        split_at + 1,
                        len as int,
                    ));
                    lemma_count_nonneg(tokens@.skip(1).take(split_at - 1), p);
                    lemma_count_nonneg(seq![tokens@[split_at as int]], p);
                    lemma_count_nonneg(tokens@.subrange(split_at + 1, len as int), p);
                    lemma_count_nonneg(rest@, p);
                }
                Self::parse_triple_recursive(rest, inner_triples, blank_node_num)
            },
            _ => Err(
                ParserError(
                    String::from_str("Subject must be a valid URI or a blank property list"),
                ),
            ),
        }
    }

    /// Parses one statement's text into facts: tokenizes it, drops the
    /// whitespace tokens, desugars collections, and parses the rest.
    pub fn triple(t: &str) -> (r: Result<Vec<Triple>, ParserError>)
    {
        let raw = Self::tokenize(t);
        let mut tokens: Vec<Token> = Vec::new();
        let mut i: usize = 0;
        while i < raw.len()
            decreases raw@.len() - i,
        {
            match &raw[i] {
                Token::Whitespace => {},
                t => {
                    tokens.push(t.clone());
                },
            }
            i = i + 1;
        }
        let tokens = match Self::expand_all_collections(tokens) {
            Ok(v) => v,
            Err(e) => {
                return Err(e);
            },
        };
        let mut blank_node_num: usize = 0;
        Self::parse_triple_recursive(tokens, Vec::new(), &mut blank_node_num)
    }

    /// Parses a whole document into a graph: the base directive, the
    /// prefix directives on top of the standard `rdf:` and `xsd:`
    /// entries, and every statement's facts in order.
    pub fn graph(g: &str) -> (r: Result<Graph, ParserError>)
    {
        let tokens = Self::tokenize(g);
        // Group the non-whitespace tokens by statement terminator for the
        // directives.
        let mut filtered: Vec<Token> = Vec::new();
        let mut i: usize = 0;
        while i < tokens.len()
            decreases tokens@.len() - i,
        {
            match &tokens[i] {
                Token::Whitespace => {},
                t => {
                    filtered.push(t.clone());
                },
            }
            i = i + 1;
        }
        let groups = split_statements(&filtered);
        let mut base_prefix: Option<String> = None;
        let mut k: usize = 0;
        while k < groups.len()
            decreases groups@.len() - k,
        {
            let group = &groups[k];
            if group.len() >= 3 {
                let is_base = match &group[0] {
                    Token::Keyword(Keyword::Base) => true,
                    _ => false,
                };
                let ends = match &group[2] {
                    Token::TripleSep => true,
                    _ => false,
                };
                if is_base && ends {
                    match &group[1] {
                        Token::Word(w) => {
                            base_prefix = Some(strip_angles(w.as_str()));
                        },
                        _ => {},
                    }
                }
            }
            k = k + 1;
        }
        // The prefix table, pre-seeded with the standard namespaces.
        let mut prefixes: Vec<(String, String)> = Vec::new();
        table_insert(
            &mut prefixes,
            String::from_str("rdf:"),
            String::from_str("http://www.w3.org/1999/02/22-rdf-syntax-ns#"),
        );
        table_insert(
            &mut prefixes,
            String::from_str("xsd:"),
            String::from_str("http://www.w3.org/2001/XMLSchema#"),
        );
        let mut k2: usize = 0;
        while k2 < groups.len()
            decreases groups@.len() - k2,
        {
            let group = &groups[k2];
            if group.len() >= 4 {
                let is_prefix = match &group[0] {
                    Token::Keyword(Keyword::Prefix) => true,
                    _ => false,
                };
                let ends = match &group[3] {
                    Token::TripleSep => true,
                    _ => false,
                };
                if is_prefix && ends {
                    match (&group[1], &group[2]) {
                        (Token::Word(p), Token::Word(e)) => {
                            table_insert(&mut prefixes, p.clone(), strip_angles(e.as_str()));
                        },
                        _ => {},
                    }
                }
            }
            k2 = k2 + 1;
        }
        // Re-serialize each statement's tokens and parse them, skipping
        // the directives.
        let full_groups = split_statements(&tokens);
        let mut triples: Vec<Triple> = Vec::new();
        let mut k3: usize = 0;
        while k3 < full_groups.len()
            decreases full_groups@.len() - k3,
        {
            let text = Token::vec_to_string(full_groups[k3].clone());
            let skip = text.as_str().is_empty() || starts_with_text(text.as_str(), "@base")
                || starts_with_text(text.as_str(), "@prefix");
            if !skip {
                let mut parsed = match Self::triple(trim_text(text.as_str())) {
                    Ok(ts) => ts,
                    Err(e) => {
                        return Err(e);
                    },
                };
                triples.append(&mut parsed);
            }
            k3 = k3 + 1;
        }
        Ok(Graph { base_prefix, prefixes, triples })
    }
}

/// Splits a token list into statement groups, each ending with its
/// terminator; a trailing group without one is kept as well.
fn split_statements(tokens: &Vec<Token>) -> (r: Vec<Vec<Token>>)
{
    let mut groups: Vec<Vec<Token>> = Vec::new();
    let mut current: Vec<Token> = Vec::new();
    let mut i: usize = 0;
    while i < tokens.len()
        decreases tokens@.len() - i,
    {
        let is_sep = match &tokens[i] {
            Token::TripleSep => true,
            _ => false,
        };
        current.push(tokens[i].clone());
        if is_sep {
            groups.push(current);
            current = Vec::new();
        }
        i = i + 1;
    }
    if current.len() > 0 {
        groups.push(current);
    }
    groups
}

/// Removes every angle bracket from a namespace token.
fn strip_angles(s: &str) -> (r: String)
{
    let len = s.unicode_len();
    let mut out = String::new();
    let mut i: usize = 0;
    while i < len
        invariant
            0 <= i <= len,
            len == s@.len(),
        decreases len - i,
    {
        let c = s.get_char(i);
        if c != '<' && c != '>' {
            push_char(&mut out, c);
        }
        i = i + 1;
    }
    out
}

/// Sets a key's expansion in a prefix table: an existing entry keeps its
/// position and takes the new expansion; a new key goes at the end. Keys
/// stay unique.
fn table_insert(table: &mut Vec<(String, String)>, key: String, value: String)
{
    let mut i: usize = 0;
    let len = table.len();
    while i < len
        invariant
            0 <= i <= len,
            len == table@.len(),
        decreases len - i,
    {
        if table[i].0 == key {
            let mut rebuilt: Vec<(String, String)> = Vec::new();
            let mut m: usize = 0;
            while m < table.len()
                decreases table@.len() - m,
            {
                if m == i {
                    rebuilt.push((key.clone(), value.clone()));
                } else {
                    rebuilt.push((table[m].0.clone(), table[m].1.clone()));
                }
                m = m + 1;
            }
            *table = rebuilt;
            return ;
        }
        i = i + 1;
    }
    table.push((key, value));
}

} // verus!
