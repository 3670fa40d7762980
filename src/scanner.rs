//! The scanner: a single maximal-munch pass that turns a character buffer
//! into tokens.
use vstd::prelude::*;

use crate::error::PetrelError;
use crate::text::{
    alphabetic, alphanumeric, chars_of, digit, is_alphabetic, is_alphanumeric, is_ascii_digit,
    is_whitespace, string_of, whitespace,
};
use crate::token::{keyword_of, Token, TokenType};

verus! {

/// A character that may continue an identifier.
pub open spec fn word_char(c: char) -> bool {
    alphanumeric(c) || c == '_'
}

/// A character that may begin an identifier.
pub open spec fn word_start(c: char) -> bool {
    alphabetic(c) || c == '_'
}

/// The end of the run of identifier characters that begins at `p`.
pub open spec fn word_end(s: Seq<char>, p: int) -> int
    decreases s.len() - p,
{
    if 0 <= p < s.len() && word_char(s[p]) {
        word_end(s, p + 1)
    } else {
        p
    }
}

/// The end of the run of decimal digits that begins at `p`.
pub open spec fn digits_end(s: Seq<char>, p: int) -> int
    decreases s.len() - p,
{
    if 0 <= p < s.len() && digit(s[p]) {
        digits_end(s, p + 1)
    } else {
        p
    }
}

/// The end of a number literal at `p`: an integer part, then at most one `.`
/// with the digits that follow it.
pub open spec fn number_end(s: Seq<char>, p: int) -> int {
    let d = digits_end(s, p);
    if d < s.len() && s[d] == '.' {
        digits_end(s, d + 1)
    } else {
        d
    }
}

/// The position of the quote that closes a string literal whose contents
/// begin at `q`. A backslash takes the character after it along, whatever it
/// is.
pub open spec fn string_close(s: Seq<char>, q: int) -> Option<int>
    decreases s.len() - q,
{
    if q < 0 || q >= s.len() {
        None
    } else if s[q] == '\\' {
        if q + 1 >= s.len() {
            None
        } else {
            string_close(s, q + 2)
        }
    } else if s[q] == '"' {
        Some(q)
    } else {
        string_close(s, q + 1)
    }
}

/// The number of line feeds in `t`.
pub open spec fn newlines(t: Seq<char>) -> nat
    decreases t.len(),
{
    if t.len() == 0 {
        0
    } else {
        newlines(t.drop_last()) + if t.last() == '\n' {
            1nat
        } else {
            0nat
        }
    }
}

/// Whether the character after `p` is `x`.
pub open spec fn next_is(s: Seq<char>, p: int, x: char) -> bool {
    p + 1 < s.len() && s[p + 1] == x
}

/// The punctuation or operator token at `p`, with its length; a
/// two-character operator is chosen by one character of lookahead.
pub open spec fn symbol(s: Seq<char>, p: int) -> Option<(TokenType, int)>
    recommends
        0 <= p < s.len(),
{
    let c = s[p];
    if c == '.' {
        Some((TokenType::Dot, 1))
    } else if c == '?' {
        Some((TokenType::QuestionMark, 1))
    } else if c == '+' {
        Some((TokenType::Plus, 1))
    } else if c == '/' {
        Some((TokenType::Slash, 1))
    } else if c == '*' {
        Some((TokenType::Star, 1))
    } else if c == ',' {
        Some((TokenType::Comma, 1))
    } else if c == '(' {
        Some((TokenType::LeftParen, 1))
    } else if c == ')' {
        Some((TokenType::RightParen, 1))
    } else if c == '{' {
        Some((TokenType::LeftBrace, 1))
    } else if c == '}' {
        Some((TokenType::RightBrace, 1))
    } else if c == '[' {
        Some((TokenType::LeftBracket, 1))
    } else if c == ']' {
        Some((TokenType::RightBracket, 1))
    } else if c == '!' {
        if next_is(s, p, '=') {
            Some((TokenType::BangEqual, 2))
        } else {
            Some((TokenType::Bang, 1))
        }
    } else if c == '-' {
        if next_is(s, p, '>') {
            Some((TokenType::Arrow, 2))
        } else {
            Some((TokenType::Minus, 1))
        }
    } else if c == '<' {
        if next_is(s, p, '=') {
            Some((TokenType::LessEqual, 2))
        } else {
            Some((TokenType::Less, 1))
        }
    } else if c == '>' {
        if next_is(s, p, '=') {
            Some((TokenType::GreaterEqual, 2))
        } else {
            Some((TokenType::Greater, 1))
        }
    } else if c == ':' {
        if next_is(s, p, ':') {
            Some((TokenType::DoubleColon, 2))
        } else {
            Some((TokenType::Colon, 1))
        }
    } else if c == '=' {
        if next_is(s, p, '=') {
            Some((TokenType::DoubleEqual, 2))
        } else {
            Some((TokenType::Equal, 1))
        }
    } else {
        None
    }
}

/// The kind of the identifier-like word `[p, e)`: a keyword only when the
/// word spells one and is followed by whitespace or the end of input.
pub open spec fn word_kind(s: Seq<char>, p: int, e: int) -> TokenType {
    match keyword_of(s.subrange(p, e)) {
        Some(k) => if e >= s.len() || whitespace(s[e]) {
            k
        } else {
            TokenType::Identifier
        },
        None => TokenType::Identifier,
    }
}

pub open spec fn mk(tt: TokenType, line: int, start: int, length: int) -> Token {
    Token { tt, line: line as usize, start: start as usize, length: length as usize }
}

/// The next token at or after `p` when the line counter is `line`: the
/// token, the position after it and the line counter after it. Whitespace
/// other than a line feed is skipped, and so is a `#` comment together with
/// the line feed that ends it.
pub open spec fn lex_token(s: Seq<char>, p: int, line: int) -> Result<
    (Token, int, int),
    PetrelError,
>
    decreases s.len() - p, 0int,
{
    if p < 0 || p >= s.len() {
        Ok((mk(TokenType::EOF, line, p, 0), p, line))
    } else {
        let c = s[p];
        if c == '\n' {
            Ok((mk(TokenType::NL, line + 1, p, 1), p + 1, line + 1))
        } else if c == '#' {
            skip_comment(s, p + 1, line)
        } else if c == '"' {
            match string_close(s, p + 1) {
                Some(q) => Ok(
                    (
                        mk(TokenType::String, line, p + 1, q - (p + 1)),
                        q + 1,
                        line + newlines(s.subrange(p + 1, q)),
                    ),
                ),
                None => Err(PetrelError::MissingDoubleQuote),
            }
        } else if digit(c) {
            let e = number_end(s, p);
            Ok((mk(TokenType::Number, line, p, e - p), e, line))
        } else if word_start(c) {
            let e = word_end(s, p + 1);
            Ok((mk(word_kind(s, p, e), line, p, e - p), e, line))
        } else if whitespace(c) {
            lex_token(s, p + 1, line)
        } else {
            match symbol(s, p) {
                Some((k, n)) => Ok((mk(k, line, p, n), p + n, line)),
                None => Err(PetrelError::UnknownCharacter(c, p as usize)),
            }
        }
    }
}

/// Scanning inside a comment at `q`: everything up to and including the next
/// line feed is discarded.
pub open spec fn skip_comment(s: Seq<char>, q: int, line: int) -> Result<
    (Token, int, int),
    PetrelError,
>
    decreases s.len() - q, 1int,
{
    if q < 0 || q >= s.len() {
        lex_token(s, q, line)
    } else if s[q] == '\n' {
        lex_token(s, q + 1, line + 1)
    } else {
        skip_comment(s, q + 1, line)
    }
}

/// `pre` followed by the tokens of `r`, or the error of `r`.
pub open spec fn prepend(pre: Seq<Token>, r: Result<Seq<Token>, PetrelError>) -> Result<
    Seq<Token>,
    PetrelError,
> {
    match r {
        Ok(rest) => Ok(pre + rest),
        Err(e) => Err(e),
    }
}

/// All tokens from `p` on, up to and including the end-of-file token, or the
/// first error.
pub open spec fn lex_all(s: Seq<char>, p: int, line: int) -> Result<Seq<Token>, PetrelError>
    decreases s.len() - p,
{
    match lex_token(s, p, line) {
        Err(e) => Err(e),
        Ok((t, np, nl)) => if t.tt != TokenType::EOF && p < np <= s.len() {
            prepend(seq![t], lex_all(s, np, nl))
        } else {
            Ok(seq![t])
        },
    }
}

/// The tokens of a whole source text.
pub open spec fn tokens_of(s: Seq<char>) -> Result<Seq<Token>, PetrelError> {
    lex_all(s, 0, 1)
}

proof fn lemma_newlines_step(s: Seq<char>, a: int, q: int)
    requires
        0 <= a <= q < s.len(),
    ensures
        newlines(s.subrange(a, q + 1)) == newlines(s.subrange(a, q)) + if s[q] == '\n' {
            1nat
        } else {
            0nat
        },
{
    assert(s.subrange(a, q + 1).drop_last() =~= s.subrange(a, q));
}

/// The token `t` is what scanning at its start reads: a line feed, the
/// contents of a closed string literal, a number literal, an identifier or
/// keyword word, or a punctuation or operator symbol.
pub open spec fn lexeme_of(s: Seq<char>, t: Token) -> bool {
    let a = t.start as int;
    let e = t.start + t.length;
    if t.tt == TokenType::NL {
        t.length == 1 && s[a] == '\n'
    } else if t.tt == TokenType::String {
        1 <= a && s[a - 1] == '"' && string_close(s, a) == Some(e)
    } else if t.tt == TokenType::Number {
        digit(s[a]) && number_end(s, a) == e
    } else if word_start(s[a]) {
        word_end(s, a + 1) == e && word_kind(s, a, e) == t.tt
    } else {
        symbol(s, a) == Some((t.tt, t.length as int))
    }
}

/// A scanned token lies between where scanning began and where it ended,
/// and is its lexeme.
pub open spec fn well_placed(s: Seq<char>, p: int, t: Token, np: int) -> bool {
    &&& p <= t.start
    &&& p < np
    &&& t.start + t.length <= np <= s.len()
    &&& lexeme_of(s, t)
}

proof fn lemma_digits_end(s: Seq<char>, p: int)
    requires
        0 <= p <= s.len(),
    ensures
        p <= digits_end(s, p) <= s.len(),
    decreases s.len() - p,
{
    if p < s.len() && digit(s[p]) {
        lemma_digits_end(s, p + 1);
    }
}

proof fn lemma_word_end(s: Seq<char>, p: int)
    requires
        0 <= p <= s.len(),
    ensures
        p <= word_end(s, p) <= s.len(),
    decreases s.len() - p,
{
    if p < s.len() && word_char(s[p]) {
        lemma_word_end(s, p + 1);
    }
}

proof fn lemma_string_close(s: Seq<char>, q: int)
    requires
        0 <= q,
    ensures
        string_close(s, q) matches Some(x) ==> q <= x < s.len() && s[x] == '"',
    decreases s.len() - q,
{
    if q < 0 || q >= s.len() {
    } else if s[q] == '\\' {
        if q + 1 < s.len() {
            lemma_string_close(s, q + 2);
        }
    } else if s[q] != '"' {
        lemma_string_close(s, q + 1);
    }
}

proof fn lemma_lex_token(s: Seq<char>, p: int, line: int)
    requires
        0 <= p,
        s.len() < usize::MAX,
    ensures
        lex_token(s, p, line) matches Ok((t, np, nl)) ==> (t.tt != TokenType::EOF ==> well_placed(
            s,
            p,
            t,
            np,
        )),
    decreases s.len() - p, 0int,
{
    if p < s.len() {
        let c = s[p];
        if c == '\n' {
        } else if c == '#' {
            lemma_skip_comment(s, p + 1, line);
        } else if c == '"' {
            lemma_string_close(s, p + 1);
        } else if digit(c) {
            lemma_digits_end(s, p + 1);
            let d = digits_end(s, p);
            if d < s.len() && s[d] == '.' {
                lemma_digits_end(s, d + 1);
            }
        } else if word_start(c) {
            lemma_word_end(s, p + 1);
        } else if whitespace(c) {
            lemma_lex_token(s, p + 1, line);
        }
    }
}

proof fn lemma_skip_comment(s: Seq<char>, q: int, line: int)
    requires
        1 <= q,
        s.len() < usize::MAX,
    ensures
        skip_comment(s, q, line) matches Ok((t, np, nl)) ==> (t.tt != TokenType::EOF
            ==> well_placed(s, q - 1, t, np)),
    decreases s.len() - q, 1int,
{
    if q >= s.len() {
        lemma_lex_token(s, q, line);
    } else if s[q] == '\n' {
        lemma_lex_token(s, q + 1, line + 1);
    } else {
        lemma_skip_comment(s, q + 1, line);
    }
}

proof fn lemma_lex_all(s: Seq<char>, p: int, line: int)
    requires
        0 <= p,
        s.len() < usize::MAX,
    ensures
        lex_all(s, p, line) matches Ok(ts) ==> forall|i: int|
            0 <= i < ts.len() && ts[i].tt != TokenType::EOF ==> well_placed(s, p, ts[i], s.len() as int),
    decreases s.len() - p,
{
    lemma_lex_token(s, p, line);
    if let Ok((t, np, nl)) = lex_token(s, p, line) {
        if t.tt != TokenType::EOF && p < np <= s.len() {
            lemma_lex_all(s, np, nl);
            if let Ok(rest) = lex_all(s, np, nl) {
                let ts = seq![t] + rest;
                assert forall|i: int|
                    0 <= i < ts.len() && ts[i].tt != TokenType::EOF implies well_placed(
                    s,
                    p,
                    ts[i],
                    s.len() as int,
                ) by {
                    if i > 0 {
                        assert(ts[i] == rest[i - 1]);
                    }
                }
            }
        }
    }
}

proof fn lemma_lex_all_ends(s: Seq<char>, p: int, line: int)
    requires
        0 <= p,
        s.len() < usize::MAX,
    ensures
        lex_all(s, p, line) matches Ok(ts) ==> ts.len() > 0 && ts.last().tt == TokenType::EOF,
    decreases s.len() - p,
{
    lemma_lex_token(s, p, line);
    if let Ok((t, np, nl)) = lex_token(s, p, line) {
        if t.tt != TokenType::EOF {
            lemma_lex_all_ends(s, np, nl);
            if let Ok(rest) = lex_all(s, np, nl) {
                assert((seq![t] + rest).last() == rest.last());
            }
        }
    }
}

/// Every token but the end of file lies within the source, and slicing the
/// source at `[start, start + length)` gives exactly the characters that
/// scanning read as that token.
pub proof fn lemma_tokens_are_lexemes(s: Seq<char>)
    requires
        s.len() < usize::MAX,
    ensures
        tokens_of(s) matches Ok(ts) ==> forall|i: int|
            0 <= i < ts.len() && ts[i].tt != TokenType::EOF ==> {
                &&& ts[i].start + ts[i].length <= s.len()
                &&& lexeme_of(s, ts[i])
            },
{
    lemma_lex_all(s, 0, 1);
}

/// Scanner used to convert the source into a vector of tokens.
pub struct Scanner {
    /// The input for the scanner
    pub source: Vec<char>,
    /// The line number
    line: usize,
    /// The index of the next character to read
    start: usize,
}

impl View for Scanner {
    type V = Seq<char>;

    /// The source text.
    closed spec fn view(&self) -> Seq<char> {
        self.source@
    }
}

impl Scanner {
    /// The index of the next character to read.
    pub closed spec fn position(&self) -> int {
        self.start as int
    }

    /// The current line number.
    pub closed spec fn current_line(&self) -> int {
        self.line as int
    }

    /// The position lies within the source, and the line counter cannot
    /// overflow before the end of it.
    pub closed spec fn wf(&self) -> bool {
        &&& self.start <= self.source@.len() < usize::MAX
        &&& self.line <= self.start + 1
    }

    /// Create a new scanner from a string.
    pub fn new(input: String) -> (r: Scanner)
        ensures
            r@ == input@,
            r.position() == 0,
            r.current_line() == 1,
            input@.len() < usize::MAX ==> r.wf(),
    {
        let source = chars_of(input.as_str());
        Scanner { source, line: 1, start: 0 }
    }

    /// The characters `[start, end)` of the source as text.
    pub(crate) fn text(&self, start: usize, end: usize) -> (r: String)
        requires
            start <= end <= self@.len(),
        ensures
            r@ == self@.subrange(start as int, end as int),
    {
        string_of(&self.source.as_slice()[start..end])
    }

    fn make_token(&self, tt: TokenType, start: usize, length: usize) -> (r: Token)
        ensures
            r == mk(tt, self.line as int, start as int, length as int),
    {
        Token { tt, line: self.line, start, length }
    }

    /// Whether the character after the current one is `x`.
    fn peek_is(&self, x: char) -> (r: bool)
        requires
            self.wf(),
        ensures
            r == next_is(self.source@, self.start as int, x),
    {
        self.start + 1 < self.source.len() && self.source[self.start + 1] == x
    }

    /// Skip a comment: the current character is `#`.
    fn comment(&mut self)
        requires
            old(self).wf(),
            old(self).start < old(self).source@.len(),
        ensures
            final(self).wf(),
            final(self).source@ == old(self).source@,
            final(self).start > old(self).start,
            lex_token(final(self).source@, final(self).start as int, final(self).line as int)
                == skip_comment(old(self).source@, old(self).start + 1, old(self).line as int),
    {
        let ghost s = self.source@;
        let len = self.source.len();
        let mut q = self.start + 1;
        while q < len && self.source[q] != '\n'
            invariant
                self.source@ == s,
                len == s.len(),
                old(self).start < q <= len,
                skip_comment(s, q as int, self.line as int) == skip_comment(
                    s,
                    old(self).start + 1,
                    old(self).line as int,
                ),
                self == old(self),
            decreases len - q,
        {
            q = q + 1;
        }
        if q < len {
            self.line = self.line + 1;
            self.start = q + 1;
        } else {
            self.start = q;
        }
    }

    /// Scan a string literal: the current character is the opening quote.
    fn string(&mut self) -> (r: Result<Token, PetrelError>)
        requires
            old(self).wf(),
            old(self).start < old(self).source@.len(),
            old(self).source@[old(self).start as int] == '"',
        ensures
            final(self).wf(),
            final(self).source@ == old(self).source@,
            r is Ok ==> final(self).start > old(self).start,
            ({
                let s = old(self).source@;
                let p = old(self).start as int;
                match string_close(s, p + 1) {
                    Some(q) => r == Ok::<Token, PetrelError>(
                        mk(TokenType::String, old(self).line as int, p + 1, q - (p + 1)),
                    ) && final(self).start == q + 1 && final(self).line == old(self).line
                        + newlines(s.subrange(p + 1, q)),
                    None => r == Err::<Token, PetrelError>(PetrelError::MissingDoubleQuote),
                }
            }),
    {
        let ghost s = self.source@;
        let len = self.source.len();
        let p = self.start;
        let mut q = p + 1;
        let mut nl: usize = 0;
        while q < len
            invariant
                self.source@ == s,
                len == s.len(),
                self.wf(),
                s == old(self).source@,
                self.line == old(self).line,
                p == self.start,
                p == old(self).start,
                p + 1 <= q <= len,
                string_close(s, q as int) == string_close(s, p + 1),
                nl == newlines(s.subrange(p + 1, q as int)),
                nl <= q - (p + 1),
            decreases len - q,
        {
            let c = self.source[q];
            if c == '"' {
                let t = self.make_token(TokenType::String, p + 1, q - (p + 1));
                self.line = self.line + nl;
                self.start = q + 1;
                return Ok(t);
            } else if c == '\\' {
                if q + 1 >= len {
                    return Err(PetrelError::MissingDoubleQuote);
                }
                proof {
                    lemma_newlines_step(s, p + 1, q as int);
                    lemma_newlines_step(s, p + 1, q + 1);
                }
                if self.source[q + 1] == '\n' {
                    nl = nl + 1;
                }
                q = q + 2;
            } else {
                proof {
                    lemma_newlines_step(s, p + 1, q as int);
                }
                if c == '\n' {
                    nl = nl + 1;
                }
                q = q + 1;
            }
        }
        Err(PetrelError::MissingDoubleQuote)
    }

    /// Scan a number literal: the current character is a digit.
    fn number(&mut self) -> (r: Token)
        requires
            old(self).wf(),
            old(self).start < old(self).source@.len(),
            digit(old(self).source@[old(self).start as int]),
        ensures
            final(self).wf(),
            final(self).source@ == old(self).source@,
            final(self).line == old(self).line,
            final(self).start > old(self).start,
            final(self).start == number_end(old(self).source@, old(self).start as int),
            r == mk(
                TokenType::Number,
                old(self).line as int,
                old(self).start as int,
                number_end(old(self).source@, old(self).start as int) - old(self).start,
            ),
    {
        let ghost s = self.source@;
        let len = self.source.len();
        let p = self.start;
        let mut e = p + 1;
        while e < len && is_ascii_digit(self.source[e])
            invariant
                self.source@ == s,
                len == s.len(),
                p < e <= len,
                digits_end(s, e as int) == digits_end(s, p as int),
            decreases len - e,
        {
            e = e + 1;
        }
        if e < len && self.source[e] == '.' {
            e = e + 1;
            while e < len && is_ascii_digit(self.source[e])
                invariant
                    self.source@ == s,
                    len == s.len(),
                    p < e <= len,
                    digits_end(s, e as int) == number_end(s, p as int),
                decreases len - e,
            {
                e = e + 1;
            }
        }
        let t = self.make_token(TokenType::Number, p, e - p);
        self.start = e;
        t
    }

    /// Whether the characters `[start, end)` spell `word`.
    fn check_word(&self, start: usize, end: usize, word: &str) -> (r: bool)
        requires
            start <= end <= self.source@.len(),
        ensures
            r == (self.source@.subrange(start as int, end as int) == word@),
    {
        let n = word.unicode_len();
        if n != end - start {
            return false;
        }
        let mut i: usize = 0;
        while i < n
            invariant
                n == word@.len(),
                n == end - start,
                start <= end <= self.source@.len(),
                i <= n,
                forall|j: int| 0 <= j < i ==> self.source@[start + j] == word@[j],
            decreases n - i,
        {
            if self.source[start + i] != word.get_char(i) {
                assert(self.source@.subrange(start as int, end as int)[i as int] != word@[i as int]);
                return false;
            }
            i = i + 1;
        }
        assert(self.source@.subrange(start as int, end as int) =~= word@);
        true
    }

    /// The keyword spelled by `[start, end)`, found by its first letter.
    fn keyword(&self, start: usize, end: usize) -> (r: Option<TokenType>)
        requires
            start < end <= self.source@.len(),
        ensures
            r == keyword_of(self.source@.subrange(start as int, end as int)),
    {
        let ghost w = self.source@.subrange(start as int, end as int);
        assert(w[0] == self.source@[start as int]);
        match self.source[start] {
            'c' => if self.check_word(start, end, "class") {
                Some(TokenType::Class)
            } else if self.check_word(start, end, "const") {
                Some(TokenType::Const)
            } else {
                None
            },
            'e' => if self.check_word(start, end, "else") {
                Some(TokenType::Else)
            } else {
                None
            },
            'f' => if self.check_word(start, end, "false") {
                Some(TokenType::False)
            } else if self.check_word(start, end, "for") {
                Some(TokenType::For)
            } else if self.check_word(start, end, "from") {
                Some(TokenType::From)
            } else if self.check_word(start, end, "fun") {
                Some(TokenType::Fun)
            } else {
                None
            },
            'i' => if self.check_word(start, end, "if") {
                Some(TokenType::If)
            } else if self.check_word(start, end, "impl") {
                Some(TokenType::Impl)
            } else if self.check_word(start, end, "in") {
                Some(TokenType::In)
            } else {
                None
            },
            'n' => if self.check_word(start, end, "null") {
                Some(TokenType::Null)
            } else {
                None
            },
            'o' => if self.check_word(start, end, "override") {
                Some(TokenType::Override)
            } else {
                None
            },
            'p' => if self.check_word(start, end, "promise") {
                Some(TokenType::Promise)
            } else {
                None
            },
            'r' => if self.check_word(start, end, "return") {
                Some(TokenType::Return)
            } else {
                None
            },
            's' => if self.check_word(start, end, "struct") {
                Some(TokenType::Struct)
            } else if self.check_word(start, end, "super") {
                Some(TokenType::Super)
            } else {
                None
            },
            't' => if self.check_word(start, end, "this") {
                Some(TokenType::This)
            } else if self.check_word(start, end, "trait") {
                Some(TokenType::Trait)
            } else if self.check_word(start, end, "true") {
                Some(TokenType::True)
            } else {
                None
            },
            'u' => if self.check_word(start, end, "use") {
                Some(TokenType::Use)
            } else {
                None
            },
            'v' => if self.check_word(start, end, "var") {
                Some(TokenType::Var)
            } else {
                None
            },
            'w' => if self.check_word(start, end, "while") {
                Some(TokenType::While)
            } else {
                None
            },
            _ => None,
        }
    }

    /// Scan an identifier or keyword: the current character may begin one.
    fn identifier(&mut self) -> (r: Token)
        requires
            old(self).wf(),
            old(self).start < old(self).source@.len(),
            word_start(old(self).source@[old(self).start as int]),
        ensures
            final(self).wf(),
            final(self).source@ == old(self).source@,
            final(self).line == old(self).line,
            final(self).start > old(self).start,
            ({
                let s = old(self).source@;
                let p = old(self).start as int;
                let e = word_end(s, p + 1);
                &&& final(self).start == e
                &&& r == mk(word_kind(s, p, e), old(self).line as int, p, e - p)
            }),
    {
        let ghost s = self.source@;
        let len = self.source.len();
        let p = self.start;
        let mut e = p + 1;
        while e < len && (is_alphanumeric(self.source[e]) || self.source[e] == '_')
            invariant
                self.source@ == s,
                len == s.len(),
                p < e <= len,
                word_end(s, e as int) == word_end(s, p + 1),
            decreases len - e,
        {
            e = e + 1;
        }
        let kind = match self.keyword(p, e) {
            Some(k) => if e >= len || is_whitespace(self.source[e]) {
                k
            } else {
                TokenType::Identifier
            },
            None => TokenType::Identifier,
        };
        let t = self.make_token(kind, p, e - p);
        self.start = e;
        t
    }

    /// Scan a punctuation or operator token at the current character `c`.
    fn symbol(&mut self, c: char) -> (r: Result<Token, PetrelError>)
        requires
            old(self).wf(),
            old(self).start < old(self).source@.len(),
            c == old(self).source@[old(self).start as int],
        ensures
            final(self).wf(),
            final(self).source@ == old(self).source@,
            final(self).line == old(self).line,
            match symbol(old(self).source@, old(self).start as int) {
                Some((k, n)) => r == Ok::<Token, PetrelError>(
                    mk(k, old(self).line as int, old(self).start as int, n),
                ) && final(self).start == old(self).start + n,
                None => r == Err::<Token, PetrelError>(
                    PetrelError::UnknownCharacter(c, old(self).start),
                ),
            },
    {
        let (tt, n) = match c {
            '.' => (TokenType::Dot, 1),
            '?' => (TokenType::QuestionMark, 1),
            '+' => (TokenType::Plus, 1),
            '/' => (TokenType::Slash, 1),
            '*' => (TokenType::Star, 1),
            ',' => (TokenType::Comma, 1),
            '(' => (TokenType::LeftParen, 1),
            ')' => (TokenType::RightParen, 1),
            '{' => (TokenType::LeftBrace, 1),
            '}' => (TokenType::RightBrace, 1),
            '[' => (TokenType::LeftBracket, 1),
            ']' => (TokenType::RightBracket, 1),
            '!' => if self.peek_is('=') {
                (TokenType::BangEqual, 2)
            } else {
                (TokenType::Bang, 1)
            },
            '-' => if self.peek_is('>') {
                (TokenType::Arrow, 2)
            } else {
                (TokenType::Minus, 1)
            },
            '<' => if self.peek_is('=') {
                (TokenType::LessEqual, 2)
            } else {
                (TokenType::Less, 1)
            },
            '>' => if self.peek_is('=') {
                (TokenType::GreaterEqual, 2)
            } else {
                (TokenType::Greater, 1)
            },
            ':' => if self.peek_is(':') {
                (TokenType::DoubleColon, 2)
            } else {
                (TokenType::Colon, 1)
            },
            '=' => if self.peek_is('=') {
                (TokenType::DoubleEqual, 2)
            } else {
                (TokenType::Equal, 1)
            },
            _ => {
                return Err(PetrelError::UnknownCharacter(c, self.start));
            },
        };
        let n: usize = n;
        let t = self.make_token(tt, self.start, n);
        self.start = self.start + n;
        Ok(t)
    }

    /// Scan a single token, skipping whitespace and comments before it.
    pub fn scan_token(&mut self) -> (r: Result<Token, PetrelError>)
        requires
            old(self).wf(),
        ensures
            final(self).wf(),
            final(self)@ == old(self)@,
            match lex_token(old(self)@, old(self).position(), old(self).current_line()) {
                Ok((t, np, nl)) => r == Ok::<Token, PetrelError>(t) && final(self).position()
                    == np && final(self).current_line() == nl,
                Err(e) => r == Err::<Token, PetrelError>(e),
            },
            r matches Ok(t) ==> (t.tt != TokenType::EOF ==> final(self).position() > old(
                self,
            ).position()),
    {
        let ghost s = self.source@;
        let len = self.source.len();
        loop
            invariant
                self.wf(),
                self.source@ == s,
                s == old(self).source@,
                len == s.len(),
                old(self).start <= self.start,
                lex_token(s, self.start as int, self.line as int) == lex_token(
                    s,
                    old(self).start as int,
                    old(self).line as int,
                ),
            decreases len - self.start,
        {
            if self.start >= len {
                return Ok(self.make_token(TokenType::EOF, self.start, 0));
            }
            let c = self.source[self.start];
            if c == '\n' {
                self.line = self.line + 1;
                let t = self.make_token(TokenType::NL, self.start, 1);
                self.start = self.start + 1;
                return Ok(t);
            } else if c == '#' {
                self.comment();
            } else if c == '"' {
                return self.string();
            } else if is_ascii_digit(c) {
                return Ok(self.number());
            } else if is_alphabetic(c) || c == '_' {
                return Ok(self.identifier());
            } else if is_whitespace(c) {
                self.start = self.start + 1;
            } else {
                return self.symbol(c);
            }
        }
    }

    /// Scan the input into tokens, up to and including the end of file.
    pub fn scan(&mut self) -> (r: Result<Vec<Token>, PetrelError>)
        requires
            old(self).wf(),
        ensures
            final(self)@ == old(self)@,
            r matches Ok(ts) ==> ts@.len() > 0 && ts@.last().tt == TokenType::EOF,
            match r {
                Ok(ts) => lex_all(old(self)@, old(self).position(), old(self).current_line())
                    == Ok::<Seq<Token>, PetrelError>(ts@),
                Err(e) => lex_all(old(self)@, old(self).position(), old(self).current_line())
                    == Err::<Seq<Token>, PetrelError>(e),
            },
    {
        let ghost s = self.source@;
        let ghost all = lex_all(s, old(self).start as int, old(self).line as int);
        let len = self.source.len();
        proof {
            lemma_lex_all_ends(s, old(self).start as int, old(self).line as int);
        }
        let mut tokens: Vec<Token> = Vec::new();
        loop
            invariant
                self.wf(),
                self.source@ == s,
                s == old(self).source@,
                len == s.len(),
                all == lex_all(s, old(self).start as int, old(self).line as int),
                all == prepend(tokens@, lex_all(s, self.start as int, self.line as int)),
            decreases len - self.start,
        {
            let ghost before = tokens@;
            let t = match self.scan_token() {
                Ok(t) => t,
                Err(e) => {
                    return Err(e);
                },
            };
            tokens.push(t);
            if t.tt == TokenType::EOF {
                assert(before + seq![t] =~= tokens@);
                return Ok(tokens);
            }
            proof {
                match lex_all(s, self.start as int, self.line as int) {
                    Ok(rest) => {
                        assert(before + (seq![t] + rest) =~= tokens@ + rest);
                    },
                    Err(e) => {},
                }
            }
        }
    }
}

} // verus!
