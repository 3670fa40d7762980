//! The scanner of story scripts: dialogue lines, bracketed directives,
//! keywords, strings, and embedded blocks of script code in braces.
use vstd::prelude::*;

use crate::text::{alphanumeric, chars_of, is_alphanumeric, is_whitespace, string_of, whitespace};

verus! {

/// Errors of the story-script scanner.
#[derive(Debug, PartialEq, Eq, Structural, Clone, Copy)]
pub enum EmuError {
    /// A string or code block that the source ends inside of.
    UnexpectedEOF,
    /// A character that starts no token.
    UnknownSymbol(char),
}

/// The kind of a story-script token, with its text where it has one.
#[derive(Debug, PartialEq, Eq)]
pub enum TokenType {
    // Single-character tokens
    At,
    // Brackets -> []
    LeftBracket,
    RightBracket,
    // Brace -> {}
    LeftBrace,
    RightBrace,
    // Keywords
    Start,
    Script,
    Jump,
    Call,
    Let,
    // Literals
    Identifier(String),
    String(String),
    Petrel(String),
    // End of file
    EOF,
}

/// A token kind with its text as characters.
pub enum Kind {
    At,
    LeftBracket,
    RightBracket,
    LeftBrace,
    RightBrace,
    Start,
    Script,
    Jump,
    Call,
    Let,
    Identifier(Seq<char>),
    Str(Seq<char>),
    Petrel(Seq<char>),
    EOF,
}

impl View for TokenType {
    type V = Kind;

    open spec fn view(&self) -> Kind {
        match self {
            TokenType::At => Kind::At,
            TokenType::LeftBracket => Kind::LeftBracket,
            TokenType::RightBracket => Kind::RightBracket,
            TokenType::LeftBrace => Kind::LeftBrace,
            TokenType::RightBrace => Kind::RightBrace,
            TokenType::Start => Kind::Start,
            TokenType::Script => Kind::Script,
            TokenType::Jump => Kind::Jump,
            TokenType::Call => Kind::Call,
            TokenType::Let => Kind::Let,
            TokenType::Identifier(s) => Kind::Identifier(s@),
            TokenType::String(s) => Kind::Str(s@),
            TokenType::Petrel(s) => Kind::Petrel(s@),
            TokenType::EOF => Kind::EOF,
        }
    }
}

/// A story-script token.
#[derive(Debug, PartialEq, Eq)]
pub struct Token {
    /// Token type
    pub tt: TokenType,
    /// Which line the token starts on
    pub line: usize,
    /// Which column of that line the token starts in
    pub column: usize,
}

impl View for Token {
    type V = (Kind, int, int);

    open spec fn view(&self) -> (Kind, int, int) {
        (self.tt@, self.line as int, self.column as int)
    }
}

/// The line and column after reading `[a, b)` from line `line` and column
/// `col`: a line feed begins the next line at column 1.
pub open spec fn advance(s: Seq<char>, a: int, b: int, line: int, col: int) -> (int, int)
    decreases b - a,
{
    if a >= b || a < 0 || a >= s.len() {
        (line, col)
    } else if s[a] == '\n' {
        advance(s, a + 1, b, line + 1, 1)
    } else {
        advance(s, a + 1, b, line, col + 1)
    }
}

/// The first `end` at or after `q`, or the end of the source.
pub open spec fn until(s: Seq<char>, q: int, end: char) -> int
    decreases s.len() - q,
{
    if q < 0 || q >= s.len() || s[q] == end {
        q
    } else {
        until(s, q + 1, end)
    }
}

/// The first whitespace at or after `q`, or the end of the source.
pub open spec fn to_whitespace(s: Seq<char>, q: int) -> int
    decreases s.len() - q,
{
    if q < 0 || q >= s.len() || whitespace(s[q]) {
        q
    } else {
        to_whitespace(s, q + 1)
    }
}

/// A character that may continue a word.
pub open spec fn word_char(c: char) -> bool {
    alphanumeric(c) || c == '_'
}

/// Whether the keyword `kw` stands at `p`, not followed by a word character.
pub open spec fn keyword_here(s: Seq<char>, p: int, kw: Seq<char>) -> bool {
    let e = p + kw.len();
    &&& e <= s.len()
    &&& s.subrange(p, e) == kw
    &&& (e == s.len() || !word_char(s[e]))
}

/// The keyword at `p`, found by its first letter, with its length.
pub open spec fn keyword_at(s: Seq<char>, p: int) -> Option<(Kind, int)> {
    if keyword_here(s, p, "start"@) {
        Some((Kind::Start, 5))
    } else if keyword_here(s, p, "script"@) {
        Some((Kind::Script, 6))
    } else if keyword_here(s, p, "call"@) {
        Some((Kind::Call, 4))
    } else if keyword_here(s, p, "let"@) {
        Some((Kind::Let, 3))
    } else if keyword_here(s, p, "jump"@) {
        Some((Kind::Jump, 4))
    } else {
        None
    }
}

/// A scanned token with where scanning goes on: the kind, the token's line
/// and column, and the position, line and column after it.
pub type Scanned = (Kind, int, int, int, int, int);

/// The next token at or after `p`, at line `line` and column `col`.
/// Whitespace and `#` comments are skipped; `-` makes the rest of its line a
/// string; `{...}` is a block of script code; a word is a keyword when it
/// begins with one that no word character follows, and otherwise runs to the
/// next whitespace.
pub open spec fn emu_token(s: Seq<char>, p: int, line: int, col: int) -> Result<Scanned, EmuError>
    decreases s.len() - p,
{
    if p < 0 || p >= s.len() {
        Ok((Kind::EOF, line, col, p, line, col))
    } else {
        let c = s[p];
        if c == '-' || c == '#' {
            let e = until(s, p + 1, '\n');
            let np = if e < s.len() {
                e + 1
            } else {
                e
            };
            let (nl, nc) = advance(s, p, np, line, col);
            if c == '-' {
                Ok((Kind::Str(s.subrange(p + 1, e)), line, col, np, nl, nc))
            } else if p < np <= s.len() {
                emu_token(s, np, nl, nc)
            } else {
                Ok((Kind::EOF, line, col, p, line, col))
            }
        } else if c == '{' || c == '"' {
            let e = until(s, p + 1, if c == '{' {
                '}'
            } else {
                '"'
            });
            let (nl, nc) = advance(s, p, e + 1, line, col);
            if e >= s.len() {
                Err(EmuError::UnexpectedEOF)
            } else if c == '{' {
                Ok((Kind::Petrel(s.subrange(p + 1, e)), line, col, e + 1, nl, nc))
            } else {
                Ok((Kind::Str(s.subrange(p + 1, e)), line, col, e + 1, nl, nc))
            }
        } else if c == '[' || c == ']' || c == '@' {
            let k = if c == '[' {
                Kind::LeftBracket
            } else if c == ']' {
                Kind::RightBracket
            } else {
                Kind::At
            };
            let (nl, nc) = advance(s, p, p + 1, line, col);
            Ok((k, line, col, p + 1, nl, nc))
        } else if c == '\n' {
            emu_token(s, p + 1, line + 1, 1)
        } else if whitespace(c) {
            emu_token(s, p + 1, line, col + 1)
        } else if word_char(c) {
            match keyword_at(s, p) {
                Some((k, n)) => {
                    let (nl, nc) = advance(s, p, p + n, line, col);
                    Ok((k, line, col, p + n, nl, nc))
                },
                None => {
                    let e = to_whitespace(s, p);
                    let (nl, nc) = advance(s, p, e, line, col);
                    Ok((Kind::Identifier(s.subrange(p, e)), line, col, e, nl, nc))
                },
            }
        } else {
            Err(EmuError::UnknownSymbol(c))
        }
    }
}

/// All tokens from `p` on, up to and including the end of file, or the first
/// error.
pub open spec fn emu_all(s: Seq<char>, p: int, line: int, col: int) -> Result<
    Seq<(Kind, int, int)>,
    EmuError,
>
    decreases s.len() - p,
{
    match emu_token(s, p, line, col) {
        Err(e) => Err(e),
        Ok((k, tl, tc, np, nl, nc)) => if k !is EOF && p < np <= s.len() {
            match emu_all(s, np, nl, nc) {
                Ok(rest) => Ok(seq![(k, tl, tc)] + rest),
                Err(e) => Err(e),
            }
        } else {
            Ok(seq![(k, tl, tc)])
        },
    }
}

/// The scanner of a story script.
pub struct Scanner {
    /// The input for the scanner
    source: Vec<char>,
    /// The index of the next character
    pos: usize,
    /// The line number
    line: usize,
    /// The column number
    column: usize,
}

impl View for Scanner {
    type V = Seq<char>;

    /// The source text.
    closed spec fn view(&self) -> Seq<char> {
        self.source@
    }
}

impl Scanner {
    /// The index of the next character to read.
    pub closed spec fn position(&self) -> int {
        self.pos as int
    }

    /// The current line number.
    pub closed spec fn current_line(&self) -> int {
        self.line as int
    }

    /// The current column number.
    pub closed spec fn current_column(&self) -> int {
        self.column as int
    }

    /// The position lies within the source, and the counters cannot overflow
    /// before the end of it.
    pub closed spec fn wf(&self) -> bool {
        &&& self.pos <= self.source@.len() < usize::MAX
        &&& 1 <= self.line <= self.pos + 1
        &&& 1 <= self.column <= self.pos + 1
    }

    /// Create a new scanner from a string.
    pub fn new(input: String) -> (r: Scanner)
        ensures
            r@ == input@,
            r.position() == 0,
            r.current_line() == 1,
            r.current_column() == 1,
            input@.len() < usize::MAX ==> r.wf(),
    {
        let source = chars_of(input.as_str());
        Scanner { source, pos: 0, line: 1, column: 1 }
    }

    /// Move to `to`, counting lines and columns on the way.
    fn next(&mut self, to: usize)
        requires
            old(self).wf(),
            old(self).pos <= to <= old(self).source@.len(),
        ensures
            final(self).wf(),
            final(self).source == old(self).source,
            final(self).pos == to,
            (final(self).line as int, final(self).column as int) == advance(
                old(self).source@,
                old(self).pos as int,
                to as int,
                old(self).line as int,
                old(self).column as int,
            ),
    {
        while self.pos < to
            invariant
                self.wf(),
                self.source == old(self).source,
                old(self).pos <= self.pos <= to <= self.source@.len(),
                advance(self.source@, self.pos as int, to as int, self.line as int, self.column as int)
                    == advance(
                    old(self).source@,
                    old(self).pos as int,
                    to as int,
                    old(self).line as int,
                    old(self).column as int,
                ),
            decreases to - self.pos,
        {
            if self.source[self.pos] == '\n' {
                self.line = self.line + 1;
                self.column = 1;
            } else {
                self.column = self.column + 1;
            }
            self.pos = self.pos + 1;
        }
    }

    /// The first `end` at or after `q`, or the end of the source.
    fn consume_until_char(&self, q: usize, end: char) -> (r: usize)
        requires
            q <= self.source@.len(),
        ensures
            r == until(self.source@, q as int, end),
            q <= r <= self.source@.len(),
    {
        let mut i = q;
        while i < self.source.len() && self.source[i] != end
            invariant
                q <= i <= self.source@.len(),
                until(self.source@, i as int, end) == until(self.source@, q as int, end),
            decreases self.source@.len() - i,
        {
            i = i + 1;
        }
        i
    }

    /// The first whitespace at or after `q`, or the end of the source.
    fn consume_to_whitespace(&self, q: usize) -> (r: usize)
        requires
            q <= self.source@.len(),
        ensures
            r == to_whitespace(self.source@, q as int),
            q <= r <= self.source@.len(),
    {
        let mut i = q;
        while i < self.source.len() && !is_whitespace(self.source[i])
            invariant
                q <= i <= self.source@.len(),
                to_whitespace(self.source@, i as int) == to_whitespace(self.source@, q as int),
            decreases self.source@.len() - i,
        {
            i = i + 1;
        }
        i
    }

    /// Whether the keyword `kw` stands at `p`, not followed by a word
    /// character.
    fn test_keyword(&self, p: usize, kw: &str) -> (r: bool)
        requires
            p <= self.source@.len(),
        ensures
            r == keyword_here(self.source@, p as int, kw@),
    {
        let n = kw.unicode_len();
        let len = self.source.len();
        if n > len - p {
            return false;
        }
        let mut i: usize = 0;
        while i < n
            invariant
                n == kw@.len(),
                p + n <= len,
                len == self.source@.len(),
                i <= n,
                forall|j: int| 0 <= j < i ==> self.source@[p + j] == kw@[j],
            decreases n - i,
        {
            if self.source[p + i] != kw.get_char(i) {
                assert(self.source@.subrange(p as int, p + n)[i as int] != kw@[i as int]);
                return false;
            }
            i = i + 1;
        }
        assert(self.source@.subrange(p as int, p + n) =~= kw@);
        p + n == len || !(is_alphanumeric(self.source[p + n]) || self.source[p + n] == '_')
    }

    /// The keyword at `p`, if one stands there, with its length.
    fn keyword(&self, p: usize) -> (r: Option<(TokenType, usize)>)
        requires
            p < self.source@.len(),
        ensures
            match keyword_at(self.source@, p as int) {
                Some((k, n)) => r matches Some((tt, m)) && tt@ == k && m == n,
                None => r is None,
            },
            r matches Some((tt, m)) ==> p + m <= self.source@.len(),
    {
        proof {
            reveal_strlit("start");
            reveal_strlit("script");
            reveal_strlit("call");
            reveal_strlit("let");
            reveal_strlit("jump");
        }
        if self.test_keyword(p, "start") {
            Some((TokenType::Start, 5))
        } else if self.test_keyword(p, "script") {
            Some((TokenType::Script, 6))
        } else if self.test_keyword(p, "call") {
            Some((TokenType::Call, 4))
        } else if self.test_keyword(p, "let") {
            Some((TokenType::Let, 3))
        } else if self.test_keyword(p, "jump") {
            Some((TokenType::Jump, 4))
        } else {
            None
        }
    }

    /// Make a token at the current line and column.
    fn make_token(&self, tt: TokenType) -> (r: Token)
        ensures
            r.tt == tt,
            r.line == self.line,
            r.column == self.column,
    {
        Token { tt, line: self.line, column: self.column }
    }

    /// Scan the next token, skipping whitespace and comments before it.
    fn scan_token(&mut self) -> (r: Result<Token, EmuError>)
        requires
            old(self).wf(),
        ensures
            final(self).wf(),
            final(self).source == old(self).source,
            match emu_token(
                old(self).source@,
                old(self).pos as int,
                old(self).line as int,
                old(self).column as int,
            ) {
                Ok((k, tl, tc, np, nl, nc)) => r matches Ok(t) && t@ == (k, tl, tc)
                    && final(self).pos == np && final(self).line == nl && final(self).column
                    == nc,
                Err(e) => r == Err::<Token, EmuError>(e),
            },
            r matches Ok(t) ==> (t.tt !is EOF ==> final(self).pos > old(self).pos),
    {
        let ghost s = self.source@;
        let len = self.source.len();
        loop
            invariant
                self.wf(),
                self.source == old(self).source,
                s == self.source@,
                len == s.len(),
                old(self).pos <= self.pos,
                emu_token(s, self.pos as int, self.line as int, self.column as int) == emu_token(
                    s,
                    old(self).pos as int,
                    old(self).line as int,
                    old(self).column as int,
                ),
            decreases len - self.pos,
        {
            if self.pos >= len {
                return Ok(self.make_token(TokenType::EOF));
            }
            let p = self.pos;
            let c = self.source[p];
            if c == '-' || c == '#' {
                let e = self.consume_until_char(p + 1, '\n');
                let np = if e < len {
                    e + 1
                } else {
                    e
                };
                if c == '-' {
                    let t = self.make_token(TokenType::String(string_of(&self.source.as_slice()[p + 1..e])));
                    self.next(np);
                    return Ok(t);
                }
                self.next(np);
            } else if c == '{' || c == '"' {
                let end = if c == '{' {
                    '}'
                } else {
                    '"'
                };
                let e = self.consume_until_char(p + 1, end);
                if e >= len {
                    return Err(EmuError::UnexpectedEOF);
                }
                let text = string_of(&self.source.as_slice()[p + 1..e]);
                let t = self.make_token(
                    if c == '{' {
                        TokenType::Petrel(text)
                    } else {
                        TokenType::String(text)
                    },
                );
                self.next(e + 1);
                return Ok(t);
            } else if c == '[' || c == ']' || c == '@' {
                let t = self.make_token(
                    if c == '[' {
                        TokenType::LeftBracket
                    } else if c == ']' {
                        TokenType::RightBracket
                    } else {
                        TokenType::At
                    },
                );
                self.next(p + 1);
                return Ok(t);
            } else if is_whitespace(c) {
                proof {
                    reveal_with_fuel(advance, 2);
                }
                self.next(p + 1);
            } else if is_alphanumeric(c) || c == '_' {
                match self.keyword(p) {
                    Some((tt, n)) => {
                        let t = self.make_token(tt);
                        self.next(p + n);
                        return Ok(t);
                    },
                    None => {
                        let e = self.consume_to_whitespace(p + 1);
                        let t = self.make_token(
                            TokenType::Identifier(string_of(&self.source.as_slice()[p..e])),
                        );
                        self.next(e);
                        return Ok(t);
                    },
                }
            } else {
                return Err(EmuError::UnknownSymbol(c));
            }
        }
    }

    /// Scan the input into tokens, up to and including the end of file.
    pub fn scan(&mut self) -> (r: Result<Vec<Token>, EmuError>)
        requires
            old(self).wf(),
        ensures
            match emu_all(
                old(self)@,
                old(self).position(),
                old(self).current_line(),
                old(self).current_column(),
            ) {
                Ok(ts) => r matches Ok(v) && v@.map_values(|t: Token| t@) == ts,
                Err(e) => r == Err::<Vec<Token>, EmuError>(e),
            },
    {
        let ghost s = self.source@;
        let ghost all = emu_all(s, self.pos as int, self.line as int, self.column as int);
        let len = self.source.len();
        let mut tokens: Vec<Token> = Vec::new();
        loop
            invariant
                self.wf(),
                self.source@ == s,
                s == old(self).source@,
                len == s.len(),
                all == emu_all(
                    s,
                    old(self).pos as int,
                    old(self).line as int,
                    old(self).column as int,
                ),
                all == match emu_all(s, self.pos as int, self.line as int, self.column as int) {
                    Ok(rest) => Ok(tokens@.map_values(|t: Token| t@) + rest),
                    Err(e) => Err(e),
                },
            decreases len - self.pos,
        {
            let ghost before = tokens@.map_values(|t: Token| t@);
            let t = match self.scan_token() {
                Ok(t) => t,
                Err(e) => {
                    return Err(e);
                },
            };
            let ghost tv = t@;
            let eof = match t.tt {
                TokenType::EOF => true,
                _ => false,
            };
            tokens.push(t);
            assert(tokens@.map_values(|t: Token| t@) =~= before.push(tv));
            if eof {
                assert(before + seq![tv] =~= before.push(tv));
                return Ok(tokens);
            }
            proof {
                match emu_all(s, self.pos as int, self.line as int, self.column as int) {
                    Ok(rest) => {
                        assert(before + (seq![tv] + rest) =~= before.push(tv) + rest);
                    },
                    Err(e) => {},
                }
            }
        }
    }
}

} // verus!
