//! Tokens: a kind and the place in the source that the lexeme occupies.
use vstd::prelude::*;

use crate::scanner::Scanner;

verus! {

/// The kind of a token.
#[derive(Debug, PartialEq, Eq, Structural, Clone, Copy)]
pub enum TokenType {
    // Single-character tokens
    Dot,
    QuestionMark,
    Plus,
    Minus,
    Slash,
    Star,
    Greater,
    Less,
    Bang,
    Equal,
    Colon,
    Comma,
    // Brackets -> []
    LeftBracket,
    RightBracket,
    // Brace -> {}
    LeftBrace,
    RightBrace,
    // Parentheses -> ()
    LeftParen,
    RightParen,
    // Double character symbols
    Arrow,
    GreaterEqual,
    LessEqual,
    DoubleEqual,
    DoubleColon,
    BangEqual,
    // Keywords
    Class,
    Const,
    Else,
    False,
    For,
    From,
    Fun,
    If,
    Impl,
    In,
    Null,
    Override,
    Promise,
    Return,
    Struct,
    Super,
    This,
    Trait,
    True,
    Use,
    Var,
    While,
    // Literals
    Identifier,
    String,
    Number,
    // End of file
    EOF,
    // New line
    NL,
}

/// The keyword spelled by `w`, if any. Keywords are grouped by their first
/// letter, which is how the scanner looks them up.
pub open spec fn keyword_of(w: Seq<char>) -> Option<TokenType> {
    if w.len() == 0 {
        None
    } else if w[0] == 'c' {
        if w == "class"@ {
            Some(TokenType::Class)
        } else if w == "const"@ {
            Some(TokenType::Const)
        } else {
            None
        }
    } else if w[0] == 'e' {
        if w == "else"@ {
            Some(TokenType::Else)
        } else {
            None
        }
    } else if w[0] == 'f' {
        if w == "false"@ {
            Some(TokenType::False)
        } else if w == "for"@ {
            Some(TokenType::For)
        } else if w == "from"@ {
            Some(TokenType::From)
        } else if w == "fun"@ {
            Some(TokenType::Fun)
        } else {
            None
        }
    } else if w[0] == 'i' {
        if w == "if"@ {
            Some(TokenType::If)
        } else if w == "impl"@ {
            Some(TokenType::Impl)
        } else if w == "in"@ {
            Some(TokenType::In)
        } else {
            None
        }
    } else if w[0] == 'n' {
        if w == "null"@ {
            Some(TokenType::Null)
        } else {
            None
        }
    } else if w[0] == 'o' {
        if w == "override"@ {
            Some(TokenType::Override)
        } else {
            None
        }
    } else if w[0] == 'p' {
        if w == "promise"@ {
            Some(TokenType::Promise)
        } else {
            None
        }
    } else if w[0] == 'r' {
        if w == "return"@ {
            Some(TokenType::Return)
        } else {
            None
        }
    } else if w[0] == 's' {
        if w == "struct"@ {
            Some(TokenType::Struct)
        } else if w == "super"@ {
            Some(TokenType::Super)
        } else {
            None
        }
    } else if w[0] == 't' {
        if w == "this"@ {
            Some(TokenType::This)
        } else if w == "trait"@ {
            Some(TokenType::Trait)
        } else if w == "true"@ {
            Some(TokenType::True)
        } else {
            None
        }
    } else if w[0] == 'u' {
        if w == "use"@ {
            Some(TokenType::Use)
        } else {
            None
        }
    } else if w[0] == 'v' {
        if w == "var"@ {
            Some(TokenType::Var)
        } else {
            None
        }
    } else if w[0] == 'w' {
        if w == "while"@ {
            Some(TokenType::While)
        } else {
            None
        }
    } else {
        None
    }
}

/// Represents a "word" in the program. The lexeme is not stored: it is the
/// slice `[start, start + length)` of the scanner's source.
#[derive(Debug, PartialEq, Eq, Structural, Clone, Copy)]
pub struct Token {
    /// Token type
    pub tt: TokenType,
    /// Which line the token is on
    pub line: usize,
    /// Offset of the token's first character in the source
    pub start: usize,
    /// The number of characters in the token
    pub length: usize,
}

impl Token {
    /// The lexeme: the characters of the source that the token covers.
    pub open spec fn lexeme(&self, source: Seq<char>) -> Seq<char> {
        source.subrange(self.start as int, self.start + self.length)
    }

    /// Return the text the token represents in the source code.
    pub fn contained_string(&self, scanner: &Scanner) -> (r: String)
        requires
            self.start + self.length <= scanner@.len(),
            scanner@.len() <= usize::MAX,
        ensures
            r@ == self.lexeme(scanner@),
    {
        scanner.text(self.start, self.start + self.length)
    }
}

} // verus!
