use petrel::error::PetrelError;
use petrel::scanner::Scanner;
use petrel::token::{Token, TokenType as TT};

fn scan(src: &str) -> (Scanner, Vec<Token>) {
    let mut scanner = Scanner::new(src.to_string());
    let tks = scanner.scan().expect("Scanning failed");
    (scanner, tks)
}

fn kinds_and_text(src: &str) -> Vec<(TT, String)> {
    let (scanner, tks) = scan(src);
    tks.into_iter().map(|t| (t.tt, t.contained_string(&scanner))).collect()
}

/// Simple example function code
#[test]
fn function() {
    let src = "fun helloWorld(name) {\n    doSomething()\n}";
    let correct = vec![
        (TT::Fun, "fun"),
        (TT::Identifier, "helloWorld"),
        (TT::LeftParen, "("),
        (TT::Identifier, "name"),
        (TT::RightParen, ")"),
        (TT::LeftBrace, "{"),
        (TT::NL, "\n"),
        (TT::Identifier, "doSomething"),
        (TT::LeftParen, "("),
        (TT::RightParen, ")"),
        (TT::NL, "\n"),
        (TT::RightBrace, "}"),
        (TT::EOF, ""),
    ];
    let tks = kinds_and_text(src);
    assert_eq!(tks.len(), correct.len());
    for (expected, got) in correct.into_iter().zip(tks) {
        assert_eq!((expected.0, expected.1.to_string()), got);
    }
}

/// Literals such as strings and numbers
#[test]
fn literals() {
    let src = "\"A quick brown fox jumped over the lazy dog\"\n134\n12.3242\n12.5.1\n\"escape \\\"\"\n\"new line O_o\nwow\n\"";
    let correct = vec![
        (TT::String, "A quick brown fox jumped over the lazy dog"),
        (TT::NL, "\n"),
        (TT::Number, "134"),
        (TT::NL, "\n"),
        (TT::Number, "12.3242"),
        (TT::NL, "\n"),
        (TT::Number, "12.5"),
        (TT::Dot, "."),
        (TT::Number, "1"),
        (TT::NL, "\n"),
        (TT::String, "escape \\\""),
        (TT::NL, "\n"),
        (TT::String, "new line O_o\nwow\n"),
        (TT::EOF, ""),
    ];
    let tks = kinds_and_text(src);
    assert_eq!(tks.len(), correct.len());
    for (expected, got) in correct.into_iter().zip(tks) {
        assert_eq!((expected.0, expected.1.to_string()), got);
    }
}

#[test]
fn classify_is_one_identifier() {
    let tks = kinds_and_text("classify");
    assert_eq!(tks, vec![(TT::Identifier, "classify".to_string()), (TT::EOF, String::new())]);
}

#[test]
fn keyword_needs_whitespace_or_end_after_it() {
    let tks = kinds_and_text("class x class");
    let kinds: Vec<TT> = tks.iter().map(|t| t.0).collect();
    assert_eq!(kinds, vec![TT::Class, TT::Identifier, TT::Class, TT::EOF]);
    // A keyword directly followed by a symbol is read as an identifier
    let tks = kinds_and_text("true)");
    assert_eq!(tks[0], (TT::Identifier, "true".to_string()));
    assert_eq!(tks[1].0, TT::RightParen);
}

#[test]
fn keywords_by_first_letter() {
    let src = "const else false for from fun if impl in null override promise return struct super this trait true use var while";
    let kinds: Vec<TT> = kinds_and_text(src).iter().map(|t| t.0).collect();
    assert_eq!(
        kinds,
        vec![
            TT::Const,
            TT::Else,
            TT::False,
            TT::For,
            TT::From,
            TT::Fun,
            TT::If,
            TT::Impl,
            TT::In,
            TT::Null,
            TT::Override,
            TT::Promise,
            TT::Return,
            TT::Struct,
            TT::Super,
            TT::This,
            TT::Trait,
            TT::True,
            TT::Use,
            TT::Var,
            TT::While,
            TT::EOF,
        ]
    );
}

#[test]
fn near_keywords_are_identifiers() {
    let tks = kinds_and_text("cl fals iffy in_ _x f");
    let words: Vec<(TT, &str)> = tks.iter().map(|t| (t.0, t.1.as_str())).collect();
    assert_eq!(
        words,
        vec![
            (TT::Identifier, "cl"),
            (TT::Identifier, "fals"),
            (TT::Identifier, "iffy"),
            (TT::Identifier, "in_"),
            (TT::Identifier, "_x"),
            (TT::Identifier, "f"),
            (TT::EOF, ""),
        ]
    );
}

#[test]
fn two_character_operators() {
    let src = "! != - -> < <= > >= : :: = == . ? + / * , ( ) { } [ ]";
    let kinds: Vec<TT> = kinds_and_text(src).iter().map(|t| t.0).collect();
    assert_eq!(
        kinds,
        vec![
            TT::Bang,
            TT::BangEqual,
            TT::Minus,
            TT::Arrow,
            TT::Less,
            TT::LessEqual,
            TT::Greater,
            TT::GreaterEqual,
            TT::Colon,
            TT::DoubleColon,
            TT::Equal,
            TT::DoubleEqual,
            TT::Dot,
            TT::QuestionMark,
            TT::Plus,
            TT::Slash,
            TT::Star,
            TT::Comma,
            TT::LeftParen,
            TT::RightParen,
            TT::LeftBrace,
            TT::RightBrace,
            TT::LeftBracket,
            TT::RightBracket,
            TT::EOF,
        ]
    );
}

#[test]
fn unterminated_string_fails() {
    let mut scanner = Scanner::new("\"hello".to_string());
    assert!(matches!(scanner.scan(), Err(PetrelError::MissingDoubleQuote)));
    let mut scanner = Scanner::new("\"ends in a backslash\\".to_string());
    assert!(matches!(scanner.scan(), Err(PetrelError::MissingDoubleQuote)));
}

#[test]
fn unknown_character_fails() {
    let mut scanner = Scanner::new("1 + @".to_string());
    assert!(matches!(scanner.scan(), Err(PetrelError::UnknownCharacter('@', 4))));
}

#[test]
fn comments_are_discarded_with_their_line_feed() {
    let (scanner, tks) = scan("# a comment\n42 # another\n");
    let kinds: Vec<TT> = tks.iter().map(|t| t.tt).collect();
    assert_eq!(kinds, vec![TT::Number, TT::EOF]);
    assert_eq!(tks[0].contained_string(&scanner), "42");
    assert_eq!(tks[0].line, 2);
    // Only comment lines
    let (_, tks) = scan("#\n#\n#");
    assert_eq!(tks.len(), 1);
    assert_eq!(tks[0].tt, TT::EOF);
}

#[test]
fn whitespace_is_skipped_and_lines_counted() {
    let (_, tks) = scan(" \t1\r\n\"a\nb\" 2");
    let kinds: Vec<(TT, usize)> = tks.iter().map(|t| (t.tt, t.line)).collect();
    assert_eq!(
        kinds,
        vec![(TT::Number, 1), (TT::NL, 2), (TT::String, 2), (TT::Number, 3), (TT::EOF, 3)]
    );
}

#[test]
fn non_ascii_letters_make_identifiers() {
    let tks = kinds_and_text("héllo wörld");
    assert_eq!(tks[0], (TT::Identifier, "héllo".to_string()));
    assert_eq!(tks[1], (TT::Identifier, "wörld".to_string()));
}

#[test]
fn slices_reproduce_lexemes() {
    let src = "fun f(x) {\n  \"s\\\"q\" 12.5 -> x >= 3 # c\n}";
    let (scanner, tks) = scan(src);
    let chars: Vec<char> = src.chars().collect();
    for t in &tks {
        assert!(t.start + t.length <= chars.len());
        let text: String = chars[t.start..t.start + t.length].iter().collect();
        assert_eq!(t.contained_string(&scanner), text);
    }
    let texts: Vec<String> = tks.iter().map(|t| t.contained_string(&scanner)).collect();
    assert_eq!(
        texts,
        vec!["fun", "f", "(", "x", ")", "{", "\n", "s\\\"q", "12.5", "->", "x", ">=", "3", "}", ""]
    );
}
