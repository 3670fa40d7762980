use petrel::emu::{EmuError, Scanner, TokenType};
use petrel::emu::TokenType as TT;

fn kinds(src: &str) -> Vec<TokenType> {
    let mut scanner = Scanner::new(src.to_string());
    let tokens = scanner.scan().expect("failed to scan tokens");
    tokens.into_iter().map(|t| t.tt).collect()
}

#[test]
fn identifiers_and_keywords() {
    let mut scanner = Scanner::new(
        "start script awesome s scri script_1 jump call let jum jumped ca called le letgo _script"
            .to_string(),
    );
    let tokens = scanner.scan().expect("failed to scan tokens");
    let token_types: Vec<TokenType> = tokens.into_iter().map(|t| t.tt).collect();
    let result = vec![
        TT::Start,
        TT::Script,
        TT::Identifier("awesome".to_string()),
        TT::Identifier("s".to_string()),
        TT::Identifier("scri".to_string()),
        TT::Identifier("script_1".to_string()),
        TT::Jump,
        TT::Call,
        TT::Let,
        TT::Identifier("jum".to_string()),
        TT::Identifier("jumped".to_string()),
        TT::Identifier("ca".to_string()),
        TT::Identifier("called".to_string()),
        TT::Identifier("le".to_string()),
        TT::Identifier("letgo".to_string()),
        TT::Identifier("_script".to_string()),
        TT::EOF,
    ];
    assert_eq!(token_types, result);
}

#[test]
fn single_character_tokens() {
    assert_eq!(kinds("@ [ ]"), vec![TT::At, TT::LeftBracket, TT::RightBracket, TT::EOF]);
    assert_eq!(kinds("[jump]"), vec![TT::LeftBracket, TT::Jump, TT::RightBracket, TT::EOF]);
}

#[test]
fn story_dialogue_blocks_and_strings() {
    let src = "- Hello there!\n{ x + 1 }\n\"a string\" # a comment\nlet";
    assert_eq!(
        kinds(src),
        vec![
            TT::String(" Hello there!".to_string()),
            TT::Petrel(" x + 1 ".to_string()),
            TT::String("a string".to_string()),
            TT::Let,
            TT::EOF,
        ]
    );
}

#[test]
fn story_lines_and_columns() {
    let mut scanner = Scanner::new("@ call\n  [x]".to_string());
    let tokens = scanner.scan().unwrap();
    let places: Vec<(usize, usize)> = tokens.iter().map(|t| (t.line, t.column)).collect();
    assert_eq!(places, vec![(1, 1), (1, 3), (2, 3), (2, 4), (2, 6)]);
    // An identifier runs to the next whitespace
    assert_eq!(tokens[3].tt, TokenType::Identifier("x]".to_string()));
}

#[test]
fn story_errors() {
    let mut scanner = Scanner::new("\"open".to_string());
    assert_eq!(scanner.scan(), Err(EmuError::UnexpectedEOF));
    let mut scanner = Scanner::new("{ never closed".to_string());
    assert_eq!(scanner.scan(), Err(EmuError::UnexpectedEOF));
    let mut scanner = Scanner::new("start $".to_string());
    assert_eq!(scanner.scan(), Err(EmuError::UnknownSymbol('$')));
}
