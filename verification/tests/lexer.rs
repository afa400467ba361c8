use bytecode_backend::frontend_lexer::{Kind, Lexer, State};
use bytecode_backend::frontend_token::Token;

fn tokens(source: &str) -> Vec<(Token, String)> {
    let mut lexer = Lexer::new(source.as_bytes());
    let mut out = Vec::new();
    loop {
        let t = lexer.next();
        out.push((t, String::from_utf8(lexer.span().to_vec()).unwrap()));
        if t == Token::EOF {
            return out;
        }
    }
}

fn kinds(source: &str) -> Vec<Token> {
    tokens(source).into_iter().map(|(t, _)| t).collect()
}

#[test]
fn a_function_definition_is_cut_into_tokens() {
    let got = tokens("fun foo(n)\n  n\nend");
    let want = vec![
        (Token::Fun, "fun"),
        (Token::Space, " "),
        (Token::Symbol, "foo"),
        (Token::LParen, "("),
        (Token::Symbol, "n"),
        (Token::RParen, ")"),
        (Token::Space, "\n  "),
        (Token::Symbol, "n"),
        (Token::Space, "\n"),
        (Token::End, "end"),
        (Token::EOF, ""),
    ];
    assert_eq!(got.len(), want.len());
    for (g, w) in got.iter().zip(want.iter()) {
        assert_eq!(g.0, w.0);
        assert_eq!(g.1, w.1);
    }
}

#[test]
fn the_end_of_the_source_repeats() {
    let mut lexer = Lexer::new(b"x");
    assert_eq!(lexer.next(), Token::Symbol);
    assert_eq!(lexer.next(), Token::EOF);
    assert_eq!(lexer.span(), b"");
    assert_eq!(lexer.next(), Token::EOF);
    let mut empty = Lexer::new(b"");
    assert_eq!(empty.span(), b"");
    assert_eq!(empty.next(), Token::EOF);
}

#[test]
fn keywords_operators_and_punctuation() {
    assert_eq!(
        kinds("and break do elif else end for fun if let loop or return then while andy _x x1"),
        vec![
            Token::And, Token::Space, Token::Break, Token::Space, Token::Do, Token::Space,
            Token::Elif, Token::Space, Token::Else, Token::Space, Token::End, Token::Space,
            Token::For, Token::Space, Token::Fun, Token::Space, Token::If, Token::Space,
            Token::Let, Token::Space, Token::Loop, Token::Space, Token::Or, Token::Space,
            Token::Return, Token::Space, Token::Then, Token::Space, Token::While, Token::Space,
            Token::Symbol, Token::Space, Token::Symbol, Token::Space, Token::Symbol, Token::EOF,
        ]
    );
    assert_eq!(
        kinds("= == != > >= < <= & @ ! ^ $ - % | + ? / * ~"),
        vec![
            Token::Assign, Token::Space, Token::EQ, Token::Space, Token::NE, Token::Space,
            Token::GT, Token::Space, Token::GE, Token::Space, Token::LT, Token::Space,
            Token::LE, Token::Space, Token::Ampersand, Token::Space, Token::At, Token::Space,
            Token::Bang, Token::Space, Token::Caret, Token::Space, Token::Dollar, Token::Space,
            Token::Minus, Token::Space, Token::Percent, Token::Space, Token::Pipe, Token::Space,
            Token::Plus, Token::Space, Token::Query, Token::Space, Token::Slash, Token::Space,
            Token::Star, Token::Space, Token::Tilde, Token::EOF,
        ]
    );
    assert_eq!(
        kinds(":,{[(}]);"),
        vec![
            Token::Colon, Token::Comma, Token::LBrace, Token::LBracket, Token::LParen,
            Token::RBrace, Token::RBracket, Token::RParen, Token::Semi, Token::EOF,
        ]
    );
}

#[test]
fn operators_run_together_and_unknown_ones_are_errors() {
    assert_eq!(kinds("=>"), vec![Token::Error, Token::EOF]);
    assert_eq!(kinds("a<=b"), vec![Token::Symbol, Token::LE, Token::Symbol, Token::EOF]);
    assert_eq!(kinds("a-b"), vec![Token::Symbol, Token::Minus, Token::Symbol, Token::EOF]);
    // a sign before a digit begins a number
    assert_eq!(kinds("a -1"), vec![Token::Symbol, Token::Space, Token::Number, Token::EOF]);
    assert_eq!(
        tokens("-1.5_0")[0],
        (Token::Number, "-1.5_0".to_string())
    );
    assert_eq!(kinds("+="), vec![Token::Error, Token::EOF]);
    assert_eq!(kinds("-"), vec![Token::Minus, Token::EOF]);
}

#[test]
fn dots_comments_and_unknown_bytes() {
    assert_eq!(kinds(". .. ... ...."), vec![
        Token::Dot, Token::Space, Token::DotDot, Token::Space, Token::DotDotDot, Token::Space,
        Token::Error, Token::EOF,
    ]);
    // a comment runs to the end of the line and counts as space
    let got = tokens("a # b c\n d");
    assert_eq!(got[1], (Token::Space, " # b c\n ".to_string()));
    assert_eq!(got[2].0, Token::Symbol);
    let got = tokens("#!");
    assert_eq!(got[0], (Token::Space, "#!".to_string()));
    // a byte of no class is an error of its own
    let got = tokens("a\u{7f}b");
    assert_eq!(got[1], (Token::Error, "\u{7f}".to_string()));
    assert_eq!(got[2].0, Token::Symbol);
    let mut lexer = Lexer::new(&[0xff, b'"']);
    assert_eq!(lexer.next(), Token::Error);
    assert_eq!(lexer.span(), &[0xff]);
    assert_eq!(lexer.next(), Token::Error);
    assert_eq!(lexer.next(), Token::EOF);
}

#[test]
fn bytes_have_classes_and_states_have_successors() {
    assert_eq!(Kind::classify(b'7'), Kind::Digit);
    assert_eq!(Kind::classify(b'.'), Kind::Dot);
    assert_eq!(Kind::classify(b'#'), Kind::Hash);
    assert_eq!(Kind::classify(b'\n'), Kind::LF);
    assert_eq!(Kind::classify(b'q'), Kind::Letter);
    assert_eq!(Kind::classify(b'Q'), Kind::Letter);
    assert_eq!(Kind::classify(b'<'), Kind::Operator);
    assert_eq!(Kind::classify(b'{'), Kind::Punctuation);
    assert_eq!(Kind::classify(b'+'), Kind::Sign);
    assert_eq!(Kind::classify(b'-'), Kind::Sign);
    assert_eq!(Kind::classify(b'\t'), Kind::Space);
    assert_eq!(Kind::classify(b' '), Kind::Space);
    assert_eq!(Kind::classify(b'_'), Kind::Underscore);
    assert_eq!(Kind::classify(b'"'), Kind::Unknown);
    assert_eq!(Kind::classify(b'\r'), Kind::Unknown);
    assert_eq!(Kind::classify(0), Kind::Unknown);
    assert_eq!(Kind::classify(200), Kind::Unknown);
    assert!(!State::Symbol.is_terminal());
    assert!(State::TerminalDot.is_terminal());
    assert!(State::TerminalUnknownCharacter.is_terminal());
    assert_eq!(State::jump(State::Start, Kind::Hash), State::Comment);
    assert_eq!(State::jump(State::Comment, Kind::LF), State::Space);
    assert_eq!(State::jump(State::Sign, Kind::Digit), State::Number);
    assert_eq!(State::jump(State::Number, Kind::Dot), State::Number);
    assert_eq!(State::jump(State::Symbol, Kind::Dot), State::TerminalSymbol);
    assert_eq!(State::jump(State::TerminalDot, Kind::Dot), State::TerminalDot);
    assert_eq!(Token::VARIANT_COUNT, 52);
}
