use rlox::compiler::scanner::{
    classify, classify_text, CharClass, Location, Scanner, ScannerError, Token,
};

fn scan_all(input: &str) -> Vec<(Location, Result<Token<'_>, ScannerError>)> {
    let mut scanner = Scanner::new(input);
    let mut items = Vec::new();
    while let Some(item) = scanner.next() {
        items.push(item);
    }
    items
}

fn scan(input: &str) -> Vec<Token<'_>> {
    scan_all(input)
        .into_iter()
        .map(|(_, parsed)| parsed.unwrap())
        .collect()
}

#[test]
fn unterminated_string() {
    let tokens: Vec<_> = scan_all("\"test")
        .into_iter()
        .map(|(_, parsed)| parsed)
        .collect();
    assert_eq!(tokens, vec![Err(ScannerError::UnterminatedString)])
}

#[test]
fn comment_parses_line() {
    let input = "//\n+";
    let tokens = scan(input);
    assert_eq!(tokens, vec![Token::Comment(""), Token::Plus]);

    let input = "//+";
    let tokens = scan(input);
    assert_eq!(tokens, vec![Token::Comment("+")]);

    let input = "//";
    let tokens = scan(input);
    assert_eq!(tokens, vec![Token::Comment("")]);
}

#[test]
fn whitespace() {
    let input = "\r(\n\t)\n\n{ }";
    let tokens: Vec<_> = scan_all(input)
        .into_iter()
        .map(|(loc, parsed)| (loc, parsed.unwrap()))
        .collect();

    assert_eq!(
        tokens,
        vec![
            (Location { line: 1 }, Token::LeftParen),
            (Location { line: 2 }, Token::RightParen),
            (Location { line: 4 }, Token::LeftBrace),
            (Location { line: 4 }, Token::RightBrace),
        ]
    );
}

#[test]
fn single_character_token() {
    assert_eq!(scan("("), vec![Token::LeftParen]);
    assert_eq!(scan(")"), vec![Token::RightParen]);
    assert_eq!(scan("{"), vec![Token::LeftBrace]);
    assert_eq!(scan("}"), vec![Token::RightBrace]);
    assert_eq!(scan(","), vec![Token::Comma]);
    assert_eq!(scan("."), vec![Token::Dot]);
    assert_eq!(scan("-"), vec![Token::Minus]);
    assert_eq!(scan("+"), vec![Token::Plus]);
    assert_eq!(scan(";"), vec![Token::Semicolon]);
    assert_eq!(scan("*"), vec![Token::Star]);
    assert_eq!(scan("\"test\""), vec![Token::String("test")]);
    assert_eq!(scan("\"\""), vec![Token::String("")]);
    assert_eq!(scan("\"te\nst\""), vec![Token::String("te\nst")]);
}

#[test]
fn identifier() {
    assert_eq!(scan("first+"), vec![Token::Identifier("first"), Token::Plus]);
    assert_eq!(scan("first +"), vec![Token::Identifier("first"), Token::Plus]);
    assert_eq!(scan("first"), vec![Token::Identifier("first")]);
    assert_eq!(scan("first "), vec![Token::Identifier("first")]);
    assert_eq!(scan("_first "), vec![Token::Identifier("_first")]);
    assert_eq!(scan("a1_b2"), vec![Token::Identifier("a1_b2")]);
    assert_eq!(scan("h\u{e9}llo w"), vec![Token::Identifier("h\u{e9}llo"), Token::Identifier("w")]);
}

#[test]
fn keyword() {
    assert_eq!(scan("and"), vec![Token::And]);
    assert_eq!(scan("and "), vec![Token::And]);
    assert_eq!(scan("ands"), vec![Token::Identifier("ands")]);
    assert_eq!(scan("class"), vec![Token::Class]);
    assert_eq!(scan("else"), vec![Token::Else]);
    assert_eq!(scan("false"), vec![Token::False]);
    assert_eq!(scan("for"), vec![Token::For]);
    assert_eq!(scan("fun"), vec![Token::Fun]);
    assert_eq!(scan("if"), vec![Token::If]);
    assert_eq!(scan("nil"), vec![Token::Nil]);
    assert_eq!(scan("or"), vec![Token::Or]);
    assert_eq!(scan("print"), vec![Token::Print]);
    assert_eq!(scan("return"), vec![Token::Return]);
    assert_eq!(scan("super"), vec![Token::Super]);
    assert_eq!(scan("this"), vec![Token::This]);
    assert_eq!(scan("true"), vec![Token::True]);
    assert_eq!(scan("var"), vec![Token::Var]);
    assert_eq!(scan("while"), vec![Token::While]);
    assert_eq!(scan("While"), vec![Token::Identifier("While")]);
}

#[test]
fn one_or_two_char_token_as_two_char_token() {
    assert_eq!(scan("!="), vec![Token::BangEqual]);
    assert_eq!(scan("=="), vec![Token::EqualEqual]);
    assert_eq!(scan(">="), vec![Token::GreaterEqual]);
    assert_eq!(scan("<="), vec![Token::LessEqual]);
    assert_eq!(scan("// comment"), vec![Token::Comment(" comment")]);
    assert_eq!(scan("// comment\n"), vec![Token::Comment(" comment")]);
    assert_eq!(scan("//"), vec![Token::Comment("")]);
    assert_eq!(scan("//\n"), vec![Token::Comment("")]);
    assert_eq!(scan("// "), vec![Token::Comment(" ")]);
    assert_eq!(scan("// \n"), vec![Token::Comment(" ")]);
}

#[test]
fn one_or_two_char_token_as_one_char_tokens() {
    assert_eq!(scan("! ="), vec![Token::Bang, Token::Equal]);
    assert_eq!(scan("= ="), vec![Token::Equal, Token::Equal]);
    assert_eq!(scan("> ="), vec![Token::Greater, Token::Equal]);
    assert_eq!(scan("< ="), vec![Token::Less, Token::Equal]);
    assert_eq!(scan("/ /"), vec![Token::Slash, Token::Slash]);
    assert_eq!(scan("!"), vec![Token::Bang]);
    assert_eq!(scan("<>"), vec![Token::Less, Token::Greater]);
}

#[test]
fn number() {
    assert_eq!(scan("1.2"), vec![Token::Number("1.2")]);
    assert_eq!(scan("1.2."), vec![Token::Number("1.2"), Token::Dot]);
    assert_eq!(scan(".2"), vec![Token::Number(".2")]);
    assert_eq!(scan("2"), vec![Token::Number("2")]);
    assert_eq!(scan("2."), vec![Token::Number("2"), Token::Dot]);
    assert_eq!(scan("12.50.75"), vec![Token::Number("12.50"), Token::Number(".75")]);
    assert_eq!(scan("2.x"), vec![Token::Number("2"), Token::Dot, Token::Identifier("x")]);
    assert_eq!(scan("007+8"), vec![Token::Number("007"), Token::Plus, Token::Number("8")]);
}

#[test]
fn number_text_is_a_number() {
    let values: Vec<f64> = scan("1.2 .2 2 45.67")
        .into_iter()
        .map(|token| match token {
            Token::Number(text) => text.parse().unwrap(),
            other => panic!("no number: {:?}", other),
        })
        .collect();
    assert_eq!(values, vec![1.2f64, 0.2f64, 2f64, 45.67f64]);
}

#[test]
fn unexpected_character_is_reported_again() {
    let mut scanner = Scanner::new(" \n@(");
    assert_eq!(
        scanner.next(),
        Some((
            Location { line: 2 },
            Err(ScannerError::UnexpectedCharacter('@'))
        ))
    );
    assert_eq!(
        scanner.next(),
        Some((
            Location { line: 2 },
            Err(ScannerError::UnexpectedCharacter('@'))
        ))
    );
}

#[test]
fn lines_are_counted_in_strings_and_comments() {
    let items = scan_all("\"a\nb\n\" x // c\ny \"\n");
    assert_eq!(
        items,
        vec![
            (Location { line: 1 }, Ok(Token::String("a\nb\n"))),
            (Location { line: 3 }, Ok(Token::Identifier("x"))),
            (Location { line: 3 }, Ok(Token::Comment(" c"))),
            (Location { line: 4 }, Ok(Token::Identifier("y"))),
            (Location { line: 4 }, Err(ScannerError::UnterminatedString)),
        ]
    );
}

#[test]
fn empty_and_blank_text_hold_no_token() {
    assert_eq!(scan_all(""), vec![]);
    assert_eq!(scan_all(" \t\r\n \n"), vec![]);
    let mut scanner = Scanner::new("  ");
    assert_eq!(scanner.next(), None);
    assert_eq!(scanner.next(), None);
}

#[test]
fn a_small_program() {
    assert_eq!(
        scan("var x = (1 + 2.5) * y;\nprint x >= 3;"),
        vec![
            Token::Var,
            Token::Identifier("x"),
            Token::Equal,
            Token::LeftParen,
            Token::Number("1"),
            Token::Plus,
            Token::Number("2.5"),
            Token::RightParen,
            Token::Star,
            Token::Identifier("y"),
            Token::Semicolon,
            Token::Print,
            Token::Identifier("x"),
            Token::GreaterEqual,
            Token::Number("3"),
            Token::Semicolon,
        ]
    );
}

#[test]
fn classify_follows_unicode() {
    assert_eq!(
        classify(' '),
        CharClass {
            whitespace: true,
            alphabetic: false,
            alphanumeric: false
        }
    );
    assert_eq!(
        classify('a'),
        CharClass {
            whitespace: false,
            alphabetic: true,
            alphanumeric: true
        }
    );
    assert_eq!(
        classify('7'),
        CharClass {
            whitespace: false,
            alphabetic: false,
            alphanumeric: true
        }
    );
    assert_eq!(
        classify('('),
        CharClass {
            whitespace: false,
            alphabetic: false,
            alphanumeric: false
        }
    );
    assert!(classify('\n').whitespace);
    assert!(classify('\u{a0}').whitespace);
    assert!(classify('\u{4eac}').alphabetic);
    assert!(!classify('_').alphanumeric);
    for c in ['\t', '\r', 'Z', '0', '.', '"', '\u{e9}', '\u{1f49d}', '\u{2028}'] {
        let class = classify(c);
        assert_eq!(class.whitespace, c.is_whitespace());
        assert_eq!(class.alphabetic, c.is_alphabetic());
        assert_eq!(class.alphanumeric, c.is_alphanumeric());
    }
}

#[test]
fn classify_text_classifies_each_character() {
    assert_eq!(classify_text(""), vec![]);
    assert_eq!(
        classify_text("a 1\u{e9}"),
        vec![classify('a'), classify(' '), classify('1'), classify('\u{e9}')]
    );
}

#[test]
fn scanner_follows_the_classes_it_is_given() {
    let word = CharClass {
        whitespace: false,
        alphabetic: true,
        alphanumeric: true,
    };
    let inner = CharClass {
        whitespace: false,
        alphabetic: false,
        alphanumeric: true,
    };
    let blank = CharClass {
        whitespace: true,
        alphabetic: false,
        alphanumeric: false,
    };
    let other = CharClass {
        whitespace: false,
        alphabetic: false,
        alphanumeric: false,
    };
    let mut scanner =
        Scanner::with_classes("a-b c", vec![word, inner, word, blank, word]).unwrap();
    assert_eq!(
        scanner.next(),
        Some((Location { line: 1 }, Ok(Token::Identifier("a-b"))))
    );
    assert_eq!(
        scanner.next(),
        Some((Location { line: 1 }, Ok(Token::Identifier("c"))))
    );
    assert_eq!(scanner.next(), None);

    let mut scanner = Scanner::with_classes("ab+", vec![other, blank, other]).unwrap();
    assert_eq!(
        scanner.next(),
        Some((
            Location { line: 1 },
            Err(ScannerError::UnexpectedCharacter('a'))
        ))
    );

    let same = Scanner::with_classes("x y", classify_text("x y"))
        .unwrap()
        .next();
    assert_eq!(same, Scanner::new("x y").next());
}

#[test]
fn scanner_needs_a_class_for_each_character() {
    let blank = CharClass {
        whitespace: true,
        alphabetic: false,
        alphanumeric: false,
    };
    assert!(Scanner::with_classes("ab", vec![blank]).is_none());
    assert!(Scanner::with_classes("", vec![blank]).is_none());
    assert!(Scanner::with_classes("\u{e9}", vec![blank]).is_some());
    assert!(Scanner::with_classes("", vec![]).is_some());
}
