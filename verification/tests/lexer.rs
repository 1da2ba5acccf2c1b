use ncalc_rs::lexer::Lexer;
use ncalc_rs::token::Token;

#[test]
fn test_tokens() {
    let input = "()[]  abc 1234 xcvxcgf \"xyz\" \"\"  ";
    let mut lexer = Lexer::from_input(input);

    assert_eq!(Token::LParen, lexer.next().unwrap());
    assert_eq!(Token::RParen, lexer.next().unwrap());
    assert_eq!(Token::LBracket, lexer.next().unwrap());
    assert_eq!(Token::RBracket, lexer.next().unwrap());
    assert_eq!(Token::Ident("abc".to_string()), lexer.next().unwrap());
    assert_eq!(Token::IntLiteral(1234), lexer.next().unwrap());
    assert_eq!(Token::Ident("xcvxcgf".to_string()), lexer.next().unwrap());
    assert_eq!(Token::StringLiteral("xyz".to_string()), lexer.next().unwrap());
    assert_eq!(Token::StringLiteral("".to_string()), lexer.next().unwrap());
    assert_eq!(Some(Token::EOF), lexer.next());
    assert_eq!(None, lexer.next());
}

#[test]
fn test_number_tokens() {
    let tests = vec![
        ("123.4", Token::DoubleLiteral((123.4f64).to_bits())),
        ("1", Token::IntLiteral(1)),
        ("100", Token::IntLiteral(100)),
    ]
    .into_iter();

    for (input, expected) in tests {
        let mut lexer = Lexer::from_input(input);
        assert_eq!(expected, lexer.next().unwrap());
    }
}

#[test]
fn test_empty() {
    let input = "";
    let mut lexer = Lexer::from_input(input);
    assert_eq!(Token::EOF, lexer.next().unwrap());
}

#[test]
fn keywords_match_only_in_full() {
    let mut lexer = Lexer::from_input("not and or true false truex");
    assert_eq!(Token::Not, lexer.next().unwrap());
    assert_eq!(Token::And, lexer.next().unwrap());
    assert_eq!(Token::Or, lexer.next().unwrap());
    assert_eq!(Token::True, lexer.next().unwrap());
    assert_eq!(Token::False, lexer.next().unwrap());
    assert_eq!(Token::Ident("truex".to_string()), lexer.next().unwrap());
    assert_eq!(Token::EOF, lexer.next().unwrap());
}

#[test]
fn multi_character_operators() {
    let mut lexer = Lexer::from_input("== != <> <= >= < > && || ! % ,");
    assert_eq!(Token::Equals, lexer.next().unwrap());
    assert_eq!(Token::NotEquals, lexer.next().unwrap());
    assert_eq!(Token::NotEqualsAngleBrackets, lexer.next().unwrap());
    assert_eq!(Token::LessThanEqualTo, lexer.next().unwrap());
    assert_eq!(Token::GreaterThanEqualTo, lexer.next().unwrap());
    assert_eq!(Token::LessThan, lexer.next().unwrap());
    assert_eq!(Token::GreaterThan, lexer.next().unwrap());
    assert_eq!(Token::DoubleAmpersand, lexer.next().unwrap());
    assert_eq!(Token::DoublePipe, lexer.next().unwrap());
    assert_eq!(Token::Bang, lexer.next().unwrap());
    assert_eq!(Token::Percent, lexer.next().unwrap());
    assert_eq!(Token::Comma, lexer.next().unwrap());
    assert_eq!(Token::EOF, lexer.next().unwrap());
}

#[test]
fn illegal_single_characters() {
    // '=' alone is not an operator, and neither are lone '&' or '|'.
    for input in ["=", "&", "|", "#"] {
        let mut lexer = Lexer::from_input(input);
        assert_eq!(Token::Illegal, lexer.next().unwrap());
        assert_eq!(Token::EOF, lexer.next().unwrap());
    }
}

#[test]
fn string_escapes_are_decoded() {
    let mut lexer = Lexer::from_input("\"a\\nb\\tc\\rd\\\\e\\\"f\"");
    assert_eq!(
        Token::StringLiteral("a\nb\tc\rd\\e\"f".to_string()),
        lexer.next().unwrap()
    );
    assert_eq!(Token::EOF, lexer.next().unwrap());
}

#[test]
fn unterminated_string_is_illegal() {
    let mut lexer = Lexer::from_input("\"abc");
    assert_eq!(Token::Illegal, lexer.next().unwrap());
    assert_eq!(Token::EOF, lexer.next().unwrap());
}

#[test]
fn integer_literal_bounds() {
    let mut lexer = Lexer::from_input("9223372036854775807");
    assert_eq!(Token::IntLiteral(i64::MAX), lexer.next().unwrap());

    // One past the largest 64-bit signed value cannot be represented.
    let mut lexer = Lexer::from_input("9223372036854775808");
    assert_eq!(Token::Illegal, lexer.next().unwrap());
}

#[test]
fn malformed_number_is_illegal() {
    let mut lexer = Lexer::from_input("1.2.3");
    assert_eq!(Token::Illegal, lexer.next().unwrap());
    assert_eq!(Token::EOF, lexer.next().unwrap());
}
