use rs_tex::category::Category;
use rs_tex::lexer::Lexer;
use rs_tex::token::Token;

fn assert_lexes_to(lines: &[&str], expected_toks: &[Token]) {
    let mut lexer = Lexer::new(lines);
    let mut real_toks = Vec::new();
    while let Some(tok) = lexer.lex_token().unwrap() {
        real_toks.push(tok);
    }
    assert_eq!(expected_toks, &real_toks[..]);
}

#[test]
fn it_lexes_char_tokens() {
    assert_lexes_to(
        &["a%"],
        &[Token::Char('a', Category::Letter)]);
}

#[test]
fn it_lexes_multiple_tokens() {
    assert_lexes_to(
        &["ab%"],
        &[Token::Char('a', Category::Letter),
          Token::Char('b', Category::Letter)]);
}

#[test]
fn it_lexes_control_sequences() {
    assert_lexes_to(
        &["\\ab%"],
        &[Token::ControlSequence("ab".to_string())]);
    assert_lexes_to(
        &["\\@%"],
        &[Token::ControlSequence("@".to_string())]);
}

#[test]
fn it_ignores_ignored_tokens() {
    assert_lexes_to(
        &["a\u{0000}b%"],
        &[Token::Char('a', Category::Letter),
          Token::Char('b', Category::Letter)]);
}

#[test]
fn it_lexes_char_trigraphs() {
    assert_lexes_to(
        &["^^:%"],
        &[Token::Char('z', Category::Letter)]);
}

#[test]
fn it_lexes_trigraphs_recursively() {
    assert_lexes_to(
        &["^^\u{001e}^:%"],
        &[Token::Char('z', Category::Letter)]);
}

#[test]
fn it_lexes_hex_trigraphs() {
    // ^^7a is a valid hex trigraph which decodes to z
    assert_lexes_to(
        &["^^7a%"],
        &[Token::Char('z', Category::Letter)]);

    // g isn't a hex char, so ^^7g should be interpreted as a ^^7 trigraph
    // and the character g.
    assert_lexes_to(
        &["^^7g%"],
        &[Token::Char('w', Category::Letter),
          Token::Char('g', Category::Letter)]);
}

#[test]
fn it_ignores_leading_spaces() {
    assert_lexes_to(
        &["  a%"],
        &[Token::Char('a', Category::Letter)]);
}

#[test]
fn it_includes_trailing_spaces() {
    assert_lexes_to(
        &["a "],
        &[Token::Char('a', Category::Letter),
          Token::Char(' ', Category::Space)]);
}

#[test]
fn it_ignores_space_after_control_sequence() {
    assert_lexes_to(
        &["\\a \\abc \\  %"],
        &[Token::ControlSequence("a".to_string()),
          Token::ControlSequence("abc".to_string()),
          Token::ControlSequence(" ".to_string())]);
}

#[test]
fn it_condenses_multiple_spaces_into_one_space() {
    assert_lexes_to(
        &[" a  ", " a%"],
        &[Token::Char('a', Category::Letter),
          Token::Char(' ', Category::Space),
          Token::Char('a', Category::Letter)]);
}

#[test]
fn it_converts_double_newlines_to_pars() {
    assert_lexes_to(
        &["a%", "", "a%"],
        &[Token::Char('a', Category::Letter),
          Token::ControlSequence("par".to_string()),
          Token::Char('a', Category::Letter)]);
}

#[test]
fn it_ignores_comments() {
    assert_lexes_to(
        &["a%b"],
        &[Token::Char('a', Category::Letter)]);
}
