use std::collections::HashMap;

use rs_tex::category::Category;
use rs_tex::makro::{Macro, MacroListElem};
use rs_tex::math_code::MathCode;
use rs_tex::parser::variable::{DimenVariable, GlueVariable, IntegerVariable};
use rs_tex::parser::Parser;
use rs_tex::state::{DimenParameter, GlueParameter, IntegerParameter, TeXState};
use rs_tex::token::Token;

fn with_parser<F: FnOnce(&mut Parser)>(lines: &[&str], f: F) {
    let state = TeXState::new();
    let mut parser = Parser::new(lines, state);
    f(&mut parser);
}

fn assert_parses_to_macro(lines: &[&str], expected_macro: Macro) {
    let mut parser = Parser::new(lines, TeXState::new());
    assert_eq!(
        Some(Token::ControlSequence("def".to_string())),
        parser.lex_unexpanded_token().unwrap()
    );
    assert_eq!(
        Some(Token::ControlSequence("a".to_string())),
        parser.lex_unexpanded_token().unwrap()
    );
    assert_eq!(expected_macro, parser.parse_macro_definition().unwrap());
    assert_eq!(None, parser.lex_unexpanded_token().unwrap());
}

fn assert_parses_to_replacements(
    lines: &[&str],
    macro_parameter_list: Vec<MacroListElem>,
    expected_replacements: Vec<(usize, Vec<Token>)>,
) {
    let mut parser = Parser::new(lines, TeXState::new());
    assert_eq!(
        parser.lex_unexpanded_token().unwrap(),
        Some(Token::ControlSequence("a".to_string()))
    );
    let makro = Macro::new(macro_parameter_list, Vec::new());
    let expected_replacement_map: HashMap<usize, Vec<Token>> =
        expected_replacements.into_iter().collect();
    let replacement_map = parser.parse_replacement_map(&makro).unwrap();
    assert_eq!(expected_replacement_map, replacement_map);
    assert_eq!(parser.lex_unexpanded_token().unwrap(), None);
}

fn try_parsing_replacements(lines: &[&str], macro_parameter_list: Vec<MacroListElem>) {
    let mut parser = Parser::new(lines, TeXState::new());
    assert_eq!(
        parser.lex_unexpanded_token().unwrap(),
        Some(Token::ControlSequence("a".to_string()))
    );
    let makro = Macro::new(macro_parameter_list, Vec::new());
    parser.parse_replacement_map(&makro).unwrap();
    assert_eq!(parser.lex_unexpanded_token().unwrap(), None);
}

#[test]
fn it_assigns_macros() {
    with_parser(&["\\def\\a #1x{#1y#1}%"], |parser| {
        parser.parse_assignment(None).unwrap();

        assert_eq!(
            parser
                .state
                .get_macro(&Token::ControlSequence("a".to_string()))
                .unwrap(),
            Macro::new(
                vec![
                    MacroListElem::Parameter(1),
                    MacroListElem::Token(Token::Char(
                        'x',
                        Category::Letter
                    )),
                ],
                vec![
                    MacroListElem::Parameter(1),
                    MacroListElem::Token(Token::Char(
                        'y',
                        Category::Letter
                    )),
                    MacroListElem::Parameter(1),
                ]
            )
        );
    });
}

#[test]
fn it_sets_global_defs() {
    with_parser(&["\\global\\def\\a{x}%"], |parser| {
        parser.state.push_state();
        assert!(parser.is_assignment_head().unwrap());
        parser.parse_assignment(None).unwrap();
        assert_eq!(parser.lex_unexpanded_token().unwrap(), None);
        parser.state.pop_state();

        assert_eq!(
            parser
                .state
                .get_macro(&Token::ControlSequence("a".to_string()))
                .unwrap(),
            Macro::new(
                vec![],
                vec![MacroListElem::Token(Token::Char(
                    'x',
                    Category::Letter
                )),]
            )
        );
    });
}

#[test]
fn it_assigns_lets_for_characters() {
    with_parser(&["\\let\\a=b%"], |parser| {
        parser.parse_assignment(None).unwrap();

        assert_eq!(
            parser.state.get_renamed_token(&Token::ControlSequence(
                "a".to_string()
            )),
            Some(Token::Char('b', Category::Letter))
        );
    });
}

#[test]
fn it_assigns_lets_for_previously_defined_macros() {
    with_parser(&["\\def\\a{x}%", "\\let\\b=\\a%"], |parser| {
        parser.parse_assignment(None).unwrap();
        parser.parse_assignment(None).unwrap();

        assert_eq!(
            parser
                .state
                .get_macro(&Token::ControlSequence("b".to_string()))
                .unwrap(),
            Macro::new(
                vec![],
                vec![MacroListElem::Token(Token::Char(
                    'x',
                    Category::Letter
                )),]
            )
        );
    });
}

#[test]
fn it_doesnt_assign_lets_for_active_tokens() {
    with_parser(&["\\let\\a=@%"], |parser| {
        parser.state.set_category(false, '@', Category::Active);
        parser.parse_assignment(None).unwrap();

        assert_eq!(
            parser.state.get_renamed_token(&Token::ControlSequence(
                "a".to_string()
            )),
            None
        );
    });
}

#[test]
fn it_assigns_lets_for_primitives() {
    with_parser(&["\\let\\a=\\def%"], |parser| {
        parser.parse_assignment(None).unwrap();

        assert!(parser.state.is_token_equal_to_prim(
            &Token::ControlSequence("a".to_string()),
            "def"
        ));
    });
}

#[test]
fn it_lets_let_be_let() {
    with_parser(&["\\let\\a=\\let%", "\\a\\x=y%"], |parser| {
        parser.parse_assignment(None).unwrap();
        parser.parse_assignment(None).unwrap();

        assert_eq!(
            parser.state.get_renamed_token(&Token::ControlSequence(
                "x".to_string()
            )),
            Some(Token::Char('y', Category::Letter))
        );
    });
}

#[test]
fn it_lets_def_be_let() {
    with_parser(&["\\let\\a=\\def%", "\\a\\x #1{#1}%"], |parser| {
        parser.parse_assignment(None).unwrap();
        parser.parse_assignment(None).unwrap();

        assert_eq!(
            parser
                .state
                .get_macro(&Token::ControlSequence("x".to_string()))
                .unwrap(),
            Macro::new(
                vec![MacroListElem::Parameter(1),],
                vec![MacroListElem::Parameter(1),]
            )
        );
    });
}

#[test]
fn it_sets_global_lets() {
    with_parser(&["\\global\\let\\a=b%"], |parser| {
        parser.state.push_state();
        parser.parse_assignment(None).unwrap();
        parser.state.pop_state();

        assert_eq!(
            parser.state.get_renamed_token(&Token::ControlSequence(
                "a".to_string()
            )),
            Some(Token::Char('b', Category::Letter))
        );
    });
}

#[test]
fn it_sets_count_variables() {
    with_parser(
        &["\\count0=2%", "\\count100 -12345%", "\\count10=\\count100%"],
        |parser| {
            parser.parse_assignment(None).unwrap();
            parser.parse_assignment(None).unwrap();
            parser.parse_assignment(None).unwrap();

            assert_eq!(parser.state.get_count(0), 2);
            assert_eq!(parser.state.get_count(100), -12345);
            assert_eq!(parser.state.get_count(10), -12345);
        },
    );
}

#[test]
fn it_sets_count_variables_globally() {
    with_parser(&["\\global\\count0=2%"], |parser| {
        parser.state.push_state();
        parser.parse_assignment(None).unwrap();
        parser.state.pop_state();

        assert_eq!(parser.state.get_count(0), 2);
    });
}

#[test]
fn it_parses_arithmetic() {
    with_parser(
        &[
            "\\count0=150%",
            "\\count1=5%",
            "\\advance\\count0 by7%",
            "\\multiply\\count1 by2%",
            "\\divide\\count0 by\\count1%",
        ],
        |parser| {
            parser.parse_assignment(None).unwrap();
            parser.parse_assignment(None).unwrap();

            assert_eq!(parser.state.get_count(0), 150);
            assert_eq!(parser.state.get_count(1), 5);

            assert!(parser.is_assignment_head().unwrap());
            parser.parse_assignment(None).unwrap();
            assert_eq!(parser.state.get_count(0), 157);

            assert!(parser.is_assignment_head().unwrap());
            parser.parse_assignment(None).unwrap();
            assert_eq!(parser.state.get_count(1), 10);

            assert!(parser.is_assignment_head().unwrap());
            parser.parse_assignment(None).unwrap();
            assert_eq!(parser.state.get_count(0), 15);
        },
    );
}

#[test]
fn it_sets_mathchardefs() {
    with_parser(
        &[
            r#"\mathchardef\x"7161%"#,
            r"\mathchardef\y=1234%",
            r"\def\a{=}\mathchardef\z\a7161%",
            r"\x\y\z%",
        ],
        |parser| {
            assert!(parser.is_assignment_head().unwrap());
            parser.parse_assignment(None).unwrap();

            assert!(parser.is_assignment_head().unwrap());
            parser.parse_assignment(None).unwrap();

            assert!(parser.is_assignment_head().unwrap());
            parser.parse_assignment(None).unwrap();
            assert!(parser.is_assignment_head().unwrap());
            parser.parse_assignment(None).unwrap();

            let x = parser.parse_unexpanded_control_sequence().unwrap();
            let y = parser.parse_unexpanded_control_sequence().unwrap();
            let z = parser.parse_unexpanded_control_sequence().unwrap();

            assert_eq!(
                parser.state.get_math_chardef(&x),
                Some(MathCode::from_number(0x7161))
            );
            assert_eq!(
                parser.state.get_math_chardef(&y),
                Some(MathCode::from_number(1234))
            );
            assert_eq!(
                parser.state.get_math_chardef(&z),
                Some(MathCode::from_number(7161))
            );
        },
    );
}

#[test]
fn it_sets_mathcodes() {
    with_parser(
        &[r#"\mathcode`*="2203%"#, r#"\mathcode`<="313C%"#],
        |parser| {
            assert!(parser.is_assignment_head().unwrap());
            parser.parse_assignment(None).unwrap();

            assert!(parser.is_assignment_head().unwrap());
            parser.parse_assignment(None).unwrap();

            assert_eq!(
                parser.state.get_math_code('*'),
                MathCode::from_number(0x2203)
            );
            assert_eq!(
                parser.state.get_math_code('<'),
                MathCode::from_number(0x313C)
            );
        },
    );
}

#[test]
fn it_parses_single_body_iftrue() {
    with_parser(&["\\iftrue x\\fi%"], |parser| {
        assert_eq!(parser.is_conditional_head().unwrap(), true);
        parser.expand_conditional().unwrap();
        assert_eq!(
            parser.lex_unexpanded_token().unwrap(),
            Some(Token::Char('x', Category::Letter))
        );
        assert_eq!(parser.is_conditional_head().unwrap(), true);
        parser.expand_conditional().unwrap();
        assert_eq!(parser.lex_unexpanded_token().unwrap(), None);
    });
}

#[test]
fn it_parses_iftrue_with_else() {
    with_parser(&["\\iftrue x\\else y\\fi%"], |parser| {
        assert_eq!(parser.is_conditional_head().unwrap(), true);
        parser.expand_conditional().unwrap();
        assert_eq!(
            parser.lex_unexpanded_token().unwrap(),
            Some(Token::Char('x', Category::Letter))
        );
        assert_eq!(parser.is_conditional_head().unwrap(), true);
        parser.expand_conditional().unwrap();
        assert_eq!(parser.lex_unexpanded_token().unwrap(), None);
    });
}

#[test]
fn it_parses_single_body_iffalse() {
    with_parser(&["\\iffalse x\\fi%"], |parser| {
        assert_eq!(parser.is_conditional_head().unwrap(), true);
        parser.expand_conditional().unwrap();
        assert_eq!(parser.lex_unexpanded_token().unwrap(), None);
    });
}

#[test]
fn it_parses_iffalse_with_else() {
    with_parser(&["\\iffalse x\\else y\\fi%"], |parser| {
        assert_eq!(parser.is_conditional_head().unwrap(), true);
        parser.expand_conditional().unwrap();
        assert_eq!(
            parser.lex_unexpanded_token().unwrap(),
            Some(Token::Char('y', Category::Letter))
        );
        assert_eq!(parser.is_conditional_head().unwrap(), true);
        parser.expand_conditional().unwrap();
        assert_eq!(parser.lex_unexpanded_token().unwrap(), None);
    });
}

#[test]
fn it_expand_macros_in_true_bodies_but_not_false_bodies() {
    with_parser(&["\\iftrue w\\a\\b\\fi%"], |parser| {
        parser.state.set_macro(
            false,
            &Token::ControlSequence("a".to_string()),
            &Macro::new(
                vec![],
                vec![
                    MacroListElem::Token(Token::Char(
                        'x',
                        Category::Letter,
                    )),
                    MacroListElem::Token(Token::ControlSequence(
                        "else".to_string(),
                    )),
                    MacroListElem::Token(Token::Char(
                        'y',
                        Category::Letter,
                    )),
                ],
            ),
        );
        parser.state.set_macro(
            false,
            &Token::ControlSequence("b".to_string()),
            &Macro::new(
                vec![],
                vec![
                    MacroListElem::Token(Token::Char(
                        'z',
                        Category::Letter,
                    )),
                    MacroListElem::Token(Token::ControlSequence(
                        "fi".to_string(),
                    )),
                ],
            ),
        );

        assert_eq!(parser.is_conditional_head().unwrap(), true);
        parser.expand_conditional().unwrap();
        assert_eq!(
            parser.lex_expanded_token().unwrap(),
            Some(Token::Char('w', Category::Letter))
        );
        assert_eq!(
            parser.lex_expanded_token().unwrap(),
            Some(Token::Char('x', Category::Letter))
        );
        assert_eq!(parser.is_conditional_head().unwrap(), true);
        parser.expand_conditional().unwrap();
        assert_eq!(parser.lex_unexpanded_token().unwrap(), None);
    });
}

#[test]
fn it_allows_conditional_primitives_to_be_let() {
    with_parser(
        &["\\iftruex a\\elsex b\\fix%", "\\iffalsex a\\elsex b\\fix%"],
        |parser| {
            parser.state.set_let(
                false,
                &Token::ControlSequence("iftruex".to_string()),
                &Token::ControlSequence("iftrue".to_string()),
            );
            parser.state.set_let(
                false,
                &Token::ControlSequence("iffalsex".to_string()),
                &Token::ControlSequence("iffalse".to_string()),
            );
            parser.state.set_let(
                false,
                &Token::ControlSequence("fix".to_string()),
                &Token::ControlSequence("fi".to_string()),
            );
            parser.state.set_let(
                false,
                &Token::ControlSequence("elsex".to_string()),
                &Token::ControlSequence("else".to_string()),
            );

            assert_eq!(parser.is_conditional_head().unwrap(), true);
            parser.expand_conditional().unwrap();
            assert_eq!(
                parser.lex_expanded_token().unwrap(),
                Some(Token::Char('a', Category::Letter))
            );
            assert_eq!(parser.is_conditional_head().unwrap(), true);
            parser.expand_conditional().unwrap();

            assert_eq!(parser.is_conditional_head().unwrap(), true);
            parser.expand_conditional().unwrap();
            assert_eq!(
                parser.lex_expanded_token().unwrap(),
                Some(Token::Char('b', Category::Letter))
            );
            assert_eq!(parser.is_conditional_head().unwrap(), true);
            parser.expand_conditional().unwrap();
            assert_eq!(parser.lex_unexpanded_token().unwrap(), None);
        },
    );
}

#[test]
fn it_parses_ifnum() {
    with_parser(
        &[
            "\\ifnum1<2 t\\else f\\fi%",
            "\\ifnum1>2 t\\else f\\fi%",
            "\\ifnum1=2 t\\else f\\fi%",
        ],
        |parser| {
            // 1<2 -> t
            assert_eq!(parser.is_conditional_head().unwrap(), true);
            parser.expand_conditional().unwrap();
            assert_eq!(
                parser.lex_expanded_token().unwrap(),
                Some(Token::Char('t', Category::Letter))
            );
            assert_eq!(parser.is_conditional_head().unwrap(), true);
            parser.expand_conditional().unwrap();

            // 1>2 -> f
            assert_eq!(parser.is_conditional_head().unwrap(), true);
            parser.expand_conditional().unwrap();
            assert_eq!(
                parser.lex_expanded_token().unwrap(),
                Some(Token::Char('f', Category::Letter))
            );
            assert_eq!(parser.is_conditional_head().unwrap(), true);
            parser.expand_conditional().unwrap();

            // 1=2 -> f
            assert_eq!(parser.is_conditional_head().unwrap(), true);
            parser.expand_conditional().unwrap();
            assert_eq!(
                parser.lex_expanded_token().unwrap(),
                Some(Token::Char('f', Category::Letter))
            );
            assert_eq!(parser.is_conditional_head().unwrap(), true);
            parser.expand_conditional().unwrap();
        },
    );
}

#[test]
fn it_allows_spaces_in_ifnum() {
    with_parser(&["\\ifnum 1       <      2      t\\fi%"], |parser| {
        parser.expand_conditional().unwrap();
        assert_eq!(
            parser.lex_expanded_token().unwrap(),
            Some(Token::Char('t', Category::Letter))
        );
        parser.expand_conditional().unwrap();
    });
}

#[test]
fn it_parses_count_variables_in_ifnum() {
    with_parser(
        &["\\ifnum \\count0 < \\count1 t\\else f\\fi%"],
        |parser| {
            parser.state.set_count(false, 0, 10);
            parser.state.set_count(false, 1, 20);

            // 10<20 -> t
            assert_eq!(parser.is_conditional_head().unwrap(), true);
            parser.expand_conditional().unwrap();
            assert_eq!(
                parser.lex_expanded_token().unwrap(),
                Some(Token::Char('t', Category::Letter))
            );
            assert_eq!(parser.is_conditional_head().unwrap(), true);
            parser.expand_conditional().unwrap();
        },
    );
}

#[test]
fn it_handles_ifs_inside_of_ifs() {
    with_parser(
        &[
            "\\iftrue \\iftrue x\\fi \\fi%",
            "\\iffalse \\iftrue x\\fi \\fi%",
            "\\iftrue x\\else \\iftrue x\\fi \\fi%",
            "\\iffalse x\\else \\iftrue x\\fi \\fi%",
        ],
        |parser| {
            // true inside true
            assert!(parser.is_conditional_head().unwrap());
            parser.expand_conditional().unwrap();
            assert!(parser.is_conditional_head().unwrap());
            parser.expand_conditional().unwrap();
            assert_eq!(
                parser.lex_unexpanded_token().unwrap(),
                Some(Token::Char('x', Category::Letter))
            );
            assert!(parser.is_conditional_head().unwrap());
            parser.expand_conditional().unwrap();
            assert!(parser.is_conditional_head().unwrap());
            parser.expand_conditional().unwrap();

            // true inside false
            parser.expand_conditional().unwrap();

            // true inside else of true
            assert!(parser.is_conditional_head().unwrap());
            parser.expand_conditional().unwrap();
            assert_eq!(
                parser.lex_unexpanded_token().unwrap(),
                Some(Token::Char('x', Category::Letter))
            );
            assert!(parser.is_conditional_head().unwrap());
            parser.expand_conditional().unwrap();
            assert!(parser.is_conditional_head().unwrap());

            // true inside else of false
            assert!(parser.is_conditional_head().unwrap());
            parser.expand_conditional().unwrap();
            assert!(parser.is_conditional_head().unwrap());
            parser.expand_conditional().unwrap();
            assert_eq!(
                parser.lex_unexpanded_token().unwrap(),
                Some(Token::Char('x', Category::Letter))
            );
            assert!(parser.is_conditional_head().unwrap());
            parser.expand_conditional().unwrap();
            assert!(parser.is_conditional_head().unwrap());
            parser.expand_conditional().unwrap();
        },
    );
}

#[test]
fn it_lexes_tokens() {
    with_parser(&["a%"], |parser| {
        assert_eq!(
            parser.lex_unexpanded_token().unwrap(),
            Some(Token::Char('a', Category::Letter))
        );
    });
}

#[test]
fn it_peeks_tokens() {
    with_parser(&["a%"], |parser| {
        assert_eq!(
            parser.peek_unexpanded_token().unwrap(),
            Some(Token::Char('a', Category::Letter))
        );
        assert_eq!(
            parser.lex_unexpanded_token().unwrap(),
            Some(Token::Char('a', Category::Letter))
        );
    });
}

#[test]
fn it_expands_macros() {
    with_parser(&["\\a{ab}%"], |parser| {
        parser.state.set_macro(
            false,
            &Token::ControlSequence("a".to_string()),
            &Macro::new(
                vec![MacroListElem::Parameter(1)],
                vec![
                    MacroListElem::Token(Token::Char(
                        'x',
                        Category::Letter,
                    )),
                    MacroListElem::Parameter(1),
                    MacroListElem::Parameter(1),
                ],
            ),
        );

        assert_eq!(
            parser.lex_expanded_token().unwrap(),
            Some(Token::Char('x', Category::Letter))
        );
        assert_eq!(
            parser.lex_expanded_token().unwrap(),
            Some(Token::Char('a', Category::Letter))
        );
        assert_eq!(
            parser.lex_expanded_token().unwrap(),
            Some(Token::Char('b', Category::Letter))
        );
        assert_eq!(
            parser.lex_expanded_token().unwrap(),
            Some(Token::Char('a', Category::Letter))
        );
        assert_eq!(
            parser.lex_expanded_token().unwrap(),
            Some(Token::Char('b', Category::Letter))
        );
    });
}

#[test]
fn it_expands_conditionals() {
    with_parser(&["\\iftrue x\\else y\\fi%"], |parser| {
        assert_eq!(
            parser.lex_expanded_token().unwrap(),
            Some(Token::Char('x', Category::Letter))
        );
        assert_eq!(parser.lex_expanded_token().unwrap(), None,);
    });
}

#[test]
fn it_peeks_expanded_tokens() {
    with_parser(&["\\a b%"], |parser| {
        parser.state.set_macro(
            false,
            &Token::ControlSequence("a".to_string()),
            &Macro::new(
                vec![],
                vec![MacroListElem::Token(Token::Char(
                    'x',
                    Category::Letter,
                ))],
            ),
        );

        assert_eq!(
            parser.peek_expanded_token().unwrap(),
            Some(Token::Char('x', Category::Letter))
        );
        assert_eq!(
            parser.lex_expanded_token().unwrap(),
            Some(Token::Char('x', Category::Letter))
        );
        assert_eq!(
            parser.peek_expanded_token().unwrap(),
            Some(Token::Char('b', Category::Letter))
        );
        assert_eq!(
            parser.lex_expanded_token().unwrap(),
            Some(Token::Char('b', Category::Letter))
        );
    });
}

#[test]
fn it_prints_numbers() {
    with_parser(&["\\count1=-100 %", "\\number\\count1%"], |parser| {
        parser.parse_assignment(None).unwrap();
        assert_eq!(
            parser.lex_expanded_token().unwrap(),
            Some(Token::Char('-', Category::Other))
        );
        assert_eq!(
            parser.lex_expanded_token().unwrap(),
            Some(Token::Char('1', Category::Other))
        );
        assert_eq!(
            parser.lex_expanded_token().unwrap(),
            Some(Token::Char('0', Category::Other))
        );
        assert_eq!(
            parser.lex_expanded_token().unwrap(),
            Some(Token::Char('0', Category::Other))
        );
    });
}

#[test]
    fn it_parses_empty_macros() {
        assert_parses_to_macro(&["\\def\\a{}%"], Macro::new(Vec::new(), Vec::new()));
    }

#[test]
    fn it_parses_parameters() {
        assert_parses_to_macro(
            &["\\def\\a#1#2{#1#2}%"],
            Macro::new(
                vec![MacroListElem::Parameter(1), MacroListElem::Parameter(2)],
                vec![MacroListElem::Parameter(1), MacroListElem::Parameter(2)],
            ),
        );
    }

#[test]
    fn it_parses_tokens() {
        assert_parses_to_macro(
            &["\\def\\a ab{ab}%"],
            Macro::new(
                vec![
                    MacroListElem::Token(Token::Char('a', Category::Letter)),
                    MacroListElem::Token(Token::Char('b', Category::Letter)),
                ],
                vec![
                    MacroListElem::Token(Token::Char('a', Category::Letter)),
                    MacroListElem::Token(Token::Char('b', Category::Letter)),
                ],
            ),
        );
    }

#[test]
    fn it_handles_double_parameter_tokens() {
        assert_parses_to_macro(
            &["\\def\\a{##}%"],
            Macro::new(
                vec![],
                vec![MacroListElem::Token(Token::Char('#', Category::Parameter))],
            ),
        );
    }

#[test]
    fn it_handles_final_parameter_special_cases() {
        assert_parses_to_macro(
            &["\\def\\a a#{}%"],
            Macro::new(
                vec![
                    MacroListElem::Token(Token::Char('a', Category::Letter)),
                    MacroListElem::Token(Token::Char('{', Category::BeginGroup)),
                ],
                vec![MacroListElem::Token(Token::Char('{', Category::BeginGroup))],
            ),
        );
    }

#[test]
    fn it_parses_single_tokens_for_parameters() {
        assert_parses_to_replacements(
            &["\\a x%"],
            vec![MacroListElem::Parameter(1)],
            vec![(1, vec![Token::Char('x', Category::Letter)])],
        );
    }

#[test]
    fn it_parses_balanced_tokens_for_parameters() {
        assert_parses_to_replacements(
            &["\\a {xy}%"],
            vec![MacroListElem::Parameter(1)],
            vec![(
                1,
                vec![
                    Token::Char('x', Category::Letter),
                    Token::Char('y', Category::Letter),
                ],
            )],
        );

        assert_parses_to_replacements(
            &["\\a {w{x{y}}z}%"],
            vec![MacroListElem::Parameter(1)],
            vec![(
                1,
                vec![
                    Token::Char('w', Category::Letter),
                    Token::Char('{', Category::BeginGroup),
                    Token::Char('x', Category::Letter),
                    Token::Char('{', Category::BeginGroup),
                    Token::Char('y', Category::Letter),
                    Token::Char('}', Category::EndGroup),
                    Token::Char('}', Category::EndGroup),
                    Token::Char('z', Category::Letter),
                ],
            )],
        );
    }

#[test]
    fn it_succeeds_parsing_when_tokens_match_parameters() {
        try_parsing_replacements(
            &["\\a x\\y%"],
            vec![
                MacroListElem::Token(Token::Char('x', Category::Letter)),
                MacroListElem::Token(Token::ControlSequence("y".to_string())),
            ],
        );
    }

#[test]
    fn it_ignores_spaces_when_parsing_undelimited_parameters() {
        assert_parses_to_replacements(
            &["\\a x      y%"],
            vec![
                MacroListElem::Token(Token::Char('x', Category::Letter)),
                MacroListElem::Parameter(1),
            ],
            vec![(1, vec![Token::Char('y', Category::Letter)])],
        );
    }

#[test]
    fn it_parses_delimited_tokens() {
        // Test that it succeeds when the delimiters match immediately
        assert_parses_to_replacements(
            &["\\a x%"],
            vec![
                MacroListElem::Parameter(1),
                MacroListElem::Token(Token::Char('x', Category::Letter)),
            ],
            vec![(1, vec![])],
        );

        // Test that it succeeds when the delimiters match after some
        // non-matching tokens
        assert_parses_to_replacements(
            &["\\a zyx%"],
            vec![
                MacroListElem::Parameter(1),
                MacroListElem::Token(Token::Char('x', Category::Letter)),
            ],
            vec![(
                1,
                vec![
                    Token::Char('z', Category::Letter),
                    Token::Char('y', Category::Letter),
                ],
            )],
        );

        // Test that it succeeds when the delimiters match after a balanced
        // group
        assert_parses_to_replacements(
            &["\\a {x}yx%"],
            vec![
                MacroListElem::Parameter(1),
                MacroListElem::Token(Token::Char('x', Category::Letter)),
            ],
            vec![(
                1,
                vec![
                    Token::Char('{', Category::BeginGroup),
                    Token::Char('x', Category::Letter),
                    Token::Char('}', Category::EndGroup),
                    Token::Char('y', Category::Letter),
                ],
            )],
        );

        // Test that it succeeds when there are multiple delimiters
        assert_parses_to_replacements(
            &["\\a xyzw%"],
            vec![
                MacroListElem::Parameter(1),
                MacroListElem::Token(Token::Char('z', Category::Letter)),
                MacroListElem::Token(Token::Char('w', Category::Letter)),
            ],
            vec![(
                1,
                vec![
                    Token::Char('x', Category::Letter),
                    Token::Char('y', Category::Letter),
                ],
            )],
        );

        // Test that it succeeds when there are other tokens that match the
        // start of the delimiter.
        assert_parses_to_replacements(
            &["\\a xaxabxabc%"],
            vec![
                MacroListElem::Parameter(1),
                MacroListElem::Token(Token::Char('a', Category::Letter)),
                MacroListElem::Token(Token::Char('b', Category::Letter)),
                MacroListElem::Token(Token::Char('c', Category::Letter)),
            ],
            vec![(
                1,
                vec![
                    Token::Char('x', Category::Letter),
                    Token::Char('a', Category::Letter),
                    Token::Char('x', Category::Letter),
                    Token::Char('a', Category::Letter),
                    Token::Char('b', Category::Letter),
                    Token::Char('x', Category::Letter),
                ],
            )],
        );
    }

#[test]
    fn it_parses_multiple_parameters() {
        assert_parses_to_replacements(
            &["\\a x a{x}yx {z\\w}%"],
            vec![
                MacroListElem::Token(Token::Char('x', Category::Letter)),
                MacroListElem::Parameter(1),
                MacroListElem::Parameter(2),
                MacroListElem::Token(Token::Char('x', Category::Letter)),
                MacroListElem::Parameter(3),
            ],
            vec![
                (1, vec![Token::Char('a', Category::Letter)]),
                (
                    2,
                    vec![
                        Token::Char('{', Category::BeginGroup),
                        Token::Char('x', Category::Letter),
                        Token::Char('}', Category::EndGroup),
                        Token::Char('y', Category::Letter),
                    ],
                ),
                (
                    3,
                    vec![
                        Token::Char('z', Category::Letter),
                        Token::ControlSequence("w".to_string()),
                    ],
                ),
            ],
        );
    }

#[test]
    fn it_handles_macros_with_begin_groups() {
        assert_parses_to_replacements(
            &["\\a xabc{%"],
            vec![
                MacroListElem::Token(Token::Char('x', Category::Letter)),
                MacroListElem::Parameter(1),
                MacroListElem::Token(Token::Char('{', Category::BeginGroup)),
            ],
            vec![(
                1,
                vec![
                    Token::Char('a', Category::Letter),
                    Token::Char('b', Category::Letter),
                    Token::Char('c', Category::Letter),
                ],
            )],
        );

        try_parsing_replacements(
            &["\\a x{%"],
            vec![
                MacroListElem::Token(Token::Char('x', Category::Letter)),
                MacroListElem::Token(Token::Char('{', Category::BeginGroup)),
            ],
        );
    }

#[test]
fn it_parses_math_symbols() {
    with_parser(&["a2*%"], |parser| {
        assert_eq!(
            parser.parse_math_symbol().unwrap(),
            MathCode::from_number(0x7161)
        );
        assert_eq!(
            parser.parse_math_symbol().unwrap(),
            MathCode::from_number(0x7032)
        );
        assert_eq!(
            parser.parse_math_symbol().unwrap(),
            MathCode::from_number(0x002a)
        );
    });
}

#[test]
fn it_parses_math_symbols_from_chardefs() {
    with_parser(&[r"\let\x=z%", r"\x%"], |parser| {
        parser.parse_assignment(None).unwrap();

        assert_eq!(
            parser.parse_math_symbol().unwrap(),
            MathCode::from_number(0x717a)
        );
    });
}

#[test]
fn it_parses_8bit_numbers() {
    with_parser(&["0 %", "255 %", "-+-  123 %"], |parser| {
        assert_eq!(parser.parse_8bit_number().unwrap(), 0);
        assert_eq!(parser.parse_8bit_number().unwrap(), 255);
        assert_eq!(parser.parse_8bit_number().unwrap(), 123);
    });
}

#[test]
fn it_parses_numbers_from_variables() {
    with_parser(&["\\count10%"], |parser| {
        parser.state.set_count(false, 10, 1234);
        assert_eq!(parser.parse_number().unwrap(), 1234);
    });
}

#[test]
fn it_parses_negative_integer_variables() {
    with_parser(&["-\\count10%"], |parser| {
        parser.state.set_count(false, 10, 1234);
        assert_eq!(parser.parse_number().unwrap(), -1234);
    });
}

#[test]
fn it_parses_hexadecimal_numbers() {
    with_parser(&[r#""0"#, r#""1289"#, r#""ABEF"#, r#""F0F"#], |parser| {
        assert_eq!(parser.parse_number().unwrap(), 0x0);
        assert_eq!(parser.parse_number().unwrap(), 0x1289);
        assert_eq!(parser.parse_number().unwrap(), 0xABEF);
        assert_eq!(parser.parse_number().unwrap(), 0xF0F);
    });
}

#[test]
fn it_parses_character_number_constants() {
    with_parser(&[r"`A%", r"`z%", r"`\a%", r"`\%%", r"`!%"], |parser| {
        parser.state.set_category(false, '!', Category::Active);

        assert_eq!(parser.parse_number().unwrap(), 65);
        assert_eq!(parser.parse_number().unwrap(), 122);
        assert_eq!(parser.parse_number().unwrap(), 97);
        assert_eq!(parser.parse_number().unwrap(), 37);
        assert_eq!(parser.parse_number().unwrap(), 33);
    });
}

#[test]
fn it_parses_multiple_signs() {
    with_parser(&["-- --  - %"], |parser| {
        assert_eq!(parser.parse_optional_signs().unwrap(), -1);
    });
    with_parser(&["-%"], |parser| {
        assert_eq!(parser.parse_optional_signs().unwrap(), -1);
    });
    with_parser(&["-  - -- %"], |parser| {
        assert_eq!(parser.parse_optional_signs().unwrap(), 1);
    });
}

#[test]
fn it_parses_an_optional_space() {
    // Testing a single, unexpanded optional space
    with_parser(&["a aa%"], |parser| {
        assert_eq!(
            parser.lex_unexpanded_token().unwrap(),
            Some(Token::Char('a', Category::Letter))
        );
        parser.parse_optional_space_unexpanded().unwrap();
        assert_eq!(
            parser.lex_unexpanded_token().unwrap(),
            Some(Token::Char('a', Category::Letter))
        );
        parser.parse_optional_space_unexpanded().unwrap();
        assert_eq!(
            parser.lex_unexpanded_token().unwrap(),
            Some(Token::Char('a', Category::Letter))
        );
    });

    // Now with an expanded space
    with_parser(&["\\def\\x{ }%", "a a\\x aa%"], |parser| {
        parser.parse_assignment(None).unwrap();

        assert_eq!(
            parser.lex_expanded_token().unwrap(),
            Some(Token::Char('a', Category::Letter))
        );
        parser.parse_optional_space_expanded().unwrap();
        assert_eq!(
            parser.lex_expanded_token().unwrap(),
            Some(Token::Char('a', Category::Letter))
        );
        parser.parse_optional_space_expanded().unwrap();
        assert_eq!(
            parser.lex_expanded_token().unwrap(),
            Some(Token::Char('a', Category::Letter))
        );
        parser.parse_optional_space_expanded().unwrap();
        assert_eq!(
            parser.lex_expanded_token().unwrap(),
            Some(Token::Char('a', Category::Letter))
        );
    });
}

#[test]
fn it_parses_optional_spaces() {
    // Testing multiple optional unexpanded spaces (kinda, except that it's
    // hard to get multiple spaces in a row because they don't come out of
    // the lexer, so we only test one space).
    with_parser(&["a aa%"], |parser| {
        assert_eq!(
            parser.lex_unexpanded_token().unwrap(),
            Some(Token::Char('a', Category::Letter))
        );
        parser.parse_optional_spaces_unexpanded().unwrap();
        assert_eq!(
            parser.lex_unexpanded_token().unwrap(),
            Some(Token::Char('a', Category::Letter))
        );
        parser.parse_optional_spaces_unexpanded().unwrap();
        assert_eq!(
            parser.lex_unexpanded_token().unwrap(),
            Some(Token::Char('a', Category::Letter))
        );
    });

    // Testing multiple optional expanded spaces
    with_parser(&["\\def\\x{ }%", "aa a \\x a\\x\\x a%"], |parser| {
        parser.parse_assignment(None).unwrap();

        assert_eq!(
            parser.lex_expanded_token().unwrap(),
            Some(Token::Char('a', Category::Letter))
        );
        parser.parse_optional_spaces_expanded().unwrap();
        assert_eq!(
            parser.lex_expanded_token().unwrap(),
            Some(Token::Char('a', Category::Letter))
        );
        parser.parse_optional_spaces_expanded().unwrap();
        assert_eq!(
            parser.lex_expanded_token().unwrap(),
            Some(Token::Char('a', Category::Letter))
        );
        parser.parse_optional_spaces_expanded().unwrap();
        assert_eq!(
            parser.lex_expanded_token().unwrap(),
            Some(Token::Char('a', Category::Letter))
        );
        parser.parse_optional_spaces_expanded().unwrap();
        assert_eq!(
            parser.lex_expanded_token().unwrap(),
            Some(Token::Char('a', Category::Letter))
        );
    });
}

#[test]
fn it_parses_equals_signs() {
    with_parser(&["a=a  =a%"], |parser| {
        assert_eq!(
            parser.lex_unexpanded_token().unwrap(),
            Some(Token::Char('a', Category::Letter))
        );
        parser.parse_equals_unexpanded().unwrap();
        assert_eq!(
            parser.lex_unexpanded_token().unwrap(),
            Some(Token::Char('a', Category::Letter))
        );
        parser.parse_equals_unexpanded().unwrap();
        assert_eq!(
            parser.lex_unexpanded_token().unwrap(),
            Some(Token::Char('a', Category::Letter))
        );
    });
}

#[test]
fn it_parses_optional_keywords() {
    with_parser(&["   by    pt   TrUe%"], |parser| {
        assert_eq!(parser.parse_optional_keyword_expanded("by").unwrap(), true);

        assert_eq!(parser.parse_optional_keyword_expanded("by").unwrap(), false);
        assert_eq!(parser.parse_optional_keyword_expanded("pc").unwrap(), false);
        assert_eq!(parser.parse_optional_keyword_expanded("pt").unwrap(), true);

        assert_eq!(parser.parse_optional_keyword_expanded("pt").unwrap(), false);
        assert_eq!(parser.parse_optional_keyword_expanded("trust").unwrap(), false);
        assert_eq!(parser.parse_optional_keyword_expanded("true").unwrap(), true);
    });
}

#[test]
fn it_parses_required_keywords() {
    with_parser(&[" pt  minus  fillll%"], |parser| {
        parser.parse_keyword_expanded("pt").unwrap();
        parser.parse_keyword_expanded("minus").unwrap();
        parser.parse_keyword_expanded("fillll").unwrap();
    });
}

#[test]
fn it_fetches_renamed_tokens() {
    with_parser(&[r"\let\bgroup={%", r"\bgroup"], |parser| {
        parser.parse_assignment(None).unwrap();

        let unreplaced = parser.lex_unexpanded_token().unwrap();
        assert_eq!(
            parser.replace_renamed_token(unreplaced),
            Some(Token::Char('{', Category::BeginGroup))
        );
    });
}

#[test]
fn it_expands_numbers() {
    with_parser(
        &[
            "\\number0 %",
            "\\number12345 %",
            "\\number-1 %",
            "\\number\\count1%",
        ],
        |parser| {
            parser.state.set_count(false, 1, 123);

            // 0
            assert!(parser.is_print_head().unwrap());
            assert_eq!(
                parser.expand_print().unwrap(),
                vec![Token::Char('0', Category::Other)]
            );

            // 12345
            assert!(parser.is_print_head().unwrap());
            assert_eq!(
                parser.expand_print().unwrap(),
                vec![
                    Token::Char('1', Category::Other),
                    Token::Char('2', Category::Other),
                    Token::Char('3', Category::Other),
                    Token::Char('4', Category::Other),
                    Token::Char('5', Category::Other),
                ]
            );

            // -1
            assert!(parser.is_print_head().unwrap());
            assert_eq!(
                parser.expand_print().unwrap(),
                vec![
                    Token::Char('-', Category::Other),
                    Token::Char('1', Category::Other),
                ]
            );

            // \count1 = 123
            assert!(parser.is_print_head().unwrap());
            assert_eq!(
                parser.expand_print().unwrap(),
                vec![
                    Token::Char('1', Category::Other),
                    Token::Char('2', Category::Other),
                    Token::Char('3', Category::Other),
                ]
            );
        },
    );
}

#[test]
fn it_parses_count_variables() {
    with_parser(
        &["\\let\\x=\\count%", "\\count0%", "\\count255%", "\\x255%"],
        |parser| {
            parser.parse_assignment(None).unwrap();

            assert!(parser.is_integer_variable_head().unwrap());
            assert_eq!(
                parser.parse_integer_variable().unwrap(),
                IntegerVariable::CountRegister(0)
            );
            assert!(parser.is_integer_variable_head().unwrap());
            assert_eq!(
                parser.parse_integer_variable().unwrap(),
                IntegerVariable::CountRegister(255)
            );
            assert!(parser.is_integer_variable_head().unwrap());
            assert_eq!(
                parser.parse_integer_variable().unwrap(),
                IntegerVariable::CountRegister(255)
            );
        },
    );
}

#[test]
fn it_parses_box_dimen_variables() {
    with_parser(&["\\wd0%", "\\ht255%", "\\dp123%"], |parser| {
        assert!(parser.is_dimen_variable_head().unwrap());
        assert_eq!(
            parser.parse_dimen_variable().unwrap(),
            DimenVariable::BoxWidth(0)
        );

        assert!(parser.is_dimen_variable_head().unwrap());
        assert_eq!(
            parser.parse_dimen_variable().unwrap(),
            DimenVariable::BoxHeight(255)
        );

        assert!(parser.is_dimen_variable_head().unwrap());
        assert_eq!(
            parser.parse_dimen_variable().unwrap(),
            DimenVariable::BoxDepth(123)
        );
    });
}

#[test]
fn it_parses_other_dimen_variables() {
    with_parser(&["\\hsize%"], |parser| {
        assert!(parser.is_dimen_variable_head().unwrap());
        assert_eq!(
            parser.parse_dimen_variable().unwrap(),
            DimenVariable::Parameter(DimenParameter::HSize)
        );
    });
}

#[test]
fn it_parses_glue_parameter_variables() {
    with_parser(&[r"\parskip%", r"\spaceskip%"], |parser| {
        assert!(parser.is_glue_variable_head().unwrap());
        assert_eq!(
            parser.parse_glue_variable().unwrap(),
            GlueVariable::Parameter(GlueParameter::ParSkip),
        );

        assert!(parser.is_glue_variable_head().unwrap());
        assert_eq!(
            parser.parse_glue_variable().unwrap(),
            GlueVariable::Parameter(GlueParameter::SpaceSkip),
        );
    });
}

#[test]
fn it_parses_integer_parameter_variables() {
    with_parser(&[r"\tolerance%", r"\pretolerance%"], |parser| {
        assert!(parser.is_integer_variable_head().unwrap());
        assert_eq!(
            parser.parse_integer_variable().unwrap(),
            IntegerVariable::Parameter(IntegerParameter::Tolerance)
        );

        assert!(parser.is_integer_variable_head().unwrap());
        assert_eq!(
            parser.parse_integer_variable().unwrap(),
            IntegerVariable::Parameter(IntegerParameter::Pretolerance)
        );
    });
}
