use rs_tex::box_to_dvi::DVIFileWriter as PageWriter;
use rs_tex::boxes::{
    get_set_dimen_and_ratio, set_glue_for_spread, BoxLayout, GlueSetRatio, GlueSetRatioKind,
    GlueSetResult,
};
use rs_tex::dimension::{Dimen, FilDimen, FilKind, SpringDimen};
use rs_tex::glue::Glue;
use rs_tex::category::Category;
use rs_tex::dvi::file::{DVICommand, DVIFile};
use rs_tex::dvi::file_writer::DVIFileWriter;
use rs_tex::dimension::Unit;
use rs_tex::parser::dimen::ParsedUnit;
use rs_tex::dvi::interpreter::{interpret_dvi_file, interpret_page, DVIInterpretError, DVIState, FontWidths};
use rs_tex::math_code::MathCode;
use rs_tex::math_list::{AtomKind, MathAtom, MathField, MathStyle, MathSymbol};
use rs_tex::parser::assignment::arithmetic_divide;
use rs_tex::parser::printing::print_number;
use rs_tex::parser::{Parser, TeXError};
use rs_tex::state::TeXState;
use rs_tex::token::Token;

fn parser_for(lines: &[&str]) -> Parser {
    Parser::new(lines, TeXState::new())
}

fn expanded_text(parser: &mut Parser) -> String {
    let mut out = String::new();
    loop {
        if parser.is_assignment_head().unwrap() {
            parser.parse_assignment(None).unwrap();
            continue;
        }
        match parser.lex_expanded_token().unwrap() {
            None => break,
            Some(Token::Char(ch, _)) => out.push(ch),
            Some(Token::ControlSequence(name)) => out.push_str(&name),
        }
    }
    out
}

#[test]
fn macros_replace_their_parameters_by_their_arguments() {
    let mut parser = parser_for(&["\\def\\hello #1{Hello, #1!}%", "\\hello{World}%"]);
    assert_eq!(expanded_text(&mut parser), "Hello, World!");
}

#[test]
fn delimited_parameters_read_up_to_their_delimiters() {
    let mut parser = parser_for(&["\\def\\a#1.#2;{#2#1}%", "\\a xy.z;%"]);
    assert_eq!(expanded_text(&mut parser), "zxy");
}

#[test]
fn local_definitions_end_with_their_group() {
    let mut parser = parser_for(&["\\def\\a{x}%"]);
    parser.parse_assignment(None).unwrap();
    parser.state.push_state();
    parser.state.set_count(false, 3, 7);
    parser.state.set_count(true, 4, 9);
    parser.state.pop_state();
    assert_eq!(parser.state.get_count(3), 0);
    assert_eq!(parser.state.get_count(4), 9);
    assert!(parser.state.get_macro(&Token::ControlSequence("a".to_string())).is_some());
}

#[test]
fn a_token_put_back_is_read_next() {
    let mut parser = parser_for(&["a%"]);
    parser.add_upcoming_tokens(vec![
        Token::Char('x', Category::Letter),
        Token::Char('y', Category::Letter),
    ]);
    parser.add_upcoming_token(Token::Char('w', Category::Letter));
    assert_eq!(parser.lex_unexpanded_token().unwrap(), Some(Token::Char('w', Category::Letter)));
    assert_eq!(parser.lex_unexpanded_token().unwrap(), Some(Token::Char('x', Category::Letter)));
    assert_eq!(parser.lex_unexpanded_token().unwrap(), Some(Token::Char('y', Category::Letter)));
    assert_eq!(parser.lex_unexpanded_token().unwrap(), Some(Token::Char('a', Category::Letter)));
    assert_eq!(parser.lex_unexpanded_token().unwrap(), None);
}

#[test]
fn peeking_then_reading_gives_the_same_token() {
    let mut parser = parser_for(&["\\def\\a{q}\\a r%"]);
    parser.parse_assignment(None).unwrap();
    let peeked = parser.peek_expanded_token().unwrap();
    assert_eq!(peeked, Some(Token::Char('q', Category::Letter)));
    assert_eq!(parser.lex_expanded_token().unwrap(), peeked);
}

#[test]
fn stray_fi_and_else_are_errors() {
    let mut parser = parser_for(&["\\fi%"]);
    assert_eq!(parser.expand_conditional(), Err(TeXError::ExtraFi));
    let mut parser = parser_for(&["\\else%"]);
    assert_eq!(parser.expand_conditional(), Err(TeXError::ExtraElse));
}

#[test]
fn an_ifnum_needs_a_relation() {
    let mut parser = parser_for(&["\\ifnum 1!2 x\\fi%"]);
    assert_eq!(parser.expand_conditional(), Err(TeXError::InvalidRelation));
}

#[test]
fn numbers_out_of_range_are_errors() {
    let mut parser = parser_for(&["256 %"]);
    assert_eq!(parser.parse_8bit_number(), Err(TeXError::NumberOutOfRange));
    let mut parser = parser_for(&["99999999999 %"]);
    assert_eq!(parser.parse_number(), Err(TeXError::NumberOutOfRange));
}

#[test]
fn missing_keywords_and_numbers_are_errors() {
    let mut parser = parser_for(&[" blah%"]);
    assert_eq!(parser.parse_keyword_expanded("pt"), Err(TeXError::MissingKeyword));
    let mut parser = parser_for(&["x%"]);
    assert_eq!(parser.parse_number(), Err(TeXError::MissingNumber));
}

#[test]
fn a_macro_use_must_match_its_parameter_text() {
    let mut parser = parser_for(&["\\def\\a.{x}%", "\\a,%"]);
    parser.parse_assignment(None).unwrap();
    assert_eq!(parser.lex_expanded_token(), Err(TeXError::NonMatchingParameterText));
}

#[test]
fn parameters_must_be_numbered_in_order() {
    let mut parser = parser_for(&["\\def\\a#2{x}%"]);
    assert_eq!(parser.parse_assignment(None), Err(TeXError::InvalidParameter));
}

#[test]
fn arithmetic_overflow_is_an_error() {
    let mut parser = parser_for(&["\\count1=2147483647 \\advance\\count1 by 1 %"]);
    parser.parse_assignment(None).unwrap();
    assert_eq!(parser.parse_assignment(None), Err(TeXError::ArithmeticOverflow));
    assert_eq!(parser.state.get_count(1), 2147483647);
}

#[test]
fn division_truncates_toward_zero() {
    assert_eq!(arithmetic_divide(7, 2), Some(3));
    assert_eq!(arithmetic_divide(-7, 2), Some(-3));
    assert_eq!(arithmetic_divide(7, -2), Some(-3));
    assert_eq!(arithmetic_divide(-7, -2), Some(3));
    assert_eq!(arithmetic_divide(1, 0), None);
    assert_eq!(arithmetic_divide(i32::MIN, -1), None);
    assert_eq!(arithmetic_divide(i32::MIN, 1), Some(i32::MIN));
}

#[test]
fn numbers_print_as_their_decimal_text() {
    let text = |v: i32| -> String {
        print_number(v)
            .into_iter()
            .map(|t| match t {
                Token::Char(c, Category::Other) => c,
                _ => panic!("not a character of category other"),
            })
            .collect()
    };
    assert_eq!(text(0), "0");
    assert_eq!(text(907), "907");
    assert_eq!(text(-15), "-15");
    assert_eq!(text(i32::MIN), "-2147483648");
    assert_eq!(text(i32::MAX), "2147483647");
}

#[test]
fn infinite_glue_has_no_badness() {
    let ratio = GlueSetRatio::from_scaled_ratio(GlueSetRatioKind::Fil, (5, 1));
    assert_eq!(ratio.get_badness(), 0);
    let big = GlueSetRatio::from_scaled_ratio(GlueSetRatioKind::Finite, (100, 1));
    assert_eq!(big.get_badness(), 10000);
    let none = GlueSetRatio::from_scaled_ratio(GlueSetRatioKind::Finite, (0, 1));
    assert_eq!(none.get_badness(), 0);
}

#[test]
fn glue_set_results_give_their_ratios() {
    let shrink = GlueSetResult::InsufficientShrink.into_glue_set_ratio();
    assert!(!shrink.is_stretch());
    assert_eq!(shrink.get_badness(), 100);
    let flipped = GlueSetRatio::from_scaled_ratio(GlueSetRatioKind::Finite, (-2, -1));
    assert!(flipped.is_stretch());
    assert_eq!(flipped.get_badness(), 800);
}

#[test]
fn script_styles_are_smaller_and_cramped_below() {
    for style in [
        MathStyle::DisplayStyle,
        MathStyle::TextStylePrime,
        MathStyle::ScriptStyle,
        MathStyle::ScriptScriptStylePrime,
    ] {
        assert!(style.up_arrow().is_script());
        assert!(style.down_arrow().is_script());
        assert_eq!(style.down_arrow(), style.down_arrow().prime());
        assert_eq!(style.prime().prime(), style.prime());
    }
    assert_eq!(MathStyle::TextStyle.up_arrow(), MathStyle::ScriptStyle);
    assert_eq!(MathStyle::TextStyle.down_arrow(), MathStyle::ScriptStylePrime);
}

fn fonts() -> Vec<FontWidths> {
    let mut widths = vec![0; 128];
    widths[65] = 100;
    vec![FontWidths { font_name: "f".to_string(), widths }]
}

fn page(commands: Vec<DVICommand>) -> Result<rs_tex::dvi::interpreter::DVIPageOutput, DVIInterpretError> {
    let mut state = DVIState::new();
    interpret_page(&commands, 0, &mut state, &fonts()).map(|(p, _)| p)
}

fn font_def() -> DVICommand {
    DVICommand::FntDef1 {
        font_num: 3,
        checksum: 0,
        scale: 655360,
        design_size: 655360,
        area: 0,
        length: 1,
        font_name: "f".to_string(),
    }
}

#[test]
fn setting_a_character_moves_right_by_its_width() {
    let p = page(vec![
        DVICommand::Bop { cs: [0; 10], pointer: -1 },
        font_def(),
        DVICommand::FntNumN(3),
        DVICommand::SetCharN(65),
        DVICommand::SetCharN(66),
        DVICommand::SetCharN(66),
        DVICommand::Eop,
    ])
    .unwrap();
    assert_eq!(p.len(), 2);
    assert_eq!(p.get(0, 0).len(), 1);
    assert_eq!(p.get(100, 0).len(), 1);
}

#[test]
fn interpretation_errors() {
    assert_eq!(
        page(vec![DVICommand::Bop { cs: [0; 10], pointer: -1 }, DVICommand::Pop, DVICommand::Eop]).err(),
        Some(DVIInterpretError::PopWithoutPush)
    );
    assert_eq!(
        page(vec![DVICommand::Bop { cs: [0; 10], pointer: -1 }, DVICommand::SetCharN(1), DVICommand::Eop]).err(),
        Some(DVIInterpretError::NoFontSelected)
    );
    assert_eq!(
        page(vec![DVICommand::Bop { cs: [0; 10], pointer: -1 }, DVICommand::FntNumN(9), DVICommand::SetCharN(1)]).err(),
        Some(DVIInterpretError::UndefinedFont)
    );
    assert_eq!(page(vec![DVICommand::Eop]).err(), Some(DVIInterpretError::MissingBop));
    assert_eq!(
        page(vec![DVICommand::Bop { cs: [0; 10], pointer: -1 }, DVICommand::Nop, DVICommand::Eop]).err(),
        Some(DVIInterpretError::UnknownCommand)
    );
    assert_eq!(
        interpret_dvi_file(&DVIFile { commands: vec![DVICommand::Eop] }, &fonts()).err(),
        Some(DVIInterpretError::MissingPre)
    );
}

#[test]
fn written_files_read_back() {
    let mut writer = PageWriter::new();
    writer.start((25400000, 473628672), 1000, b"rs".to_vec());
    writer.end(&Vec::new());
    let file = writer.to_file();
    assert_eq!(file.commands.len(), 3);
    match &file.commands[2] {
        DVICommand::PostPost { post_pointer, format, tail } => {
            assert_eq!(*post_pointer, 17);
            assert_eq!(*format, 2);
            assert_eq!((17 + 29 + 6 + *tail as usize) % 4, 0);
        }
        other => panic!("unexpected command {:?}", other),
    }
    let mut bytes = Vec::new();
    file.write_to(&mut bytes).unwrap();
    assert_eq!(DVIFile::new(&bytes[..]).unwrap(), file);
}

#[test]
fn it_sets_box_sizes_and_glue_for_each_layout() {

    let pt = |n: i32| Dimen::from_scaled_points(n * 65536);
    let glue = Glue {
        space: pt(10),
        stretch: SpringDimen::Dimen(pt(2)),
        shrink: SpringDimen::FilDimen(FilDimen(FilKind::Fil, 65536)),
    };

    let (natural, none) = get_set_dimen_and_ratio(glue, &BoxLayout::Natural);
    assert_eq!(natural, pt(10));
    assert!(none.is_none());

    let (same, none) = get_set_dimen_and_ratio(glue, &BoxLayout::Fixed(pt(10)));
    assert_eq!(same, pt(10));
    assert!(none.is_none());

    let (fixed, ratio) = get_set_dimen_and_ratio(glue, &BoxLayout::Fixed(pt(14)));
    assert_eq!(fixed, pt(14));
    assert_eq!(
        ratio.unwrap(),
        GlueSetRatio::from_scaled_ratio(GlueSetRatioKind::Finite, (2, 1))
    );
    assert_eq!(ratio.unwrap().get_badness(), 800);

    let (spread, ratio) = get_set_dimen_and_ratio(glue, &BoxLayout::Spread(pt(-3)));
    assert_eq!(spread, pt(7));
    assert_eq!(
        ratio.unwrap(),
        GlueSetRatio::from_scaled_ratio(GlueSetRatioKind::Fil, (-3, 1))
    );
    assert!(!ratio.unwrap().is_stretch());

    assert_eq!(
        set_glue_for_spread(&pt(4), &glue),
        GlueSetResult::GlueSetRatio(GlueSetRatio::from_scaled_ratio(
            GlueSetRatioKind::Finite,
            (2, 1)
        ))
    );
    assert_eq!(
        set_glue_for_spread(&pt(-100), &glue),
        GlueSetResult::GlueSetRatio(GlueSetRatio::from_scaled_ratio(
            GlueSetRatioKind::Fil,
            (-100, 1)
        ))
    );
}

#[test]
fn it_recognizes_box_heads() {
    let mut parser = parser_for(&["\\hbox\\copy x"]);
    assert!(parser.is_box_head().unwrap());
    parser.lex_expanded_token().unwrap();
    assert!(parser.is_box_head().unwrap());
    parser.lex_expanded_token().unwrap();
    assert!(!parser.is_box_head().unwrap());
    assert_eq!(parser.lex_expanded_token().unwrap(), Some(Token::Char('x', Category::Letter)));
}

#[test]
fn it_expands_number_inside_conditionals_and_macros() {
    let mut parser = parser_for(&["\\def\\a#1{\\ifnum#1>2 big\\else small\\fi}\\a5\\a1\\number-0012"]);
    parser.parse_assignment(None).unwrap();
    assert_eq!(expanded_text(&mut parser), "bigsmall-12");
}

#[test]
fn numbers_are_read_through_macros_and_conditionals() {
    let mut parser = parser_for(&[
        "\\def\\a{12}\\def\\b{\\iftrue 4\\else 5\\fi}%",
        "\\count1=\\a3 \\count2=-\\b\\a\\relax",
        "\\count3=\\count1\\advance\\count3 by\\count2 %",
    ]);
    parser.parse_assignment(None).unwrap();
    parser.parse_assignment(None).unwrap();
    parser.parse_assignment(None).unwrap();
    parser.parse_assignment(None).unwrap();
    assert_eq!(parser.state.get_count(1), 123);
    assert_eq!(parser.state.get_count(2), -412);
    assert_eq!(parser.lex_expanded_token().unwrap().is_some(), true);
    parser.parse_assignment(None).unwrap();
    parser.parse_assignment(None).unwrap();
    assert_eq!(parser.state.get_count(3), 123 - 412);
}

#[test]
fn reading_goes_on_after_a_refused_token() {
    let mut parser = parser_for(&["\\fi a\\else b%"]);
    assert_eq!(parser.lex_expanded_token(), Err(TeXError::ExtraFi));
    assert_eq!(parser.lex_expanded_token(), Ok(Some(Token::Char('a', Category::Letter))));
    assert_eq!(parser.lex_expanded_token(), Err(TeXError::ExtraElse));
    assert_eq!(parser.lex_expanded_token(), Ok(Some(Token::Char('b', Category::Letter))));
    assert_eq!(parser.lex_expanded_token(), Ok(None));
}

#[test]
fn a_macro_with_missing_arguments_leaves_the_input_read() {
    let mut parser = parser_for(&["\\def\\a#1.{#1}%", "\\a xy"]);
    parser.parse_assignment(None).unwrap();
    assert_eq!(parser.lex_expanded_token(), Err(TeXError::UnexpectedEnd));
    assert_eq!(parser.lex_expanded_token(), Ok(None));
}

#[test]
fn delimited_arguments_end_at_the_first_delimiter() {
    let mut parser = parser_for(&["\\def\\m#1ab{(#1)}%", "\\m aab%"]);
    assert_eq!(expanded_text(&mut parser), "(a)");
    let mut parser = parser_for(&["\\def\\m#1aab{(#1)}%", "\\m aaab%"]);
    assert_eq!(expanded_text(&mut parser), "(a)");
    let mut parser = parser_for(&["\\def\\m#1ab{(#1)}%", "\\m x{ab}yab%"]);
    assert_eq!(expanded_text(&mut parser), "(x{ab}y)");
}

#[test]
fn units_of_measure_are_read_by_their_letters() {
    let mut parser = parser_for(&["pt x%"]);
    assert_eq!(parser.parse_unit(false), Ok(ParsedUnit::PhysicalUnit(false, Unit::Point)));
    assert_eq!(parser.lex_expanded_token(), Ok(Some(Token::Char('x', Category::Letter))));
    let mut parser = parser_for(&["  true  CM%"]);
    assert_eq!(parser.parse_unit(false), Ok(ParsedUnit::PhysicalUnit(true, Unit::Centimeter)));
    let mut parser = parser_for(&["em%"]);
    assert_eq!(parser.parse_unit(false), Ok(ParsedUnit::Em));
    let mut parser = parser_for(&["filll%"]);
    assert_eq!(parser.parse_unit(true), Ok(ParsedUnit::Filll));
    let mut parser = parser_for(&["fill x%"]);
    assert_eq!(parser.parse_unit(true), Ok(ParsedUnit::Fill));
    assert_eq!(parser.lex_expanded_token(), Ok(Some(Token::Char('x', Category::Letter))));
    let mut parser = parser_for(&["fil%"]);
    assert_eq!(parser.parse_unit(false), Err(TeXError::InvalidUnit));
    let mut parser = parser_for(&["fillll%"]);
    assert_eq!(parser.parse_unit(true), Err(TeXError::InvalidUnit));
    let mut parser = parser_for(&["true ex%"]);
    assert_eq!(parser.parse_unit(false), Err(TeXError::InvalidUnit));
    let mut parser = parser_for(&["qq%"]);
    assert_eq!(parser.parse_unit(false), Err(TeXError::InvalidUnit));
}

#[test]
fn the_size_of_a_command_is_the_length_of_its_bytes() {
    let commands = vec![
        DVICommand::FntNumN(63),
        DVICommand::Right2(-30000),
        DVICommand::Y3(-60000),
        DVICommand::Bop { cs: [1, 0, 0, 0, 0, 0, 0, 0, 0, 0], pointer: -1 },
        DVICommand::PostPost { post_pointer: 128, format: 2, tail: 6 },
        DVICommand::FntDef1 {
            font_num: 0,
            checksum: 1,
            scale: 655360,
            design_size: 655360,
            area: 0,
            length: 5,
            font_name: "cmr10".to_string(),
        },
    ];
    for command in commands.iter() {
        let mut writer = DVIFileWriter::new(Vec::new());
        writer.write(command).unwrap();
        assert_eq!(writer.into_bytes().len(), command.byte_size());
    }
}

#[test]
fn badness_grows_with_the_stretch_needed() {
    let mut last = 0;
    for t in [0, 1, 1000, 65536, 100000, 200000, 400000, 1000000] {
        let b = GlueSetRatio::from_scaled_ratio(GlueSetRatioKind::Finite, (t, 131072)).get_badness();
        assert!(b >= last);
        assert!(b <= 10000);
        last = b;
    }
    assert_eq!(last, 10000);
}

#[test]
fn atoms_are_made_from_math_codes_and_take_scripts() {
    let atom = MathAtom::from_math_code(&MathCode::from_number(0x3161));
    assert_eq!(atom.kind, AtomKind::Rel);
    assert_eq!(atom.nucleus, Some(MathField::Symbol(MathSymbol { family_number: 1, position_number: 0x61 })));
    assert!(!atom.has_superscript());
    let atom = atom.with_superscript(MathField::MathList(vec![]));
    assert!(atom.has_superscript());
    assert!(!atom.has_subscript());
    let atom = atom.with_subscript(MathField::Symbol(MathSymbol { family_number: 0, position_number: 1 }));
    assert!(atom.has_subscript());
    let empty = MathAtom::empty_ord();
    assert_eq!(empty.kind, AtomKind::Ord);
    assert!(empty.nucleus.is_none());
    let list_atom = MathAtom::from_math_list(vec![]);
    assert_eq!(list_atom.nucleus, Some(MathField::MathList(vec![])));
}
