use rs_tex::dimension::{Dimen, FilDimen, FilKind, SpringDimen};
use rs_tex::parser::{Parser, TeXError};
use rs_tex::state::TeXState;


fn with_parser(lines: &[&str], test: impl FnOnce(&mut Parser)) {
    let mut parser = Parser::new(lines, TeXState::new());
    test(&mut parser);
}

/// The dimension that `num` of a unit make, as scaled points per unit
/// `scale.0 / scale.1`, rounded toward zero in floating point.
fn from_unit(num: f64, scale: (f64, f64)) -> Dimen {
    Dimen::from_scaled_points((num * scale.0 / scale.1) as i32)
}

const POINT: (f64, f64) = (65536.0, 1.0);
const PICA: (f64, f64) = (12.0 * 65536.0, 1.0);
const INCH: (f64, f64) = (65536.0 * 7227.0, 100.0);
const BIG_POINT: (f64, f64) = (65536.0 * 7227.0, 72.0 * 100.0);
const CENTIMETER: (f64, f64) = (65536.0 * 7227.0, 254.0);
const MILLIMETER: (f64, f64) = (65536.0 * 7227.0, 2540.0);
const DIDOT_POINT: (f64, f64) = (65536.0 * 1238.0, 1157.0);
const CICERO: (f64, f64) = (65536.0 * 1238.0 * 12.0, 1157.0);
const SCALED_POINT: (f64, f64) = (1.0, 1.0);

#[test]
fn it_parses_basic_units() {
    with_parser(&["1pt%", "1pc%", "1in%", "1bp%", "1cm%", "1mm%", "1dd%", "1cc%", "1sp%"], |parser| {
        for scale in [POINT, PICA, INCH, BIG_POINT, CENTIMETER, MILLIMETER, DIDOT_POINT, CICERO, SCALED_POINT] {
            assert_eq!(parser.parse_dimen(), Ok(from_unit(1.0, scale)));
        }
    });
}

#[test]
#[allow(clippy::float_cmp)]
fn it_parses_decimals() {
    with_parser(&["1 %", "1. %", "1.0 %", "1234 %", "1.2 %", ".2 %", ".234 %", "1,23 %"], |parser| {
        for expected in [1.0, 1.0, 1.0, 1234.0, 1.2, 0.2, 0.234, 1.23] {
            let (num, den) = parser.parse_decimal_constant().unwrap();
            assert_eq!(num as f64 / den as f64, expected);
            parser.parse_optional_spaces_expanded().unwrap();
        }
    });
}

#[test]
fn it_parses_integer_constants_after_decimals() {
    with_parser(&["3.4\\count0%"], |parser| {
        parser.state.set_count(false, 0, 123);
        assert_eq!(parser.parse_dimen(), Ok(from_unit(3.4 * 123.0, SCALED_POINT)));
    });
}

#[test]
fn it_parses_integer_constants_before_unit() {
    with_parser(&["\\count0 cc%"], |parser| {
        parser.state.set_count(false, 0, 123);
        assert_eq!(parser.parse_dimen(), Ok(from_unit(123.0, CICERO)));
    });
}

#[test]
fn it_parses_true_units() {
    with_parser(&["3.4 true pt%"], |parser| {
        assert_eq!(parser.parse_dimen(), Ok(from_unit(3.4, POINT)));
    });
}

#[test]
fn it_parses_negative_dimens() {
    with_parser(&["-3.4pt%"], |parser| {
        assert_eq!(parser.parse_dimen(), Ok(from_unit(-3.4, POINT)));
    });
}

#[test]
fn it_parses_optional_spaces_after_units() {
    with_parser(&["1pt %"], |parser| {
        parser.parse_dimen().unwrap();
        assert_eq!(parser.lex_unexpanded_token(), Ok(None));
    });
}

#[test]
fn it_parses_fils() {
    with_parser(&["1fil %", "1fill %", "1filll %", "12.3fil %", "-1fil %"], |parser| {
        for (kind, amount) in [
            (FilKind::Fil, 65536),
            (FilKind::Fill, 65536),
            (FilKind::Filll, 65536),
            (FilKind::Fil, (12.3f64 * 65536.0) as i32),
            (FilKind::Fil, -65536),
        ] {
            assert_eq!(parser.parse_spring_dimen(true), Ok(SpringDimen::FilDimen(FilDimen(kind, amount))));
        }
    });
}

#[test]
fn dimensions_refuse_what_is_not_one() {
    with_parser(&["1fil%"], |parser| {
        assert_eq!(parser.parse_dimen(), Err(TeXError::InvalidUnit));
    });
    with_parser(&["pt%"], |parser| {
        assert_eq!(parser.parse_dimen(), Err(TeXError::MissingNumber));
    });
    with_parser(&["1em%"], |parser| {
        assert_eq!(parser.parse_dimen(), Err(TeXError::Unimplemented));
    });
    with_parser(&["20000pt%"], |parser| {
        assert_eq!(parser.parse_dimen(), Err(TeXError::NumberOutOfRange));
    });
    with_parser(&["1.5.5pt%"], |parser| {
        assert_eq!(parser.parse_dimen(), Err(TeXError::InvalidUnit));
    });
}

#[test]
fn long_decimals_keep_nine_places() {
    with_parser(&["0.1234567891234pt%"], |parser| {
        assert_eq!(parser.parse_dimen(), Ok(Dimen::from_scaled_points(8090)));
    });
}

#[test]
fn dimension_parameters_are_assigned() {
    with_parser(&[r"\hsize=3.5pt\global\hsize 2in%"], |parser| {
        assert!(parser.is_assignment_head().unwrap());
        parser.parse_assignment(None).unwrap();
        assert_eq!(
            parser.state.get_dimen_parameter(rs_tex::state::DimenParameter::HSize),
            Dimen::from_scaled_points(229376)
        );
        parser.parse_assignment(None).unwrap();
        assert_eq!(
            parser.state.get_dimen_parameter(rs_tex::state::DimenParameter::HSize),
            from_unit(2.0, INCH)
        );
    });
    with_parser(&[r"\wd0=1pt%"], |parser| {
        assert_eq!(parser.parse_assignment(None), Err(TeXError::Unimplemented));
    });
}

fn pt(n: i32) -> Dimen {
    Dimen::from_scaled_points(n * 65536)
}

fn glue(space: Dimen, stretch: Dimen, shrink: Dimen) -> rs_tex::glue::Glue {
    rs_tex::glue::Glue { space, stretch: SpringDimen::Dimen(stretch), shrink: SpringDimen::Dimen(shrink) }
}

#[test]
fn it_parses_glue_without_stretch_and_shrink() {
    with_parser(&["1pt %"], |parser| {
        assert_eq!(parser.parse_glue(), Ok(glue(pt(1), Dimen::zero(), Dimen::zero())));
    });
}

#[test]
fn it_parses_glue_without_shrink() {
    with_parser(&["1pt plus 2pt %"], |parser| {
        assert_eq!(parser.parse_glue(), Ok(glue(pt(1), pt(2), Dimen::zero())));
    });
}

#[test]
fn it_parses_glue_without_stretch() {
    with_parser(&["1pt minus 3pt %"], |parser| {
        assert_eq!(parser.parse_glue(), Ok(glue(pt(1), Dimen::zero(), pt(3))));
    });
}

#[test]
fn it_parses_glue_with_stretch_and_shrink() {
    with_parser(&["1pt plus 2pt minus 3pt %"], |parser| {
        assert_eq!(parser.parse_glue(), Ok(glue(pt(1), pt(2), pt(3))));
    });
}

#[test]
fn it_doesnt_fail_when_seeing_a_partial_keyword() {
    use_letters(&["1pt plu%", "1pt plus 2pt minu%"]);
}

fn use_letters(lines: &[&str]) {
    with_parser(lines, |parser| {
        let letter = |c: char| Ok(Some(rs_tex::token::Token::Char(c, rs_tex::category::Category::Letter)));
        assert_eq!(parser.parse_glue(), Ok(glue(pt(1), Dimen::zero(), Dimen::zero())));
        assert_eq!(parser.lex_expanded_token(), letter('p'));
        assert_eq!(parser.lex_expanded_token(), letter('l'));
        assert_eq!(parser.lex_expanded_token(), letter('u'));
        assert_eq!(parser.parse_glue(), Ok(glue(pt(1), pt(2), Dimen::zero())));
        assert_eq!(parser.lex_expanded_token(), letter('m'));
        assert_eq!(parser.lex_expanded_token(), letter('i'));
        assert_eq!(parser.lex_expanded_token(), letter('n'));
        assert_eq!(parser.lex_expanded_token(), letter('u'));
    });
}

#[test]
fn infinite_glue_parses_with_fils() {
    with_parser(&["0pt plus 1fil minus 2fill%"], |parser| {
        let g = parser.parse_glue().unwrap();
        assert_eq!(g.space, Dimen::zero());
        assert_eq!(g.stretch, SpringDimen::FilDimen(FilDimen(FilKind::Fil, 65536)));
        assert_eq!(g.shrink, SpringDimen::FilDimen(FilDimen(FilKind::Fill, 2 * 65536)));
    });
}
