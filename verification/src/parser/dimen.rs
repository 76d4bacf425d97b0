use vstd::prelude::*;

use crate::category::Category;
use crate::dimension::{in_dimen_range, trunc_div, Dimen, FilDimen, FilKind, SpringDimen, Unit};
use crate::parser::number::{digit_value, is_digit_token, is_token_digit, token_digit_value};
use crate::parser::variable::dimen_sp;
use crate::parser::primitives::{keyword_char_matches, read_keyword, token_equals_keyword_char};
use crate::parser::reading::{
    failed, integer_variable_names, lemma_read_after_peek, lt, put_back, read_internal_integer, read_next, read_peek, read_prim_head,
    read_signs, read_space, read_spaces, size, with_value, Input, Reading,
};
use crate::parser::{no_backslide, Parser, TeXError};
use crate::state::TeXState;
use crate::token::{Token, TokenView};

verus! {

/// A unit of measure as written: a physical unit (after `true` or not),
/// `em`, `ex`, or one of the orders of infinite stretch.
#[derive(Debug, Clone, Copy, PartialEq, Eq)]
pub enum ParsedUnit {
    Em,
    Ex,
    Fil,
    Fill,
    Filll,
    PhysicalUnit(bool, Unit),
}

/// Whether two tokens spell the two letters of a unit, in either case.
pub open spec fn spells(first: TokenView, second: TokenView, a: char, b: char) -> bool {
    keyword_char_matches(first, a) && keyword_char_matches(second, b)
}

/// The physical unit that two tokens name, if they name one.
pub open spec fn physical_unit(first: TokenView, second: TokenView) -> Option<Unit> {
    if spells(first, second, 'p', 't') {
        Some(Unit::Point)
    } else if spells(first, second, 'p', 'c') {
        Some(Unit::Pica)
    } else if spells(first, second, 'i', 'n') {
        Some(Unit::Inch)
    } else if spells(first, second, 'b', 'p') {
        Some(Unit::BigPoint)
    } else if spells(first, second, 'c', 'm') {
        Some(Unit::Centimeter)
    } else if spells(first, second, 'm', 'm') {
        Some(Unit::Millimeter)
    } else if spells(first, second, 'd', 'd') {
        Some(Unit::DidotPoint)
    } else if spells(first, second, 'c', 'c') {
        Some(Unit::Cicero)
    } else if spells(first, second, 's', 'p') {
        Some(Unit::ScaledPoint)
    } else {
        None
    }
}

/// The order of infinity of `fil` with `level` more `l`s.
pub open spec fn fil_unit(level: nat) -> ParsedUnit {
    if level == 0 {
        ParsedUnit::Fil
    } else if level == 1 {
        ParsedUnit::Fill
    } else {
        ParsedUnit::Filll
    }
}

/// The further `l`s of `fil`, expanded, with `level` of them read so far;
/// a fourth is refused.
pub open spec fn read_more_ls(st: TeXState, i: Input, level: nat) -> Reading<nat>
    decreases 3 - level,
{
    match read_peek(st, i) {
        None => None,
        Some((Err(e), i2)) => failed(e, i2),
        Some((Ok(Some(t)), i2)) => if keyword_char_matches(t, 'l') {
            if level >= 2 {
                match read_next(st, i2) {
                    None => None,
                    Some((Err(e), i3)) => failed(e, i3),
                    Some((Ok(_), i3)) => failed(TeXError::InvalidUnit, i3),
                }
            } else {
                match read_next(st, i2) {
                    None => None,
                    Some((Err(e), i3)) => failed(e, i3),
                    Some((Ok(_), i3)) => read_more_ls(st, i3, level + 1),
                }
            }
        } else {
            Some((Ok(level), i2))
        },
        Some((Ok(None), i2)) => Some((Ok(level), i2)),
    }
}

/// The name of a unit, after an optional `true` (`is_true` says whether
/// it came), expanded: two letters, the further letters of `fil`, and an
/// optional space.
pub open spec fn read_unit_name(st: TeXState, i: Input, is_true: bool, allow_fil: bool) -> Reading<ParsedUnit> {
    match read_next(st, i) {
        None => None,
        Some((Err(e), i1)) => failed(e, i1),
        Some((Ok(None), i1)) => failed(TeXError::UnexpectedEnd, i1),
        Some((Ok(Some(first)), i1)) => match read_next(st, i1) {
            None => None,
            Some((Err(e), i2)) => failed(e, i2),
            Some((Ok(None), i2)) => failed(TeXError::UnexpectedEnd, i2),
            Some((Ok(Some(second)), i2)) => match physical_unit(first, second) {
                Some(u) => with_value(read_space(st, i2), ParsedUnit::PhysicalUnit(is_true, u)),
                None => if spells(first, second, 'e', 'm') || spells(first, second, 'e', 'x') {
                    match read_space(st, i2) {
                        None => None,
                        Some((Err(e), i3)) => failed(e, i3),
                        Some((Ok(()), i3)) => if is_true {
                            failed(TeXError::InvalidUnit, i3)
                        } else if spells(first, second, 'e', 'm') {
                            Some((Ok(ParsedUnit::Em), i3))
                        } else {
                            Some((Ok(ParsedUnit::Ex), i3))
                        },
                    }
                } else if spells(first, second, 'f', 'i') {
                    if !allow_fil || is_true {
                        failed(TeXError::InvalidUnit, i2)
                    } else {
                        match read_next(st, i2) {
                            None => None,
                            Some((Err(e), i3)) => failed(e, i3),
                            Some((Ok(None), i3)) => failed(TeXError::UnexpectedEnd, i3),
                            Some((Ok(Some(third)), i3)) => if !keyword_char_matches(third, 'l') {
                                failed(TeXError::InvalidUnit, i3)
                            } else {
                                match read_more_ls(st, i3, 0) {
                                    None => None,
                                    Some((Err(e), i4)) => failed(e, i4),
                                    Some((Ok(level), i4)) => with_value(read_space(st, i4), fil_unit(level)),
                                }
                            },
                        }
                    }
                } else {
                    failed(TeXError::InvalidUnit, i2)
                },
            },
        },
    }
}

/// A unit of measure, expanded: optional spaces, an optional `true` with
/// the spaces after it, and the name of a unit. `fil` and its longer forms
/// are units only where `allow_fil` holds.
pub open spec fn read_unit(st: TeXState, i: Input, allow_fil: bool) -> Reading<ParsedUnit> {
    match read_spaces(st, i) {
        None => None,
        Some((Err(e), i1)) => failed(e, i1),
        Some((Ok(()), i1)) => match read_peek(st, i1) {
            None => None,
            Some((Err(e), i2)) => failed(e, i2),
            Some((Ok(None), i2)) => failed(TeXError::UnexpectedEnd, i2),
            Some((Ok(Some(t)), i2)) => if keyword_char_matches(t, 't') {
                match read_keyword(st, i2, "true"@) {
                    None => None,
                    Some((Err(e), i3)) => failed(e, i3),
                    Some((Ok(()), i3)) => match read_spaces(st, i3) {
                        None => None,
                        Some((Err(e), i4)) => failed(e, i4),
                        Some((Ok(()), i4)) => read_unit_name(st, i4, true, allow_fil),
                    },
                }
            } else {
                read_unit_name(st, i2, false, allow_fil)
            },
        },
    }
}

/// A decimal point: `.` or `,` of category other.
pub open spec fn is_decimal_point(t: TokenView) -> bool {
    t == TokenView::Char('.', Category::Other) || t == TokenView::Char(',', Category::Other)
}

/// The largest whole part a decimal constant may have.
pub const MAX_WHOLE: i64 = 2147483647;

/// The largest denominator of a decimal constant: digits after the ninth
/// decimal place are read and dropped.
pub const MAX_DENOMINATOR: i64 = 1000000000;

/// The rest of a decimal constant, expanded, as the fraction `num / den`:
/// digits and at most one decimal point, read on from `num / den`; `seen`
/// tells whether a digit or a point came already, `point` whether a point
/// did. The first other token is put back; where nothing came at all, a
/// number is missing.
pub open spec fn read_decimal_rest(st: TeXState, i: Input, num: int, den: int, seen: bool, point: bool) -> Reading<
    (int, int),
>
    decreases i.3, size(i), 6nat,
{
    match read_next(st, i) {
        None => None,
        Some((Err(e), i2)) => failed(e, i2),
        Some((Ok(None), i2)) => if seen {
            Some((Ok((num, den)), i2))
        } else {
            failed(TeXError::MissingNumber, i2)
        },
        Some((Ok(Some(t)), i2)) => if is_digit_token(t) {
            if !lt(i2, i) {
                None
            } else if point {
                if den * 10 <= MAX_DENOMINATOR {
                    read_decimal_rest(st, i2, num * 10 + digit_value(t), den * 10, true, true)
                } else {
                    read_decimal_rest(st, i2, num, den, true, true)
                }
            } else if num * 10 + digit_value(t) > MAX_WHOLE {
                failed(TeXError::NumberOutOfRange, i2)
            } else {
                read_decimal_rest(st, i2, num * 10 + digit_value(t), den, true, false)
            }
        } else if is_decimal_point(t) && !point {
            if lt(i2, i) {
                read_decimal_rest(st, i2, num, den, true, true)
            } else {
                None
            }
        } else if seen {
            Some((Ok((num, den)), put_back(i2, t)))
        } else {
            failed(TeXError::MissingNumber, put_back(i2, t))
        },
    }
}

/// The factor of a dimension, as a fraction: an internal integer, or a
/// decimal constant.
pub open spec fn read_factor(st: TeXState, i: Input) -> Reading<(int, int)> {
    match read_prim_head(st, i, integer_variable_names()) {
        None => None,
        Some((Err(e), i2)) => failed(e, i2),
        Some((Ok(true), i2)) => match read_internal_integer(st, i2) {
            None => None,
            Some((Err(e), i3)) => failed(e, i3),
            Some((Ok(v), i3)) => Some((Ok((v as int, 1)), i3)),
        },
        Some((Ok(false), i2)) => read_decimal_rest(st, i2, 0, 1, false, false),
    }
}

/// The unit of measure of a dimension, with the number of those units it
/// stands for: an internal integer counts scaled points; otherwise a unit.
/// A `true` unit is scaled by the magnification, which is one here; `em`
/// and `ex` are not handled.
pub open spec fn read_unit_of_measure(st: TeXState, i: Input, allow_fil: bool) -> Reading<(int, ParsedUnit)> {
    match read_prim_head(st, i, integer_variable_names()) {
        None => None,
        Some((Err(e), i2)) => failed(e, i2),
        Some((Ok(true), i2)) => match read_internal_integer(st, i2) {
            None => None,
            Some((Err(e), i3)) => failed(e, i3),
            Some((Ok(v), i3)) => Some((Ok((v as int, ParsedUnit::PhysicalUnit(false, Unit::ScaledPoint))), i3)),
        },
        Some((Ok(false), i2)) => match read_unit(st, i2, allow_fil) {
            None => None,
            Some((Err(e), i3)) => failed(e, i3),
            Some((Ok(ParsedUnit::Em), i3)) => failed(TeXError::Unimplemented, i3),
            Some((Ok(ParsedUnit::Ex), i3)) => failed(TeXError::Unimplemented, i3),
            Some((Ok(u), i3)) => Some((Ok((1, u)), i3)),
        },
    }
}

/// The number of scaled points in one of a unit, as a fraction.
pub open spec fn unit_scale(u: Unit) -> (int, int) {
    match u {
        Unit::Point => (65536int, 1int),
        Unit::Pica => (786432int, 1int),
        Unit::Inch => (473628672int, 100int),
        Unit::BigPoint => (473628672int, 7200int),
        Unit::Centimeter => (473628672int, 254int),
        Unit::Millimeter => (473628672int, 2540int),
        Unit::DidotPoint => (81133568int, 1157int),
        Unit::Cicero => (973602816int, 1157int),
        Unit::ScaledPoint => (1int, 1int),
    }
}

/// The amount that `count` of a unit make, `num / den` times, rounded
/// toward zero: scaled points for a physical unit, units of 2^-16 for the
/// orders of infinity.
pub open spec fn unit_amount(num: int, den: int, count: int, u: ParsedUnit) -> int {
    match u {
        ParsedUnit::PhysicalUnit(_, unit) => trunc_div(num * count * unit_scale(unit).0, den * unit_scale(unit).1),
        _ => trunc_div(num * count * 65536, den),
    }
}

/// The stretch or shrink that an amount of a unit makes.
pub open spec fn spring_of_unit(v: int, u: ParsedUnit) -> SpringDimen {
    match u {
        ParsedUnit::Fil => SpringDimen::FilDimen(FilDimen(FilKind::Fil, v as i32)),
        ParsedUnit::Fill => SpringDimen::FilDimen(FilDimen(FilKind::Fill, v as i32)),
        ParsedUnit::Filll => SpringDimen::FilDimen(FilDimen(FilKind::Filll, v as i32)),
        _ => SpringDimen::Dimen(Dimen::spec_from_sp(v)),
    }
}

/// A dimension, expanded, that may be infinite where `allow_fil` holds:
/// optional signs, a factor and a unit of measure. Its amount must be a
/// dimension.
pub open spec fn read_spring_dimen(st: TeXState, i: Input, allow_fil: bool) -> Reading<SpringDimen> {
    match read_signs(st, i, 1) {
        None => None,
        Some((Err(e), i1)) => failed(e, i1),
        Some((Ok(sign), i1)) => match read_factor(st, i1) {
            None => None,
            Some((Err(e), i2)) => failed(e, i2),
            Some((Ok((num, den)), i2)) => match read_unit_of_measure(st, i2, allow_fil) {
                None => None,
                Some((Err(e), i3)) => failed(e, i3),
                Some((Ok((count, u)), i3)) => {
                    let v = unit_amount(num, den, count, u);
                    if in_dimen_range(v) {
                        Some((Ok(spring_of_unit(sign * v, u)), i3))
                    } else {
                        failed(TeXError::NumberOutOfRange, i3)
                    }
                },
            },
        },
    }
}

/// A finite dimension, expanded, as its number of scaled points.
pub open spec fn read_dimen(st: TeXState, i: Input) -> Reading<int> {
    match read_spring_dimen(st, i, false) {
        None => None,
        Some((Err(e), i1)) => failed(e, i1),
        Some((Ok(SpringDimen::Dimen(d)), i1)) => Some((Ok(d.sp()), i1)),
        Some((Ok(_), i1)) => failed(TeXError::InvalidUnit, i1),
    }
}

/// Whether two tokens spell the two letters of a unit.
fn equals_unit(first: &Token, second: &Token, a: char, b: char) -> (r: bool)
    ensures
        r == spells(first@, second@, a, b),
{
    token_equals_keyword_char(first, a) && token_equals_keyword_char(second, b)
}

impl Parser {
    /// Reads the further `l`s of `fil`, with `level` read so far.
    fn parse_more_ls(&mut self, level: u8) -> (r: Result<u8, TeXError>)
        requires
            old(self).wf(),
            level <= 2,
        ensures
            final(self).wf(),
            final(self).state == old(self).state,
            no_backslide(*old(self), *final(self)),
            final(self).lexer_view().source == old(self).lexer_view().source,
            read_more_ls(old(self).state, old(self).input(), level as nat) matches Some(n)
                ==> final(self).read_as(old(self), nat_result(r), n),
        decreases 3 - level,
    {
        match self.peek_expanded_token() {
            Err(e) => Err(e),
            Ok(None) => Ok(level),
            Ok(Some(t)) => if token_equals_keyword_char(&t, 'l') {
                match self.lex_expanded_token() {
                    Err(e) => Err(e),
                    Ok(_) => if level >= 2 {
                        Err(TeXError::InvalidUnit)
                    } else {
                        self.parse_more_ls(level + 1)
                    },
                }
            } else {
                Ok(level)
            },
        }
    }

    /// Reads the name of a unit, after an optional `true`.
    #[verifier::rlimit(60)]
    #[verifier::spinoff_prover]
    fn parse_unit_name(&mut self, is_true: bool, allow_fil: bool) -> (r: Result<ParsedUnit, TeXError>)
        requires
            old(self).wf(),
        ensures
            final(self).wf(),
            final(self).state == old(self).state,
            no_backslide(*old(self), *final(self)),
            final(self).lexer_view().source == old(self).lexer_view().source,
            read_unit_name(old(self).state, old(self).input(), is_true, allow_fil) matches Some(n)
                ==> final(self).read_as(old(self), r, n),
    {
        let first = match self.lex_expanded_token() {
            Err(e) => {
                return Err(e);
            },
            Ok(None) => {
                return Err(TeXError::UnexpectedEnd);
            },
            Ok(Some(t)) => t,
        };
        let second = match self.lex_expanded_token() {
            Err(e) => {
                return Err(e);
            },
            Ok(None) => {
                return Err(TeXError::UnexpectedEnd);
            },
            Ok(Some(t)) => t,
        };
        let unit = if equals_unit(&first, &second, 'p', 't') {
            Some(Unit::Point)
        } else if equals_unit(&first, &second, 'p', 'c') {
            Some(Unit::Pica)
        } else if equals_unit(&first, &second, 'i', 'n') {
            Some(Unit::Inch)
        } else if equals_unit(&first, &second, 'b', 'p') {
            Some(Unit::BigPoint)
        } else if equals_unit(&first, &second, 'c', 'm') {
            Some(Unit::Centimeter)
        } else if equals_unit(&first, &second, 'm', 'm') {
            Some(Unit::Millimeter)
        } else if equals_unit(&first, &second, 'd', 'd') {
            Some(Unit::DidotPoint)
        } else if equals_unit(&first, &second, 'c', 'c') {
            Some(Unit::Cicero)
        } else if equals_unit(&first, &second, 's', 'p') {
            Some(Unit::ScaledPoint)
        } else {
            None
        };
        assert(unit == physical_unit(first@, second@));
        if let Some(u) = unit {
            return match self.parse_optional_space_expanded() {
                Err(e) => Err(e),
                Ok(()) => Ok(ParsedUnit::PhysicalUnit(is_true, u)),
            };
        }
        let is_em = equals_unit(&first, &second, 'e', 'm');
        let is_ex = equals_unit(&first, &second, 'e', 'x');
        if is_em || is_ex {
            match self.parse_optional_space_expanded() {
                Err(e) => {
                    return Err(e);
                },
                Ok(()) => {},
            }
            if is_true {
                return Err(TeXError::InvalidUnit);
            }
            return if is_em {
                Ok(ParsedUnit::Em)
            } else {
                Ok(ParsedUnit::Ex)
            };
        }
        if !equals_unit(&first, &second, 'f', 'i') {
            return Err(TeXError::InvalidUnit);
        }
        if !allow_fil || is_true {
            return Err(TeXError::InvalidUnit);
        }
        let third = match self.lex_expanded_token() {
            Err(e) => {
                return Err(e);
            },
            Ok(None) => {
                return Err(TeXError::UnexpectedEnd);
            },
            Ok(Some(t)) => t,
        };
        if !token_equals_keyword_char(&third, 'l') {
            return Err(TeXError::InvalidUnit);
        }
        let level = match self.parse_more_ls(0) {
            Err(e) => {
                return Err(e);
            },
            Ok(level) => level,
        };
        let unit = if level == 0 {
            ParsedUnit::Fil
        } else if level == 1 {
            ParsedUnit::Fill
        } else {
            ParsedUnit::Filll
        };
        match self.parse_optional_space_expanded() {
            Err(e) => Err(e),
            Ok(()) => Ok(unit),
        }
    }

    /// Reads a unit of measure: optional spaces, an optional `true`, and the
    /// name of a unit. `fil`, `fill` and `filll` are read only where
    /// `allow_fil` holds.
    pub fn parse_unit(&mut self, allow_fil: bool) -> (r: Result<ParsedUnit, TeXError>)
        requires
            old(self).wf(),
        ensures
            final(self).wf(),
            final(self).state == old(self).state,
            no_backslide(*old(self), *final(self)),
            final(self).lexer_view().source == old(self).lexer_view().source,
            read_unit(old(self).state, old(self).input(), allow_fil) matches Some(n)
                ==> final(self).read_as(old(self), r, n),
    {
        match self.parse_optional_spaces_expanded() {
            Err(e) => {
                return Err(e);
            },
            Ok(()) => {},
        }
        let start = match self.peek_expanded_token() {
            Err(e) => {
                return Err(e);
            },
            Ok(None) => {
                return Err(TeXError::UnexpectedEnd);
            },
            Ok(Some(t)) => t,
        };
        if token_equals_keyword_char(&start, 't') {
            match self.parse_keyword_expanded("true") {
                Err(e) => {
                    return Err(e);
                },
                Ok(()) => {},
            }
            match self.parse_optional_spaces_expanded() {
                Err(e) => {
                    return Err(e);
                },
                Ok(()) => {},
            }
            self.parse_unit_name(true, allow_fil)
        } else {
            self.parse_unit_name(false, allow_fil)
        }
    }
}

/// A count result, as a natural number.
pub open spec fn nat_result(r: Result<u8, TeXError>) -> Result<nat, TeXError> {
    match r {
        Ok(n) => Ok(n as nat),
        Err(e) => Err(e),
    }
}

/// A fraction result, with its parts as integers.
pub open spec fn fraction_result(r: Result<(i64, i64), TeXError>) -> Result<(int, int), TeXError> {
    match r {
        Ok((n, d)) => Ok((n as int, d as int)),
        Err(e) => Err(e),
    }
}

/// A unit-of-measure result, with its count as an integer.
pub open spec fn measure_result(r: Result<(i32, ParsedUnit), TeXError>) -> Result<(int, ParsedUnit), TeXError> {
    match r {
        Ok((n, u)) => Ok((n as int, u)),
        Err(e) => Err(e),
    }
}

/// Whether a token is a decimal point.
fn is_decimal_point_token(token: &Token) -> (b: bool)
    ensures
        b == is_decimal_point(token@),
{
    match token {
        Token::Char(ch, Category::Other) => *ch == ',' || *ch == '.',
        _ => false,
    }
}

/// The number of scaled points in one of a unit, as a fraction.
fn scale_of(u: Unit) -> (r: (i64, i64))
    ensures
        r.0 == unit_scale(u).0,
        r.1 == unit_scale(u).1,
{
    match u {
        Unit::Point => (65536, 1),
        Unit::Pica => (786432, 1),
        Unit::Inch => (473628672, 100),
        Unit::BigPoint => (473628672, 7200),
        Unit::Centimeter => (473628672, 254),
        Unit::Millimeter => (473628672, 2540),
        Unit::DidotPoint => (81133568, 1157),
        Unit::Cicero => (973602816, 1157),
        Unit::ScaledPoint => (1, 1),
    }
}

/// `a / b` rounded toward zero, for a positive `b`.
fn truncating_div_i128(a: i128, b: i128) -> (q: i128)
    requires
        b > 0,
        -0x4000_0000_0000_0000_0000_0000_0000_0000 < a < 0x4000_0000_0000_0000_0000_0000_0000_0000,
    ensures
        q == trunc_div(a as int, b as int),
{
    if a >= 0 {
        a / b
    } else {
        let na: i128 = 0 - a;
        let m = na / b;
        proof {
            assert(0 <= na / b <= na) by (nonlinear_arith)
                requires
                    b > 0,
                    na > 0,
            ;
        }
        0 - m
    }
}

/// The amount that `count` of a unit make, `num / den` times, rounded
/// toward zero, where it is a dimension.
fn scaled_amount(num: i64, den: i64, count: i32, unit: ParsedUnit) -> (r: Option<i32>)
    requires
        -0x8000_0000 * den <= num < 0x8000_0000 * den,
        1 <= den <= MAX_DENOMINATOR,
    ensures
        match r {
            Some(v) => v == unit_amount(num as int, den as int, count as int, unit) && in_dimen_range(v as int),
            None => !in_dimen_range(unit_amount(num as int, den as int, count as int, unit)),
        },
{
    let (s0, s1): (i64, i64) = match unit {
        ParsedUnit::PhysicalUnit(_, u) => scale_of(u),
        _ => (65536, 1),
    };
    proof {
        assert(-0x8000_0000 * 1000000000 <= num < 0x8000_0000 * 1000000000) by (nonlinear_arith)
            requires
                -0x8000_0000 * den <= num < 0x8000_0000 * den,
                1 <= den <= 1000000000,
        ;
        assert(-0x4000_0000_0000_0000_0000_0000_0000_0000 < (num as int) * (count as int) * (s0 as int)
            < 0x4000_0000_0000_0000_0000_0000_0000_0000) by (nonlinear_arith)
            requires
                -0x8000_0000 * 1000000000 <= num < 0x8000_0000 * 1000000000,
                -0x8000_0000 <= count < 0x8000_0000,
                0 < s0 < 0x4000_0000,
        ;
        assert(0 < (den as int) * (s1 as int) <= 1000000000 * 7200) by (nonlinear_arith)
            requires
                1 <= den <= 1000000000,
                1 <= s1 <= 7200,
        ;
    }
    proof {
        assert(-0x8000_0000 * 1000000000 * 0x8000_0000 <= (num as int) * (count as int) <= 0x8000_0000
            * 1000000000 * 0x8000_0000) by (nonlinear_arith)
            requires
                -0x8000_0000 * 1000000000 <= num < 0x8000_0000 * 1000000000,
                -0x8000_0000 <= count < 0x8000_0000,
        ;
    }
    let nc: i128 = (num as i128) * (count as i128);
    let top: i128 = nc * (s0 as i128);
    let bottom: i128 = (den as i128) * (s1 as i128);
    let v = truncating_div_i128(top, bottom);
    if v < -1073741823 || v > 1073741823 {
        None
    } else {
        Some(v as i32)
    }
}

impl Parser {
    /// Reads a decimal constant, expanded: digits and at most one decimal
    /// point (`.` or `,`), as the fraction `num / den`. Digits after the
    /// ninth decimal place are read and dropped.
    pub fn parse_decimal_constant(&mut self) -> (r: Result<(i64, i64), TeXError>)
        requires
            old(self).wf(),
        ensures
            final(self).wf(),
            final(self).state == old(self).state,
            no_backslide(*old(self), *final(self)),
            final(self).lexer_view().source == old(self).lexer_view().source,
            r matches Ok((n, d)) ==> 0 <= n < 0x8000_0000 * d && 1 <= d <= MAX_DENOMINATOR,
            read_decimal_rest(old(self).state, old(self).input(), 0, 1, false, false) matches Some(g)
                ==> final(self).read_as(old(self), fraction_result(r), g),
    {
        let ghost st = self.state;
        let ghost goal = read_decimal_rest(st, self.input(), 0, 1, false, false);
        let mut num: i64 = 0;
        let mut den: i64 = 1;
        let mut seen = false;
        let mut point = false;
        loop
            invariant
                self.wf(),
                self.state == old(self).state,
                st == self.state,
                no_backslide(*old(self), *self),
                self.lexer_view().source == old(self).lexer_view().source,
                0 <= num < 0x8000_0000 * den,
                1 <= den <= MAX_DENOMINATOR,
                !point ==> den == 1 && num <= MAX_WHOLE,
                goal == read_decimal_rest(st, old(self).input(), 0, 1, false, false),
                goal is Some ==> read_decimal_rest(st, self.input(), num as int, den as int, seen, point) == goal,
            decreases self.budget(), self.input_left(),
        {
            let ghost i0 = self.input();
            let next = match self.peek_expanded_token() {
                Err(e) => {
                    return Err(e);
                },
                Ok(t) => t,
            };
            let t = match next {
                None => {
                    if seen {
                        return Ok((num, den));
                    } else {
                        return Err(TeXError::MissingNumber);
                    }
                },
                Some(t) => t,
            };
            let digit = is_token_digit(&t);
            let dot = is_decimal_point_token(&t);
            if !digit && !(dot && !point) {
                if seen {
                    return Ok((num, den));
                } else {
                    return Err(TeXError::MissingNumber);
                }
            }
            proof {
                if goal is Some {
                    lemma_read_after_peek(st, i0, t@, read_next(st, i0).unwrap().1);
                }
            }
            let _ = self.lex_expanded_token();
            if digit {
                let d = token_digit_value(&t) as i64;
                if point {
                    if den <= 100000000 {
                        proof {
                            assert(num * 10 + d < 0x8000_0000 * (den * 10)) by (nonlinear_arith)
                                requires
                                    0 <= num < 0x8000_0000 * den,
                                    0 <= d < 10,
                            ;
                            assert(num * 10 + d < 0x8000_0000 * 1000000000i64) by (nonlinear_arith)
                                requires
                                    num * 10 + d < 0x8000_0000 * (den * 10),
                                    den * 10 <= 1000000000,
                            ;
                        }
                        num = num * 10 + d;
                        den = den * 10;
                    }
                } else {
                    if num * 10 + d > MAX_WHOLE {
                        return Err(TeXError::NumberOutOfRange);
                    }
                    num = num * 10 + d;
                }
            } else {
                point = true;
            }
            seen = true;
        }
    }

    /// Reads the factor of a dimension: an internal integer, or a decimal
    /// constant.
    pub fn parse_factor(&mut self) -> (r: Result<(i64, i64), TeXError>)
        requires
            old(self).wf(),
        ensures
            final(self).wf(),
            final(self).state == old(self).state,
            no_backslide(*old(self), *final(self)),
            final(self).lexer_view().source == old(self).lexer_view().source,
            r matches Ok((n, d)) ==> -0x8000_0000 * d <= n < 0x8000_0000 * d && 1 <= d <= MAX_DENOMINATOR,
            read_factor(old(self).state, old(self).input()) matches Some(g) ==> final(self).read_as(
                old(self),
                fraction_result(r),
                g,
            ),
    {
        match self.is_internal_integer_head() {
            Err(e) => Err(e),
            Ok(true) => match self.parse_internal_integer() {
                Err(e) => Err(e),
                Ok(v) => Ok((v as i64, 1)),
            },
            Ok(false) => self.parse_decimal_constant(),
        }
    }

    /// Reads the unit of measure of a dimension, with the number of those
    /// units it stands for: an internal integer counts scaled points;
    /// otherwise a unit, of which there is one. `em` and `ex` are not
    /// handled.
    pub fn parse_unit_of_measure(&mut self, allow_fil: bool) -> (r: Result<(i32, ParsedUnit), TeXError>)
        requires
            old(self).wf(),
        ensures
            final(self).wf(),
            final(self).state == old(self).state,
            no_backslide(*old(self), *final(self)),
            final(self).lexer_view().source == old(self).lexer_view().source,
            read_unit_of_measure(old(self).state, old(self).input(), allow_fil) matches Some(g)
                ==> final(self).read_as(old(self), measure_result(r), g),
    {
        match self.is_internal_integer_head() {
            Err(e) => Err(e),
            Ok(true) => match self.parse_internal_integer() {
                Err(e) => Err(e),
                Ok(v) => Ok((v, ParsedUnit::PhysicalUnit(false, Unit::ScaledPoint))),
            },
            Ok(false) => match self.parse_unit(allow_fil) {
                Err(e) => Err(e),
                Ok(ParsedUnit::Em) => Err(TeXError::Unimplemented),
                Ok(ParsedUnit::Ex) => Err(TeXError::Unimplemented),
                Ok(u) => Ok((1, u)),
            },
        }
    }

    /// Reads a dimension, expanded, that may be infinite where `allow_fil`
    /// holds: optional signs, a factor and a unit of measure. The amount is
    /// the factor times the unit, rounded toward zero, and must be a
    /// dimension.
    #[verifier::rlimit(60)]
    #[verifier::spinoff_prover]
    pub fn parse_spring_dimen(&mut self, allow_fil: bool) -> (r: Result<SpringDimen, TeXError>)
        requires
            old(self).wf(),
        ensures
            final(self).wf(),
            final(self).state == old(self).state,
            no_backslide(*old(self), *final(self)),
            final(self).lexer_view().source == old(self).lexer_view().source,
            read_spring_dimen(old(self).state, old(self).input(), allow_fil) matches Some(g)
                ==> final(self).read_as(old(self), r, g),
    {
        let sign = match self.parse_optional_signs() {
            Err(e) => {
                return Err(e);
            },
            Ok(s) => s,
        };
        let (num, den) = match self.parse_factor() {
            Err(e) => {
                return Err(e);
            },
            Ok(f) => f,
        };
        let (count, unit) = match self.parse_unit_of_measure(allow_fil) {
            Err(e) => {
                return Err(e);
            },
            Ok(m) => m,
        };
        let v = match scaled_amount(num, den, count, unit) {
            None => {
                return Err(TeXError::NumberOutOfRange);
            },
            Some(v) => v,
        };
        let amount: i32 = if sign < 0 {
            0 - v
        } else {
            v
        };
        proof {
            Dimen::lemma_from_sp(amount as int);
        }
        match unit {
            ParsedUnit::Fil => Ok(SpringDimen::FilDimen(FilDimen(FilKind::Fil, amount))),
            ParsedUnit::Fill => Ok(SpringDimen::FilDimen(FilDimen(FilKind::Fill, amount))),
            ParsedUnit::Filll => Ok(SpringDimen::FilDimen(FilDimen(FilKind::Filll, amount))),
            _ => {
                let d = Dimen::from_scaled_points(amount);
                proof {
                    Dimen::lemma_sp_injective(d, Dimen::spec_from_sp(amount as int));
                }
                Ok(SpringDimen::Dimen(d))
            },
        }
    }

    /// Reads a finite dimension, expanded.
    pub fn parse_dimen(&mut self) -> (r: Result<Dimen, TeXError>)
        requires
            old(self).wf(),
        ensures
            final(self).wf(),
            final(self).state == old(self).state,
            no_backslide(*old(self), *final(self)),
            final(self).lexer_view().source == old(self).lexer_view().source,
            read_dimen(old(self).state, old(self).input()) matches Some(g) ==> final(self).read_as(
                old(self),
                dimen_sp(r),
                g,
            ),
    {
        match self.parse_spring_dimen(false) {
            Err(e) => Err(e),
            Ok(SpringDimen::Dimen(d)) => Ok(d),
            Ok(_) => Err(TeXError::InvalidUnit),
        }
    }
}

} // verus!
