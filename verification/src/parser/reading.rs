use vstd::prelude::*;

use crate::category::Category;
use crate::lexer::LexerView;
use crate::makro::{expand_replacement, MacroView};
use crate::parser::conditional::{skip_to_fi, skip_to_fi_or_else, Relation};
use crate::parser::makro::{argument_values, spec_arguments};
use crate::parser::number::{digit_value, is_digit_token, is_hex_digit_token};
use crate::parser::primitives::is_space;
use crate::parser::printing::{number_text, other_tokens};
use crate::parser::variable::{DimenVariable, IntegerVariable};
use crate::parser::{input_size, lemma_put_back_then_read, next_token, TeXError};
use crate::state::{DimenParameter, IntegerParameter, MeaningView, TeXState};
use crate::token::TokenView;

verus! {

// Expanded reading, as mathematics. The input of a reading is the tokens
// put back (the last one is read first), the lexer, the number of open
// conditionals and the budget of expansions left. A reading gives its result
// and the input it leaves. It is `None` where one of its steps would not
// have moved the input on (the checks `lt` and `le` below, which keep the
// definitions well founded); `lemma_readings_finish` shows that this never
// happens while the lexer is within its text, as it is in a well-formed
// parser (`lemma_parser_fits`).
/// The input of expanded reading: put-back tokens, lexer, open
/// conditionals, budget.
pub type Input = (Seq<TokenView>, LexerView, nat, nat);

/// A reading: its result and the input left after it, or `None`.
pub type Reading<T> = Option<(Result<T, TeXError>, Input)>;

/// How much text an input has left.
pub open spec fn size(i: Input) -> int {
    input_size(i.0, i.1)
}

/// `a` is further on than `b`: less budget, or as much and less text.
pub open spec fn lt(a: Input, b: Input) -> bool {
    a.3 < b.3 || (a.3 == b.3 && 0 <= size(a) < size(b))
}

/// `a` is not behind `b`: less budget, or as much and no more text.
pub open spec fn le(a: Input, b: Input) -> bool {
    a.3 < b.3 || (a.3 == b.3 && 0 <= size(a) <= size(b))
}

/// The input with a token put back.
pub open spec fn put_back(i: Input, t: TokenView) -> Input {
    (i.0.push(t), i.1, i.2, i.3)
}

/// A reading that gave nothing, with `v` as its result instead.
pub open spec fn with_value<T>(p: Reading<()>, v: T) -> Reading<T> {
    match p {
        None => None,
        Some((Ok(()), i)) => Some((Ok(v), i)),
        Some((Err(e), i)) => Some((Err(e), i)),
    }
}

/// A reading that failed with `e`.
pub open spec fn failed<T>(e: TeXError, i: Input) -> Reading<T> {
    Some((Err(e), i))
}

/// The expansion of a conditional token `t` that has just been read, with
/// `i` the input after it: the input after the expansion, or the error.
/// Opening a conditional where as many are open as the counter can count
/// fails with `ExpansionLimit`.
pub open spec fn conditional_step(st: TeXState, t: TokenView, i: Input) -> Reading<()>
    decreases i.3, size(i), 15nat,
{
    if st.is_prim(t, "iftrue"@) {
        if i.2 < usize::MAX {
            Some((Ok(()), (i.0, i.1, i.2 + 1, i.3)))
        } else {
            failed(TeXError::ExpansionLimit, i)
        }
    } else if st.is_prim(t, "iffalse"@) || st.is_prim(t, "ifnum"@) {
        let test = if st.is_prim(t, "iffalse"@) {
            Some((Ok::<bool, TeXError>(false), i))
        } else {
            read_ifnum(st, i)
        };
        match test {
            None => None,
            Some((Err(e), i2)) => failed(e, i2),
            Some((Ok(true), i2)) => if i2.2 < usize::MAX {
                Some((Ok(()), (i2.0, i2.1, i2.2 + 1, i2.3)))
            } else {
                failed(TeXError::ExpansionLimit, i2)
            },
            Some((Ok(false), i2)) => match skip_to_fi_or_else(st, i2.0, i2.1) {
                (Ok(into_else), up3, l3) => if into_else && i2.2 >= usize::MAX {
                    failed(TeXError::ExpansionLimit, (up3, l3, i2.2, i2.3))
                } else {
                    Some(
                        (
                            Ok(()),
                            (
                                up3,
                                l3,
                                if into_else {
                                    i2.2 + 1
                                } else {
                                    i2.2
                                },
                                i2.3,
                            ),
                        ),
                    )
                },
                (Err(e), up3, l3) => failed(e, (up3, l3, i2.2, i2.3)),
            },
        }
    } else if st.is_prim(t, "fi"@) {
        if i.2 == 0 {
            failed(TeXError::ExtraFi, i)
        } else {
            Some((Ok(()), (i.0, i.1, (i.2 - 1) as nat, i.3)))
        }
    } else if st.is_prim(t, "else"@) {
        if i.2 == 0 {
            failed(TeXError::ExtraElse, i)
        } else {
            match skip_to_fi(st, i.0, i.1) {
                (Ok(()), up2, l2) => Some((Ok(()), (up2, l2, (i.2 - 1) as nat, i.3))),
                (Err(e), up2, l2) => failed(e, (up2, l2, (i.2 - 1) as nat, i.3)),
            }
        }
    } else {
        None
    }
}

/// The expansion of `\number`, just read: the digits of the number that
/// follows are put back into the input.
pub open spec fn print_step(st: TeXState, i: Input) -> Reading<()>
    decreases i.3, size(i), 14nat,
{
    match read_number(st, i) {
        None => None,
        Some((Err(e), i2)) => failed(e, i2),
        Some((Ok(v), i2)) => Some(
            (Ok(()), (i2.0 + other_tokens(number_text(v as int)).reverse(), i2.1, i2.2, i2.3)),
        ),
    }
}

/// The expansion of a macro `m`, just read: its arguments are read and its
/// replacement text, with the arguments in place of the parameters, is put
/// back into the input.
#[verifier::opaque]
pub open spec fn macro_step(st: TeXState, m: MacroView, i: Input) -> Reading<()> {
    match spec_arguments(st.category_fn(), i.0, i.1, m.parameter_list, 0, Map::empty()) {
        (Ok(args), up2, l2) => Some(
            (
                Ok(()),
                (
                    up2 + expand_replacement(m.replacement_list, argument_values(args)).reverse(),
                    l2,
                    i.2,
                    i.3,
                ),
            ),
        ),
        (Err(e), up2, l2) => failed(e, (up2, l2, i.2, i.3)),
    }
}

/// One expansion of an expandable token `t` that has just been read, with
/// `i` the input after it.
pub open spec fn expand_step(st: TeXState, t: TokenView, i: Input) -> Reading<()>
    decreases i.3, size(i), 16nat,
{
    if st.is_conditional_token(t) {
        conditional_step(st, t, i)
    } else if st.is_prim(t, "number"@) {
        print_step(st, i)
    } else {
        match st.meaning_of(t) {
            Some(MeaningView::Macro(m)) => macro_step(st, m, i),
            _ => None,
        }
    }
}

/// Expanded reading of the next token: tokens that expand are expanded one
/// at a time, each taking one from the budget, until a token comes that
/// does not expand; with no budget left, that is an error.
pub open spec fn read_next(st: TeXState, i: Input) -> Reading<Option<TokenView>>
    decreases i.3, size(i), 0nat,
{
    let (r, up2, l2) = next_token(st.category_fn(), i.0, i.1);
    let i2 = (up2, l2, i.2, i.3);
    match r {
        Ok(Some(t)) => if st.expandable(t) {
            if i.3 == 0 {
                failed(TeXError::ExpansionLimit, i2)
            } else {
                match expand_step(st, t, (up2, l2, i.2, (i.3 - 1) as nat)) {
                    None => None,
                    Some((Err(e), i3)) => failed(e, i3),
                    Some((Ok(()), i3)) => if i3.3 < i.3 {
                        read_next(st, i3)
                    } else {
                        None
                    },
                }
            }
        } else {
            Some((Ok(Some(t)), i2))
        },
        Ok(None) => Some((Ok(None), i2)),
        Err(e) => failed(e, i2),
    }
}

/// Expanded reading of the next token, put back.
pub open spec fn read_peek(st: TeXState, i: Input) -> Reading<Option<TokenView>>
    decreases i.3, size(i), 2nat,
{
    match read_next(st, i) {
        Some((Ok(Some(t)), i2)) => Some((Ok(Some(t)), put_back(i2, t))),
        other => other,
    }
}

/// Peeks at the next token and tells whether it satisfies `test`; the token
/// is put back.
pub open spec fn read_test(st: TeXState, i: Input, test: spec_fn(TokenView) -> bool) -> Reading<bool>
    decreases i.3, size(i), 3nat,
{
    match read_peek(st, i) {
        None => None,
        Some((Err(e), i2)) => failed(e, i2),
        Some((Ok(None), i2)) => Some((Ok(false), i2)),
        Some((Ok(Some(t)), i2)) => Some((Ok(test(t)), i2)),
    }
}

/// Whether a token means one of the named primitives.
pub open spec fn means_one_of(st: TeXState, t: TokenView, names: Seq<&str>) -> bool {
    exists|k: int| 0 <= k < names.len() && st.is_prim(t, (#[trigger] names[k])@)
}

/// Peeks at the next token and tells whether it means one of the named
/// primitives.
pub open spec fn read_prim_head(st: TeXState, i: Input, names: Seq<&str>) -> Reading<bool>
    decreases i.3, size(i), 4nat,
{
    read_test(st, i, |t: TokenView| means_one_of(st, t, names))
}

/// The spaces that come next; the first token that is not a space is put
/// back.
pub open spec fn read_spaces(st: TeXState, i: Input) -> Reading<()>
    decreases i.3, size(i), 5nat,
{
    match read_next(st, i) {
        None => None,
        Some((Err(e), i2)) => failed(e, i2),
        Some((Ok(None), i2)) => Some((Ok(()), i2)),
        Some((Ok(Some(t)), i2)) => if is_space(t) {
            if lt(i2, i) {
                read_spaces(st, i2)
            } else {
                None
            }
        } else {
            Some((Ok(()), put_back(i2, t)))
        },
    }
}

/// One optional space; any other token is put back.
pub open spec fn read_space(st: TeXState, i: Input) -> Reading<()>
    decreases i.3, size(i), 5nat,
{
    match read_next(st, i) {
        None => None,
        Some((Err(e), i2)) => failed(e, i2),
        Some((Ok(None), i2)) => Some((Ok(()), i2)),
        Some((Ok(Some(t)), i2)) => if is_space(t) {
            Some((Ok(()), i2))
        } else {
            Some((Ok(()), put_back(i2, t)))
        },
    }
}

/// The names of the integer variables.
pub open spec fn integer_variable_names() -> Seq<&'static str> {
    seq!["count", "tolerance", "pretolerance", "tracingparagraphs", "adjdemerits"]
}

/// The names of the dimension variables.
pub open spec fn dimen_variable_names() -> Seq<&'static str> {
    seq!["wd", "ht", "dp", "hsize"]
}

/// Whether a token is a digit in the given base.
pub open spec fn is_digit_in(t: TokenView, hex: bool) -> bool {
    if hex {
        is_hex_digit_token(t)
    } else {
        is_digit_token(t)
    }
}

/// The digits that come next, read into `value` in the given base, and an
/// optional space after them.
pub open spec fn read_digits(st: TeXState, i: Input, value: u32, hex: bool) -> Reading<u32>
    decreases i.3, size(i), 6nat,
{
    match read_next(st, i) {
        None => None,
        Some((Err(e), i2)) => failed(e, i2),
        Some((Ok(None), i2)) => if le(i2, i) {
            with_value(read_space(st, i2), value)
        } else {
            None
        },
        Some((Ok(Some(t)), i2)) => if is_digit_in(t, hex) {
            let v = value * (if hex {
                16int
            } else {
                10int
            }) + digit_value(t);
            if v > u32::MAX {
                failed(TeXError::NumberOutOfRange, i2)
            } else if lt(i2, i) {
                read_digits(st, i2, v as u32, hex)
            } else {
                None
            }
        } else if le(put_back(i2, t), i) {
            with_value(read_space(st, put_back(i2, t)), value)
        } else {
            None
        },
    }
}

/// A decimal integer constant.
pub open spec fn read_integer_constant(st: TeXState, i: Input) -> Reading<u32>
    decreases i.3, size(i), 7nat,
{
    match read_next(st, i) {
        None => None,
        Some((Err(e), i2)) => failed(e, i2),
        Some((Ok(None), i2)) => failed(TeXError::MissingNumber, i2),
        Some((Ok(Some(t)), i2)) => if is_digit_token(t) {
            if le(i2, i) {
                read_digits(st, i2, digit_value(t) as u32, false)
            } else {
                None
            }
        } else {
            failed(TeXError::MissingNumber, put_back(i2, t))
        },
    }
}

/// A hexadecimal constant: `"` and hexadecimal digits.
pub open spec fn read_hexadecimal_constant(st: TeXState, i: Input) -> Reading<u32>
    decreases i.3, size(i), 7nat,
{
    match read_next(st, i) {
        None => None,
        Some((Err(e), i2)) => failed(e, i2),
        Some((Ok(Some(TokenView::Char('"', Category::Other))), i2)) => if le(i2, i) {
            match read_next(st, i2) {
                None => None,
                Some((Err(e), i3)) => failed(e, i3),
                Some((Ok(None), i3)) => failed(TeXError::MissingNumber, i3),
                Some((Ok(Some(t)), i3)) => if is_hex_digit_token(t) {
                    if le(i3, i) {
                        read_digits(st, i3, digit_value(t) as u32, true)
                    } else {
                        None
                    }
                } else {
                    failed(TeXError::MissingNumber, put_back(i3, t))
                },
            }
        } else {
            None
        },
        Some((Ok(_), i2)) => failed(TeXError::MissingNumber, i2),
    }
}

/// A character constant: a backquote, then a character token or a control
/// sequence of one character (not expanded), and an optional space.
pub open spec fn read_character_constant(st: TeXState, i: Input) -> Reading<u32>
    decreases i.3, size(i), 7nat,
{
    match read_next(st, i) {
        None => None,
        Some((Err(e), i2)) => failed(e, i2),
        Some((Ok(Some(TokenView::Char('`', Category::Other))), i2)) => {
            let (r, up3, l3) = next_token(st.category_fn(), i2.0, i2.1);
            let i3 = (up3, l3, i2.2, i2.3);
            match r {
                Err(e) => failed(e, i3),
                Ok(None) => failed(TeXError::UnexpectedEnd, i3),
                Ok(Some(TokenView::Char(ch, _))) => if le(i3, i) {
                    with_value(read_space(st, i3), ch as u32)
                } else {
                    None
                },
                Ok(Some(TokenView::ControlSequence(name))) => if name.len() == 1 {
                    if le(i3, i) {
                        with_value(read_space(st, i3), name[0] as u32)
                    } else {
                        None
                    }
                } else {
                    failed(TeXError::InvalidCharacterConstant, i3)
                },
            }
        },
        Some((Ok(_), i2)) => failed(TeXError::MissingNumber, i2),
    }
}

/// Whether a decimal constant comes next.
pub open spec fn read_integer_constant_head(st: TeXState, i: Input) -> Reading<bool>
    decreases i.3, size(i), 4nat,
{
    read_test(st, i, |t: TokenView| is_digit_token(t))
}

/// Whether a hexadecimal constant comes next.
pub open spec fn read_hexadecimal_constant_head(st: TeXState, i: Input) -> Reading<bool>
    decreases i.3, size(i), 4nat,
{
    read_test(st, i, |t: TokenView| t == TokenView::Char('"', Category::Other))
}

/// Whether a character constant comes next.
pub open spec fn read_character_constant_head(st: TeXState, i: Input) -> Reading<bool>
    decreases i.3, size(i), 4nat,
{
    read_test(st, i, |t: TokenView| t == TokenView::Char('`', Category::Other))
}

/// A constant read as an integer: too large for one, it is out of range.
pub open spec fn as_integer(p: Reading<u32>) -> Reading<i32> {
    match p {
        None => None,
        Some((Err(e), i)) => failed(e, i),
        Some((Ok(v), i)) => if v > i32::MAX {
            failed(TeXError::NumberOutOfRange, i)
        } else {
            Some((Ok(v as i32), i))
        },
    }
}

/// An integer constant of any of the three kinds, chosen by its first
/// token.
pub open spec fn read_constant(st: TeXState, i: Input) -> Reading<i32>
    decreases i.3, size(i), 8nat,
{
    match read_integer_constant_head(st, i) {
        None => None,
        Some((Err(e), i2)) => failed(e, i2),
        Some((Ok(true), i2)) => if le(i2, i) {
            as_integer(read_integer_constant(st, i2))
        } else {
            None
        },
        Some((Ok(false), i2)) => if le(i2, i) {
            match read_hexadecimal_constant_head(st, i2) {
                None => None,
                Some((Err(e), i3)) => failed(e, i3),
                Some((Ok(true), i3)) => if le(i3, i) {
                    as_integer(read_hexadecimal_constant(st, i3))
                } else {
                    None
                },
                Some((Ok(false), i3)) => if le(i3, i) {
                    match read_character_constant_head(st, i3) {
                        None => None,
                        Some((Err(e), i4)) => failed(e, i4),
                        Some((Ok(true), i4)) => if le(i4, i) {
                            as_integer(read_character_constant(st, i4))
                        } else {
                            None
                        },
                        Some((Ok(false), i4)) => failed(TeXError::MissingNumber, i4),
                    }
                } else {
                    None
                },
            }
        } else {
            None
        },
    }
}

/// Whether an integer comes next: an integer variable or a constant.
pub open spec fn read_normal_integer_head(st: TeXState, i: Input) -> Reading<bool>
    decreases i.3, size(i), 5nat,
{
    match read_prim_head(st, i, integer_variable_names()) {
        Some((Ok(false), i2)) => if le(i2, i) {
            match read_integer_constant_head(st, i2) {
                Some((Ok(false), i3)) => if le(i3, i) {
                    match read_hexadecimal_constant_head(st, i3) {
                        Some((Ok(false), i4)) => if le(i4, i) {
                            read_character_constant_head(st, i4)
                        } else {
                            None
                        },
                        other => other,
                    }
                } else {
                    None
                },
                other => other,
            }
        } else {
            None
        },
        other => other,
    }
}

/// Signs, each followed by optional spaces, and optional spaces: the sign
/// they make from `sign`.
pub open spec fn read_signs(st: TeXState, i: Input, sign: i32) -> Reading<i32>
    decreases i.3, size(i), 6nat,
{
    match read_next(st, i) {
        None => None,
        Some((Err(e), i2)) => failed(e, i2),
        Some((Ok(None), i2)) => if le(i2, i) {
            with_value(read_spaces(st, i2), sign)
        } else {
            None
        },
        Some((Ok(Some(t)), i2)) => if t == TokenView::Char('+', Category::Other) || t
            == TokenView::Char('-', Category::Other) {
            let next_sign: i32 = if t == TokenView::Char('-', Category::Other) {
                (-sign) as i32
            } else {
                sign
            };
            if le(i2, i) {
                match read_spaces(st, i2) {
                    None => None,
                    Some((Err(e), i3)) => failed(e, i3),
                    Some((Ok(()), i3)) => if lt(i3, i) {
                        read_signs(st, i3, next_sign)
                    } else {
                        None
                    },
                }
            } else {
                None
            }
        } else if le(put_back(i2, t), i) {
            with_value(read_spaces(st, put_back(i2, t)), sign)
        } else {
            None
        },
    }
}

/// An integer variable: a `\count` register with its number, or an integer
/// parameter.
pub open spec fn read_integer_variable(st: TeXState, i: Input) -> Reading<IntegerVariable>
    decreases i.3, size(i), 9nat,
{
    match read_next(st, i) {
        None => None,
        Some((Err(e), i2)) => failed(e, i2),
        Some((Ok(None), i2)) => failed(TeXError::UnexpectedEnd, i2),
        Some((Ok(Some(t)), i2)) => if st.is_prim(t, "count"@) {
            if lt(i2, i) {
                match read_8bit_number(st, i2) {
                    None => None,
                    Some((Err(e), i3)) => failed(e, i3),
                    Some((Ok(n), i3)) => Some((Ok(IntegerVariable::CountRegister(n)), i3)),
                }
            } else {
                None
            }
        } else if st.is_prim(t, "tolerance"@) {
            Some((Ok(IntegerVariable::Parameter(IntegerParameter::Tolerance)), i2))
        } else if st.is_prim(t, "pretolerance"@) {
            Some((Ok(IntegerVariable::Parameter(IntegerParameter::Pretolerance)), i2))
        } else if st.is_prim(t, "tracingparagraphs"@) {
            Some((Ok(IntegerVariable::Parameter(IntegerParameter::TracingParagraphs)), i2))
        } else if st.is_prim(t, "adjdemerits"@) {
            Some((Ok(IntegerVariable::Parameter(IntegerParameter::AdjDemerits)), i2))
        } else {
            failed(TeXError::Unimplemented, i2)
        },
    }
}

/// A dimension variable: a box dimension with its box number, or a
/// dimension parameter.
pub open spec fn read_dimen_variable(st: TeXState, i: Input) -> Reading<DimenVariable>
    decreases i.3, size(i), 9nat,
{
    match read_next(st, i) {
        None => None,
        Some((Err(e), i2)) => failed(e, i2),
        Some((Ok(None), i2)) => failed(TeXError::UnexpectedEnd, i2),
        Some((Ok(Some(t)), i2)) => if st.is_prim(t, "wd"@) || st.is_prim(t, "ht"@) || st.is_prim(
            t,
            "dp"@,
        ) {
            if lt(i2, i) {
                match read_8bit_number(st, i2) {
                    None => None,
                    Some((Err(e), i3)) => failed(e, i3),
                    Some((Ok(n), i3)) => Some(
                        (
                            Ok(
                                if st.is_prim(t, "wd"@) {
                                    DimenVariable::BoxWidth(n)
                                } else if st.is_prim(t, "ht"@) {
                                    DimenVariable::BoxHeight(n)
                                } else {
                                    DimenVariable::BoxDepth(n)
                                },
                            ),
                            i3,
                        ),
                    ),
                }
            } else {
                None
            }
        } else if st.is_prim(t, "hsize"@) {
            Some((Ok(DimenVariable::Parameter(DimenParameter::HSize)), i2))
        } else {
            failed(TeXError::Unimplemented, i2)
        },
    }
}

/// An internal integer: the value of an integer variable.
pub open spec fn read_internal_integer(st: TeXState, i: Input) -> Reading<i32>
    decreases i.3, size(i), 10nat,
{
    match read_prim_head(st, i, integer_variable_names()) {
        None => None,
        Some((Err(e), i2)) => failed(e, i2),
        Some((Ok(false), i2)) => failed(TeXError::Unimplemented, i2),
        Some((Ok(true), i2)) => if le(i2, i) {
            match read_integer_variable(st, i2) {
                None => None,
                Some((Err(e), i3)) => failed(e, i3),
                Some((Ok(var), i3)) => Some((Ok(var.value(st)), i3)),
            }
        } else {
            None
        },
    }
}

/// An internal dimension, as its number of scaled points: the value of a
/// dimension variable.
pub open spec fn read_internal_dimen(st: TeXState, i: Input) -> Reading<int>
    decreases i.3, size(i), 10nat,
{
    match read_prim_head(st, i, dimen_variable_names()) {
        None => None,
        Some((Err(e), i2)) => failed(e, i2),
        Some((Ok(false), i2)) => failed(TeXError::Unimplemented, i2),
        Some((Ok(true), i2)) => if le(i2, i) {
            match read_dimen_variable(st, i2) {
                None => None,
                Some((Err(e), i3)) => failed(e, i3),
                Some((Ok(var), i3)) => Some((Ok(var.value(st)), i3)),
            }
        } else {
            None
        },
    }
}

/// A `<normal integer>`: an internal integer or a constant.
pub open spec fn read_normal_integer(st: TeXState, i: Input) -> Reading<i32>
    decreases i.3, size(i), 11nat,
{
    match read_prim_head(st, i, integer_variable_names()) {
        None => None,
        Some((Err(e), i2)) => failed(e, i2),
        Some((Ok(true), i2)) => if le(i2, i) {
            read_internal_integer(st, i2)
        } else {
            None
        },
        Some((Ok(false), i2)) => if le(i2, i) {
            read_constant(st, i2)
        } else {
            None
        },
    }
}

/// An `<unsigned number>`: a normal integer, or an internal dimension taken
/// as its number of scaled points.
pub open spec fn read_unsigned_number(st: TeXState, i: Input) -> Reading<i32>
    decreases i.3, size(i), 12nat,
{
    match read_normal_integer_head(st, i) {
        None => None,
        Some((Err(e), i2)) => failed(e, i2),
        Some((Ok(true), i2)) => if le(i2, i) {
            read_normal_integer(st, i2)
        } else {
            None
        },
        Some((Ok(false), i2)) => if le(i2, i) {
            match read_prim_head(st, i2, dimen_variable_names()) {
                None => None,
                Some((Err(e), i3)) => failed(e, i3),
                Some((Ok(false), i3)) => failed(TeXError::MissingNumber, i3),
                Some((Ok(true), i3)) => if le(i3, i) {
                    match read_internal_dimen(st, i3) {
                        None => None,
                        Some((Err(e), i4)) => failed(e, i4),
                        Some((Ok(v), i4)) => Some((Ok(v as i32), i4)),
                    }
                } else {
                    None
                },
            }
        } else {
            None
        },
    }
}

/// A `<number>`: optional signs, then an unsigned number; the negation of
/// the smallest integer is out of range.
pub open spec fn read_number(st: TeXState, i: Input) -> Reading<i32>
    decreases i.3, size(i), 13nat,
{
    match read_signs(st, i, 1) {
        None => None,
        Some((Err(e), i2)) => failed(e, i2),
        Some((Ok(sign), i2)) => if le(i2, i) {
            match read_unsigned_number(st, i2) {
                None => None,
                Some((Err(e), i3)) => failed(e, i3),
                Some((Ok(v), i3)) => if sign == -1 {
                    if v == i32::MIN {
                        failed(TeXError::NumberOutOfRange, i3)
                    } else {
                        Some((Ok((-v) as i32), i3))
                    }
                } else {
                    Some((Ok(v), i3))
                },
            }
        } else {
            None
        },
    }
}

/// A number from 0 to 255.
pub open spec fn read_8bit_number(st: TeXState, i: Input) -> Reading<u8>
    decreases i.3, size(i), 14nat,
{
    match read_number(st, i) {
        None => None,
        Some((Err(e), i2)) => failed(e, i2),
        Some((Ok(n), i2)) => if n < 0 || n > 255 {
            failed(TeXError::NumberOutOfRange, i2)
        } else {
            Some((Ok(n as u8), i2))
        },
    }
}

/// A number from 0 to 32767.
pub open spec fn read_15bit_number(st: TeXState, i: Input) -> Reading<u16> {
    match read_number(st, i) {
        None => None,
        Some((Err(e), i2)) => failed(e, i2),
        Some((Ok(n), i2)) => if n < 0 || n > 32767 {
            failed(TeXError::NumberOutOfRange, i2)
        } else {
            Some((Ok(n as u16), i2))
        },
    }
}

/// A relation for `\ifnum`: `<`, `=` or `>` of category other, and optional
/// spaces.
pub open spec fn read_relation(st: TeXState, i: Input) -> Reading<Relation>
    decreases i.3, size(i), 6nat,
{
    match read_next(st, i) {
        None => None,
        Some((Err(e), i2)) => failed(e, i2),
        Some((Ok(Some(t)), i2)) => {
            let rel = if t == TokenView::Char('<', Category::Other) {
                Some(Relation::LessThan)
            } else if t == TokenView::Char('=', Category::Other) {
                Some(Relation::EqualTo)
            } else if t == TokenView::Char('>', Category::Other) {
                Some(Relation::GreaterThan)
            } else {
                None
            };
            match rel {
                Some(rel) => if le(i2, i) {
                    with_value(read_spaces(st, i2), rel)
                } else {
                    None
                },
                None => failed(TeXError::InvalidRelation, i2),
            }
        },
        Some((Ok(None), i2)) => failed(TeXError::InvalidRelation, i2),
    }
}

/// Whether two numbers stand in a relation.
pub open spec fn relation_holds(rel: Relation, left: int, right: int) -> bool {
    match rel {
        Relation::GreaterThan => left > right,
        Relation::EqualTo => left == right,
        Relation::LessThan => left < right,
    }
}

/// The test of `\ifnum`: a number, a relation and a number, and whether the
/// numbers stand in the relation.
pub open spec fn read_ifnum(st: TeXState, i: Input) -> Reading<bool>
    decreases i.3, size(i), 14nat,
{
    match read_number(st, i) {
        None => None,
        Some((Err(e), i2)) => failed(e, i2),
        Some((Ok(left), i2)) => if le(i2, i) {
            match read_relation(st, i2) {
                None => None,
                Some((Err(e), i3)) => failed(e, i3),
                Some((Ok(rel), i3)) => if le(i3, i) {
                    match read_number(st, i3) {
                        None => None,
                        Some((Err(e), i4)) => failed(e, i4),
                        Some((Ok(right), i4)) => Some(
                            (Ok(relation_holds(rel, left as int, right as int)), i4),
                        ),
                    }
                } else {
                    None
                },
            }
        } else {
            None
        },
    }
}

/// The token that expanded reading gives does not expand.
pub proof fn lemma_read_next_does_not_expand(st: TeXState, i: Input)
    ensures
        read_next(st, i) matches Some((Ok(Some(t)), _)) ==> !st.expandable(t),
    decreases i.3,
{
    let (r, up2, l2) = next_token(st.category_fn(), i.0, i.1);
    if let Ok(Some(t)) = r {
        if st.expandable(t) && i.3 > 0 {
            if let Some((Ok(()), i3)) = expand_step(st, t, (up2, l2, i.2, (i.3 - 1) as nat)) {
                if i3.3 < i.3 {
                    lemma_read_next_does_not_expand(st, i3);
                }
            }
        }
    }
}

/// A token that expanded reading peeked at is read again next, and reading
/// it leaves the input as reading it first did.
pub proof fn lemma_read_after_peek(st: TeXState, i: Input, t: TokenView, i2: Input)
    requires
        read_next(st, i) == Some((Ok::<Option<TokenView>, TeXError>(Some(t)), i2)),
    ensures
        read_next(st, put_back(i2, t)) == Some((Ok::<Option<TokenView>, TeXError>(Some(t)), i2)),
{
    lemma_read_next_does_not_expand(st, i);
    lemma_put_back_then_read(st.category_fn(), i2.0, i2.1, t);
}

/// A token that does not expand, put back, is what expanded reading gives
/// next.
pub proof fn lemma_read_put_back(st: TeXState, i: Input, t: TokenView)
    requires
        !st.expandable(t),
    ensures
        read_next(st, put_back(i, t)) == Some((Ok::<Option<TokenView>, TeXError>(Some(t)), i)),
{
    lemma_put_back_then_read(st.category_fn(), i.0, i.1, t);
}

/// The value of decimal digits read after a value `v`: each digit shifts
/// the value one place and is added to it.
pub open spec fn digits_from(v: int, ds: Seq<TokenView>) -> int
    decreases ds.len(),
{
    if ds.len() == 0 {
        v
    } else {
        digits_from(v * 10 + digit_value(ds[0]), ds.drop_first())
    }
}

/// Whether tokens are decimal digits that mean nothing.
pub open spec fn plain_digits(st: TeXState, ds: Seq<TokenView>) -> bool {
    forall|k: int| 0 <= k < ds.len() ==> is_digit_token(#[trigger] ds[k]) && st.meaning_of(ds[k]) is None
}

/// Reading more digits never makes a value smaller.
proof fn lemma_digits_from_grows(v: int, ds: Seq<TokenView>)
    requires
        v >= 0,
        forall|k: int| 0 <= k < ds.len() ==> is_digit_token(#[trigger] ds[k]),
    ensures
        digits_from(v, ds) >= v,
    decreases ds.len(),
{
    if ds.len() > 0 {
        assert(is_digit_token(ds[0]));
        assert forall|k: int| 0 <= k < ds.drop_first().len() implies is_digit_token(
            #[trigger] ds.drop_first()[k],
        ) by {
            assert(ds.drop_first()[k] == ds[k + 1]);
        }
        lemma_digits_from_grows(v * 10 + digit_value(ds[0]), ds.drop_first());
    }
}

/// Digits followed by a space, all meaning nothing, are read after a value
/// `v` as `digits_from(v, ds)`, and the space is read with them.
proof fn lemma_read_digits_literal(
    st: TeXState,
    base: Seq<TokenView>,
    sp: TokenView,
    ds: Seq<TokenView>,
    l: LexerView,
    d: nat,
    b: nat,
    v: u32,
)
    requires
        crate::lexer::remaining(l) >= 0,
        plain_digits(st, ds),
        is_space(sp),
        st.meaning_of(sp) is None,
        digits_from(v as int, ds) <= u32::MAX,
    ensures
        read_digits(st, (base.push(sp) + ds.reverse(), l, d, b), v, false) == Some(
            (Ok::<u32, TeXError>(digits_from(v as int, ds) as u32), (base, l, d, b)),
        ),
    decreases ds.len(),
{
    let i = (base.push(sp) + ds.reverse(), l, d, b);
    if ds.len() == 0 {
        assert(base.push(sp) + ds.reverse() =~= base.push(sp));
        lemma_read_put_back(st, (base, l, d, b), sp);
        assert(put_back((base, l, d, b), sp) == i);
        assert(read_next(st, i) == Some((Ok::<Option<TokenView>, TeXError>(Some(sp)), (base, l, d, b))));
        assert(size(i) >= 0);
        assert(read_space(st, i) == Some((Ok::<(), TeXError>(()), (base, l, d, b))));
        assert(digits_from(v as int, ds) == v);
    } else {
        let rest = ds.drop_first();
        let i1 = (base.push(sp) + rest.reverse(), l, d, b);
        assert(base.push(sp) + ds.reverse() =~= (base.push(sp) + rest.reverse()).push(ds[0])) by {
            assert(ds.reverse() =~= rest.reverse().push(ds[0]));
        }
        assert(is_digit_token(ds[0]) && st.meaning_of(ds[0]) is None);
        lemma_read_put_back(st, i1, ds[0]);
        assert(put_back(i1, ds[0]) == i);
        assert(plain_digits(st, rest)) by {
            assert forall|k: int| 0 <= k < rest.len() implies is_digit_token(#[trigger] rest[k])
                && st.meaning_of(rest[k]) is None by {
                assert(rest[k] == ds[k + 1]);
            }
        }
        let v1 = v * 10 + digit_value(ds[0]);
        lemma_digits_from_grows(v1, rest);
        lemma_read_digits_literal(st, base, sp, rest, l, d, b, v1 as u32);
    }
}

/// Before a digit that means nothing there are no signs, no integer
/// variable, and a decimal constant.
proof fn lemma_digit_heads(st: TeXState, i: Input, t: TokenView, i1: Input)
    requires
        size(i) >= 0,
        is_digit_token(t),
        st.meaning_of(t) is None,
        read_next(st, i) == Some((Ok::<Option<TokenView>, TeXError>(Some(t)), i1)),
        put_back(i1, t) == i,
    ensures
        read_signs(st, i, 1) == Some((Ok::<i32, TeXError>(1), i)),
        read_prim_head(st, i, integer_variable_names()) == Some((Ok::<bool, TeXError>(false), i)),
        read_integer_constant_head(st, i) == Some((Ok::<bool, TeXError>(true), i)),
        read_normal_integer_head(st, i) == Some((Ok::<bool, TeXError>(true), i)),
{
    assert(read_spaces(st, i) == Some((Ok::<(), TeXError>(()), i)));
    assert(read_peek(st, i) == Some((Ok::<Option<TokenView>, TeXError>(Some(t)), i)));
    assert(!means_one_of(st, t, integer_variable_names()));
}

/// A number written as decimal digits and a space, none of which means
/// anything, reads as the value of the digits, with the space.
pub proof fn lemma_read_decimal_number(
    st: TeXState,
    base: Seq<TokenView>,
    sp: TokenView,
    ds: Seq<TokenView>,
    l: LexerView,
    d: nat,
    b: nat,
)
    requires
        crate::lexer::remaining(l) >= 0,
        ds.len() > 0,
        plain_digits(st, ds),
        is_space(sp),
        st.meaning_of(sp) is None,
        digits_from(0, ds) <= i32::MAX,
    ensures
        read_number(st, (base.push(sp) + ds.reverse(), l, d, b)) == Some(
            (Ok::<i32, TeXError>(digits_from(0, ds) as i32), (base, l, d, b)),
        ),
{
    let i = (base.push(sp) + ds.reverse(), l, d, b);
    let t = ds[0];
    let rest = ds.drop_first();
    let i1 = (base.push(sp) + rest.reverse(), l, d, b);
    let end = (base, l, d, b);
    let value = digits_from(0, ds);
    assert(base.push(sp) + ds.reverse() =~= (base.push(sp) + rest.reverse()).push(t)) by {
        assert(ds.reverse() =~= rest.reverse().push(t));
    }
    assert(is_digit_token(t) && st.meaning_of(t) is None);
    lemma_read_put_back(st, i1, t);
    assert(plain_digits(st, rest)) by {
        assert forall|k: int| 0 <= k < rest.len() implies is_digit_token(#[trigger] rest[k])
            && st.meaning_of(rest[k]) is None by {
            assert(rest[k] == ds[k + 1]);
        }
    }
    assert(value == digits_from(digit_value(t), rest));
    lemma_digits_from_grows(0, ds);
    lemma_read_digits_literal(st, base, sp, rest, l, d, b, digit_value(t) as u32);
    assert(le(i1, i));
    lemma_read_number_of_digits(st, i, t, i1, end, value);
}

/// A number whose first token is a digit that means nothing, and whose
/// digits read as `value`, reads as `value`.
proof fn lemma_read_number_of_digits(st: TeXState, i: Input, t: TokenView, i1: Input, end: Input, value: int)
    requires
        size(i) >= 0,
        is_digit_token(t),
        st.meaning_of(t) is None,
        read_next(st, i) == Some((Ok::<Option<TokenView>, TeXError>(Some(t)), i1)),
        put_back(i1, t) == i,
        le(i1, i),
        0 <= value <= i32::MAX,
        read_digits(st, i1, digit_value(t) as u32, false) == Some((Ok::<u32, TeXError>(value as u32), end)),
    ensures
        read_number(st, i) == Some((Ok::<i32, TeXError>(value as i32), end)),
{
    lemma_digit_heads(st, i, t, i1);
    let x = Some((Ok::<i32, TeXError>(value as i32), end));
    lemma_step_integer_constant(st, i, t, i1, Some((Ok::<u32, TeXError>(value as u32), end)));
    lemma_step_constant(st, i, x);
    lemma_step_normal_integer(st, i, x);
    lemma_step_unsigned_number(st, i, x);
    lemma_step_number(st, i, x);
}

proof fn lemma_step_integer_constant(st: TeXState, i: Input, t: TokenView, i1: Input, x: Reading<u32>)
    requires
        size(i) >= 0,
        is_digit_token(t),
        read_next(st, i) == Some((Ok::<Option<TokenView>, TeXError>(Some(t)), i1)),
        le(i1, i),
        read_digits(st, i1, digit_value(t) as u32, false) == x,
    ensures
        read_integer_constant(st, i) == x,
{
}

proof fn lemma_step_constant(st: TeXState, i: Input, x: Reading<i32>)
    requires
        size(i) >= 0,
        read_integer_constant_head(st, i) == Some((Ok::<bool, TeXError>(true), i)),
        as_integer(read_integer_constant(st, i)) == x,
    ensures
        read_constant(st, i) == x,
{
}

proof fn lemma_step_normal_integer(st: TeXState, i: Input, x: Reading<i32>)
    requires
        size(i) >= 0,
        read_prim_head(st, i, integer_variable_names()) == Some((Ok::<bool, TeXError>(false), i)),
        read_constant(st, i) == x,
    ensures
        read_normal_integer(st, i) == x,
{
}

proof fn lemma_step_unsigned_number(st: TeXState, i: Input, x: Reading<i32>)
    requires
        size(i) >= 0,
        read_normal_integer_head(st, i) == Some((Ok::<bool, TeXError>(true), i)),
        read_normal_integer(st, i) == x,
    ensures
        read_unsigned_number(st, i) == x,
{
}

proof fn lemma_step_number(st: TeXState, i: Input, x: Reading<i32>)
    requires
        size(i) >= 0,
        read_signs(st, i, 1) == Some((Ok::<i32, TeXError>(1), i)),
        read_unsigned_number(st, i) == x,
        x matches Some((Ok(v), _)),
    ensures
        read_number(st, i) == x,
{
}

} // verus!
