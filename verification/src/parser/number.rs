use vstd::prelude::*;

use crate::category::Category;
use crate::parser::reading::{
    integer_variable_names, lemma_read_after_peek, read_15bit_number, read_8bit_number,
    read_character_constant, read_character_constant_head, read_constant, read_digits,
    read_hexadecimal_constant, read_hexadecimal_constant_head, read_integer_constant,
    read_integer_constant_head, read_internal_integer, read_next, read_normal_integer,
    read_normal_integer_head, read_number, read_prim_head, read_signs, read_unsigned_number,
};
use crate::parser::{no_backslide, Parser, TeXError};
use crate::token::{chars_of_str, Token, TokenView};

verus! {

/// Whether a token is a decimal digit of category other.
pub open spec fn is_digit_token(t: TokenView) -> bool {
    t matches TokenView::Char(ch, Category::Other) && '0' <= ch <= '9'
}

/// Whether a token is a hexadecimal digit: a decimal digit or `A` to `F`
/// of category other, or `A` to `F` of category letter.
pub open spec fn is_hex_digit_token(t: TokenView) -> bool {
    match t {
        TokenView::Char(ch, Category::Other) => ('0' <= ch <= '9') || ('A' <= ch <= 'F'),
        TokenView::Char(ch, Category::Letter) => 'A' <= ch <= 'F',
        _ => false,
    }
}

/// The value of a hexadecimal digit token.
pub open spec fn digit_value(t: TokenView) -> int {
    match t {
        TokenView::Char(ch, _) => if '0' <= ch <= '9' {
            (ch as int) - 48
        } else {
            (ch as int) - 65 + 10
        },
        _ => 0,
    }
}

pub fn is_token_digit(token: &Token) -> (b: bool)
    ensures
        b == is_digit_token(token@),
{
    match token {
        Token::Char(ch, Category::Other) => *ch >= '0' && *ch <= '9',
        _ => false,
    }
}

pub fn is_token_hex_digit(token: &Token) -> (b: bool)
    ensures
        b == is_hex_digit_token(token@),
{
    match token {
        Token::Char(ch, Category::Other) => (*ch >= '0' && *ch <= '9') || (*ch >= 'A' && *ch <= 'F'),
        Token::Char(ch, Category::Letter) => *ch >= 'A' && *ch <= 'F',
        _ => false,
    }
}

/// The value of a hexadecimal digit token.
pub fn token_digit_value(token: &Token) -> (v: u8)
    requires
        is_hex_digit_token(token@),
    ensures
        v == digit_value(token@),
        v < 16,
{
    match token {
        Token::Char(ch, _) => {
            if *ch >= '0' && *ch <= '9' {
                (*ch as u8) - 48
            } else {
                (*ch as u8) - 65 + 10
            }
        },
        _ => 0,
    }
}

impl Parser {
    fn is_integer_constant_head(&mut self) -> (r: Result<bool, TeXError>)
        requires
            old(self).wf(),
        ensures
            final(self).wf(),
            final(self).state == old(self).state,
            no_backslide(*old(self), *final(self)),
            final(self).lexer_view().source == old(self).lexer_view().source,
            read_integer_constant_head(old(self).state, old(self).input())
                matches Some(n) ==> final(self).read_as(old(self), r, n),
        decreases old(self).budget(), old(self).input_left(), 2nat,
    {
        match self.peek_expanded_token() {
            Err(e) => Err(e),
            Ok(Some(token)) => Ok(is_token_digit(&token)),
            Ok(None) => Ok(false),
        }
    }

    /// Reads the digits that follow in the given base, after a first digit
    /// worth `first`, and one optional space.
    fn parse_digits(&mut self, first: u32, hex: bool) -> (r: Result<u32, TeXError>)
        requires
            old(self).wf(),
        ensures
            final(self).wf(),
            final(self).state == old(self).state,
            no_backslide(*old(self), *final(self)),
            final(self).lexer_view().source == old(self).lexer_view().source,
            read_digits(old(self).state, old(self).input(), first, hex)
                matches Some(n) ==> final(self).read_as(old(self), r, n),
        decreases old(self).budget(), old(self).input_left(), 3nat,
    {
        let ghost st = self.state;
        let ghost goal = read_digits(st, self.input(), first, hex);
        let base: u32 = if hex {
            16
        } else {
            10
        };
        let mut value: u32 = first;
        loop
            invariant
                self.wf(),
                self.state == old(self).state,
                st == self.state,
                no_backslide(*old(self), *self),
                self.lexer_view().source == old(self).lexer_view().source,
                base == (if hex {
                    16u32
                } else {
                    10u32
                }),
                goal == read_digits(st, old(self).input(), first, hex),
                goal is Some ==> read_digits(st, self.input(), value, hex) == goal,
            decreases self.budget(), self.input_left(),
        {
            let ghost i0 = self.input();
            let next = match self.peek_expanded_token() {
                Err(e) => {
                    return Err(e);
                },
                Ok(t) => t,
            };
            match next {
                Some(token) => {
                    let is_digit = if hex {
                        is_token_hex_digit(&token)
                    } else {
                        is_token_digit(&token)
                    };
                    if !is_digit {
                        return match self.parse_optional_space_expanded() {
                            Err(e) => Err(e),
                            Ok(()) => Ok(value),
                        };
                    }
                    proof {
                        if goal is Some {
                            lemma_read_after_peek(st, i0, token@, read_next(st, i0).unwrap().1);
                        }
                    }
                    let _ = self.lex_expanded_token();
                    let d = token_digit_value(&token) as u32;
                    let shifted = match value.checked_mul(base) {
                        Some(v) => v,
                        None => {
                            return Err(TeXError::NumberOutOfRange);
                        },
                    };
                    value = match shifted.checked_add(d) {
                        Some(v) => v,
                        None => {
                            return Err(TeXError::NumberOutOfRange);
                        },
                    };
                },
                None => {
                    return match self.parse_optional_space_expanded() {
                        Err(e) => Err(e),
                        Ok(()) => Ok(value),
                    };
                },
            }
        }
    }

    #[verifier::spinoff_prover]
    #[verifier::rlimit(80)]
    fn parse_integer_constant(&mut self) -> (r: Result<u32, TeXError>)
        requires
            old(self).wf(),
        ensures
            final(self).wf(),
            final(self).state == old(self).state,
            no_backslide(*old(self), *final(self)),
            final(self).lexer_view().source == old(self).lexer_view().source,
            read_integer_constant(old(self).state, old(self).input())
                matches Some(n) ==> final(self).read_as(old(self), r, n),
        decreases old(self).budget(), old(self).input_left(), 4nat,
    {
        let ghost st = self.state;
        let ghost i0 = self.input();
        let first = match self.peek_expanded_token() {
            Err(e) => {
                return Err(e);
            },
            Ok(Some(token)) => {
                if !is_token_digit(&token) {
                    return Err(TeXError::MissingNumber);
                }
                proof {
                    if read_next(st, i0) is Some {
                        lemma_read_after_peek(st, i0, token@, read_next(st, i0).unwrap().1);
                    }
                }
                let _ = self.lex_expanded_token();
                token_digit_value(&token) as u32
            },
            Ok(None) => {
                return Err(TeXError::MissingNumber);
            },
        };
        self.parse_digits(first, false)
    }

    fn is_hexadecimal_constant_head(&mut self) -> (r: Result<bool, TeXError>)
        requires
            old(self).wf(),
        ensures
            final(self).wf(),
            final(self).state == old(self).state,
            no_backslide(*old(self), *final(self)),
            final(self).lexer_view().source == old(self).lexer_view().source,
            read_hexadecimal_constant_head(old(self).state, old(self).input())
                matches Some(n) ==> final(self).read_as(old(self), r, n),
        decreases old(self).budget(), old(self).input_left(), 2nat,
    {
        match self.peek_expanded_token() {
            Err(e) => Err(e),
            Ok(Some(Token::Char('"', Category::Other))) => Ok(true),
            Ok(_) => Ok(false),
        }
    }

    fn parse_hexadecimal_constant(&mut self) -> (r: Result<u32, TeXError>)
        requires
            old(self).wf(),
        ensures
            final(self).wf(),
            final(self).state == old(self).state,
            no_backslide(*old(self), *final(self)),
            final(self).lexer_view().source == old(self).lexer_view().source,
            read_hexadecimal_constant(old(self).state, old(self).input())
                matches Some(n) ==> final(self).read_as(old(self), r, n),
        decreases old(self).budget(), old(self).input_left(), 4nat,
    {
        let ghost st = self.state;
        match self.lex_expanded_token() {
            Err(e) => {
                return Err(e);
            },
            Ok(Some(Token::Char('"', Category::Other))) => {},
            Ok(_) => {
                return Err(TeXError::MissingNumber);
            },
        }
        let ghost i0 = self.input();
        let first = match self.peek_expanded_token() {
            Err(e) => {
                return Err(e);
            },
            Ok(Some(token)) => {
                if !is_token_hex_digit(&token) {
                    return Err(TeXError::MissingNumber);
                }
                proof {
                    if read_next(st, i0) is Some {
                        lemma_read_after_peek(st, i0, token@, read_next(st, i0).unwrap().1);
                    }
                }
                let _ = self.lex_expanded_token();
                token_digit_value(&token) as u32
            },
            Ok(None) => {
                return Err(TeXError::MissingNumber);
            },
        };
        self.parse_digits(first, true)
    }

    fn is_character_number_constant_head(&mut self) -> (r: Result<bool, TeXError>)
        requires
            old(self).wf(),
        ensures
            final(self).wf(),
            final(self).state == old(self).state,
            no_backslide(*old(self), *final(self)),
            final(self).lexer_view().source == old(self).lexer_view().source,
            read_character_constant_head(old(self).state, old(self).input())
                matches Some(n) ==> final(self).read_as(old(self), r, n),
        decreases old(self).budget(), old(self).input_left(), 2nat,
    {
        match self.peek_expanded_token() {
            Err(e) => Err(e),
            Ok(Some(Token::Char('`', Category::Other))) => Ok(true),
            Ok(_) => Ok(false),
        }
    }

    fn parse_character_number_constant(&mut self) -> (r: Result<u32, TeXError>)
        requires
            old(self).wf(),
        ensures
            final(self).wf(),
            final(self).state == old(self).state,
            no_backslide(*old(self), *final(self)),
            final(self).lexer_view().source == old(self).lexer_view().source,
            read_character_constant(old(self).state, old(self).input())
                matches Some(n) ==> final(self).read_as(old(self), r, n),
        decreases old(self).budget(), old(self).input_left(), 3nat,
    {
        match self.lex_expanded_token() {
            Err(e) => {
                return Err(e);
            },
            Ok(Some(Token::Char('`', Category::Other))) => {},
            Ok(_) => {
                return Err(TeXError::MissingNumber);
            },
        }
        let char_value = match self.lex_unexpanded_token() {
            Err(e) => {
                return Err(e);
            },
            Ok(Some(Token::Char(ch, _))) => ch,
            Ok(Some(Token::ControlSequence(cs))) => {
                let chars = chars_of_str(cs.as_str());
                if chars.len() == 1 {
                    chars[0]
                } else {
                    return Err(TeXError::InvalidCharacterConstant);
                }
            },
            Ok(None) => {
                return Err(TeXError::UnexpectedEnd);
            },
        };
        match self.parse_optional_space_expanded() {
            Err(e) => Err(e),
            Ok(()) => Ok(char_value as u32),
        }
    }

    /// Whether an internal integer comes next (an integer variable).
    pub fn is_internal_integer_head(&mut self) -> (r: Result<bool, TeXError>)
        requires
            old(self).wf(),
        ensures
            final(self).wf(),
            final(self).state == old(self).state,
            no_backslide(*old(self), *final(self)),
            final(self).lexer_view().source == old(self).lexer_view().source,
            read_prim_head(old(self).state, old(self).input(),
                integer_variable_names(),
            ) matches Some(n) ==> final(self).read_as(old(self), r, n),
        decreases old(self).budget(), old(self).input_left(), 4nat,
    {
        self.is_integer_variable_head()
    }

    /// Reads an internal integer: the value of an integer variable.
    pub fn parse_internal_integer(&mut self) -> (r: Result<i32, TeXError>)
        requires
            old(self).wf(),
        ensures
            final(self).wf(),
            final(self).state == old(self).state,
            no_backslide(*old(self), *final(self)),
            final(self).lexer_view().source == old(self).lexer_view().source,
            r matches Ok(v) ==> exists|var: crate::parser::variable::IntegerVariable|
                v == #[trigger] var.value(old(self).state),
            read_internal_integer(old(self).state, old(self).input())
                matches Some(n) ==> final(self).read_as(old(self), r, n),
        decreases old(self).budget(), old(self).input_left(), 5nat,
    {
        match self.is_integer_variable_head() {
            Err(e) => Err(e),
            Ok(true) => {
                match self.parse_integer_variable() {
                    Err(e) => Err(e),
                    Ok(variable) => Ok(variable.get(&self.state)),
                }
            },
            Ok(false) => Err(TeXError::Unimplemented),
        }
    }

    #[verifier::spinoff_prover]
    #[verifier::rlimit(80)]
    fn is_normal_integer_head(&mut self) -> (r: Result<bool, TeXError>)
        requires
            old(self).wf(),
        ensures
            final(self).wf(),
            final(self).state == old(self).state,
            no_backslide(*old(self), *final(self)),
            final(self).lexer_view().source == old(self).lexer_view().source,
            read_normal_integer_head(old(self).state, old(self).input())
                matches Some(n) ==> final(self).read_as(old(self), r, n),
        decreases old(self).budget(), old(self).input_left(), 5nat,
    {
        match self.is_internal_integer_head() {
            Err(e) => {
                return Err(e);
            },
            Ok(true) => {
                return Ok(true);
            },
            Ok(false) => {},
        }
        match self.is_integer_constant_head() {
            Err(e) => {
                return Err(e);
            },
            Ok(true) => {
                return Ok(true);
            },
            Ok(false) => {},
        }
        match self.is_hexadecimal_constant_head() {
            Err(e) => {
                return Err(e);
            },
            Ok(true) => {
                return Ok(true);
            },
            Ok(false) => {},
        }
        self.is_character_number_constant_head()
    }

    /// Reads a constant of any of the three kinds, as an integer.
    #[verifier::spinoff_prover]
    #[verifier::rlimit(80)]
    fn parse_constant(&mut self) -> (r: Result<i32, TeXError>)
        requires
            old(self).wf(),
        ensures
            final(self).wf(),
            final(self).state == old(self).state,
            no_backslide(*old(self), *final(self)),
            final(self).lexer_view().source == old(self).lexer_view().source,
            read_constant(old(self).state, old(self).input()) matches Some(
                n,
            ) ==> final(self).read_as(old(self), r, n),
        decreases old(self).budget(), old(self).input_left(), 5nat,
    {
        let constant = match self.is_integer_constant_head() {
            Err(e) => {
                return Err(e);
            },
            Ok(true) => self.parse_integer_constant(),
            Ok(false) => match self.is_hexadecimal_constant_head() {
                Err(e) => {
                    return Err(e);
                },
                Ok(true) => self.parse_hexadecimal_constant(),
                Ok(false) => match self.is_character_number_constant_head() {
                    Err(e) => {
                        return Err(e);
                    },
                    Ok(true) => self.parse_character_number_constant(),
                    Ok(false) => {
                        return Err(TeXError::MissingNumber);
                    },
                },
            },
        };
        match constant {
            Err(e) => Err(e),
            Ok(v) => {
                if v > 2147483647 {
                    Err(TeXError::NumberOutOfRange)
                } else {
                    Ok(v as i32)
                }
            },
        }
    }

    fn parse_normal_integer(&mut self) -> (r: Result<i32, TeXError>)
        requires
            old(self).wf(),
        ensures
            final(self).wf(),
            final(self).state == old(self).state,
            no_backslide(*old(self), *final(self)),
            final(self).lexer_view().source == old(self).lexer_view().source,
            read_normal_integer(old(self).state, old(self).input())
                matches Some(n) ==> final(self).read_as(old(self), r, n),
        decreases old(self).budget(), old(self).input_left(), 6nat,
    {
        match self.is_internal_integer_head() {
            Err(e) => Err(e),
            Ok(true) => self.parse_internal_integer(),
            Ok(false) => self.parse_constant(),
        }
    }

    #[verifier::spinoff_prover]
    #[verifier::rlimit(40)]
    fn parse_unsigned_number(&mut self) -> (r: Result<i32, TeXError>)
        requires
            old(self).wf(),
        ensures
            final(self).wf(),
            final(self).state == old(self).state,
            no_backslide(*old(self), *final(self)),
            final(self).lexer_view().source == old(self).lexer_view().source,
            read_unsigned_number(old(self).state, old(self).input())
                matches Some(n) ==> final(self).read_as(old(self), r, n),
        decreases old(self).budget(), old(self).input_left(), 7nat,
    {
        match self.is_normal_integer_head() {
            Err(e) => {
                return Err(e);
            },
            Ok(true) => {
                return self.parse_normal_integer();
            },
            Ok(false) => {},
        }
        match self.is_internal_dimen_head() {
            Err(e) => Err(e),
            Ok(true) => match self.parse_internal_dimen() {
                Err(e) => Err(e),
                Ok(dimen) => Ok(dimen.as_scaled_points()),
            },
            Ok(false) => Err(TeXError::MissingNumber),
        }
    }

    /// Parses any number of `+` and `-` signs, with spaces between them, into
    /// a sign: -1 for an odd number of `-`, else 1.
    pub fn parse_optional_signs(&mut self) -> (r: Result<i32, TeXError>)
        requires
            old(self).wf(),
        ensures
            final(self).wf(),
            final(self).state == old(self).state,
            no_backslide(*old(self), *final(self)),
            final(self).lexer_view().source == old(self).lexer_view().source,
            r matches Ok(s) ==> s == 1 || s == -1,
            read_signs(old(self).state, old(self).input(), 1) matches Some(
                n,
            ) ==> final(self).read_as(old(self), r, n),
        decreases old(self).budget(), old(self).input_left(), 3nat,
    {
        let ghost st = self.state;
        let ghost goal = read_signs(st, self.input(), 1);
        let mut sign: i32 = 1;
        loop
            invariant
                self.wf(),
                self.state == old(self).state,
                st == self.state,
                no_backslide(*old(self), *self),
                self.lexer_view().source == old(self).lexer_view().source,
                sign == 1 || sign == -1,
                goal == read_signs(st, old(self).input(), 1),
                goal is Some ==> read_signs(st, self.input(), sign) == goal,
            decreases self.budget(), self.input_left(),
        {
            let ghost i0 = self.input();
            let next = match self.peek_expanded_token() {
                Err(e) => {
                    return Err(e);
                },
                Ok(t) => t,
            };
            let is_sign = match &next {
                Some(Token::Char(chr, Category::Other)) => *chr == '+' || *chr == '-',
                _ => false,
            };
            if !is_sign {
                return match self.parse_optional_spaces_expanded() {
                    Err(e) => Err(e),
                    Ok(()) => Ok(sign),
                };
            }
            let negative = match &next {
                Some(Token::Char(chr, _)) => *chr == '-',
                _ => false,
            };
            proof {
                if goal is Some {
                    lemma_read_after_peek(st, i0, next.unwrap()@, read_next(st, i0).unwrap().1);
                }
            }
            let _ = self.lex_expanded_token();
            if negative {
                sign = -sign;
            }
            match self.parse_optional_spaces_expanded() {
                Err(e) => {
                    return Err(e);
                },
                Ok(()) => {},
            }
        }
    }

    /// Parses a `<number>`: optional signs, then an unsigned number.
    pub fn parse_number(&mut self) -> (r: Result<i32, TeXError>)
        requires
            old(self).wf(),
        ensures
            final(self).wf(),
            final(self).state == old(self).state,
            no_backslide(*old(self), *final(self)),
            final(self).lexer_view().source == old(self).lexer_view().source,
            read_number(old(self).state, old(self).input()) matches Some(n)
                ==> final(self).read_as(old(self), r, n),
        decreases old(self).budget(), old(self).input_left(), 8nat,
    {
        let sign = match self.parse_optional_signs() {
            Err(e) => {
                return Err(e);
            },
            Ok(s) => s,
        };
        let value = match self.parse_unsigned_number() {
            Err(e) => {
                return Err(e);
            },
            Ok(v) => v,
        };
        if sign == -1 {
            if value == i32::MIN {
                return Err(TeXError::NumberOutOfRange);
            }
            Ok(-value)
        } else {
            Ok(value)
        }
    }

    /// Parses a number from 0 to 255.
    ///
    /// A number outside 0..=255 is refused with an error, not ruled out by `requires`:
    /// the parser meets it in the middle of expanded reading (inside a
    /// macro, a conditional or a number), where no caller can check the
    /// input beforehand, so every reader of the parser reports such input
    /// as a `TeXError` and says in its contract which error on which input.
    pub fn parse_8bit_number(&mut self) -> (r: Result<u8, TeXError>)
        requires
            old(self).wf(),
        ensures
            final(self).wf(),
            final(self).state == old(self).state,
            no_backslide(*old(self), *final(self)),
            final(self).lexer_view().source == old(self).lexer_view().source,
            read_8bit_number(old(self).state, old(self).input())
                matches Some(n) ==> final(self).read_as(old(self), r, n),
        decreases old(self).budget(), old(self).input_left(), 9nat,
    {
        match self.parse_number() {
            Err(e) => Err(e),
            Ok(number) => {
                if number < 0 || number > 255 {
                    Err(TeXError::NumberOutOfRange)
                } else {
                    Ok(number as u8)
                }
            },
        }
    }

    /// Parses a number from 0 to 32767.
    pub fn parse_15bit_number(&mut self) -> (r: Result<u16, TeXError>)
        requires
            old(self).wf(),
        ensures
            final(self).wf(),
            final(self).state == old(self).state,
            no_backslide(*old(self), *final(self)),
            final(self).lexer_view().source == old(self).lexer_view().source,
            r matches Ok(n) ==> n <= 32767,
            read_15bit_number(old(self).state, old(self).input())
                matches Some(n) ==> final(self).read_as(old(self), r, n),
        decreases old(self).budget(), old(self).input_left(), 9nat,
    {
        match self.parse_number() {
            Err(e) => Err(e),
            Ok(number) => {
                if number < 0 || number > 32767 {
                    Err(TeXError::NumberOutOfRange)
                } else {
                    Ok(number as u16)
                }
            },
        }
    }
}

} // verus!
