use vstd::prelude::*;

use crate::category::Category;
use crate::math_code::MathCode;
use crate::parser::reading::{failed, read_8bit_number, read_next, read_test, Input, Reading};
use crate::parser::{Parser, TeXError};
use crate::state::{MeaningView, TeXState};
use crate::token::{Token, TokenView};

verus! {

/// Where a math symbol's code comes from: the math code of a character, or
/// a `\mathchardef`.
pub open spec fn is_math_code_in(st: crate::state::TeXState, code: MathCode) -> bool {
    (exists|ch: char| #[trigger] st.math_code_value(ch) == code) || (exists|t: crate::token::TokenView|
        #[trigger] st.meaning_of(t) == Some(MeaningView::MathChardef(code)))
}

/// The token that `t` stands for: the character token it was `\let` to, or
/// itself.
pub open spec fn renamed(st: TeXState, t: TokenView) -> TokenView {
    match st.meaning_of(t) {
        Some(MeaningView::LetCharacter(c)) => c,
        _ => t,
    }
}

/// Whether a token, renamed, is a character of a math symbol: a letter, an
/// other character, or `\char`.
pub open spec fn is_character_token(st: TeXState, t: TokenView) -> bool {
    let r = renamed(st, t);
    ||| r matches TokenView::Char(_, Category::Letter)
    ||| r matches TokenView::Char(_, Category::Other)
    ||| (!(r matches TokenView::Char(_, Category::Letter)) && !(r matches TokenView::Char(
        _,
        Category::Other,
    )) && st.is_prim(r, "char"@))
}

/// Whether a character of a math symbol comes next, expanded.
pub open spec fn read_character_head(st: TeXState, i: Input) -> Reading<bool> {
    read_test(st, i, |t: TokenView| is_character_token(st, t))
}

/// A character (or `\char` and its number), expanded, read as its math
/// code.
pub open spec fn read_character_to_math_code(st: TeXState, i: Input) -> Reading<
    MathCode,
> {
    match read_next(st, i) {
        None => None,
        Some((Err(e), i2)) => failed(e, i2),
        Some((Ok(None), i2)) => failed(TeXError::UnexpectedEnd, i2),
        Some((Ok(Some(t)), i2)) => match renamed(st, t) {
            TokenView::Char(ch, _) => Some((Ok(st.math_code_value(ch)), i2)),
            r => if st.is_prim(r, "char"@) {
                match read_8bit_number(st, i2) {
                    None => None,
                    Some((Err(e), i3)) => failed(e, i3),
                    Some((Ok(n), i3)) => Some((Ok(st.math_code_value(n as char)), i3)),
                }
            } else {
                failed(TeXError::Unimplemented, i2)
            },
        },
    }
}

/// Whether a `\mathchardef` name comes next, expanded.
pub open spec fn read_math_character_head(st: TeXState, i: Input) -> Reading<bool> {
    read_test(st, i,
        |t: TokenView| st.meaning_of(renamed(st, t)) matches Some(MeaningView::MathChardef(_)),
    )
}

/// A `\mathchardef` name read as its math code, expanded.
pub open spec fn read_math_character_to_math_code(st: TeXState, i: Input) -> Reading<
    MathCode,
> {
    match read_next(st, i) {
        None => None,
        Some((Err(e), i2)) => failed(e, i2),
        Some((Ok(None), i2)) => failed(TeXError::UnexpectedEnd, i2),
        Some((Ok(Some(t)), i2)) => match st.meaning_of(renamed(st, t)) {
            Some(MeaningView::MathChardef(c)) => Some((Ok(c), i2)),
            _ => failed(TeXError::Unimplemented, i2),
        },
    }
}

/// Whether a math symbol comes next, expanded.
pub open spec fn read_math_symbol_head(st: TeXState, i: Input) -> Reading<bool> {
    match read_character_head(st, i) {
        Some((Ok(false), i2)) => read_math_character_head(st, i2),
        other => other,
    }
}

/// A math symbol read as its math code, expanded.
pub open spec fn read_math_symbol(st: TeXState, i: Input) -> Reading<MathCode> {
    match read_character_head(st, i) {
        None => None,
        Some((Err(e), i2)) => failed(e, i2),
        Some((Ok(true), i2)) => read_character_to_math_code(st, i2),
        Some((Ok(false), i2)) => match read_math_character_head(st, i2) {
            None => None,
            Some((Err(e), i3)) => failed(e, i3),
            Some((Ok(true), i3)) => read_math_character_to_math_code(st, i3),
            Some((Ok(false), i3)) => failed(TeXError::Unimplemented, i3),
        },
    }
}

impl Parser {
    /// Whether a character comes next (expanded, and after `\let`
    /// renaming): a letter, an other character, or `\char`.
    fn is_character_head(&mut self) -> (r: Result<bool, TeXError>)
        requires
            old(self).wf(),
        ensures
            final(self).wf(),
            final(self).state == old(self).state,
            final(self).lexer_view().source == old(self).lexer_view().source,
            read_character_head(old(self).state, old(self).input()) matches Some(n)
                ==> final(self).read_as(old(self), r, n),
    {
        let expanded = match self.peek_expanded_token() {
            Err(e) => {
                return Err(e);
            },
            Ok(t) => t,
        };
        match self.replace_renamed_token(expanded) {
            Some(Token::Char(_, Category::Letter)) => Ok(true),
            Some(Token::Char(_, Category::Other)) => Ok(true),
            Some(tok) => Ok(self.state.is_token_equal_to_prim(&tok, "char")),
            None => Ok(false),
        }
    }

    /// Reads a character (or `\char` and its number) and gives its math
    /// code.
    fn parse_character_to_math_code(&mut self) -> (r: Result<MathCode, TeXError>)
        requires
            old(self).wf(),
        ensures
            final(self).wf(),
            final(self).state == old(self).state,
            final(self).lexer_view().source == old(self).lexer_view().source,
            r matches Ok(code) ==> exists|ch: char| #[trigger] old(self).state.math_code_value(ch) == code,
            read_character_to_math_code(old(self).state, old(self).input()) matches Some(n)
                ==> final(self).read_as(old(self), r, n),
    {
        let expanded = match self.lex_expanded_token() {
            Err(e) => {
                return Err(e);
            },
            Ok(t) => t,
        };
        let ch: char = match self.replace_renamed_token(expanded) {
            Some(Token::Char(ch, _)) => ch,
            Some(tok) => {
                if self.state.is_token_equal_to_prim(&tok, "char") {
                    match self.parse_8bit_number() {
                        Err(e) => {
                            return Err(e);
                        },
                        Ok(n) => n as char,
                    }
                } else {
                    return Err(TeXError::Unimplemented);
                }
            },
            None => {
                return Err(TeXError::UnexpectedEnd);
            },
        };
        Ok(self.state.get_math_code(ch))
    }

    /// Whether a `\mathchardef` name comes next (expanded, and after `\let`
    /// renaming).
    fn is_math_character_head(&mut self) -> (r: Result<bool, TeXError>)
        requires
            old(self).wf(),
        ensures
            final(self).wf(),
            final(self).state == old(self).state,
            final(self).lexer_view().source == old(self).lexer_view().source,
            read_math_character_head(old(self).state, old(self).input()) matches Some(n)
                ==> final(self).read_as(old(self), r, n),
    {
        let expanded = match self.peek_expanded_token() {
            Err(e) => {
                return Err(e);
            },
            Ok(t) => t,
        };
        match self.replace_renamed_token(expanded) {
            Some(tok) => Ok(self.state.get_math_chardef(&tok).is_some()),
            None => Ok(false),
        }
    }

    /// Reads a `\mathchardef` name and gives its math code.
    fn parse_math_character_to_math_code(&mut self) -> (r: Result<MathCode, TeXError>)
        requires
            old(self).wf(),
        ensures
            final(self).wf(),
            final(self).state == old(self).state,
            final(self).lexer_view().source == old(self).lexer_view().source,
            r matches Ok(code) ==> exists|t: crate::token::TokenView|
                #[trigger] old(self).state.meaning_of(t) == Some(MeaningView::MathChardef(code)),
            read_math_character_to_math_code(old(self).state, old(self).input()) matches Some(n)
                ==> final(self).read_as(old(self), r, n),
    {
        let expanded = match self.lex_expanded_token() {
            Err(e) => {
                return Err(e);
            },
            Ok(t) => t,
        };
        match self.replace_renamed_token(expanded) {
            Some(tok) => match self.state.get_math_chardef(&tok) {
                Some(code) => Ok(code),
                None => Err(TeXError::Unimplemented),
            },
            None => Err(TeXError::UnexpectedEnd),
        }
    }

    /// Whether a math symbol comes next: a character or a `\mathchardef`
    /// name.
    pub fn is_math_symbol_head(&mut self) -> (r: Result<bool, TeXError>)
        requires
            old(self).wf(),
        ensures
            final(self).wf(),
            final(self).state == old(self).state,
            final(self).lexer_view().source == old(self).lexer_view().source,
            read_math_symbol_head(old(self).state, old(self).input()) matches Some(n)
                ==> final(self).read_as(old(self), r, n),
    {
        match self.is_character_head() {
            Err(e) => Err(e),
            Ok(true) => Ok(true),
            Ok(false) => self.is_math_character_head(),
        }
    }

    /// Reads a math symbol and gives its math code: that of the character,
    /// or that of the `\mathchardef`.
    pub fn parse_math_symbol(&mut self) -> (r: Result<MathCode, TeXError>)
        requires
            old(self).wf(),
        ensures
            final(self).wf(),
            final(self).state == old(self).state,
            final(self).lexer_view().source == old(self).lexer_view().source,
            r matches Ok(code) ==> is_math_code_in(old(self).state, code),
            read_math_symbol(old(self).state, old(self).input()) matches Some(n)
                ==> final(self).read_as(old(self), r, n),
    {
        match self.is_character_head() {
            Err(e) => {
                return Err(e);
            },
            Ok(true) => {
                return self.parse_character_to_math_code();
            },
            Ok(false) => {},
        }
        match self.is_math_character_head() {
            Err(e) => Err(e),
            Ok(true) => self.parse_math_character_to_math_code(),
            Ok(false) => Err(TeXError::Unimplemented),
        }
    }
}

} // verus!
