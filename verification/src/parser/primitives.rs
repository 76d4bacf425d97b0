use vstd::prelude::*;

use crate::category::Category;
use crate::lexer::LexerView;
use crate::parser::{
    Parser, TeXError, input_size, lemma_put_back_then_read, next_token,
    no_backslide, token_result_view,
};
use crate::parser::reading::{
    failed, lemma_read_after_peek, lt, means_one_of, put_back, read_next, read_peek, read_prim_head,
    read_space, read_spaces, size, Input, Reading,
};
use crate::state::TeXState;
use crate::token::{chars_of_str, token_views, Token, TokenView};

verus! {

/// The lower-case letter of an upper-case ASCII letter; any other character
/// is itself.
pub open spec fn ascii_lower(c: char) -> char {
    if 'A' <= c <= 'Z' {
        ((c as u32) + 32) as char
    } else {
        c
    }
}

/// The upper-case letter of a lower-case ASCII letter; any other character
/// is itself.
pub open spec fn ascii_upper(c: char) -> char {
    if 'a' <= c <= 'z' {
        ((c as u32) - 32) as char
    } else {
        c
    }
}

fn to_ascii_lower(c: char) -> (r: char)
    ensures
        r == ascii_lower(c),
{
    if c >= 'A' && c <= 'Z' {
        ((c as u8) + 32) as char
    } else {
        c
    }
}

fn to_ascii_upper(c: char) -> (r: char)
    ensures
        r == ascii_upper(c),
{
    if c >= 'a' && c <= 'z' {
        ((c as u8) - 32) as char
    } else {
        c
    }
}

/// Whether a token matches a character of a keyword: a character token, not
/// active, whose character is the keyword character in either case.
pub open spec fn keyword_char_matches(t: TokenView, ch: char) -> bool {
    match t {
        TokenView::Char(c, cat) => cat != Category::Active && (c == ascii_lower(ch) || c
            == ascii_upper(ch)),
        _ => false,
    }
}

/// Whether a token is a space token.
pub open spec fn is_space(t: TokenView) -> bool {
    t matches TokenView::Char(_, Category::Space)
}

/// Checks if a token matches a character from a keyword: a character token,
/// not active, whose character equals the keyword character,
/// case-insensitively.
pub fn token_equals_keyword_char(tok: &Token, ch: char) -> (b: bool)
    ensures
        b == keyword_char_matches(tok@, ch),
{
    match tok {
        Token::Char(_, Category::Active) => false,
        Token::Char(tok_ch, _) => *tok_ch == to_ascii_lower(ch) || *tok_ch == to_ascii_upper(ch),
        _ => false,
    }
}

/// Skips the space tokens that come next, unexpanded; the first token that
/// is not a space is put back.
pub open spec fn skip_spaces(cat: spec_fn(char) -> Category, up: Seq<TokenView>, l: LexerView) -> (
    Result<(), TeXError>,
    Seq<TokenView>,
    LexerView,
)
    decreases input_size(up, l),
{
    let (r, up2, l2) = next_token(cat, up, l);
    match r {
        Err(e) => (Err(e), up2, l2),
        Ok(None) => (Ok(()), up2, l2),
        Ok(Some(t)) => if is_space(t) {
            if 0 <= input_size(up2, l2) < input_size(up, l) {
                skip_spaces(cat, up2, l2)
            } else {
                (Ok(()), up2, l2)
            }
        } else {
            (Ok(()), up2.push(t), l2)
        },
    }
}

/// Skips one space token if one comes next, unexpanded; any other token is
/// put back.
pub open spec fn skip_space(cat: spec_fn(char) -> Category, up: Seq<TokenView>, l: LexerView) -> (
    Result<(), TeXError>,
    Seq<TokenView>,
    LexerView,
) {
    let (r, up2, l2) = next_token(cat, up, l);
    match r {
        Err(e) => (Err(e), up2, l2),
        Ok(None) => (Ok(()), up2, l2),
        Ok(Some(t)) => if is_space(t) {
            (Ok(()), up2, l2)
        } else {
            (Ok(()), up2.push(t), l2)
        },
    }
}

/// An `<equals>`, unexpanded: spaces, then an `=` of category other if one
/// comes.
pub open spec fn skip_equals(cat: spec_fn(char) -> Category, up: Seq<TokenView>, l: LexerView) -> (
    Result<(), TeXError>,
    Seq<TokenView>,
    LexerView,
) {
    let (r, up2, l2) = skip_spaces(cat, up, l);
    match r {
        Err(e) => (Err(e), up2, l2),
        Ok(()) => {
            let (r3, up3, l3) = next_token(cat, up2, l2);
            match r3 {
                Err(e) => (Err(e), up3, l3),
                Ok(None) => (Ok(()), up3, l3),
                Ok(Some(t)) => if t == TokenView::Char('=', Category::Other) {
                    (Ok(()), up3, l3)
                } else {
                    (Ok(()), up3.push(t), l3)
                },
            }
        },
    }
}

/// An `<equals>`, expanded: spaces, then an `=` of category other if one
/// comes.
pub open spec fn read_equals(st: TeXState, i: Input) -> Reading<()> {
    match read_spaces(st, i) {
        None => None,
        Some((Err(e), i2)) => failed(e, i2),
        Some((Ok(()), i2)) => match read_next(st, i2) {
            None => None,
            Some((Err(e), i3)) => failed(e, i3),
            Some((Ok(None), i3)) => Some((Ok(()), i3)),
            Some((Ok(Some(t)), i3)) => if t == TokenView::Char('=', Category::Other) {
                Some((Ok(()), i3))
            } else {
                Some((Ok(()), put_back(i3, t)))
            },
        },
    }
}

/// The characters of a keyword from the `k`th on, expanded: each must come,
/// in either case.
pub open spec fn read_keyword_chars(st: TeXState, i: Input, kw: Seq<char>, k: int) -> Reading<()>
    decreases kw.len() - k,
{
    if k >= kw.len() {
        Some((Ok(()), i))
    } else {
        match read_next(st, i) {
            None => None,
            Some((Err(e), i2)) => failed(e, i2),
            Some((Ok(None), i2)) => failed(TeXError::MissingKeyword, i2),
            Some((Ok(Some(t)), i2)) => if keyword_char_matches(t, kw[k]) {
                read_keyword_chars(st, i2, kw, k + 1)
            } else {
                failed(TeXError::MissingKeyword, i2)
            },
        }
    }
}

/// A keyword, expanded: spaces, then its characters.
pub open spec fn read_keyword(st: TeXState, i: Input, kw: Seq<char>) -> Reading<()> {
    match read_spaces(st, i) {
        None => None,
        Some((Err(e), i2)) => failed(e, i2),
        Some((Ok(()), i2)) => read_keyword_chars(st, i2, kw, 0),
    }
}

/// The input with tokens put back, to be read first to last.
pub open spec fn put_back_all(i: Input, ts: Seq<TokenView>) -> Input {
    (i.0 + ts.reverse(), i.1, i.2, i.3)
}

/// The characters of an optional keyword from the `k`th on, expanded, with
/// `parsed` the tokens of those before: if one does not come, all of them
/// are put back.
pub open spec fn read_optional_keyword_chars(
    st: TeXState,
    i: Input,
    kw: Seq<char>,
    k: int,
    parsed: Seq<TokenView>,
) -> Reading<bool>
    decreases kw.len() - k,
{
    if k >= kw.len() {
        Some((Ok(true), i))
    } else {
        match read_next(st, i) {
            None => None,
            Some((Err(e), i2)) => failed(e, i2),
            Some((Ok(None), i2)) => Some((Ok(false), put_back_all(i2, parsed))),
            Some((Ok(Some(t)), i2)) => if keyword_char_matches(t, kw[k]) {
                read_optional_keyword_chars(st, i2, kw, k + 1, parsed.push(t))
            } else {
                Some((Ok(false), put_back_all(put_back(i2, t), parsed)))
            },
        }
    }
}

/// An optional keyword, expanded: spaces, then whether the keyword comes;
/// if it does not, what was read of it is put back.
pub open spec fn read_optional_keyword(st: TeXState, i: Input, kw: Seq<char>) -> Reading<bool> {
    match read_spaces(st, i) {
        None => None,
        Some((Err(e), i2)) => failed(e, i2),
        Some((Ok(()), i2)) => match read_peek(st, i2) {
            None => None,
            Some((Err(e), i3)) => failed(e, i3),
            Some((Ok(None), i3)) => Some((Ok(false), i3)),
            Some((Ok(Some(t)), i3)) => if keyword_char_matches(t, kw[0]) {
                read_optional_keyword_chars(st, i3, kw, 0, Seq::empty())
            } else {
                Some((Ok(false), i3))
            },
        },
    }
}

/// The `\relax`es that come next, each with the spaces after it, expanded.
pub open spec fn read_relaxes(st: TeXState, i: Input) -> Reading<()>
    decreases i.3, size(i),
{
    match read_next(st, i) {
        None => None,
        Some((Err(e), i2)) => failed(e, i2),
        Some((Ok(None), i2)) => Some((Ok(()), i2)),
        Some((Ok(Some(t)), i2)) => if st.is_prim(t, "relax"@) {
            match read_spaces(st, i2) {
                None => None,
                Some((Err(e), i3)) => failed(e, i3),
                Some((Ok(()), i3)) => if lt(i3, i) {
                    read_relaxes(st, i3)
                } else {
                    None
                },
            }
        } else {
            Some((Ok(()), put_back(i2, t)))
        },
    }
}

/// A `<filler>`, expanded: spaces, then `\relax`es with the spaces after
/// them.
pub open spec fn read_filler(st: TeXState, i: Input) -> Reading<()> {
    match read_spaces(st, i) {
        None => None,
        Some((Err(e), i2)) => failed(e, i2),
        Some((Ok(()), i2)) => read_relaxes(st, i2),
    }
}

/// What the expanded reading of spaces leaves: no token put back, or one
/// that is not a space.
pub open spec fn no_space_next(up: Seq<TokenView>) -> bool {
    up.len() == 0 || !is_space(up.last())
}

impl Parser {
    /// Parses 0 or more space tokens, unexpanded, and ignores them.
    pub fn parse_optional_spaces_unexpanded(&mut self) -> (r: Result<(), TeXError>)
        requires
            old(self).wf(),
        ensures
            final(self).wf(),
            final(self).state == old(self).state,
            final(self).budget() == old(self).budget(),
            final(self).depth() == old(self).depth(),
            final(self).lexer_view().source == old(self).lexer_view().source,
            final(self).input_left() <= old(self).input_left(),
            skip_spaces(old(self).state.category_fn(), old(self).upcoming(), old(self).lexer_view())
                == (r, final(self).upcoming(), final(self).lexer_view()),
    {
        let ghost cat = self.state.category_fn();
        proof {
            self.lemma_input_left();
        }
        loop
            invariant
                self.wf(),
                self.state == old(self).state,
                cat == self.state.category_fn(),
                self.budget() == old(self).budget(),
                self.depth() == old(self).depth(),
                self.lexer_view().source == old(self).lexer_view().source,
                self.input_left() <= old(self).input_left(),
                self.input_left() >= 0,
                skip_spaces(cat, self.upcoming(), self.lexer_view()) == skip_spaces(
                    cat,
                    old(self).upcoming(),
                    old(self).lexer_view(),
                ),
            decreases self.input_left(),
        {
            let ghost up0 = self.upcoming();
            let ghost l0 = self.lexer_view();
            match self.peek_unexpanded_token() {
                Err(e) => {
                    return Err(e);
                },
                Ok(Some(Token::Char(_, Category::Space))) => {},
                Ok(_) => {
                    return Ok(());
                },
            }
            let ghost up1 = self.upcoming();
            let ghost l1 = self.lexer_view();
            let _ = self.lex_unexpanded_token();
            proof {
                self.lemma_input_left();
                let (r0, up2, l2) = next_token(cat, up0, l0);
                assert(r0 matches Ok(Some(t)) && is_space(t));
                assert(up1 == up2.push(up1.last()));
                assert(self.upcoming() == up2);
                assert(self.lexer_view() == l2);
                assert(input_size(up2, l2) < input_size(up0, l0));
                assert(skip_spaces(cat, up0, l0) == skip_spaces(cat, up2, l2));
            }
        }
    }

    /// Parses 0 or 1 space token, unexpanded, and ignores it.
    pub fn parse_optional_space_unexpanded(&mut self) -> (r: Result<(), TeXError>)
        requires
            old(self).wf(),
        ensures
            final(self).wf(),
            final(self).state == old(self).state,
            final(self).budget() == old(self).budget(),
            final(self).depth() == old(self).depth(),
            final(self).lexer_view().source == old(self).lexer_view().source,
            final(self).input_left() <= old(self).input_left(),
            skip_space(old(self).state.category_fn(), old(self).upcoming(), old(self).lexer_view())
                == (r, final(self).upcoming(), final(self).lexer_view()),
    {
        match self.peek_unexpanded_token() {
            Err(e) => Err(e),
            Ok(Some(Token::Char(_, Category::Space))) => {
                let _ = self.lex_unexpanded_token();
                Ok(())
            },
            Ok(_) => Ok(()),
        }
    }

    /// Parses an `<equals>` without expanding tokens.
    pub fn parse_equals_unexpanded(&mut self) -> (r: Result<(), TeXError>)
        requires
            old(self).wf(),
        ensures
            final(self).wf(),
            final(self).state == old(self).state,
            final(self).budget() == old(self).budget(),
            final(self).depth() == old(self).depth(),
            final(self).lexer_view().source == old(self).lexer_view().source,
            final(self).input_left() <= old(self).input_left(),
            skip_equals(old(self).state.category_fn(), old(self).upcoming(), old(self).lexer_view())
                == (r, final(self).upcoming(), final(self).lexer_view()),
    {
        match self.parse_optional_spaces_unexpanded() {
            Err(e) => {
                return Err(e);
            },
            Ok(()) => {},
        }
        match self.peek_unexpanded_token() {
            Err(e) => Err(e),
            Ok(Some(Token::Char('=', Category::Other))) => {
                let _ = self.lex_unexpanded_token();
                Ok(())
            },
            Ok(_) => Ok(()),
        }
    }

    /// Parses 0 or more space tokens, expanded, and ignores them.
    #[verifier::spinoff_prover]
    #[verifier::rlimit(80)]
    pub fn parse_optional_spaces_expanded(&mut self) -> (r: Result<(), TeXError>)
        requires
            old(self).wf(),
        ensures
            final(self).wf(),
            final(self).state == old(self).state,
            no_backslide(*old(self), *final(self)),
            final(self).lexer_view().source == old(self).lexer_view().source,
            r is Ok ==> no_space_next(final(self).upcoming()),
            read_spaces(old(self).state, old(self).input()) matches Some(n) ==> final(self).read_as(
                old(self),
                r,
                n,
            ),
        decreases old(self).budget(), old(self).input_left(), 2nat,
    {
        let ghost st = self.state;
        let ghost goal = read_spaces(st, self.input());
        loop
            invariant
                self.wf(),
                self.state == old(self).state,
                st == self.state,
                goal == read_spaces(st, old(self).input()),
                no_backslide(*old(self), *self),
                self.lexer_view().source == old(self).lexer_view().source,
                goal is Some ==> read_spaces(st, self.input()) == goal,
            decreases self.budget(), self.input_left(),
        {
            let ghost i0 = self.input();
            match self.peek_expanded_token() {
                Err(e) => {
                    return Err(e);
                },
                Ok(Some(Token::Char(_, Category::Space))) => {},
                Ok(Some(_)) => {
                    return Ok(());
                },
                Ok(None) => {
                    return Ok(());
                },
            }
            proof {
                if goal is Some {
                    let (r1, i1) = read_next(st, i0).unwrap();
                    lemma_read_after_peek(st, i0, r1->Ok_0.unwrap(), i1);
                }
            }
            let _ = self.lex_expanded_token();
        }
    }

    /// Parses 0 or 1 space token, expanded, and ignores it.
    pub fn parse_optional_space_expanded(&mut self) -> (r: Result<(), TeXError>)
        requires
            old(self).wf(),
        ensures
            final(self).wf(),
            final(self).state == old(self).state,
            no_backslide(*old(self), *final(self)),
            final(self).lexer_view().source == old(self).lexer_view().source,
            read_space(old(self).state, old(self).input()) matches Some(n) ==> final(self).read_as(
                old(self),
                r,
                n,
            ),
        decreases old(self).budget(), old(self).input_left(), 2nat,
    {
        let ghost st = self.state;
        let ghost i0 = self.input();
        proof {
            if let Some((Ok(Some(t)), i1)) = read_next(st, i0) {
                lemma_read_after_peek(st, i0, t, i1);
            }
        }
        match self.peek_expanded_token() {
            Err(e) => Err(e),
            Ok(Some(Token::Char(_, Category::Space))) => {
                let _ = self.lex_expanded_token();
                Ok(())
            },
            Ok(_) => Ok(()),
        }
    }

    /// Parses an `<equals>` while expanding tokens.
    pub fn parse_equals_expanded(&mut self) -> (r: Result<(), TeXError>)
        requires
            old(self).wf(),
        ensures
            final(self).wf(),
            final(self).state == old(self).state,
            no_backslide(*old(self), *final(self)),
            final(self).lexer_view().source == old(self).lexer_view().source,
            read_equals(old(self).state, old(self).input()) matches Some(n) ==> final(self).read_as(
                old(self),
                r,
                n,
            ),
        decreases old(self).budget(), old(self).input_left(), 3nat,
    {
        let ghost st = self.state;
        match self.parse_optional_spaces_expanded() {
            Err(e) => {
                return Err(e);
            },
            Ok(()) => {},
        }
        let ghost i0 = self.input();
        proof {
            if let Some((Ok(Some(t)), i1)) = read_next(st, i0) {
                lemma_read_after_peek(st, i0, t, i1);
            }
        }
        match self.peek_expanded_token() {
            Err(e) => Err(e),
            Ok(Some(Token::Char('=', Category::Other))) => {
                let _ = self.lex_expanded_token();
                Ok(())
            },
            Ok(_) => Ok(()),
        }
    }

    /// Parses a keyword (such as `true`, `plus` or `by`), after optional
    /// spaces; fails if it does not come.
    pub fn parse_keyword_expanded(&mut self, keyword: &str) -> (r: Result<(), TeXError>)
        requires
            old(self).wf(),
        ensures
            final(self).wf(),
            final(self).state == old(self).state,
            no_backslide(*old(self), *final(self)),
            final(self).lexer_view().source == old(self).lexer_view().source,
            read_keyword(old(self).state, old(self).input(), keyword@) matches Some(n)
                ==> final(self).read_as(old(self), r, n),
        decreases old(self).budget(), old(self).input_left(), 3nat,
    {
        let ghost st = self.state;
        let ghost goal = read_keyword(st, self.input(), keyword@);
        match self.parse_optional_spaces_expanded() {
            Err(e) => {
                return Err(e);
            },
            Ok(()) => {},
        }
        let chars = chars_of_str(keyword);
        let mut i: usize = 0;
        while i < chars.len()
            invariant
                self.wf(),
                self.state == old(self).state,
                st == self.state,
                chars@ == keyword@,
                i <= chars.len(),
                no_backslide(*old(self), *self),
                self.lexer_view().source == old(self).lexer_view().source,
                goal == read_keyword(st, old(self).input(), keyword@),
                goal is Some ==> read_keyword_chars(st, self.input(), keyword@, i as int) == goal,
            decreases chars.len() - i,
        {
            match self.lex_expanded_token() {
                Err(e) => {
                    return Err(e);
                },
                Ok(Some(tok)) => {
                    if !token_equals_keyword_char(&tok, chars[i]) {
                        return Err(TeXError::MissingKeyword);
                    }
                },
                Ok(None) => {
                    return Err(TeXError::MissingKeyword);
                },
            }
            i = i + 1;
        }
        Ok(())
    }

    /// Parses an optional keyword, after optional spaces: `true` if it was
    /// there; if not, the tokens read are put back and the result is `false`.
    pub fn parse_optional_keyword_expanded(&mut self, keyword: &str) -> (r: Result<bool, TeXError>)
        requires
            old(self).wf(),
            keyword@.len() > 0,
        ensures
            final(self).wf(),
            final(self).state == old(self).state,
            no_backslide(*old(self), *final(self)),
            final(self).lexer_view().source == old(self).lexer_view().source,
            read_optional_keyword(old(self).state, old(self).input(), keyword@) matches Some(n)
                ==> final(self).read_as(old(self), r, n),
        decreases old(self).budget(), old(self).input_left(), 3nat,
    {
        let ghost st = self.state;
        let ghost goal = read_optional_keyword(st, self.input(), keyword@);
        match self.parse_optional_spaces_expanded() {
            Err(e) => {
                return Err(e);
            },
            Ok(()) => {},
        }
        let chars = chars_of_str(keyword);
        match self.peek_expanded_token() {
            Err(e) => {
                return Err(e);
            },
            Ok(Some(tok)) => {
                if !token_equals_keyword_char(&tok, chars[0]) {
                    return Ok(false);
                }
            },
            Ok(None) => {
                return Ok(false);
            },
        }
        let mut parsed_toks: Vec<Token> = Vec::new();
        proof {
            assert(token_views(parsed_toks@) =~= Seq::<TokenView>::empty());
        }
        let mut i: usize = 0;
        while i < chars.len()
            invariant
                self.wf(),
                self.state == old(self).state,
                st == self.state,
                chars@ == keyword@,
                i <= chars.len(),
                parsed_toks@.len() == i,
                goal == read_optional_keyword(st, old(self).input(), keyword@),
                goal is Some ==> read_optional_keyword_chars(
                    st,
                    self.input(),
                    keyword@,
                    i as int,
                    token_views(parsed_toks@),
                ) == goal,
                self.budget() < old(self).budget() || (self.budget() == old(self).budget()
                    && self.input_left() + parsed_toks@.len() <= old(self).input_left()),
                self.lexer_view().source == old(self).lexer_view().source,
            decreases chars.len() - i,
        {
            let ghost i0 = self.input();
            match self.peek_expanded_token() {
                Err(e) => {
                    return Err(e);
                },
                Ok(Some(tok)) => {
                    if token_equals_keyword_char(&tok, chars[i]) {
                        proof {
                            if goal is Some {
                                lemma_read_after_peek(st, i0, tok@, read_next(st, i0).unwrap().1);
                            }
                        }
                        match self.lex_expanded_token() {
                            Err(e) => {
                                return Err(e);
                            },
                            Ok(Some(t)) => {
                                let ghost before = parsed_toks@;
                                parsed_toks.push(t);
                                proof {
                                    assert(token_views(parsed_toks@) =~= token_views(before).push(t@));
                                }
                            },
                            Ok(None) => {},
                        }
                    } else {
                        self.add_upcoming_tokens(parsed_toks);
                        return Ok(false);
                    }
                },
                Ok(None) => {
                    self.add_upcoming_tokens(parsed_toks);
                    return Ok(false);
                },
            }
            i = i + 1;
        }
        Ok(true)
    }

    /// Parses a `<filler>`: any number of spaces and `\relax`es.
    pub fn parse_filler_expanded(&mut self) -> (r: Result<(), TeXError>)
        requires
            old(self).wf(),
        ensures
            final(self).wf(),
            final(self).state == old(self).state,
            no_backslide(*old(self), *final(self)),
            final(self).lexer_view().source == old(self).lexer_view().source,
            read_filler(old(self).state, old(self).input()) matches Some(n) ==> final(self).read_as(
                old(self),
                r,
                n,
            ),
        decreases old(self).budget(), old(self).input_left(), 3nat,
    {
        let ghost st = self.state;
        let ghost goal = read_filler(st, self.input());
        match self.parse_optional_spaces_expanded() {
            Err(e) => {
                return Err(e);
            },
            Ok(()) => {},
        }
        loop
            invariant
                self.wf(),
                self.state == old(self).state,
                st == self.state,
                no_backslide(*old(self), *self),
                self.lexer_view().source == old(self).lexer_view().source,
                goal == read_filler(st, old(self).input()),
                goal is Some ==> read_relaxes(st, self.input()) == goal,
            decreases self.budget(), self.input_left(),
        {
            let ghost i0 = self.input();
            match self.peek_expanded_token() {
                Err(e) => {
                    return Err(e);
                },
                Ok(None) => {
                    return Ok(());
                },
                Ok(Some(token)) => {
                    if self.state.is_token_equal_to_prim(&token, "relax") {
                        proof {
                            if goal is Some {
                                lemma_read_after_peek(st, i0, token@, read_next(st, i0).unwrap().1);
                            }
                        }
                        let _ = self.lex_expanded_token();
                    } else {
                        return Ok(());
                    }
                },
            }
            match self.parse_optional_spaces_expanded() {
                Err(e) => {
                    return Err(e);
                },
                Ok(()) => {},
            }
        }
    }

    /// Whether the next token, expanded, means one of the given primitives;
    /// the token is put back.
    pub fn is_next_expanded_token_in_set_of_primitives(&mut self, primitives: &[&str]) -> (r: Result<
        bool,
        TeXError,
    >)
        requires
            old(self).wf(),
        ensures
            final(self).wf(),
            final(self).state == old(self).state,
            no_backslide(*old(self), *final(self)),
            final(self).lexer_view().source == old(self).lexer_view().source,
            r matches Ok(b) ==> b == (final(self).upcoming().len() > 0 && exists|i: int|
                0 <= i < primitives@.len() && final(self).state.is_prim(
                    final(self).upcoming().last(),
                    (#[trigger] primitives@[i])@,
                )),
            r matches Ok(false) ==> no_token_or_not_expandable(*final(self)),
            r matches Ok(true) ==> !final(self).state.expandable(final(self).upcoming().last()),
            read_prim_head(old(self).state, old(self).input(), primitives@)
                matches Some(n) ==> final(self).read_as(old(self), r, n),
        decreases old(self).budget(), old(self).input_left(), 2nat,
    {
        match self.peek_expanded_token() {
            Err(e) => Err(e),
            Ok(None) => Ok(false),
            Ok(Some(token)) => {
                let ghost peeked = *self;
                let mut i: usize = 0;
                while i < primitives.len()
                    invariant
                        *self == peeked,
                        read_peek(old(self).state, old(self).input())
                            matches Some(n) ==> self.read_as(
                            old(self),
                            Ok::<Option<TokenView>, TeXError>(Some(token@)),
                            n,
                        ),
                        self.wf(),
                        self.state == old(self).state,
                        no_backslide(*old(self), *self),
                        self.lexer_view().source == old(self).lexer_view().source,
                        0 <= i <= primitives@.len(),
                        self.upcoming().len() > 0,
                        self.upcoming().last() == token@,
                        !self.state.expandable(token@),
                        forall|j: int|
                            0 <= j < i ==> !self.state.is_prim(token@, (#[trigger] primitives@[j])@),
                    decreases primitives.len() - i,
                {
                    if self.state.is_token_equal_to_prim(&token, primitives[i]) {
                        assert(self.state.is_prim(token@, primitives@[i as int]@));
                        assert(means_one_of(self.state, token@, primitives@));
                        return Ok(true);
                    }
                    i = i + 1;
                }
                assert(!means_one_of(self.state, token@, primitives@));
                Ok(false)
            },
        }
    }

    /// The token that a token has been `\let` to, if it is a name for a
    /// character token; else the token itself. This is not expansion.
    pub fn replace_renamed_token(&self, maybe_token: Option<Token>) -> (r: Option<Token>)
        requires
            self.wf(),
        ensures
            match maybe_token {
                None => r is None,
                Some(t) => match self.state.meaning_of(t@) {
                    Some(crate::state::MeaningView::LetCharacter(c)) => r matches Some(t2) && t2@
                        == c,
                    _ => r matches Some(t2) && t2@ == t@,
                },
            },
    {
        match maybe_token {
            None => None,
            Some(token) => match self.state.get_renamed_token(&token) {
                Some(renamed) => Some(renamed),
                None => Some(token),
            },
        }
    }
}

/// After an expanded read found nothing, either no token is put back, or
/// the one that is does not expand.
pub open spec fn no_token_or_not_expandable(p: Parser) -> bool {
    p.upcoming().len() > 0 ==> !p.state.expandable(p.upcoming().last())
}

} // verus!
