use vstd::prelude::*;

use crate::parser::reading::{
    conditional_step, expand_step, macro_step, print_step, read_next, read_peek,
};
use crate::parser::{
    advanced, lemma_expandable_names, lemma_put_back_then_read, next_token, no_backslide,
    token_result_view, Parser, TeXError,
};
use crate::token::{token_views, Token, TokenView};

verus! {

/// Whether a step that gave nothing had the outcome `res`: success, or the
/// same error.
pub open spec fn outcome_is(r: Result<(), TeXError>, res: Result<(), TeXError>) -> bool {
    match res {
        Ok(_) => r is Ok,
        Err(e) => r == Err::<(), TeXError>(e),
    }
}

impl Parser {
    /// Reads the next token without expanding it: the last token put back,
    /// or else the next token of the lexer.
    pub fn lex_unexpanded_token(&mut self) -> (r: Result<Option<Token>, TeXError>)
        requires
            old(self).wf(),
        ensures
            final(self).wf(),
            final(self).state == old(self).state,
            final(self).budget() == old(self).budget(),
            final(self).depth() == old(self).depth(),
            old(self).next_unexpanded() == (
                token_result_view(r),
                final(self).upcoming(),
                final(self).lexer_view(),
            ),
            final(self).lexer_view().source == old(self).lexer_view().source,
            r matches Ok(Some(_)) ==> final(self).input_left() < old(self).input_left(),
            final(self).input_left() <= old(self).input_left(),
    {
        proof {
            self.lemma_input_left();
        }
        if self.upcoming_tokens.len() == 0 {
            match self.lexer.lex_token_with(&self.state) {
                Ok(t) => Ok(t),
                Err(e) => Err(TeXError::Lex(e)),
            }
        } else {
            let ghost before = self.upcoming_tokens@;
            let t = self.upcoming_tokens.pop().unwrap();
            assert(token_views(self.upcoming_tokens@) =~= token_views(before).drop_last());
            Ok(Some(t))
        }
    }

    /// Puts a token back into the input: it is the next one read.
    pub fn add_upcoming_token(&mut self, token: Token)
        requires
            old(self).wf(),
        ensures
            final(self).wf(),
            final(self).state == old(self).state,
            final(self).budget() == old(self).budget(),
            final(self).depth() == old(self).depth(),
            final(self).lexer_view() == old(self).lexer_view(),
            final(self).upcoming() == old(self).upcoming().push(token@),
    {
        let ghost before = self.upcoming_tokens@;
        self.upcoming_tokens.push(token);
        assert(token_views(self.upcoming_tokens@) =~= token_views(before).push(token@));
    }

    /// Puts tokens back into the input so that they are read next, the first
    /// of them first.
    pub fn add_upcoming_tokens(&mut self, tokens: Vec<Token>)
        requires
            old(self).wf(),
        ensures
            final(self).wf(),
            final(self).state == old(self).state,
            final(self).budget() == old(self).budget(),
            final(self).depth() == old(self).depth(),
            final(self).lexer_view() == old(self).lexer_view(),
            final(self).upcoming() == old(self).upcoming() + token_views(tokens@).reverse(),
    {
        let mut tokens = tokens;
        let ghost all = token_views(tokens@);
        let ghost start = self.upcoming();
        while tokens.len() > 0
            invariant
                self.wf(),
                self.state == old(self).state,
                self.budget() == old(self).budget(),
                self.depth() == old(self).depth(),
                self.lexer_view() == old(self).lexer_view(),
                start == old(self).upcoming(),
                all.len() >= tokens.len(),
                token_views(tokens@) == all.subrange(0, tokens.len() as int),
                self.upcoming() == start + all.subrange(tokens.len() as int, all.len() as int).reverse(),
            decreases tokens.len(),
        {
            let ghost n = tokens.len();
            let ghost before = tokens@;
            let t = tokens.pop().unwrap();
            assert(token_views(tokens@) =~= token_views(before).drop_last());
            assert(before[n - 1] == t);
            assert(token_views(before)[n - 1] == t@);
            assert(all.subrange(0, n as int)[n - 1] == all[n - 1]);
            assert(t@ == all[n - 1]);
            self.add_upcoming_token(t);
            assert(all.subrange(n - 1, all.len() as int).reverse() =~= all.subrange(
                n as int,
                all.len() as int,
            ).reverse().push(all[n - 1]));
        }
        assert(all.subrange(0, all.len() as int) =~= all);
    }

    /// Reads the next token without expanding it, and puts it back.
    pub fn peek_unexpanded_token(&mut self) -> (r: Result<Option<Token>, TeXError>)
        requires
            old(self).wf(),
        ensures
            final(self).wf(),
            final(self).state == old(self).state,
            final(self).budget() == old(self).budget(),
            final(self).depth() == old(self).depth(),
            final(self).lexer_view().source == old(self).lexer_view().source,
            old(self).next_unexpanded().0 == token_result_view(r),
            match r {
                Ok(Some(t)) => {
                    &&& final(self).upcoming() == old(self).next_unexpanded().1.push(t@)
                    &&& final(self).lexer_view() == old(self).next_unexpanded().2
                },
                _ => {
                    &&& final(self).upcoming() == old(self).next_unexpanded().1
                    &&& final(self).lexer_view() == old(self).next_unexpanded().2
                },
            },
            final(self).input_left() <= old(self).input_left(),
    {
        match self.lex_unexpanded_token() {
            Ok(Some(token)) => {
                let copy = token.duplicate();
                self.add_upcoming_token(token);
                Ok(Some(copy))
            },
            other => other,
        }
    }

    /// Whether a token starts or ends a conditional.
    pub(crate) fn is_conditional_token(&self, token: &Token) -> (b: bool)
        requires
            self.wf(),
        ensures
            b == self.state.is_conditional_token(token@),
    {
        self.state.is_token_equal_to_prim(token, "iftrue") || self.state.is_token_equal_to_prim(
            token,
            "iffalse",
        ) || self.state.is_token_equal_to_prim(token, "ifnum")
            || self.state.is_token_equal_to_prim(token, "else")
            || self.state.is_token_equal_to_prim(token, "fi")
    }

    /// Reads the next token after expansion: conditionals are carried out,
    /// `\number` is replaced by the digits of its number, and macros by their
    /// replacement text, until a token that does not expand comes.
    ///
    /// When the next token does not expand, it is the result, read as
    /// `lex_unexpanded_token` reads it.
    pub fn lex_expanded_token(&mut self) -> (r: Result<Option<Token>, TeXError>)
        requires
            old(self).wf(),
        ensures
            final(self).wf(),
            final(self).state == old(self).state,
            no_backslide(*old(self), *final(self)),
            final(self).lexer_view().source == old(self).lexer_view().source,
            r matches Ok(Some(t)) ==> !old(self).state.expandable(t@),
            r matches Ok(Some(_)) ==> advanced(*old(self), *final(self)),
            r == Ok::<Option<Token>, TeXError>(None) ==> final(self).upcoming().len() == 0,
            read_next(old(self).state, old(self).input()) matches Some(n) ==> final(self).read_as(
                old(self),
                token_result_view(r),
                n,
            ),
            match old(self).next_unexpanded() {
                (Ok(Some(t)), up, l) => if !old(self).state.expandable(t) {
                    &&& token_result_view(r) == Ok::<Option<TokenView>, TeXError>(Some(t))
                    &&& final(self).upcoming() == up
                    &&& final(self).lexer_view() == l
                    &&& final(self).depth() == old(self).depth()
                    &&& final(self).budget() == old(self).budget()
                } else {
                    old(self).budget() == 0 ==> r == Err::<Option<Token>, TeXError>(TeXError::ExpansionLimit)
                },
                (Ok(None), up, l) => {
                    &&& r == Ok::<Option<Token>, TeXError>(None)
                    &&& final(self).upcoming() == up
                    &&& final(self).lexer_view() == l
                    &&& final(self).budget() == old(self).budget()
                },
                (Err(e), up, l) => {
                    &&& r == Err::<Option<Token>, TeXError>(e)
                    &&& final(self).upcoming() == up
                    &&& final(self).lexer_view() == l
                    &&& final(self).budget() == old(self).budget()
                },
            },
        decreases old(self).budget(), old(self).input_left(), 0nat,
    {
        let token = match self.lex_unexpanded_token() {
            Err(e) => {
                return Err(e);
            },
            Ok(None) => {
                return Ok(None);
            },
            Ok(Some(t)) => t,
        };
        proof {
            lemma_expandable_names();
        }
        let is_conditional = self.is_conditional_token(&token);
        let is_print = self.state.is_token_equal_to_prim(&token, "number");
        let is_macro = self.state.get_macro(&token).is_some();
        if is_conditional || is_print || is_macro {
            match self.expand_token(token) {
                Err(e) => {
                    return Err(e);
                },
                Ok(()) => {},
            }
            self.lex_expanded_token()
        } else {
            Ok(Some(token))
        }
    }

    /// Expands a token that expands and has just been read, taking one step
    /// of the budget: a conditional is carried out, `\number` is replaced by
    /// the digits of its number, and a macro by its replacement text.
    fn expand_token(&mut self, token: Token) -> (r: Result<(), TeXError>)
        requires
            old(self).wf(),
            old(self).state.expandable(token@),
        ensures
            final(self).wf(),
            final(self).state == old(self).state,
            no_backslide(*old(self), *final(self)),
            final(self).lexer_view().source == old(self).lexer_view().source,
            r is Ok ==> final(self).budget() < old(self).budget(),
            old(self).budget() == 0 ==> r == Err::<(), TeXError>(TeXError::ExpansionLimit)
                && final(self).input() == old(self).input(),
            old(self).budget() > 0 ==> (expand_step(
                old(self).state,
                token@,
                (old(self).upcoming(), old(self).lexer_view(), old(self).depth(), (old(self).budget() - 1) as nat),
            ) matches Some((res, i)) ==> {
                &&& outcome_is(r, res)
                &&& final(self).input() == i
            }),
        decreases old(self).budget(), old(self).input_left(), 0nat,
    {
        proof {
            lemma_expandable_names();
        }
        let ghost st = self.state;
        let ghost up0 = self.upcoming();
        let ghost l0 = self.lexer_view();
        let is_conditional = self.is_conditional_token(&token);
        let is_print = self.state.is_token_equal_to_prim(&token, "number");
        let makro = self.state.get_macro(&token);
        match self.spend() {
            Err(e) => {
                return Err(e);
            },
            Ok(()) => {},
        }
        if is_conditional {
            proof {
                lemma_put_back_then_read(st.category_fn(), up0, l0, token@);
            }
            self.add_upcoming_token(token);
            self.expand_conditional_at_head()
        } else if is_print {
            proof {
                lemma_put_back_then_read(st.category_fn(), up0, l0, token@);
            }
            self.add_upcoming_token(token);
            self.expand_number_at_head()
        } else {
            match makro {
                Some(makro) => {
                    let r = self.expand_macro(&makro);
                    proof {
                        reveal(macro_step);
                    }
                    r
                },
                None => Ok(()),
            }
        }
    }

    /// Carries out the conditional token that comes next, as `conditional_step`
    /// says.
    #[verifier::spinoff_prover]
    #[verifier::rlimit(60)]
    fn expand_conditional_at_head(&mut self) -> (r: Result<(), TeXError>)
        requires
            old(self).wf(),
        ensures
            final(self).wf(),
            final(self).state == old(self).state,
            final(self).budget() <= old(self).budget(),
            final(self).lexer_view().source == old(self).lexer_view().source,
            old(self).next_unexpanded() matches (Ok(Some(t)), up, l) ==> (conditional_step(
                old(self).state,
                t,
                (up, l, old(self).depth(), old(self).budget()),
            ) matches Some((res, i)) ==> {
                &&& outcome_is(r, res)
                &&& final(self).input() == i
            }),
        decreases old(self).budget(), old(self).input_left(), 11nat,
    {
        let r = self.expand_conditional();
        proof {
                        lemma_expandable_names();
        }
        r
    }

    /// Carries out the `\number` that comes next, as `print_step` says.
    fn expand_number_at_head(&mut self) -> (r: Result<(), TeXError>)
        requires
            old(self).wf(),
        ensures
            final(self).wf(),
            final(self).state == old(self).state,
            final(self).budget() <= old(self).budget(),
            final(self).lexer_view().source == old(self).lexer_view().source,
            old(self).next_unexpanded() matches (Ok(Some(t)), up, l) ==> (old(self).state.is_prim(
                t,
                "number"@,
            ) ==> (print_step(old(self).state, (up, l, old(self).depth(), old(self).budget()))
                matches Some((res, i)) ==> {
                &&& outcome_is(r, res)
                &&& final(self).input() == i
            })),
        decreases old(self).budget(), old(self).input_left(), 10nat,
    {
        let replacement = match self.expand_print() {
            Err(e) => {
                return Err(e);
            },
            Ok(toks) => toks,
        };
        self.add_upcoming_tokens(replacement);
        Ok(())
    }

    /// Reads the next token after expansion, and puts it back: the next
    /// read, expanded or not, gives it again.
    pub fn peek_expanded_token(&mut self) -> (r: Result<Option<Token>, TeXError>)
        requires
            old(self).wf(),
        ensures
            final(self).wf(),
            final(self).state == old(self).state,
            no_backslide(*old(self), *final(self)),
            final(self).lexer_view().source == old(self).lexer_view().source,
            r == Ok::<Option<Token>, TeXError>(None) ==> final(self).upcoming().len() == 0,
            r matches Ok(Some(t)) ==> {
                &&& !final(self).state.expandable(t@)
                &&& final(self).upcoming().len() > 0
                &&& final(self).upcoming().last() == t@
            },
            read_peek(old(self).state, old(self).input()) matches Some(n) ==> final(self).read_as(
                old(self),
                token_result_view(r),
                n,
            ),
            match old(self).next_unexpanded() {
                (Ok(Some(t)), up, l) => if !old(self).state.expandable(t) {
                    &&& token_result_view(r) == Ok::<Option<TokenView>, TeXError>(Some(t))
                    &&& final(self).upcoming() == up.push(t)
                    &&& final(self).lexer_view() == l
                    &&& final(self).depth() == old(self).depth()
                    &&& final(self).budget() == old(self).budget()
                } else {
                    old(self).budget() == 0 ==> r == Err::<Option<Token>, TeXError>(TeXError::ExpansionLimit)
                },
                (Ok(None), up, l) => {
                    &&& r == Ok::<Option<Token>, TeXError>(None)
                    &&& final(self).upcoming() == up
                    &&& final(self).lexer_view() == l
                    &&& final(self).budget() == old(self).budget()
                },
                (Err(e), up, l) => {
                    &&& r == Err::<Option<Token>, TeXError>(e)
                    &&& final(self).upcoming() == up
                    &&& final(self).lexer_view() == l
                    &&& final(self).budget() == old(self).budget()
                },
            },
        decreases old(self).budget(), old(self).input_left(), 1nat,
    {
        match self.lex_expanded_token() {
            Ok(Some(token)) => {
                let copy = token.duplicate();
                self.add_upcoming_token(token);
                Ok(Some(copy))
            },
            other => other,
        }
    }
}

} // verus!
