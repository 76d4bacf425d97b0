use vstd::prelude::*;

use crate::category::Category;
use crate::lexer::LexerView;
use crate::parser::reading::{read_ifnum, read_relation, Reading};
use crate::parser::{Parser, TeXError, input_size, lemma_expandable_names, next_token, no_backslide, token_result_view};
use crate::state::TeXState;
use crate::token::{Token, TokenView};

verus! {

/// The relation of an `\ifnum`.
#[derive(PartialEq, Eq, Clone, Copy, Structural)]
pub enum Relation {
    GreaterThan,
    EqualTo,
    LessThan,
}

/// Whether two numbers stand in a relation.
pub fn check_relation(rel: Relation, left: i32, right: i32) -> (b: bool)
    ensures
        b == match rel {
            Relation::GreaterThan => left > right,
            Relation::EqualTo => left == right,
            Relation::LessThan => left < right,
        },
{
    match rel {
        Relation::GreaterThan => left > right,
        Relation::EqualTo => left == right,
        Relation::LessThan => left < right,
    }
}

/// What carrying out an `\ifnum` whose test read as `n` did: on an error,
/// that error; when the test holds, the true branch is entered; when not,
/// the input skips to the `\else` branch, or past the `\fi`.
pub open spec fn ifnum_outcome(st: TeXState, n: Reading<bool>, r: Result<(), TeXError>, after: Parser) -> bool {
    match n {
        None => true,
        Some((Err(e), i)) => r == Err::<(), TeXError>(e) && after.input() == i,
        Some((Ok(true), i)) => if i.2 < usize::MAX {
            &&& r is Ok
            &&& after.input() == (i.0, i.1, i.2 + 1, i.3)
        } else {
            &&& r == Err::<(), TeXError>(TeXError::ExpansionLimit)
            &&& after.input() == i
        },
        Some((Ok(false), i)) => match skip_to_fi_or_else(st, i.0, i.1) {
            (Ok(into_else), up3, l3) => if into_else && i.2 >= usize::MAX {
                &&& r == Err::<(), TeXError>(TeXError::ExpansionLimit)
                &&& after.input() == (up3, l3, i.2, i.3)
            } else {
                &&& r is Ok
                &&& after.input() == (
                    up3,
                    l3,
                    if into_else {
                        i.2 + 1
                    } else {
                        i.2
                    },
                    i.3,
                )
            },
            (Err(e), up3, l3) => r == Err::<(), TeXError>(e) && after.input() == (up3, l3, i.2, i.3),
        },
    }
}

/// Whether a token opens a conditional.
pub open spec fn is_conditional_start(st: TeXState, t: TokenView) -> bool {
    ||| st.is_prim(t, "iftrue"@)
    ||| st.is_prim(t, "iffalse"@)
    ||| st.is_prim(t, "ifnum"@)
}

/// Skips the tokens of a branch up to the `\fi` that closes it, skipping
/// whole any conditional that opens inside it; the `\else`s on the way are
/// skipped too.
pub open spec fn skip_to_fi(st: TeXState, up: Seq<TokenView>, l: LexerView) -> (
    Result<(), TeXError>,
    Seq<TokenView>,
    LexerView,
)
    decreases input_size(up, l),
{
    let (r, up2, l2) = next_token(st.category_fn(), up, l);
    match r {
        Err(e) => (Err(e), up2, l2),
        Ok(None) => (Err(TeXError::UnexpectedEnd), up2, l2),
        Ok(Some(t)) => if 0 <= input_size(up2, l2) < input_size(up, l) {
            if is_conditional_start(st, t) {
                let (r3, up3, l3) = skip_to_fi(st, up2, l2);
                if r3 is Err {
                    (r3, up3, l3)
                } else if 0 <= input_size(up3, l3) < input_size(up, l) {
                    skip_to_fi(st, up3, l3)
                } else {
                    (Err(TeXError::UnexpectedEnd), up3, l3)
                }
            } else if st.is_prim(t, "fi"@) {
                (Ok(()), up2, l2)
            } else {
                skip_to_fi(st, up2, l2)
            }
        } else {
            (Err(TeXError::UnexpectedEnd), up2, l2)
        },
    }
}

/// Skips the tokens of a false branch up to its `\else` (then `true`) or
/// its `\fi` (then `false`), skipping whole any conditional that opens
/// inside it.
pub open spec fn skip_to_fi_or_else(st: TeXState, up: Seq<TokenView>, l: LexerView) -> (
    Result<bool, TeXError>,
    Seq<TokenView>,
    LexerView,
)
    decreases input_size(up, l),
{
    let (r, up2, l2) = next_token(st.category_fn(), up, l);
    match r {
        Err(e) => (Err(e), up2, l2),
        Ok(None) => (Err(TeXError::UnexpectedEnd), up2, l2),
        Ok(Some(t)) => if 0 <= input_size(up2, l2) < input_size(up, l) {
            if is_conditional_start(st, t) {
                let (r3, up3, l3) = skip_to_fi(st, up2, l2);
                if let Err(e) = r3 {
                    (Err(e), up3, l3)
                } else if 0 <= input_size(up3, l3) < input_size(up, l) {
                    skip_to_fi_or_else(st, up3, l3)
                } else {
                    (Err(TeXError::UnexpectedEnd), up3, l3)
                }
            } else if st.is_prim(t, "fi"@) {
                (Ok(false), up2, l2)
            } else if st.is_prim(t, "else"@) {
                (Ok(true), up2, l2)
            } else {
                skip_to_fi_or_else(st, up2, l2)
            }
        } else {
            (Err(TeXError::UnexpectedEnd), up2, l2)
        },
    }
}

impl Parser {
    fn is_conditional_start(&self, token: &Token) -> (b: bool)
        requires
            self.wf(),
        ensures
            b == is_conditional_start(self.state, token@),
    {
        self.state.is_token_equal_to_prim(token, "iftrue") || self.state.is_token_equal_to_prim(
            token,
            "iffalse",
        ) || self.state.is_token_equal_to_prim(token, "ifnum")
    }

    /// Whether the next token, unexpanded, starts or ends a conditional.
    pub fn is_conditional_head(&mut self) -> (r: Result<bool, TeXError>)
        requires
            old(self).wf(),
        ensures
            final(self).wf(),
            final(self).state == old(self).state,
            final(self).budget() == old(self).budget(),
            final(self).depth() == old(self).depth(),
            final(self).lexer_view().source == old(self).lexer_view().source,
            final(self).input_left() <= old(self).input_left(),
            match old(self).next_unexpanded() {
                (Ok(Some(t)), up, l) => {
                    &&& r == Ok::<bool, TeXError>(old(self).state.is_conditional_token(t))
                    &&& final(self).upcoming() == up.push(t)
                    &&& final(self).lexer_view() == l
                },
                (Ok(None), up, l) => r == Ok::<bool, TeXError>(false),
                (Err(e), up, l) => r == Err::<bool, TeXError>(e),
            },
    {
        match self.peek_unexpanded_token() {
            Ok(Some(token)) => Ok(self.is_conditional_token(&token)),
            Ok(None) => Ok(false),
            Err(e) => Err(e),
        }
    }

    /// Skips to the `\fi` that closes the current branch.
    fn skip_to_fi(&mut self) -> (r: Result<(), TeXError>)
        requires
            old(self).wf(),
        ensures
            final(self).wf(),
            final(self).state == old(self).state,
            final(self).budget() == old(self).budget(),
            final(self).depth() == old(self).depth(),
            final(self).lexer_view().source == old(self).lexer_view().source,
            skip_to_fi(old(self).state, old(self).upcoming(), old(self).lexer_view()) == (
                r,
                final(self).upcoming(),
                final(self).lexer_view(),
            ),
            final(self).input_left() <= old(self).input_left(),
        decreases old(self).input_left(),
    {
        proof {
            self.lemma_input_left();
        }
        loop
            invariant
                self.wf(),
                self.state == old(self).state,
                self.budget() == old(self).budget(),
                self.depth() == old(self).depth(),
                self.lexer_view().source == old(self).lexer_view().source,
                skip_to_fi(self.state, self.upcoming(), self.lexer_view()) == skip_to_fi(
                    old(self).state,
                    old(self).upcoming(),
                    old(self).lexer_view(),
                ),
                self.input_left() <= old(self).input_left(),
                self.input_left() >= 0,
            decreases self.input_left(),
        {
            let ghost up = self.upcoming();
            let ghost l = self.lexer_view();
            let token = match self.lex_unexpanded_token() {
                Err(e) => {
                    return Err(e);
                },
                Ok(None) => {
                    return Err(TeXError::UnexpectedEnd);
                },
                Ok(Some(t)) => t,
            };
            proof {
                self.lemma_input_left();
            }
            if self.is_conditional_start(&token) {
                match self.skip_to_fi() {
                    Err(e) => {
                        return Err(e);
                    },
                    Ok(()) => {},
                }
                proof {
                    self.lemma_input_left();
                }
            } else if self.state.is_token_equal_to_prim(&token, "fi") {
                return Ok(());
            }
        }
    }

    /// Skips to the `\else` (then `true`) or the `\fi` (then `false`) of a
    /// false branch.
    fn skip_to_fi_or_else(&mut self) -> (r: Result<bool, TeXError>)
        requires
            old(self).wf(),
        ensures
            final(self).wf(),
            final(self).state == old(self).state,
            final(self).budget() == old(self).budget(),
            final(self).depth() == old(self).depth(),
            final(self).lexer_view().source == old(self).lexer_view().source,
            skip_to_fi_or_else(old(self).state, old(self).upcoming(), old(self).lexer_view()) == (
                r,
                final(self).upcoming(),
                final(self).lexer_view(),
            ),
            final(self).input_left() <= old(self).input_left(),
    {
        proof {
            self.lemma_input_left();
        }
        loop
            invariant
                self.wf(),
                self.state == old(self).state,
                self.budget() == old(self).budget(),
                self.depth() == old(self).depth(),
                self.lexer_view().source == old(self).lexer_view().source,
                skip_to_fi_or_else(self.state, self.upcoming(), self.lexer_view())
                    == skip_to_fi_or_else(old(self).state, old(self).upcoming(), old(self).lexer_view()),
                self.input_left() <= old(self).input_left(),
                self.input_left() >= 0,
            decreases self.input_left(),
        {
            let token = match self.lex_unexpanded_token() {
                Err(e) => {
                    return Err(e);
                },
                Ok(None) => {
                    return Err(TeXError::UnexpectedEnd);
                },
                Ok(Some(t)) => t,
            };
            proof {
                self.lemma_input_left();
            }
            if self.is_conditional_start(&token) {
                match self.skip_to_fi() {
                    Err(e) => {
                        return Err(e);
                    },
                    Ok(()) => {},
                }
                proof {
                    self.lemma_input_left();
                }
            } else if self.state.is_token_equal_to_prim(&token, "fi") {
                return Ok(false);
            } else if self.state.is_token_equal_to_prim(&token, "else") {
                return Ok(true);
            }
        }
    }

    /// Enters the true branch of a conditional.
    fn handle_true(&mut self) -> (r: Result<(), TeXError>)
        requires
            old(self).wf(),
        ensures
            final(self).wf(),
            final(self).state == old(self).state,
            final(self).budget() == old(self).budget(),
            final(self).upcoming() == old(self).upcoming(),
            final(self).lexer_view() == old(self).lexer_view(),
            r is Ok <==> old(self).depth() < usize::MAX,
            r is Ok ==> final(self).depth() == old(self).depth() + 1,
            r is Err ==> final(self).depth() == old(self).depth() && r == Err::<(), TeXError>(
                TeXError::ExpansionLimit,
            ),
    {
        if self.conditional_depth == usize::MAX {
            return Err(TeXError::ExpansionLimit);
        }
        self.conditional_depth = self.conditional_depth + 1;
        Ok(())
    }

    /// Skips the true branch of a conditional that is false: to its `\fi`,
    /// or into its `\else` branch.
    fn handle_false(&mut self) -> (r: Result<(), TeXError>)
        requires
            old(self).wf(),
        ensures
            final(self).wf(),
            final(self).state == old(self).state,
            final(self).budget() == old(self).budget(),
            final(self).lexer_view().source == old(self).lexer_view().source,
            final(self).input_left() <= old(self).input_left(),
            match skip_to_fi_or_else(old(self).state, old(self).upcoming(), old(self).lexer_view()) {
                (Ok(into_else), up, l) => {
                    &&& final(self).upcoming() == up
                    &&& final(self).lexer_view() == l
                    &&& if into_else && old(self).depth() == usize::MAX {
                        r == Err::<(), TeXError>(TeXError::ExpansionLimit) && final(self).depth()
                            == old(self).depth()
                    } else {
                        &&& r is Ok
                        &&& final(self).depth() == old(self).depth() + if into_else {
                            1int
                        } else {
                            0
                        }
                    }
                },
                (Err(e), up, l) => {
                    &&& r == Err::<(), TeXError>(e)
                    &&& final(self).upcoming() == up
                    &&& final(self).lexer_view() == l
                    &&& final(self).depth() == old(self).depth()
                },
            },
    {
        match self.skip_to_fi_or_else() {
            Err(e) => Err(e),
            Ok(true) => self.handle_true(),
            Ok(false) => Ok(()),
        }
    }

    /// Reads the relation of an `\ifnum`, and the spaces after it.
    fn parse_relation(&mut self) -> (r: Result<Relation, TeXError>)
        requires
            old(self).wf(),
        ensures
            final(self).wf(),
            final(self).state == old(self).state,
            no_backslide(*old(self), *final(self)),
            final(self).lexer_view().source == old(self).lexer_view().source,
            read_relation(old(self).state, old(self).input()) matches Some(n) ==> final(self).read_as(
                old(self),
                r,
                n,
            ),
        decreases old(self).budget(), old(self).input_left(), 3nat,
    {
        let relation = match self.lex_expanded_token() {
            Err(e) => {
                return Err(e);
            },
            Ok(Some(Token::Char('<', Category::Other))) => Relation::LessThan,
            Ok(Some(Token::Char('=', Category::Other))) => Relation::EqualTo,
            Ok(Some(Token::Char('>', Category::Other))) => Relation::GreaterThan,
            Ok(_) => {
                return Err(TeXError::InvalidRelation);
            },
        };
        match self.parse_optional_spaces_expanded() {
            Err(e) => Err(e),
            Ok(()) => Ok(relation),
        }
    }

    /// Carries out an `\ifnum` whose token has been read: compares two
    /// numbers and enters the true branch or skips the false one.
    fn expand_ifnum(&mut self) -> (r: Result<(), TeXError>)
        requires
            old(self).wf(),
        ensures
            final(self).wf(),
            final(self).state == old(self).state,
            no_backslide(*old(self), *final(self)),
            final(self).lexer_view().source == old(self).lexer_view().source,
            ifnum_outcome(old(self).state, read_ifnum(old(self).state, old(self).input()), r, *final(self)),
        decreases old(self).budget(), old(self).input_left(), 10nat,
    {
        match self.parse_ifnum_test() {
            Err(e) => Err(e),
            Ok(true) => self.handle_true(),
            Ok(false) => self.handle_false(),
        }
    }

    /// Reads the test of an `\ifnum`: a number, a relation and a number;
    /// whether the numbers stand in the relation.
    #[verifier::spinoff_prover]
    #[verifier::rlimit(80)]
    fn parse_ifnum_test(&mut self) -> (r: Result<bool, TeXError>)
        requires
            old(self).wf(),
        ensures
            final(self).wf(),
            final(self).state == old(self).state,
            no_backslide(*old(self), *final(self)),
            final(self).lexer_view().source == old(self).lexer_view().source,
            read_ifnum(old(self).state, old(self).input()) matches Some(n) ==> final(self).read_as(
                old(self),
                r,
                n,
            ),
        decreases old(self).budget(), old(self).input_left(), 9nat,
    {
        let num1 = match self.parse_number() {
            Err(e) => {
                return Err(e);
            },
            Ok(n) => n,
        };
        let relation = match self.parse_relation() {
            Err(e) => {
                return Err(e);
            },
            Ok(rel) => rel,
        };
        let num2 = match self.parse_number() {
            Err(e) => {
                return Err(e);
            },
            Ok(n) => n,
        };
        Ok(check_relation(relation, num1, num2))
    }

    /// Carries out the conditional command that comes next: `\iftrue`,
    /// `\iffalse` and `\ifnum` enter their true branch or skip to their
    /// `\else` branch or their `\fi`; `\else` skips to the `\fi` of the branch
    /// that was taken; `\fi` closes the conditional.
    ///
    /// A `\fi` or `\else` with no conditional open is refused with an error, not ruled out by `requires`:
    /// the parser meets it in the middle of expanded reading (inside a
    /// macro, a conditional or a number), where no caller can check the
    /// input beforehand, so every reader of the parser reports such input
    /// as a `TeXError` and says in its contract which error on which input.
    #[verifier::spinoff_prover]
    #[verifier::rlimit(60)]
    pub fn expand_conditional(&mut self) -> (r: Result<(), TeXError>)
        requires
            old(self).wf(),
        ensures
            final(self).wf(),
            final(self).state == old(self).state,
            no_backslide(*old(self), *final(self)),
            final(self).lexer_view().source == old(self).lexer_view().source,
            (old(self).next_unexpanded() matches (Ok(Some(t)), up, l) && old(self).state.is_prim(
                t,
                "ifnum"@,
            )) || final(self).budget() == old(self).budget(),
            match old(self).next_unexpanded() {
                (Ok(Some(t)), up, l) => {
                    let st = old(self).state;
                    &&& st.is_prim(t, "iftrue"@) ==> {
                        &&& final(self).upcoming() == up
                        &&& final(self).lexer_view() == l
                        &&& if old(self).depth() < usize::MAX {
                            &&& r is Ok
                            &&& final(self).depth() == old(self).depth() + 1
                        } else {
                            &&& r == Err::<(), TeXError>(TeXError::ExpansionLimit)
                            &&& final(self).depth() == old(self).depth()
                        }
                    }
                    &&& st.is_prim(t, "fi"@) ==> if old(self).depth() == 0 {
                        &&& r == Err::<(), TeXError>(TeXError::ExtraFi)
                        &&& final(self).upcoming() == up
                        &&& final(self).lexer_view() == l
                        &&& final(self).depth() == old(self).depth()
                    } else {
                        &&& r is Ok
                        &&& final(self).upcoming() == up
                        &&& final(self).lexer_view() == l
                        &&& final(self).depth() == old(self).depth() - 1
                    }
                    &&& st.is_prim(t, "else"@) ==> if old(self).depth() == 0 {
                        &&& r == Err::<(), TeXError>(TeXError::ExtraElse)
                        &&& final(self).upcoming() == up
                        &&& final(self).lexer_view() == l
                        &&& final(self).depth() == old(self).depth()
                    } else {
                        &&& skip_to_fi(st, up, l) == (r, final(self).upcoming(), final(self).lexer_view())
                        &&& final(self).depth() == old(self).depth() - 1
                    }
                    &&& st.is_prim(t, "iffalse"@) ==> match skip_to_fi_or_else(st, up, l) {
                        (Ok(into_else), up2, l2) => {
                            &&& final(self).upcoming() == up2
                            &&& final(self).lexer_view() == l2
                            &&& if into_else && old(self).depth() >= usize::MAX {
                                &&& r == Err::<(), TeXError>(TeXError::ExpansionLimit)
                                &&& final(self).depth() == old(self).depth()
                            } else {
                                &&& r is Ok
                                &&& final(self).depth() == old(self).depth() + if into_else {
                                    1int
                                } else {
                                    0
                                }
                            }
                        },
                        (Err(e), up2, l2) => {
                            &&& r == Err::<(), TeXError>(e)
                            &&& final(self).upcoming() == up2
                            &&& final(self).lexer_view() == l2
                            &&& final(self).depth() == old(self).depth()
                        },
                    }
                    &&& st.is_prim(t, "ifnum"@) ==> ifnum_outcome(
                        st,
                        read_ifnum(st, (up, l, old(self).depth(), old(self).budget())),
                        r,
                        *final(self),
                    )
                    &&& !st.is_conditional_token(t) ==> r == Err::<(), TeXError>(
                        TeXError::Unimplemented,
                    )
                },
                (Ok(None), up, l) => r == Err::<(), TeXError>(TeXError::UnexpectedEnd),
                (Err(e), up, l) => r == Err::<(), TeXError>(e),
            },
        decreases old(self).budget(), old(self).input_left(), 10nat,
    {
        let token = match self.lex_unexpanded_token() {
            Err(e) => {
                return Err(e);
            },
            Ok(None) => {
                return Err(TeXError::UnexpectedEnd);
            },
            Ok(Some(t)) => t,
        };
        proof {
            lemma_expandable_names();
        }
        if self.state.is_token_equal_to_prim(&token, "fi") {
            if self.conditional_depth == 0 {
                return Err(TeXError::ExtraFi);
            }
            self.conditional_depth = self.conditional_depth - 1;
            Ok(())
        } else if self.state.is_token_equal_to_prim(&token, "else") {
            if self.conditional_depth == 0 {
                return Err(TeXError::ExtraElse);
            }
            self.conditional_depth = self.conditional_depth - 1;
            self.skip_to_fi()
        } else if self.state.is_token_equal_to_prim(&token, "iftrue") {
            self.handle_true()
        } else if self.state.is_token_equal_to_prim(&token, "iffalse") {
            self.handle_false()
        } else if self.state.is_token_equal_to_prim(&token, "ifnum") {
            self.expand_ifnum()
        } else {
            Err(TeXError::Unimplemented)
        }
    }
}

} // verus!
