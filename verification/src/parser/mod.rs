use vstd::prelude::*;

use crate::category::Category;
use crate::lexer::{lexable_categories, remaining, spec_lex_token, LexError, Lexer, LexerView};
use crate::state::{MeaningView, TeXState};
use crate::token::{Token, TokenView};

pub mod assignment;
pub mod boxes;
pub mod conditional;
pub mod dimen;
pub mod expand;
pub mod glue;
pub mod laws;
pub mod makro;
pub mod math_symbol;
pub mod number;
pub mod primitives;
pub mod printing;
pub mod progress;
pub mod reading;
pub mod variable;

verus! {

/// What makes parsing fail. Each error stands for input that TeX refuses;
/// the readers report it as a value, in the place where it is met, since
/// it can come up anywhere inside expanded reading.
#[derive(Debug, PartialEq, Eq, Clone, Copy, Structural)]
pub enum TeXError {
    /// The lexer could not read the input.
    Lex(LexError),
    /// The input ended where a token was needed.
    UnexpectedEnd,
    /// A `\fi` with no conditional open.
    ExtraFi,
    /// An `\else` with no conditional open.
    ExtraElse,
    /// An `\ifnum` whose relation is not `<`, `=` or `>`.
    InvalidRelation,
    /// A number was expected and none was found.
    MissingNumber,
    /// A number out of the range that its place allows.
    NumberOutOfRange,
    /// A character constant made of a control sequence of more than one
    /// character.
    InvalidCharacterConstant,
    /// A parameter character followed by something other than a digit from
    /// 1 to 9, a parameter character or (in a parameter text) a `{`.
    InvalidParameter,
    /// The parameter text of a macro was not matched by its use.
    NonMatchingParameterText,
    /// A required keyword was not found.
    MissingKeyword,
    /// A control sequence or active character was expected.
    MissingControlSequence,
    /// Something was found after `\global` that is not an assignment.
    NonAssignmentAfterGlobal,
    /// Arithmetic on a register went out of the range of an integer, or
    /// divided by zero.
    ArithmeticOverflow,
    /// A unit of measure that is not one, or one that does not fit where it
    /// stands (`true` before `em`, `ex` or `fil`; `fil` where infinite glue
    /// is not allowed; four `l`s).
    InvalidUnit,
    /// A construction that this parser does not handle.
    Unimplemented,
    /// Expansion went on for longer than the parser's budget of steps.
    ExpansionLimit,
}

/// A parser of TeX input: it reads tokens from a lexer, or from a stack of
/// tokens put back into the input, and expands them under a TeX state.
pub struct Parser {
    pub lexer: Lexer,
    pub state: TeXState,
    /// Tokens put back into the input; the last one is read first.
    pub upcoming_tokens: Vec<Token>,
    /// How many conditionals are open.
    pub conditional_depth: usize,
    /// How many more expansions may be made: each expansion of a macro, a
    /// conditional or `\number` takes one.
    pub budget: u64,
}

/// A parser result with its tokens taken by their views.
pub open spec fn token_result_view(r: Result<Option<Token>, TeXError>) -> Result<Option<TokenView>, TeXError> {
    match r {
        Ok(Some(t)) => Ok(Some(t@)),
        Ok(None) => Ok(None),
        Err(e) => Err(e),
    }
}

/// The next token of an input made of put-back tokens `up` (the last one
/// first) and a lexer, with what is left of both after it.
pub open spec fn next_token(cat: spec_fn(char) -> Category, up: Seq<TokenView>, l: LexerView) -> (
    Result<Option<TokenView>, TeXError>,
    Seq<TokenView>,
    LexerView,
) {
    if up.len() > 0 {
        (Ok(Some(up.last())), up.drop_last(), l)
    } else {
        let (r, l2) = spec_lex_token(l, cat);
        (
            match r {
                Ok(t) => Ok(t),
                Err(e) => Err(TeXError::Lex(e)),
            },
            up,
            l2,
        )
    }
}

/// A token put back into the input is the next one read, and reading it
/// leaves the input as it was before it was put back.
pub proof fn lemma_put_back_then_read(cat: spec_fn(char) -> Category, up: Seq<TokenView>, l: LexerView, t: TokenView)
    ensures
        next_token(cat, up.push(t), l) == (Ok::<Option<TokenView>, TeXError>(Some(t)), up, l),
{
    assert(up.push(t).drop_last() =~= up);
}

/// Tokens put back together (as `add_upcoming_tokens` puts them) are read
/// first to last: the first is read next, and the rest stay put back.
pub proof fn lemma_put_back_many_then_read(
    cat: spec_fn(char) -> Category,
    up: Seq<TokenView>,
    l: LexerView,
    ts: Seq<TokenView>,
)
    requires
        ts.len() > 0,
    ensures
        next_token(cat, up + ts.reverse(), l) == (
            Ok::<Option<TokenView>, TeXError>(Some(ts[0])),
            up + ts.drop_first().reverse(),
            l,
        ),
{
    assert((up + ts.reverse()).last() == ts[0]);
    assert((up + ts.reverse()).drop_last() =~= up + ts.drop_first().reverse());
}

/// How much input is left in put-back tokens and a lexer.
pub open spec fn input_size(up: Seq<TokenView>, l: LexerView) -> int {
    up.len() + remaining(l)
}

/// The names of the expandable primitives, as text: they are all
/// different.
pub proof fn lemma_expandable_names()
    ensures
        "iftrue"@ == seq!['i', 'f', 't', 'r', 'u', 'e'],
        "iffalse"@ == seq!['i', 'f', 'f', 'a', 'l', 's', 'e'],
        "ifnum"@ == seq!['i', 'f', 'n', 'u', 'm'],
        "else"@ == seq!['e', 'l', 's', 'e'],
        "fi"@ == seq!['f', 'i'],
        "number"@ == seq!['n', 'u', 'm', 'b', 'e', 'r'],
{
    reveal_strlit("iftrue");
    reveal_strlit("iffalse");
    reveal_strlit("ifnum");
    reveal_strlit("else");
    reveal_strlit("fi");
    reveal_strlit("number");
}

/// The parser has not gone back: it spent budget, or it spent none and has
/// no more input left than before.
pub open spec fn no_backslide(before: Parser, after: Parser) -> bool {
    ||| after.budget() < before.budget()
    ||| after.budget() == before.budget() && after.input_left() <= before.input_left()
}

/// The parser has moved on: it spent budget, or it spent none and has less
/// input left than before.
pub open spec fn advanced(before: Parser, after: Parser) -> bool {
    ||| after.budget() < before.budget()
    ||| after.budget() == before.budget() && after.input_left() < before.input_left()
}

impl TeXState {
    /// Whether a token means the primitive of the given name.
    pub open spec fn is_prim(&self, t: TokenView, name: Seq<char>) -> bool {
        self.meaning_of(t) == Some(MeaningView::Primitive(name))
    }

    /// Whether a token starts or ends a conditional.
    pub open spec fn is_conditional_token(&self, t: TokenView) -> bool {
        ||| self.is_prim(t, "iftrue"@)
        ||| self.is_prim(t, "iffalse"@)
        ||| self.is_prim(t, "ifnum"@)
        ||| self.is_prim(t, "else"@)
        ||| self.is_prim(t, "fi"@)
    }

    /// Whether a token is expanded rather than passed on: a conditional, a
    /// `\number` or a macro.
    pub open spec fn expandable(&self, t: TokenView) -> bool {
        ||| self.is_conditional_token(t)
        ||| self.is_prim(t, "number"@)
        ||| self.meaning_of(t) matches Some(MeaningView::Macro(_))
    }
}

impl Parser {
    pub open spec fn wf(&self) -> bool {
        &&& self.lexer.wf()
        &&& remaining(self.lexer@) >= 0
        &&& self.state.wf()
        &&& lexable_categories(self.state.category_fn())
    }

    /// The tokens put back into the input; the last one is read first.
    pub open spec fn upcoming(&self) -> Seq<TokenView> {
        crate::token::token_views(self.upcoming_tokens@)
    }

    pub open spec fn lexer_view(&self) -> LexerView {
        self.lexer@
    }

    pub open spec fn budget(&self) -> nat {
        self.budget as nat
    }

    /// How many conditionals are open.
    pub open spec fn depth(&self) -> nat {
        self.conditional_depth as nat
    }

    /// How much input is left: the tokens put back and the lexer's text.
    pub open spec fn input_left(&self) -> int {
        input_size(self.upcoming(), self.lexer_view())
    }

    /// The next token without expansion, with the put-back tokens and the
    /// lexer that are left after it.
    pub open spec fn next_unexpanded(&self) -> (Result<Option<TokenView>, TeXError>, Seq<TokenView>, LexerView) {
        next_token(self.state.category_fn(), self.upcoming(), self.lexer_view())
    }

    /// The input of expanded reading: put-back tokens, lexer, open
    /// conditionals and budget.
    pub open spec fn input(&self) -> (Seq<TokenView>, LexerView, nat, nat) {
        (self.upcoming(), self.lexer_view(), self.depth(), self.budget())
    }

    /// Whether a reading gave `n`: its result, and the input it left.
    pub open spec fn read_as<T>(
        &self,
        before: &Parser,
        r: Result<T, TeXError>,
        n: (Result<T, TeXError>, (Seq<TokenView>, LexerView, nat, nat)),
    ) -> bool {
        &&& r == n.0
        &&& self.input() == n.1
    }

    /// The same input and conditionals, and a state that assignments have
    /// not touched.
    pub open spec fn same_input(&self, other: &Parser) -> bool {
        &&& self.upcoming() == other.upcoming()
        &&& self.lexer_view() == other.lexer_view()
        &&& self.depth() == other.depth()
    }

    /// A parser for the given lines, under the given state, with nothing put
    /// back, no conditional open, and a budget of `usize::MAX` expansions.
    pub fn new(lines: &[&str], state: TeXState) -> (p: Parser)
        requires
            state.wf(),
            lexable_categories(state.category_fn()),
        ensures
            p.wf(),
            p.state == state,
            p.upcoming() == Seq::<TokenView>::empty(),
            p.lexer_view().source == Seq::new(lines@.len(), |i: int| lines@[i]@.push('\n')),
            p.lexer_view().row == 0,
            p.lexer_view().col == 0,
            p.depth() == 0,
            p.budget() == usize::MAX,
    {
        let lexer = Lexer::new(lines);
        proof {
            lexer.lemma_wf();
        }
        let p = Parser { lexer, state, upcoming_tokens: Vec::new(), conditional_depth: 0, budget: usize::MAX as u64 };
        assert(p.upcoming() =~= Seq::<TokenView>::empty());
        p
    }

    /// Takes one step of the budget.
    fn spend(&mut self) -> (r: Result<(), TeXError>)
        requires
            old(self).wf(),
        ensures
            final(self).wf(),
            final(self).state == old(self).state,
            final(self).same_input(old(self)),
            r is Ok <==> old(self).budget() > 0,
            r is Ok ==> final(self).budget() == old(self).budget() - 1,
            r is Err ==> final(self).budget() == old(self).budget() && r == Err::<(), TeXError>(
                TeXError::ExpansionLimit,
            ),
    {
        if self.budget == 0 {
            Err(TeXError::ExpansionLimit)
        } else {
            self.budget = self.budget - 1;
            Ok(())
        }
    }

    /// Well-formed parsers have a non-negative amount of input left.
    pub proof fn lemma_input_left(&self)
        requires
            self.wf(),
        ensures
            self.input_left() >= 0,
            remaining(self.lexer_view()) >= 0,
    {
        self.lexer.lemma_wf();
    }
}

} // verus!
