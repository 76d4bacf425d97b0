use vstd::prelude::*;

use crate::dimension::Dimen;
use crate::parser::reading::{
    dimen_variable_names, failed, integer_variable_names, read_dimen_variable,
    read_integer_variable, read_internal_dimen, read_next, read_prim_head, Input, Reading,
};
use crate::parser::{Parser, TeXError, no_backslide};
use crate::state::{
    assign, lemma_assignment_keeps_other, DimenParameter, GlueParameter, IntegerParameter, KeyView,
    TeXState, ValueView,
};

verus! {

/// A place that holds an integer.
#[derive(Debug, PartialEq, Eq, Clone, Copy, Structural)]
pub enum IntegerVariable {
    CountRegister(u8),
    Parameter(IntegerParameter),
}

/// A place that holds a dimension. Box registers are not held by the
/// state: the dimensions of every box register read as zero.
#[derive(Debug, PartialEq, Eq, Clone, Copy, Structural)]
pub enum DimenVariable {
    BoxWidth(u8),
    BoxHeight(u8),
    BoxDepth(u8),
    Parameter(DimenParameter),
}

/// A place that holds glue.
#[derive(Debug, PartialEq, Eq, Clone, Copy, Structural)]
pub enum GlueVariable {
    Parameter(GlueParameter),
}

impl IntegerVariable {
    /// The key under which the state holds the variable.
    pub open spec fn key(self) -> KeyView {
        match self {
            IntegerVariable::CountRegister(i) => KeyView::Count(i),
            IntegerVariable::Parameter(p) => KeyView::IntegerParameter(p),
        }
    }

    /// The value of the variable in a state.
    pub open spec fn value(self, st: TeXState) -> i32 {
        match self {
            IntegerVariable::CountRegister(i) => st.count_value(i),
            IntegerVariable::Parameter(p) => st.integer_parameter_value(p),
        }
    }

    pub fn get(&self, state: &TeXState) -> (v: i32)
        requires
            state.wf(),
        ensures
            v == self.value(*state),
    {
        match self {
            IntegerVariable::CountRegister(i) => state.get_count(*i),
            IntegerVariable::Parameter(p) => state.get_integer_parameter(*p),
        }
    }

    pub fn set(&self, state: &mut TeXState, global: bool, value: i32)
        requires
            old(state).wf(),
        ensures
            final(state).wf(),
            final(state).levels() == assign(
                old(state).levels(),
                global,
                self.key(),
                ValueView::Integer(value),
            ),
    {
        match self {
            IntegerVariable::CountRegister(i) => state.set_count(global, *i, value),
            IntegerVariable::Parameter(p) => state.set_integer_parameter(global, *p, value),
        }
    }
}

impl DimenVariable {
    /// The value of the variable in a state, in scaled points.
    pub open spec fn value(self, st: TeXState) -> int {
        match self {
            DimenVariable::Parameter(p) => st.dimen_parameter_value(p),
            _ => 0,
        }
    }

    pub fn get(&self, state: &TeXState) -> (d: Dimen)
        requires
            state.wf(),
        ensures
            d.sp() == self.value(*state),
    {
        match self {
            DimenVariable::Parameter(p) => state.get_dimen_parameter(*p),
            _ => Dimen::zero(),
        }
    }
}

/// The names of the glue variables.
pub open spec fn glue_variable_names() -> Seq<&'static str> {
    seq!["parskip", "spaceskip", "parfillskip"]
}

/// A glue variable, expanded: one of the glue parameters.
pub open spec fn read_glue_variable(st: TeXState, i: Input) -> Reading<GlueVariable> {
    match read_next(st, i) {
        None => None,
        Some((Err(e), i2)) => failed(e, i2),
        Some((Ok(None), i2)) => failed(TeXError::UnexpectedEnd, i2),
        Some((Ok(Some(t)), i2)) => if st.is_prim(t, "parskip"@) {
            Some((Ok(GlueVariable::Parameter(GlueParameter::ParSkip)), i2))
        } else if st.is_prim(t, "spaceskip"@) {
            Some((Ok(GlueVariable::Parameter(GlueParameter::SpaceSkip)), i2))
        } else if st.is_prim(t, "parfillskip"@) {
            Some((Ok(GlueVariable::Parameter(GlueParameter::ParFillSkip)), i2))
        } else {
            failed(TeXError::Unimplemented, i2)
        },
    }
}

impl GlueVariable {
    pub fn get(&self, state: &TeXState) -> (g: crate::glue::Glue)
        requires
            state.wf(),
        ensures
            match self {
                GlueVariable::Parameter(p) => match state.glue_parameter_value(*p) {
                    Some(v) => g == v,
                    None => g.space.sp() == 0,
                },
            },
    {
        match self {
            GlueVariable::Parameter(p) => state.get_glue_parameter(*p),
        }
    }
}

/// An assignment to an integer variable leaves the category table as it
/// was.
pub proof fn lemma_integer_assignment_keeps_categories(
    before: TeXState,
    after: TeXState,
    var: IntegerVariable,
    global: bool,
    value: i32,
)
    requires
        before.wf(),
        after.levels() == assign(before.levels(), global, var.key(), ValueView::Integer(value)),
    ensures
        after.category_fn() == before.category_fn(),
{
    assert forall|c: char| after.category_value(c) == before.category_value(c) by {
        lemma_assignment_keeps_other(
            before,
            after,
            global,
            var.key(),
            ValueView::Integer(value),
            KeyView::Category(c),
        );
    }
    assert(after.category_fn() =~= before.category_fn());
}

/// A result that is a dimension, taken as its number of scaled points.
pub open spec fn dimen_sp(r: Result<Dimen, TeXError>) -> Result<int, TeXError> {
    match r {
        Ok(d) => Ok(d.sp()),
        Err(e) => Err(e),
    }
}

impl Parser {
    /// Whether an integer variable comes next (expanded): `\count` or an
    /// integer parameter.
    pub fn is_integer_variable_head(&mut self) -> (r: Result<bool, TeXError>)
        requires
            old(self).wf(),
        ensures
            final(self).wf(),
            final(self).state == old(self).state,
            no_backslide(*old(self), *final(self)),
            final(self).lexer_view().source == old(self).lexer_view().source,
            read_prim_head(old(self).state, old(self).input(),
                integer_variable_names(),
            ) matches Some(n) ==> final(self).read_as(old(self), r, n),
        decreases old(self).budget(), old(self).input_left(), 3nat,
    {
        let names: &[&str] = &["count", "tolerance", "pretolerance", "tracingparagraphs", "adjdemerits"];
        assert(names@ =~= integer_variable_names());
        self.is_next_expanded_token_in_set_of_primitives(names)
    }

    /// Reads an integer variable.
    pub fn parse_integer_variable(&mut self) -> (r: Result<IntegerVariable, TeXError>)
        requires
            old(self).wf(),
        ensures
            final(self).wf(),
            final(self).state == old(self).state,
            no_backslide(*old(self), *final(self)),
            final(self).lexer_view().source == old(self).lexer_view().source,
            read_integer_variable(old(self).state, old(self).input())
                matches Some(n) ==> final(self).read_as(old(self), r, n),
        decreases old(self).budget(), old(self).input_left(), 3nat,
    {
        let token = match self.lex_expanded_token() {
            Err(e) => {
                return Err(e);
            },
            Ok(None) => {
                return Err(TeXError::UnexpectedEnd);
            },
            Ok(Some(t)) => t,
        };
        if self.state.is_token_equal_to_prim(&token, "count") {
            match self.parse_8bit_number() {
                Err(e) => Err(e),
                Ok(index) => Ok(IntegerVariable::CountRegister(index)),
            }
        } else if self.state.is_token_equal_to_prim(&token, "tolerance") {
            Ok(IntegerVariable::Parameter(IntegerParameter::Tolerance))
        } else if self.state.is_token_equal_to_prim(&token, "pretolerance") {
            Ok(IntegerVariable::Parameter(IntegerParameter::Pretolerance))
        } else if self.state.is_token_equal_to_prim(&token, "tracingparagraphs") {
            Ok(IntegerVariable::Parameter(IntegerParameter::TracingParagraphs))
        } else if self.state.is_token_equal_to_prim(&token, "adjdemerits") {
            Ok(IntegerVariable::Parameter(IntegerParameter::AdjDemerits))
        } else {
            Err(TeXError::Unimplemented)
        }
    }

    /// Whether a dimension variable comes next (expanded): `\wd`, `\ht`,
    /// `\dp` or `\hsize`.
    pub fn is_dimen_variable_head(&mut self) -> (r: Result<bool, TeXError>)
        requires
            old(self).wf(),
        ensures
            final(self).wf(),
            final(self).state == old(self).state,
            no_backslide(*old(self), *final(self)),
            final(self).lexer_view().source == old(self).lexer_view().source,
            read_prim_head(old(self).state, old(self).input(),
                dimen_variable_names(),
            ) matches Some(n) ==> final(self).read_as(old(self), r, n),
        decreases old(self).budget(), old(self).input_left(), 3nat,
    {
        let names: &[&str] = &["wd", "ht", "dp", "hsize"];
        assert(names@ =~= dimen_variable_names());
        self.is_next_expanded_token_in_set_of_primitives(names)
    }

    /// Reads a dimension variable.
    pub fn parse_dimen_variable(&mut self) -> (r: Result<DimenVariable, TeXError>)
        requires
            old(self).wf(),
        ensures
            final(self).wf(),
            final(self).state == old(self).state,
            no_backslide(*old(self), *final(self)),
            final(self).lexer_view().source == old(self).lexer_view().source,
            read_dimen_variable(old(self).state, old(self).input())
                matches Some(n) ==> final(self).read_as(old(self), r, n),
        decreases old(self).budget(), old(self).input_left(), 3nat,
    {
        let token = match self.lex_expanded_token() {
            Err(e) => {
                return Err(e);
            },
            Ok(None) => {
                return Err(TeXError::UnexpectedEnd);
            },
            Ok(Some(t)) => t,
        };
        if self.state.is_token_equal_to_prim(&token, "wd") {
            match self.parse_8bit_number() {
                Err(e) => Err(e),
                Ok(index) => Ok(DimenVariable::BoxWidth(index)),
            }
        } else if self.state.is_token_equal_to_prim(&token, "ht") {
            match self.parse_8bit_number() {
                Err(e) => Err(e),
                Ok(index) => Ok(DimenVariable::BoxHeight(index)),
            }
        } else if self.state.is_token_equal_to_prim(&token, "dp") {
            match self.parse_8bit_number() {
                Err(e) => Err(e),
                Ok(index) => Ok(DimenVariable::BoxDepth(index)),
            }
        } else if self.state.is_token_equal_to_prim(&token, "hsize") {
            Ok(DimenVariable::Parameter(DimenParameter::HSize))
        } else {
            Err(TeXError::Unimplemented)
        }
    }

    /// Whether a glue variable comes next (expanded): `\parskip`,
    /// `\spaceskip` or `\parfillskip`.
    pub fn is_glue_variable_head(&mut self) -> (r: Result<bool, TeXError>)
        requires
            old(self).wf(),
        ensures
            final(self).wf(),
            final(self).state == old(self).state,
            no_backslide(*old(self), *final(self)),
            final(self).lexer_view().source == old(self).lexer_view().source,
            read_prim_head(old(self).state, old(self).input(),
                glue_variable_names(),
            ) matches Some(n) ==> final(self).read_as(old(self), r, n),
        decreases old(self).budget(), old(self).input_left(), 3nat,
    {
        let names: &[&str] = &["parskip", "spaceskip", "parfillskip"];
        assert(names@ =~= glue_variable_names());
        self.is_next_expanded_token_in_set_of_primitives(names)
    }

    /// Reads a glue variable.
    pub fn parse_glue_variable(&mut self) -> (r: Result<GlueVariable, TeXError>)
        requires
            old(self).wf(),
        ensures
            final(self).wf(),
            final(self).state == old(self).state,
            no_backslide(*old(self), *final(self)),
            final(self).lexer_view().source == old(self).lexer_view().source,
            read_glue_variable(old(self).state, old(self).input())
                matches Some(n) ==> final(self).read_as(old(self), r, n),
        decreases old(self).budget(), old(self).input_left(), 3nat,
    {
        let token = match self.lex_expanded_token() {
            Err(e) => {
                return Err(e);
            },
            Ok(None) => {
                return Err(TeXError::UnexpectedEnd);
            },
            Ok(Some(t)) => t,
        };
        if self.state.is_token_equal_to_prim(&token, "parskip") {
            Ok(GlueVariable::Parameter(GlueParameter::ParSkip))
        } else if self.state.is_token_equal_to_prim(&token, "spaceskip") {
            Ok(GlueVariable::Parameter(GlueParameter::SpaceSkip))
        } else if self.state.is_token_equal_to_prim(&token, "parfillskip") {
            Ok(GlueVariable::Parameter(GlueParameter::ParFillSkip))
        } else {
            Err(TeXError::Unimplemented)
        }
    }

    /// Whether an internal dimension comes next (a dimension variable).
    pub fn is_internal_dimen_head(&mut self) -> (r: Result<bool, TeXError>)
        requires
            old(self).wf(),
        ensures
            final(self).wf(),
            final(self).state == old(self).state,
            no_backslide(*old(self), *final(self)),
            final(self).lexer_view().source == old(self).lexer_view().source,
            read_prim_head(old(self).state, old(self).input(),
                dimen_variable_names(),
            ) matches Some(n) ==> final(self).read_as(old(self), r, n),
        decreases old(self).budget(), old(self).input_left(), 4nat,
    {
        self.is_dimen_variable_head()
    }

    /// Reads an internal dimension: the value of a dimension variable.
    pub fn parse_internal_dimen(&mut self) -> (r: Result<Dimen, TeXError>)
        requires
            old(self).wf(),
        ensures
            final(self).wf(),
            final(self).state == old(self).state,
            no_backslide(*old(self), *final(self)),
            final(self).lexer_view().source == old(self).lexer_view().source,
            r matches Ok(d) ==> exists|var: DimenVariable| d.sp() == #[trigger] var.value(old(self).state),
            read_internal_dimen(old(self).state, old(self).input())
                matches Some(n) ==> final(self).read_as(old(self), dimen_sp(r), n),
        decreases old(self).budget(), old(self).input_left(), 5nat,
    {
        match self.is_dimen_variable_head() {
            Err(e) => Err(e),
            Ok(true) => match self.parse_dimen_variable() {
                Err(e) => Err(e),
                Ok(variable) => Ok(variable.get(&self.state)),
            },
            Ok(false) => Err(TeXError::Unimplemented),
        }
    }
}

} // verus!
