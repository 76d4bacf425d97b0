use vstd::prelude::*;

use crate::category::Category;
use crate::dimension::Dimen;
use crate::math_code::MathCode;
use crate::parser::{Parser, TeXError, no_backslide};
use crate::dimension::trunc_div;
use crate::lexer::LexerView;
use crate::math_code::math_code_of_number;
use crate::parser::makro::spec_macro_definition;
use crate::parser::primitives::{read_equals, read_optional_keyword, skip_equals, skip_space};
use crate::parser::dimen::read_dimen;
use crate::parser::variable::DimenVariable;
use crate::parser::reading::{
    dimen_variable_names, failed, integer_variable_names, lt, read_15bit_number, read_8bit_number,
    read_dimen_variable, read_integer_variable, read_next, read_number, read_prim_head, read_spaces, read_test, size,
    Input, Reading,
};
use crate::parser::next_token;
use crate::state::{
    assign, lemma_assignment_keeps_categories, let_meaning, KeyView, MeaningView, TeXState, ValueView,
};
use crate::token::{Token, TokenView};

verus! {

/// The variables of the list being built that an assignment can set: the
/// depth of the last box of a vertical list.
pub struct SpecialVariables {
    pub prev_depth: Option<Dimen>,
}

/// The state after one assignment to something other than a category code,
/// local or global.
pub open spec fn assigned_once(before: TeXState, after: TeXState) -> bool {
    exists|g: bool, k: KeyView, v: ValueView|
        !(k is Category) && #[trigger] assign(before.levels(), g, k, v) == after.levels()
}

/// The frame of the reading of an assignment: the parser stays well
/// formed, reads from the same text, and spends budget.
pub open spec fn assignment_frame(before: Parser, after: Parser) -> bool {
    &&& after.wf()
    &&& after.lexer_view().source == before.lexer_view().source
    &&& no_backslide(before, after)
}

/// An assignment: whether it is global, what it sets, and the value.
pub type Setting = (bool, KeyView, ValueView);

/// The control sequence or active character that comes next, unexpanded.
pub open spec fn next_control_sequence(cat: spec_fn(char) -> Category, up: Seq<TokenView>, l: LexerView) -> (
    Result<TokenView, TeXError>,
    Seq<TokenView>,
    LexerView,
) {
    let (r, up2, l2) = next_token(cat, up, l);
    match r {
        Err(e) => (Err(e), up2, l2),
        Ok(None) => (Err(TeXError::UnexpectedEnd), up2, l2),
        Ok(Some(t)) => if t is ControlSequence || t matches TokenView::Char(_, Category::Active) {
            (Ok(t), up2, l2)
        } else {
            (Err(TeXError::MissingControlSequence), up2, l2)
        },
    }
}

/// An unexpanded reading on the text of an input: its result and the input
/// left, with the conditionals and the budget as they were.
pub open spec fn on_input<T>(i: Input, x: (Result<T, TeXError>, Seq<TokenView>, LexerView)) -> (
    Result<T, TeXError>,
    Input,
) {
    (x.0, (x.1, x.2, i.2, i.3))
}

/// A token result, by its view.
pub open spec fn token_ok_view(r: Result<Token, TeXError>) -> Result<TokenView, TeXError> {
    match r {
        Ok(t) => Ok(t@),
        Err(e) => Err(e),
    }
}

/// An integer variable, `\count` register or parameter, an `<equals>` and a
/// number: the variable is set to the number. Or a dimension variable, an
/// `<equals>` and a dimension: a dimension parameter is set to the
/// dimension (this state holds no boxes, so the dimensions of box registers
/// cannot be set).
#[verifier::opaque]
pub open spec fn read_variable_assignment(st: TeXState, i: Input, global: bool) -> Reading<
    Setting,
> {
    match read_prim_head(st, i, integer_variable_names()) {
        None => None,
        Some((Err(e), i2)) => failed(e, i2),
        Some((Ok(false), i2)) => read_dimen_assignment(st, i2, global),
        Some((Ok(true), i2)) => match read_integer_variable(st, i2) {
            None => None,
            Some((Err(e), i3)) => failed(e, i3),
            Some((Ok(var), i3)) => match read_equals(st, i3) {
                None => None,
                Some((Err(e), i4)) => failed(e, i4),
                Some((Ok(()), i4)) => match read_number(st, i4) {
                    None => None,
                    Some((Err(e), i5)) => failed(e, i5),
                    Some((Ok(v), i5)) => Some(
                        (Ok((global, var.key(), ValueView::Integer(v))), i5),
                    ),
                },
            },
        },
    }
}

/// A dimension variable, an `<equals>` and a dimension.
pub open spec fn read_dimen_assignment(st: TeXState, i: Input, global: bool) -> Reading<Setting> {
    match read_prim_head(st, i, dimen_variable_names()) {
        None => None,
        Some((Err(e), i2)) => failed(e, i2),
        Some((Ok(false), i2)) => failed(TeXError::Unimplemented, i2),
        Some((Ok(true), i2)) => match read_dimen_variable(st, i2) {
            None => None,
            Some((Err(e), i3)) => failed(e, i3),
            Some((Ok(DimenVariable::Parameter(p)), i3)) => match read_equals(st, i3) {
                None => None,
                Some((Err(e), i4)) => failed(e, i4),
                Some((Ok(()), i4)) => match read_dimen(st, i4) {
                    None => None,
                    Some((Err(e), i5)) => failed(e, i5),
                    Some((Ok(v), i5)) => Some(
                        (
                            Ok((global, KeyView::DimenParameter(p), ValueView::Dimen(Dimen::spec_from_sp(v)))),
                            i5,
                        ),
                    ),
                },
            },
            Some((Ok(_), i3)) => failed(TeXError::Unimplemented, i3),
        },
    }
}

/// `\let`, a control sequence, an `<equals>` and one optional space, all
/// unexpanded, and the token that the control sequence is made to mean.
#[verifier::opaque]
pub open spec fn read_let_assignment(st: TeXState, i: Input, global: bool) -> Reading<
    Setting,
> {
    let cat = st.category_fn();
    match read_next(st, i) {
        None => None,
        Some((Err(e), i2)) => failed(e, i2),
        Some((Ok(None), i2)) => failed(TeXError::UnexpectedEnd, i2),
        Some((Ok(Some(t)), i2)) => if !st.is_prim(t, "let"@) {
            failed(TeXError::Unimplemented, i2)
        } else {
            let (rn, i3) = on_input(i2, next_control_sequence(cat, i2.0, i2.1));
            match rn {
                Err(e) => failed(e, i3),
                Ok(name) => {
                    let (re, i4) = on_input(i3, skip_equals(cat, i3.0, i3.1));
                    match re {
                        Err(e) => failed(e, i4),
                        Ok(()) => {
                            let (rs, i5) = on_input(i4, skip_space(cat, i4.0, i4.1));
                            match rs {
                                Err(e) => failed(e, i5),
                                Ok(()) => {
                                    let (rv, i6) = on_input(i5, next_token(cat, i5.0, i5.1));
                                    match rv {
                                        Err(e) => failed(e, i6),
                                        Ok(None) => failed(TeXError::UnexpectedEnd, i6),
                                        Ok(Some(v)) => Some(
                                            (
                                                Ok(
                                                    (
                                                        global,
                                                        KeyView::Meaning(name),
                                                        ValueView::Meaning(
                                                            let_meaning(st.meaning_of(v), v),
                                                        ),
                                                    ),
                                                ),
                                                i6,
                                            ),
                                        ),
                                    }
                                },
                            }
                        },
                    }
                },
            }
        },
    }
}

/// What `\advance`, `\multiply` or `\divide` makes of a variable's value and
/// a number; `None` where the result is out of range or the division is by
/// zero.
pub open spec fn arithmetic_result(st: TeXState, op: TokenView, current: int, n: int) -> Option<int> {
    let v = if st.is_prim(op, "advance"@) {
        current + n
    } else if st.is_prim(op, "multiply"@) {
        current * n
    } else {
        trunc_div(current, n)
    };
    if (!st.is_prim(op, "advance"@) && !st.is_prim(op, "multiply"@) && n == 0) || v < i32::MIN
        || v > i32::MAX {
        None
    } else {
        Some(v)
    }
}

/// `\advance`, `\multiply` or `\divide`, an integer variable, an optional
/// `by`, spaces and a number.
#[verifier::opaque]
pub open spec fn read_arithmetic(st: TeXState, i: Input, global: bool) -> Reading<
    Setting,
> {
    match read_next(st, i) {
        None => None,
        Some((Err(e), i2)) => failed(e, i2),
        Some((Ok(None), i2)) => failed(TeXError::UnexpectedEnd, i2),
        Some((Ok(Some(op)), i2)) => match read_integer_variable(st, i2) {
            None => None,
            Some((Err(e), i3)) => failed(e, i3),
            Some((Ok(var), i3)) => match read_optional_keyword(st, i3, "by"@) {
                None => None,
                Some((Err(e), i4)) => failed(e, i4),
                Some((Ok(_), i4)) => match read_spaces(st, i4) {
                    None => None,
                    Some((Err(e), i5)) => failed(e, i5),
                    Some((Ok(()), i5)) => if !st.is_prim(op, "advance"@) && !st.is_prim(
                        op,
                        "multiply"@,
                    ) && !st.is_prim(op, "divide"@) {
                        failed(TeXError::Unimplemented, i5)
                    } else {
                        match read_number(st, i5) {
                            None => None,
                            Some((Err(e), i6)) => failed(e, i6),
                            Some((Ok(n), i6)) => match arithmetic_result(
                                st,
                                op,
                                var.value(st) as int,
                                n as int,
                            ) {
                                None => failed(TeXError::ArithmeticOverflow, i6),
                                Some(v) => Some(
                                    (Ok((global, var.key(), ValueView::Integer(v as i32))), i6),
                                ),
                            },
                        }
                    },
                },
            },
        },
    }
}

/// `\def`, a control sequence and a macro definition, unexpanded.
#[verifier::opaque]
pub open spec fn read_macro_assignment(st: TeXState, i: Input, global: bool) -> Reading<
    Setting,
> {
    let cat = st.category_fn();
    match read_next(st, i) {
        None => None,
        Some((Err(e), i2)) => failed(e, i2),
        Some((Ok(None), i2)) => failed(TeXError::UnexpectedEnd, i2),
        Some((Ok(Some(t)), i2)) => if !st.is_prim(t, "def"@) {
            failed(TeXError::Unimplemented, i2)
        } else {
            let (rn, i3) = on_input(i2, next_control_sequence(cat, i2.0, i2.1));
            match rn {
                Err(e) => failed(e, i3),
                Ok(name) => match on_input(i3, spec_macro_definition(cat, i3.0, i3.1)) {
                    (Err(e), i4) => failed(e, i4),
                    (Ok(m), i4) => Some(
                        (
                            Ok((global, KeyView::Meaning(name), ValueView::Meaning(MeaningView::Macro(m)))),
                            i4,
                        ),
                    ),
                },
            }
        },
    }
}

/// `\mathchardef`, a control sequence (unexpanded), an `<equals>` and a
/// 15-bit number: the control sequence comes to mean that math code.
#[verifier::opaque]
pub open spec fn read_shorthand_definition(st: TeXState, i: Input, global: bool) -> Reading<
    Setting,
> {
    match read_next(st, i) {
        None => None,
        Some((Err(e), i2)) => failed(e, i2),
        Some((Ok(None), i2)) => failed(TeXError::UnexpectedEnd, i2),
        Some((Ok(Some(t)), i2)) => if !st.is_prim(t, "mathchardef"@) {
            failed(TeXError::Unimplemented, i2)
        } else {
            let (rn, i3) = on_input(i2, next_control_sequence(st.category_fn(), i2.0, i2.1));
            match rn {
                Err(e) => failed(e, i3),
                Ok(name) => match read_equals(st, i3) {
                    None => None,
                    Some((Err(e), i4)) => failed(e, i4),
                    Some((Ok(()), i4)) => match read_15bit_number(st, i4) {
                        None => None,
                        Some((Err(e), i5)) => failed(e, i5),
                        Some((Ok(n), i5)) => Some(
                            (
                                Ok(
                                    (
                                        global,
                                        KeyView::Meaning(name),
                                        ValueView::Meaning(
                                            MeaningView::MathChardef(math_code_of_number(n as u32)),
                                        ),
                                    ),
                                ),
                                i5,
                            ),
                        ),
                    },
                },
            }
        },
    }
}

/// `\mathcode`, an 8-bit character number, an `<equals>` and a number from
/// 0 to 32768: the character's math code.
#[verifier::opaque]
pub open spec fn read_code_assignment(st: TeXState, i: Input, global: bool) -> Reading<
    Setting,
> {
    match read_next(st, i) {
        None => None,
        Some((Err(e), i2)) => failed(e, i2),
        Some((Ok(None), i2)) => failed(TeXError::UnexpectedEnd, i2),
        Some((Ok(Some(t)), i2)) => if !st.is_prim(t, "mathcode"@) {
            failed(TeXError::Unimplemented, i2)
        } else {
            match read_8bit_number(st, i2) {
                None => None,
                Some((Err(e), i3)) => failed(e, i3),
                Some((Ok(ch), i3)) => match read_equals(st, i3) {
                    None => None,
                    Some((Err(e), i4)) => failed(e, i4),
                    Some((Ok(()), i4)) => match read_number(st, i4) {
                        None => None,
                        Some((Err(e), i5)) => failed(e, i5),
                        Some((Ok(v), i5)) => if v < 0 || v > 0x8000 {
                            failed(TeXError::NumberOutOfRange, i5)
                        } else {
                            Some(
                                (
                                    Ok(
                                        (
                                            global,
                                            KeyView::MathCode(ch as char),
                                            ValueView::MathCode(math_code_of_number(v as u32)),
                                        ),
                                    ),
                                    i5,
                                ),
                            )
                        },
                    },
                },
            }
        },
    }
}

/// Whether the next token, expanded, selects a font.
pub open spec fn read_fontdef_head(st: TeXState, i: Input) -> Reading<bool> {
    read_test(st, i, |t: TokenView| st.meaning_of(t) matches Some(MeaningView::Fontdef(_)))
}

/// A font selection: the current font becomes the selected one.
#[verifier::opaque]
pub open spec fn read_fontdef_assignment(st: TeXState, i: Input, global: bool) -> Reading<
    Setting,
> {
    match read_next(st, i) {
        None => None,
        Some((Err(e), i2)) => failed(e, i2),
        Some((Ok(None), i2)) => failed(TeXError::UnexpectedEnd, i2),
        Some((Ok(Some(t)), i2)) => match st.meaning_of(t) {
            Some(MeaningView::Fontdef(f)) => Some((Ok((global, KeyView::CurrentFont, ValueView::Font(f))), i2)),
            _ => failed(TeXError::Unimplemented, i2),
        },
    }
}

/// Whether a variable assignment comes next: an integer or a dimension
/// variable.
pub open spec fn read_variable_assignment_head(st: TeXState, i: Input) -> Reading<bool> {
    match read_prim_head(st, i, integer_variable_names()) {
        Some((Ok(false), i2)) => read_prim_head(st, i2, dimen_variable_names()),
        other => other,
    }
}

/// The names of the primitives that start an assignment.
pub open spec fn assignment_names() -> Seq<&'static str> {
    seq![
        "global",
        "def",
        "let",
        "count",
        "tolerance",
        "pretolerance",
        "tracingparagraphs",
        "adjdemerits",
        "wd",
        "ht",
        "dp",
        "hsize",
        "advance",
        "multiply",
        "divide",
        "setbox",
        "mathchardef",
        "mathcode",
        "font",
        "prevdepth",
    ]
}

/// An assignment, chosen by its first token, after any `\global`s.
pub open spec fn read_assignment(st: TeXState, i: Input, global: bool) -> Reading<
    Setting,
>
    decreases i.3, size(i), 1nat,
{
    match read_prim_head(st, i, seq!["def"]) {
        None => None,
        Some((Err(e), i1)) => failed(e, i1),
        Some((Ok(true), i1)) => read_macro_assignment(st, i1, global),
        Some((Ok(false), i1)) => match read_variable_assignment_head(st, i1) {
            None => None,
            Some((Err(e), i2)) => failed(e, i2),
            Some((Ok(true), i2)) => read_variable_assignment(st, i2, global),
            Some((Ok(false), i2)) => match read_prim_head(st, i2, seq!["let"]) {
                None => None,
                Some((Err(e), i3)) => failed(e, i3),
                Some((Ok(true), i3)) => read_let_assignment(st, i3, global),
                Some((Ok(false), i3)) => read_assignment_rest(st, i3, global, i),
            },
        },
    }
}

/// The kinds of assignment after `\let`, then `\global`: as
/// `read_assignment`, with `i0` the input where it started.
pub open spec fn read_assignment_rest(st: TeXState, i: Input, global: bool, i0: Input) -> Reading<Setting>
    decreases i0.3, size(i0), 0nat,
{
    match read_prim_head(st, i, seq!["advance", "multiply", "divide"]) {
        None => None,
        Some((Err(e), i4)) => failed(e, i4),
        Some((Ok(true), i4)) => read_arithmetic(st, i4, global),
        Some((Ok(false), i4)) => match read_prim_head(st, i4, seq!["mathchardef"]) {
            None => None,
            Some((Err(e), i5)) => failed(e, i5),
            Some((Ok(true), i5)) => read_shorthand_definition(st, i5, global),
            Some((Ok(false), i5)) => match read_prim_head(st, i5, seq!["mathcode"]) {
                None => None,
                Some((Err(e), i6)) => failed(e, i6),
                Some((Ok(true), i6)) => read_code_assignment(st, i6, global),
                Some((Ok(false), i6)) => match read_fontdef_head(st, i6) {
                    None => None,
                    Some((Err(e), i7)) => failed(e, i7),
                    Some((Ok(true), i7)) => read_fontdef_assignment(st, i7, global),
                    Some((Ok(false), i7)) => match read_prim_head(st, i7,
                        seq!["setbox", "font", "prevdepth"],
                    ) {
                        None => None,
                        Some((Err(e), i8)) => failed(e, i8),
                        Some((Ok(true), i8)) => failed(TeXError::Unimplemented, i8),
                        Some((Ok(false), i8)) => match read_next(st, i8) {
                            None => None,
                            Some((Err(e), i9)) => failed(e, i9),
                            Some((Ok(None), i9)) => failed(TeXError::UnexpectedEnd, i9),
                            Some((Ok(Some(t)), i9)) => if !st.is_prim(t, "global"@) {
                                failed(TeXError::Unimplemented, i9)
                            } else {
                                match read_prim_head(st, i9, assignment_names()) {
                                    None => None,
                                    Some((Err(e), i10)) => failed(e, i10),
                                    Some((Ok(false), i10)) => failed(TeXError::NonAssignmentAfterGlobal, i10),
                                    Some((Ok(true), i10)) => if lt(i10, i0) {
                                        read_assignment(st, i10, true)
                                    } else {
                                        None
                                    },
                                }
                            },
                        },
                    },
                },
            },
        },
    }
}

/// Whether an assignment read as `n` describes what was done: on success,
/// the state is the one before with the assignment made; on failure, the
/// error, with the state as it was; either way the input is what is left.
pub open spec fn assignment_read(before: Parser, after: Parser, r: Result<(), TeXError>, n: Reading<Setting>) -> bool {
    n matches Some((res, i)) ==> match res {
        Ok((g, k, v)) => {
            &&& r is Ok
            &&& after.state.levels() == assign(before.state.levels(), g, k, v)
            &&& after.input() == i
        },
        Err(e) => {
            &&& r == Err::<(), TeXError>(e)
            &&& after.state.levels() == before.state.levels()
            &&& after.input() == i
        },
    }
}

impl Parser {
    /// Assigns an integer variable in the state.
    fn set_integer(&mut self, variable: crate::parser::variable::IntegerVariable, global: bool, value: i32)
        requires
            old(self).wf(),
        ensures
            final(self).wf(),
            final(self).same_input(old(self)),
            final(self).budget() == old(self).budget(),
            final(self).state.levels() == assign(
                old(self).state.levels(),
                global,
                variable.key(),
                ValueView::Integer(value),
            ),
            assigned_once(old(self).state, final(self).state),
    {
        let ghost before = self.state;
        variable.set(&mut self.state, global, value);
        proof {
            lemma_assignment_keeps_categories(before, self.state, global, variable.key(), ValueView::Integer(value));
        }
    }

    /// Assigns a dimension parameter in the state.
    fn set_dimen(&mut self, p: crate::state::DimenParameter, global: bool, value: Dimen)
        requires
            old(self).wf(),
        ensures
            final(self).wf(),
            final(self).same_input(old(self)),
            final(self).budget() == old(self).budget(),
            final(self).state.levels() == assign(
                old(self).state.levels(),
                global,
                KeyView::DimenParameter(p),
                ValueView::Dimen(value),
            ),
            assigned_once(old(self).state, final(self).state),
    {
        let ghost before = self.state;
        self.state.set_dimen_parameter(global, p, value);
        proof {
            lemma_assignment_keeps_categories(before, self.state, global, KeyView::DimenParameter(p), ValueView::Dimen(value));
        }
    }

    fn is_variable_assignment_head(&mut self) -> (r: Result<bool, TeXError>)
        requires
            old(self).wf(),
        ensures
            final(self).wf(),
            final(self).state == old(self).state,
            no_backslide(*old(self), *final(self)),
            final(self).lexer_view().source == old(self).lexer_view().source,
            read_variable_assignment_head(old(self).state, old(self).input())
                matches Some(n) ==> final(self).read_as(old(self), r, n),
    {
        match self.is_integer_variable_head() {
            Err(e) => Err(e),
            Ok(true) => Ok(true),
            Ok(false) => self.is_dimen_variable_head(),
        }
    }

    fn parse_variable_assignment(&mut self, global: bool) -> (r: Result<(), TeXError>)
        requires
            old(self).wf(),
        ensures
            assignment_frame(*old(self), *final(self)),
            r is Ok ==> assigned_once(old(self).state, final(self).state),
            r is Err ==> final(self).state == old(self).state,
            assignment_read(
                *old(self),
                *final(self),
                r,
                read_variable_assignment(old(self).state, old(self).input(), global),
            ),
    {
        proof {
            reveal(read_variable_assignment);
        }
        match self.is_integer_variable_head() {
            Err(e) => Err(e),
            Ok(true) => {
                let variable = match self.parse_integer_variable() {
                    Err(e) => {
                        return Err(e);
                    },
                    Ok(v) => v,
                };
                match self.parse_equals_expanded() {
                    Err(e) => {
                        return Err(e);
                    },
                    Ok(()) => {},
                }
                let value = match self.parse_number() {
                    Err(e) => {
                        return Err(e);
                    },
                    Ok(v) => v,
                };
                self.set_integer(variable, global, value);
                Ok(())
            },
            Ok(false) => match self.is_dimen_variable_head() {
                Err(e) => Err(e),
                Ok(false) => Err(TeXError::Unimplemented),
                Ok(true) => {
                    let variable = match self.parse_dimen_variable() {
                        Err(e) => {
                            return Err(e);
                        },
                        Ok(v) => v,
                    };
                    let p = match variable {
                        DimenVariable::Parameter(p) => p,
                        _ => {
                            return Err(TeXError::Unimplemented);
                        },
                    };
                    match self.parse_equals_expanded() {
                        Err(e) => {
                            return Err(e);
                        },
                        Ok(()) => {},
                    }
                    let value = match self.parse_dimen() {
                        Err(e) => {
                            return Err(e);
                        },
                        Ok(v) => v,
                    };
                    proof {
                        Dimen::lemma_sp_bounds(value);
                        Dimen::lemma_from_sp(value.sp());
                        Dimen::lemma_sp_injective(value, Dimen::spec_from_sp(value.sp()));
                    }
                    self.set_dimen(p, global, value);
                    Ok(())
                },
            },
        }
    }

    /// Reads the control sequence or active character that `\def` or `\let`
    /// names, unexpanded.
    pub fn parse_unexpanded_control_sequence(&mut self) -> (r: Result<Token, TeXError>)
        requires
            old(self).wf(),
        ensures
            final(self).wf(),
            final(self).state == old(self).state,
            final(self).budget() == old(self).budget(),
            final(self).depth() == old(self).depth(),
            final(self).lexer_view().source == old(self).lexer_view().source,
            final(self).input_left() <= old(self).input_left(),
            r matches Ok(t) ==> t is ControlSequence || t matches Token::Char(_, Category::Active),
            next_control_sequence(old(self).state.category_fn(), old(self).upcoming(), old(self).lexer_view())
                == (token_ok_view(r), final(self).upcoming(), final(self).lexer_view()),
    {
        match self.lex_unexpanded_token() {
            Err(e) => Err(e),
            Ok(None) => Err(TeXError::UnexpectedEnd),
            Ok(Some(token)) => match token {
                Token::ControlSequence(_) => Ok(token),
                Token::Char(_, Category::Active) => Ok(token),
                _ => Err(TeXError::MissingControlSequence),
            },
        }
    }

    fn parse_let_assignment(&mut self, global: bool) -> (r: Result<(), TeXError>)
        requires
            old(self).wf(),
        ensures
            assignment_frame(*old(self), *final(self)),
            r is Ok ==> assigned_once(old(self).state, final(self).state),
            r is Err ==> final(self).state == old(self).state,
            assignment_read(
                *old(self),
                *final(self),
                r,
                read_let_assignment(old(self).state, old(self).input(), global),
            ),
    {
        proof {
            reveal(read_let_assignment);
        }
        let tok = match self.lex_expanded_token() {
            Err(e) => {
                return Err(e);
            },
            Ok(None) => {
                return Err(TeXError::UnexpectedEnd);
            },
            Ok(Some(t)) => t,
        };
        if !self.state.is_token_equal_to_prim(&tok, "let") {
            return Err(TeXError::Unimplemented);
        }
        let let_name = match self.parse_unexpanded_control_sequence() {
            Err(e) => {
                return Err(e);
            },
            Ok(t) => t,
        };
        match self.parse_equals_unexpanded() {
            Err(e) => {
                return Err(e);
            },
            Ok(()) => {},
        }
        match self.parse_optional_space_unexpanded() {
            Err(e) => {
                return Err(e);
            },
            Ok(()) => {},
        }
        let let_value = match self.lex_unexpanded_token() {
            Err(e) => {
                return Err(e);
            },
            Ok(None) => {
                return Err(TeXError::UnexpectedEnd);
            },
            Ok(Some(t)) => t,
        };
        let ghost before = self.state;
        self.state.set_let(global, &let_name, &let_value);
        proof {
            lemma_assignment_keeps_categories(
                before,
                self.state,
                global,
                KeyView::Meaning(let_name@),
                ValueView::Meaning(crate::state::let_meaning(before.meaning_of(let_value@), let_value@)),
            );
        }
        Ok(())
    }

    #[verifier::rlimit(40)]
    #[verifier::spinoff_prover]
    fn parse_arithmetic(&mut self, global: bool) -> (r: Result<(), TeXError>)
        requires
            old(self).wf(),
        ensures
            assignment_frame(*old(self), *final(self)),
            r is Ok ==> assigned_once(old(self).state, final(self).state),
            r is Err ==> final(self).state == old(self).state,
            assignment_read(
                *old(self),
                *final(self),
                r,
                read_arithmetic(old(self).state, old(self).input(), global),
            ),
    {
        proof {
            reveal(read_arithmetic);
        }
        let tok = match self.lex_expanded_token() {
            Err(e) => {
                return Err(e);
            },
            Ok(None) => {
                return Err(TeXError::UnexpectedEnd);
            },
            Ok(Some(t)) => t,
        };
        let variable = match self.parse_integer_variable() {
            Err(e) => {
                return Err(e);
            },
            Ok(v) => v,
        };
        proof {
            reveal_strlit("by");
        }
        match self.parse_optional_keyword_expanded("by") {
            Err(e) => {
                return Err(e);
            },
            Ok(_) => {},
        }
        match self.parse_optional_spaces_expanded() {
            Err(e) => {
                return Err(e);
            },
            Ok(()) => {},
        }
        let is_advance = self.state.is_token_equal_to_prim(&tok, "advance");
        let is_multiply = self.state.is_token_equal_to_prim(&tok, "multiply");
        let is_divide = self.state.is_token_equal_to_prim(&tok, "divide");
        if !is_advance && !is_multiply && !is_divide {
            return Err(TeXError::Unimplemented);
        }
        let number = match self.parse_number() {
            Err(e) => {
                return Err(e);
            },
            Ok(n) => n,
        };
        let current = variable.get(&self.state);
        let result = if is_advance {
            current.checked_add(number)
        } else if is_multiply {
            current.checked_mul(number)
        } else {
            arithmetic_divide(current, number)
        };
        match result {
            None => Err(TeXError::ArithmeticOverflow),
            Some(value) => {
                self.set_integer(variable, global, value);
                Ok(())
            },
        }
    }

    #[verifier::spinoff_prover]
    #[verifier::rlimit(80)]
    fn parse_macro_assignment(&mut self, global: bool) -> (r: Result<(), TeXError>)
        requires
            old(self).wf(),
        ensures
            assignment_frame(*old(self), *final(self)),
            r is Ok ==> assigned_once(old(self).state, final(self).state),
            r is Err ==> final(self).state == old(self).state,
            assignment_read(
                *old(self),
                *final(self),
                r,
                read_macro_assignment(old(self).state, old(self).input(), global),
            ),
    {
        proof {
            reveal(read_macro_assignment);
        }
        let tok = match self.lex_expanded_token() {
            Err(e) => {
                return Err(e);
            },
            Ok(None) => {
                return Err(TeXError::UnexpectedEnd);
            },
            Ok(Some(t)) => t,
        };
        if !self.state.is_token_equal_to_prim(&tok, "def") {
            return Err(TeXError::Unimplemented);
        }
        let control_sequence = match self.parse_unexpanded_control_sequence() {
            Err(e) => {
                return Err(e);
            },
            Ok(t) => t,
        };
        let makro = match self.parse_macro_definition() {
            Err(e) => {
                return Err(e);
            },
            Ok(m) => m,
        };
        let ghost before = self.state;
        self.state.set_macro(global, &control_sequence, &makro);
        proof {
            lemma_assignment_keeps_categories(
                before,
                self.state,
                global,
                KeyView::Meaning(control_sequence@),
                ValueView::Meaning(crate::state::MeaningView::Macro(makro@)),
            );
        }
        Ok(())
    }

    #[verifier::spinoff_prover]
    #[verifier::rlimit(80)]
    fn parse_shorthand_definition(&mut self, global: bool) -> (r: Result<(), TeXError>)
        requires
            old(self).wf(),
        ensures
            assignment_frame(*old(self), *final(self)),
            r is Ok ==> assigned_once(old(self).state, final(self).state),
            r is Err ==> final(self).state == old(self).state,
            assignment_read(
                *old(self),
                *final(self),
                r,
                read_shorthand_definition(old(self).state, old(self).input(), global),
            ),
    {
        proof {
            reveal(read_shorthand_definition);
        }
        let tok = match self.lex_expanded_token() {
            Err(e) => {
                return Err(e);
            },
            Ok(None) => {
                return Err(TeXError::UnexpectedEnd);
            },
            Ok(Some(t)) => t,
        };
        if !self.state.is_token_equal_to_prim(&tok, "mathchardef") {
            return Err(TeXError::Unimplemented);
        }
        let control_sequence = match self.parse_unexpanded_control_sequence() {
            Err(e) => {
                return Err(e);
            },
            Ok(t) => t,
        };
        match self.parse_equals_expanded() {
            Err(e) => {
                return Err(e);
            },
            Ok(()) => {},
        }
        let code_value = match self.parse_15bit_number() {
            Err(e) => {
                return Err(e);
            },
            Ok(v) => v,
        };
        let code = MathCode::from_number(code_value as u32);
        let ghost before = self.state;
        self.state.set_math_chardef(global, &control_sequence, &code);
        proof {
            lemma_assignment_keeps_categories(
                before,
                self.state,
                global,
                KeyView::Meaning(control_sequence@),
                ValueView::Meaning(crate::state::MeaningView::MathChardef(code)),
            );
        }
        Ok(())
    }

    fn parse_code_assignment(&mut self, global: bool) -> (r: Result<(), TeXError>)
        requires
            old(self).wf(),
        ensures
            assignment_frame(*old(self), *final(self)),
            r is Ok ==> assigned_once(old(self).state, final(self).state),
            r is Err ==> final(self).state == old(self).state,
            assignment_read(
                *old(self),
                *final(self),
                r,
                read_code_assignment(old(self).state, old(self).input(), global),
            ),
    {
        proof {
            reveal(read_code_assignment);
        }
        let tok = match self.lex_expanded_token() {
            Err(e) => {
                return Err(e);
            },
            Ok(None) => {
                return Err(TeXError::UnexpectedEnd);
            },
            Ok(Some(t)) => t,
        };
        if !self.state.is_token_equal_to_prim(&tok, "mathcode") {
            return Err(TeXError::Unimplemented);
        }
        let num = match self.parse_8bit_number() {
            Err(e) => {
                return Err(e);
            },
            Ok(n) => n,
        };
        match self.parse_equals_expanded() {
            Err(e) => {
                return Err(e);
            },
            Ok(()) => {},
        }
        let code_value = match self.parse_number() {
            Err(e) => {
                return Err(e);
            },
            Ok(v) => v,
        };
        if code_value < 0 || code_value > 0x8000 {
            return Err(TeXError::NumberOutOfRange);
        }
        let code = MathCode::from_number(code_value as u32);
        let ch = num as char;
        let ghost before = self.state;
        self.state.set_math_code(global, ch, &code);
        proof {
            lemma_assignment_keeps_categories(
                before,
                self.state,
                global,
                KeyView::MathCode(ch),
                ValueView::MathCode(code),
            );
        }
        Ok(())
    }

    fn is_fontdef_assignment_head(&mut self) -> (r: Result<bool, TeXError>)
        requires
            old(self).wf(),
        ensures
            final(self).wf(),
            final(self).state == old(self).state,
            no_backslide(*old(self), *final(self)),
            final(self).lexer_view().source == old(self).lexer_view().source,
            read_fontdef_head(old(self).state, old(self).input()) matches Some(
                n,
            ) ==> final(self).read_as(old(self), r, n),
    {
        match self.peek_expanded_token() {
            Err(e) => Err(e),
            Ok(Some(tok)) => Ok(self.state.get_fontdef(&tok).is_some()),
            Ok(None) => Ok(false),
        }
    }

    fn parse_fontdef_assignment(&mut self, global: bool) -> (r: Result<(), TeXError>)
        requires
            old(self).wf(),
        ensures
            assignment_frame(*old(self), *final(self)),
            r is Ok ==> assigned_once(old(self).state, final(self).state),
            r is Err ==> final(self).state == old(self).state,
            assignment_read(
                *old(self),
                *final(self),
                r,
                read_fontdef_assignment(old(self).state, old(self).input(), global),
            ),
    {
        proof {
            reveal(read_fontdef_assignment);
        }
        let tok = match self.lex_expanded_token() {
            Err(e) => {
                return Err(e);
            },
            Ok(None) => {
                return Err(TeXError::UnexpectedEnd);
            },
            Ok(Some(t)) => t,
        };
        match self.state.get_fontdef(&tok) {
            None => Err(TeXError::Unimplemented),
            Some(font) => {
                let ghost before = self.state;
                self.state.set_current_font(global, &font);
                proof {
                    lemma_assignment_keeps_categories(
                        before,
                        self.state,
                        global,
                        KeyView::CurrentFont,
                        ValueView::Font(font@),
                    );
                }
                Ok(())
            },
        }
    }

    /// Whether an assignment comes next (expanded).
    pub fn is_assignment_head(&mut self) -> (r: Result<bool, TeXError>)
        requires
            old(self).wf(),
        ensures
            final(self).wf(),
            final(self).state == old(self).state,
            no_backslide(*old(self), *final(self)),
            final(self).lexer_view().source == old(self).lexer_view().source,
            read_prim_head(old(self).state, old(self).input(), assignment_names())
                matches Some(n) ==> final(self).read_as(old(self), r, n),
    {
        let names: &[&str] = &[
                "global",
                "def",
                "let",
                "count",
                "tolerance",
                "pretolerance",
                "tracingparagraphs",
                "adjdemerits",
                "wd",
                "ht",
                "dp",
                "hsize",
                "advance",
                "multiply",
                "divide",
                "setbox",
                "mathchardef",
                "mathcode",
                "font",
                "prevdepth",
            ];
        assert(names@ =~= assignment_names());
        self.is_next_expanded_token_in_set_of_primitives(names)
    }

    /// Reads an assignment, after any `\global`s; `global` tells whether one
    /// came before.
    #[verifier::spinoff_prover]
    #[verifier::rlimit(80)]
    fn parse_assignment_global(&mut self, global: bool, special_vars: Option<SpecialVariables>) -> (r:
        Result<(), TeXError>)
        requires
            old(self).wf(),
        ensures
            assignment_frame(*old(self), *final(self)),
            r is Ok ==> assigned_once(old(self).state, final(self).state),
            r is Err ==> final(self).state == old(self).state,
            assignment_read(
                *old(self),
                *final(self),
                r,
                read_assignment(old(self).state, old(self).input(), global),
            ),
        decreases old(self).budget(), old(self).input_left(),
    {
        let def_name: &[&str] = &["def"];
        assert(def_name@ =~= seq!["def"]);
        match self.is_next_expanded_token_in_set_of_primitives(def_name) {
            Err(e) => {
                return Err(e);
            },
            Ok(true) => {
                return self.parse_macro_assignment(global);
            },
            Ok(false) => {},
        }
        match self.is_variable_assignment_head() {
            Err(e) => {
                return Err(e);
            },
            Ok(true) => {
                return self.parse_variable_assignment(global);
            },
            Ok(false) => {},
        }
        let let_name: &[&str] = &["let"];
        assert(let_name@ =~= seq!["let"]);
        match self.is_next_expanded_token_in_set_of_primitives(let_name) {
            Err(e) => {
                return Err(e);
            },
            Ok(true) => {
                return self.parse_let_assignment(global);
            },
            Ok(false) => {},
        }
        let arithmetic_names: &[&str] = &["advance", "multiply", "divide"];
        assert(arithmetic_names@ =~= seq!["advance", "multiply", "divide"]);
        match self.is_next_expanded_token_in_set_of_primitives(arithmetic_names) {
            Err(e) => {
                return Err(e);
            },
            Ok(true) => {
                return self.parse_arithmetic(global);
            },
            Ok(false) => {},
        }
        let chardef_name: &[&str] = &["mathchardef"];
        assert(chardef_name@ =~= seq!["mathchardef"]);
        match self.is_next_expanded_token_in_set_of_primitives(chardef_name) {
            Err(e) => {
                return Err(e);
            },
            Ok(true) => {
                return self.parse_shorthand_definition(global);
            },
            Ok(false) => {},
        }
        let mathcode_name: &[&str] = &["mathcode"];
        assert(mathcode_name@ =~= seq!["mathcode"]);
        match self.is_next_expanded_token_in_set_of_primitives(mathcode_name) {
            Err(e) => {
                return Err(e);
            },
            Ok(true) => {
                return self.parse_code_assignment(global);
            },
            Ok(false) => {},
        }
        match self.is_fontdef_assignment_head() {
            Err(e) => {
                return Err(e);
            },
            Ok(true) => {
                return self.parse_fontdef_assignment(global);
            },
            Ok(false) => {},
        }
        let unhandled_names: &[&str] = &["setbox", "font", "prevdepth"];
        assert(unhandled_names@ =~= seq!["setbox", "font", "prevdepth"]);
        match self.is_next_expanded_token_in_set_of_primitives(unhandled_names) {
            Err(e) => {
                return Err(e);
            },
            Ok(true) => {
                return Err(TeXError::Unimplemented);
            },
            Ok(false) => {},
        }
        let tok = match self.lex_expanded_token() {
            Err(e) => {
                return Err(e);
            },
            Ok(None) => {
                return Err(TeXError::UnexpectedEnd);
            },
            Ok(Some(t)) => t,
        };
        if !self.state.is_token_equal_to_prim(&tok, "global") {
            return Err(TeXError::Unimplemented);
        }
        match self.is_assignment_head() {
            Err(e) => Err(e),
            Ok(true) => self.parse_assignment_global(true, special_vars),
            Ok(false) => Err(TeXError::NonAssignmentAfterGlobal),
        }
    }

    /// Reads one assignment and makes it in the state.
    pub fn parse_assignment(&mut self, special_vars: Option<SpecialVariables>) -> (r: Result<
        (),
        TeXError,
    >)
        requires
            old(self).wf(),
        ensures
            assignment_frame(*old(self), *final(self)),
            r is Ok ==> assigned_once(old(self).state, final(self).state),
            r is Err ==> final(self).state == old(self).state,
            assignment_read(
                *old(self),
                *final(self),
                r,
                read_assignment(old(self).state, old(self).input(), false),
            ),
    {
        self.parse_assignment_global(false, special_vars)
    }
}

/// Integer division as `\divide` does it: truncating towards zero; `None`
/// for a division by zero or a quotient out of range.
pub fn arithmetic_divide(a: i32, b: i32) -> (r: Option<i32>)
    ensures
        match r {
            Some(q) => b != 0 && q as int == crate::dimension::trunc_div(a as int, b as int),
            None => b == 0 || (a == i32::MIN && b == -1),
        },
{
    if b == 0 || (a == i32::MIN && b == -1) {
        return None;
    }
    let na: i64 = if a >= 0 {
        a as i64
    } else {
        -(a as i64)
    };
    let nb: i64 = if b >= 0 {
        b as i64
    } else {
        -(b as i64)
    };
    let m: i64 = na / nb;
    proof {
        assert(0 <= na / nb <= na) by (nonlinear_arith)
            requires
                na >= 0,
                nb > 0,
        ;
        assert(nb >= 2 ==> na / nb <= na / 2) by (nonlinear_arith)
            requires
                na >= 0,
                nb > 0,
        ;
    }
    if (a >= 0) == (b > 0) {
        Some(m as i32)
    } else {
        Some((-m) as i32)
    }
}

} // verus!
