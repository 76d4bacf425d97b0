use vstd::prelude::*;

use crate::category::Category;
use crate::lexer::{lemma_lex_end, lemma_lex_token, lemma_remaining_nonneg, lexable_categories, lexer_wf, LexerView};
use crate::makro::MacroListElemView;
use crate::parser::conditional::{skip_to_fi, skip_to_fi_or_else};
use crate::parser::makro::{
    next_non_token, parameter_number_elem, required_token, spec_arguments, spec_balanced_text,
    spec_delimited, spec_macro_definition, spec_parameter_text, spec_replacement_text,
    spec_single_or_group,
};
use crate::parser::math_symbol::{
    read_character_head, read_character_to_math_code, read_math_character_head,
    read_math_character_to_math_code, read_math_symbol, read_math_symbol_head,
};
use crate::parser::primitives::{
    keyword_char_matches, put_back_all, read_equals, read_filler, read_keyword,
    read_keyword_chars, read_optional_keyword, read_optional_keyword_chars, read_relaxes,
    skip_equals, skip_space, skip_spaces,
};
use crate::parser::assignment::{
    next_control_sequence, on_input, read_arithmetic, read_assignment, read_assignment_rest,
    read_code_assignment, read_fontdef_assignment, read_fontdef_head, read_let_assignment,
    read_macro_assignment, read_shorthand_definition, read_variable_assignment,
    read_variable_assignment_head, assignment_names,
};
use crate::parser::{input_size, next_token};
use crate::parser::reading::{
    conditional_step, expand_step, le, lt, macro_step, print_step, put_back, read_15bit_number,
    read_8bit_number, read_character_constant, read_character_constant_head, read_constant,
    read_digits, read_dimen_variable, read_hexadecimal_constant, read_hexadecimal_constant_head,
    read_ifnum, read_integer_constant, read_integer_constant_head, read_integer_variable,
    read_internal_dimen, read_internal_integer, read_next, read_normal_integer,
    read_normal_integer_head, read_number, read_peek, read_prim_head, read_relation, read_signs,
    read_space, read_spaces, read_test, read_unsigned_number, size, Input, Reading,
    dimen_variable_names, integer_variable_names,
};
use crate::parser::glue::{read_glue, read_optional_spring};
use crate::parser::dimen::{
    read_decimal_rest, read_dimen, read_factor, read_more_ls, read_spring_dimen, read_unit, read_unit_name,
    read_unit_of_measure,
};
use crate::parser::variable::read_glue_variable;
use crate::state::{MeaningView, TeXState};
use crate::token::TokenView;

verus! {

// Reads of unexpanded tokens never go back: the lexer stays within its text
// and no more input is left after a read than before it.
/// Moving from `(up, l)` to `(up2, l2)` keeps the lexer within its text and
/// leaves no more input than there was.
pub open spec fn kept_on(up: Seq<TokenView>, l: LexerView, up2: Seq<TokenView>, l2: LexerView) -> bool {
    &&& lexer_wf(l2)
    &&& 0 <= input_size(up2, l2) <= input_size(up, l)
}

/// Reading a token does not go back, and a token read moves the input on.
pub proof fn lemma_next_token(cat: spec_fn(char) -> Category, up: Seq<TokenView>, l: LexerView)
    requires
        lexer_wf(l),
        lexable_categories(cat),
    ensures
        ({
            let (r, up2, l2) = next_token(cat, up, l);
            &&& kept_on(up, l, up2, l2)
            &&& r matches Ok(Some(_)) ==> input_size(up2, l2) < input_size(up, l)
        }),
{
    lemma_remaining_nonneg(l);
    if up.len() == 0 {
        lemma_lex_token(l, cat);
    }
}

/// Skipping spaces does not go back.
pub proof fn lemma_skip_spaces(cat: spec_fn(char) -> Category, up: Seq<TokenView>, l: LexerView)
    requires
        lexer_wf(l),
        lexable_categories(cat),
    ensures
        ({
            let (r, up2, l2) = skip_spaces(cat, up, l);
            kept_on(up, l, up2, l2)
        }),
    decreases input_size(up, l),
{
    lemma_next_token(cat, up, l);
    let (r, up2, l2) = next_token(cat, up, l);
    if let Ok(Some(t)) = r {
        if crate::parser::primitives::is_space(t) {
            lemma_skip_spaces(cat, up2, l2);
        }
    }
}

/// Skipping to the `\fi` of a conditional does not go back.
pub proof fn lemma_skip_to_fi(st: TeXState, up: Seq<TokenView>, l: LexerView)
    requires
        lexer_wf(l),
        lexable_categories(st.category_fn()),
    ensures
        ({
            let (r, up2, l2) = skip_to_fi(st, up, l);
            kept_on(up, l, up2, l2)
        }),
    decreases input_size(up, l),
{
    lemma_next_token(st.category_fn(), up, l);
    let (r, up2, l2) = next_token(st.category_fn(), up, l);
    if let Ok(Some(t)) = r {
        lemma_skip_to_fi(st, up2, l2);
        let (r3, up3, l3) = skip_to_fi(st, up2, l2);
        if r3 is Ok && 0 <= input_size(up3, l3) < input_size(up, l) {
            lemma_skip_to_fi(st, up3, l3);
        }
    }
}

/// Skipping to the `\else` or `\fi` of a conditional does not go back.
pub proof fn lemma_skip_to_fi_or_else(st: TeXState, up: Seq<TokenView>, l: LexerView)
    requires
        lexer_wf(l),
        lexable_categories(st.category_fn()),
    ensures
        ({
            let (r, up2, l2) = skip_to_fi_or_else(st, up, l);
            kept_on(up, l, up2, l2)
        }),
    decreases input_size(up, l),
{
    lemma_next_token(st.category_fn(), up, l);
    let (r, up2, l2) = next_token(st.category_fn(), up, l);
    if let Ok(Some(t)) = r {
        lemma_skip_to_fi(st, up2, l2);
        lemma_skip_to_fi_or_else(st, up2, l2);
        let (r3, up3, l3) = skip_to_fi(st, up2, l2);
        if r3 is Ok && 0 <= input_size(up3, l3) < input_size(up, l) {
            lemma_skip_to_fi_or_else(st, up3, l3);
        }
    }
}

/// Reading a balanced text does not go back.
proof fn lemma_balanced_text(
    cat: spec_fn(char) -> Category,
    up: Seq<TokenView>,
    l: LexerView,
    acc: Seq<TokenView>,
    level: nat,
)
    requires
        lexer_wf(l),
        lexable_categories(cat),
    ensures
        ({
            let (r, up2, l2) = spec_balanced_text(cat, up, l, acc, level);
            kept_on(up, l, up2, l2)
        }),
    decreases input_size(up, l),
{
    lemma_next_token(cat, up, l);
    let (r, up2, l2) = required_token(cat, up, l);
    if let Ok(t) = r {
        if 0 <= input_size(up2, l2) < input_size(up, l) {
            lemma_balanced_text(cat, up2, l2, acc.push(t), level + 1);
            lemma_balanced_text(cat, up2, l2, acc.push(t), level);
            if level > 0 {
                lemma_balanced_text(cat, up2, l2, acc.push(t), (level - 1) as nat);
            }
        }
    }
}

/// Reading a token or a group does not go back.
proof fn lemma_single_or_group(cat: spec_fn(char) -> Category, up: Seq<TokenView>, l: LexerView)
    requires
        lexer_wf(l),
        lexable_categories(cat),
    ensures
        ({
            let (r, up2, l2) = spec_single_or_group(cat, up, l);
            kept_on(up, l, up2, l2)
        }),
{
    lemma_next_token(cat, up, l);
    let (r, up2, l2) = required_token(cat, up, l);
    if r is Ok {
        lemma_balanced_text(cat, up2, l2, Seq::empty(), 0);
    }
}

/// Reading a delimited parameter does not go back.
proof fn lemma_delimited(
    cat: spec_fn(char) -> Category,
    up: Seq<TokenView>,
    l: LexerView,
    delims: Seq<MacroListElemView>,
    result: Seq<TokenView>,
    pending: Seq<TokenView>,
)
    requires
        lexer_wf(l),
        lexable_categories(cat),
    ensures
        ({
            let (r, up2, l2) = spec_delimited(cat, up, l, delims, result, pending);
            kept_on(up, l, up2, l2)
        }),
    decreases input_size(up, l),
{
    lemma_remaining_nonneg(l);
    if pending.len() < delims.len() {
        if let MacroListElemView::Token(expected) = delims[pending.len() as int] {
            lemma_next_token(cat, up, l);
            lemma_single_or_group(cat, up, l);
            let (r, up2, l2) = if expected matches TokenView::Char(_, Category::BeginGroup) {
                let (r0, u, v) = required_token(cat, up, l);
                (
                    match r0 {
                        Ok(t) => Ok(crate::parser::makro::GroupView::Single(t)),
                        Err(e) => Err(e),
                    },
                    u,
                    v,
                )
            } else {
                spec_single_or_group(cat, up, l)
            };
            if let Ok(g) = r {
                if 0 <= input_size(up2, l2) < input_size(up, l) {
                    match g {
                        crate::parser::makro::GroupView::Single(t) => {
                            let new = pending.push(t);
                            let cut = new.len() - crate::parser::makro::longest_overlap(new, delims);
                            lemma_delimited(cat, up2, l2, delims, result + new.take(cut), new.skip(cut));
                        },
                        _ => {
                            lemma_delimited(
                                cat,
                                up2,
                                l2,
                                delims,
                                result + pending + crate::parser::makro::group_all_tokens(g),
                                Seq::empty(),
                            );
                        },
                    }
                }
            }
        }
    }
}

/// Reading the arguments of a macro does not go back.
pub proof fn lemma_arguments(
    cat: spec_fn(char) -> Category,
    up: Seq<TokenView>,
    l: LexerView,
    params: Seq<MacroListElemView>,
    index: int,
    map: Map<usize, Seq<TokenView>>,
)
    requires
        lexer_wf(l),
        lexable_categories(cat),
    ensures
        ({
            let (r, up2, l2) = spec_arguments(cat, up, l, params, index, map);
            kept_on(up, l, up2, l2)
        }),
    decreases params.len() - index,
{
    lemma_remaining_nonneg(l);
    if 0 <= index < params.len() {
        match params[index] {
            MacroListElemView::Parameter(n) => if index + 1 < params.len() && params[index + 1] is Token {
                let end = next_non_token(params, index + 1);
                lemma_delimited(cat, up, l, params.subrange(index + 1, end), Seq::empty(), Seq::empty());
                let (r, up2, l2) = spec_delimited(
                    cat,
                    up,
                    l,
                    params.subrange(index + 1, end),
                    Seq::empty(),
                    Seq::empty(),
                );
                if let Ok(toks) = r {
                    if index < end <= params.len() {
                        lemma_arguments(cat, up2, l2, params, end, map.insert(n, toks));
                    }
                }
            } else {
                lemma_skip_spaces(cat, up, l);
                let (r, up2, l2) = skip_spaces(cat, up, l);
                if r is Ok {
                    lemma_single_or_group(cat, up2, l2);
                    let (r3, up3, l3) = spec_single_or_group(cat, up2, l2);
                    if let Ok(g) = r3 {
                        lemma_arguments(
                            cat,
                            up3,
                            l3,
                            params,
                            index + 1,
                            map.insert(n, crate::parser::makro::group_tokens(g)),
                        );
                    }
                }
            },
            MacroListElemView::Token(search) => {
                lemma_next_token(cat, up, l);
                let (r, up2, l2) = required_token(cat, up, l);
                if r is Ok {
                    lemma_arguments(cat, up2, l2, params, index + 1, map);
                }
            },
        }
    }
}


/// Skipping one optional space does not go back.
pub proof fn lemma_skip_space(cat: spec_fn(char) -> Category, up: Seq<TokenView>, l: LexerView)
    requires
        lexer_wf(l),
        lexable_categories(cat),
    ensures
        ({
            let (r, up2, l2) = skip_space(cat, up, l);
            kept_on(up, l, up2, l2)
        }),
{
    lemma_next_token(cat, up, l);
}

/// Skipping an `<equals>` does not go back.
pub proof fn lemma_skip_equals(cat: spec_fn(char) -> Category, up: Seq<TokenView>, l: LexerView)
    requires
        lexer_wf(l),
        lexable_categories(cat),
    ensures
        ({
            let (r, up2, l2) = skip_equals(cat, up, l);
            kept_on(up, l, up2, l2)
        }),
{
    lemma_skip_spaces(cat, up, l);
    let (r, up2, l2) = skip_spaces(cat, up, l);
    lemma_next_token(cat, up2, l2);
}

/// Reading a parameter text does not go back.
proof fn lemma_parameter_text(
    cat: spec_fn(char) -> Category,
    up: Seq<TokenView>,
    l: LexerView,
    params: Seq<MacroListElemView>,
)
    requires
        lexer_wf(l),
        lexable_categories(cat),
    ensures
        ({
            let (r, up2, l2) = spec_parameter_text(cat, up, l, params);
            kept_on(up, l, up2, l2)
        }),
    decreases input_size(up, l),
{
    lemma_next_token(cat, up, l);
    let (r, up2, l2) = required_token(cat, up, l);
    if let Ok(t) = r {
        if 0 <= input_size(up2, l2) < input_size(up, l) {
            lemma_parameter_text(cat, up2, l2, params.push(MacroListElemView::Token(t)));
            if t matches TokenView::Char(_, Category::Parameter) {
                lemma_next_token(cat, up2, l2);
                let (r3, up3, l3) = required_token(cat, up2, l2);
                if let Ok(t3) = r3 {
                    if let Some(elem) = parameter_number_elem(t3) {
                        if 0 <= input_size(up3, l3) < input_size(up, l) {
                            lemma_parameter_text(cat, up3, l3, params.push(elem));
                        }
                    }
                }
            }
        }
    }
}

/// Reading a replacement text does not go back.
proof fn lemma_replacement_text(
    cat: spec_fn(char) -> Category,
    up: Seq<TokenView>,
    l: LexerView,
    repl: Seq<MacroListElemView>,
    level: nat,
)
    requires
        lexer_wf(l),
        lexable_categories(cat),
    ensures
        ({
            let (r, up2, l2) = spec_replacement_text(cat, up, l, repl, level);
            kept_on(up, l, up2, l2)
        }),
    decreases input_size(up, l),
{
    lemma_next_token(cat, up, l);
    let (r, up2, l2) = required_token(cat, up, l);
    if let Ok(t) = r {
        if 0 <= input_size(up2, l2) < input_size(up, l) {
            let r1 = repl.push(MacroListElemView::Token(t));
            lemma_replacement_text(cat, up2, l2, r1, level);
            lemma_replacement_text(cat, up2, l2, r1, level + 1);
            if level > 0 {
                lemma_replacement_text(cat, up2, l2, r1, (level - 1) as nat);
            }
            if t matches TokenView::Char(_, Category::Parameter) {
                lemma_next_token(cat, up2, l2);
                let (r3, up3, l3) = required_token(cat, up2, l2);
                if let Ok(t3) = r3 {
                    if 0 <= input_size(up3, l3) < input_size(up, l) {
                        if let TokenView::Char(ch, Category::Parameter) = t3 {
                            lemma_replacement_text(
                                cat,
                                up3,
                                l3,
                                repl.push(MacroListElemView::Token(TokenView::Char(ch, Category::Parameter))),
                                level,
                            );
                        }
                        if let Some(elem) = parameter_number_elem(t3) {
                            lemma_replacement_text(cat, up3, l3, repl.push(elem), level);
                        }
                    }
                }
            }
        }
    }
}

/// Reading a macro definition does not go back.
pub proof fn lemma_macro_definition(cat: spec_fn(char) -> Category, up: Seq<TokenView>, l: LexerView)
    requires
        lexer_wf(l),
        lexable_categories(cat),
    ensures
        ({
            let (r, up2, l2) = spec_macro_definition(cat, up, l);
            kept_on(up, l, up2, l2)
        }),
{
    lemma_parameter_text(cat, up, l, Seq::empty());
    let (r, up2, l2) = spec_parameter_text(cat, up, l, Seq::empty());
    lemma_replacement_text(cat, up2, l2, Seq::empty(), 0);
}

// Expanded readings finish. Each expansion takes one from the budget, and
// every reading without expansion moves the input on, so no reading is
// left open.
/// An input whose lexer is within its text.
pub open spec fn fits(i: Input) -> bool {
    lexer_wf(i.1)
}

/// A reading that finished: it has a result, and the input it leaves is
/// within its text and not behind `i`.
pub open spec fn finished<T>(p: Reading<T>, i: Input) -> bool {
    match p {
        Some((_, j)) => {
            &&& lexer_wf(j.1)
            &&& 0 <= size(j)
            &&& le(j, i)
        },
        None => false,
    }
}

/// An expansion step that finished: it has a result, and the input it
/// leaves is within its text and has no more budget than `i`.
pub open spec fn stepped(p: Reading<()>, i: Input) -> bool {
    match p {
        Some((_, j)) => {
            &&& lexer_wf(j.1)
            &&& 0 <= size(j)
            &&& j.3 <= i.3
        },
        None => false,
    }
}

proof fn lemma_size(i: Input)
    requires
        lexer_wf(i.1),
    ensures
        size(i) >= 0,
{
    lemma_remaining_nonneg(i.1);
}

proof fn lemma_conditional_step(st: TeXState, t: TokenView, i: Input)
    requires
        lexable_categories(st.category_fn()),
        lexer_wf(i.1),
        st.is_conditional_token(t),
    ensures
        stepped(conditional_step(st, t, i), i),
    decreases i.3, size(i), 15nat,
{
    lemma_size(i);
    if st.is_prim(t, "iffalse"@) || st.is_prim(t, "ifnum"@) {
        if !st.is_prim(t, "iffalse"@) {
            lemma_read_ifnum(st, i);
        }
        let test = if st.is_prim(t, "iffalse"@) {
            Some((Ok::<bool, crate::parser::TeXError>(false), i))
        } else {
            read_ifnum(st, i)
        };
        if let Some((Ok(false), i2)) = test {
            lemma_skip_to_fi_or_else(st, i2.0, i2.1);
        }
    } else if st.is_prim(t, "else"@) && i.2 > 0 {
        lemma_skip_to_fi(st, i.0, i.1);
    }
}

proof fn lemma_print_step(st: TeXState, i: Input)
    requires
        lexable_categories(st.category_fn()),
        lexer_wf(i.1),
    ensures
        stepped(print_step(st, i), i),
    decreases i.3, size(i), 14nat,
{
    lemma_read_number(st, i);
}

proof fn lemma_macro_step(st: TeXState, m: crate::makro::MacroView, i: Input)
    requires
        lexable_categories(st.category_fn()),
        lexer_wf(i.1),
    ensures
        stepped(macro_step(st, m, i), i),
{
    reveal(macro_step);
    lemma_arguments(st.category_fn(), i.0, i.1, m.parameter_list, 0, Map::empty());
}

proof fn lemma_expand_step(st: TeXState, t: TokenView, i: Input)
    requires
        lexable_categories(st.category_fn()),
        lexer_wf(i.1),
        st.expandable(t),
    ensures
        stepped(expand_step(st, t, i), i),
    decreases i.3, size(i), 16nat,
{
    if st.is_conditional_token(t) {
        lemma_conditional_step(st, t, i);
    } else if st.is_prim(t, "number"@) {
        lemma_print_step(st, i);
    } else if let Some(MeaningView::Macro(m)) = st.meaning_of(t) {
        lemma_macro_step(st, m, i);
    }
}

proof fn lemma_read_next(st: TeXState, i: Input)
    requires
        lexable_categories(st.category_fn()),
        fits(i),
    ensures
        finished(read_next(st, i), i),
        read_next(st, i) matches Some((Ok(Some(_)), j)) ==> lt(j, i),
    decreases i.3, size(i), 0nat,
{
    lemma_size(i);
    lemma_next_token(st.category_fn(), i.0, i.1);
    let (r, up2, l2) = next_token(st.category_fn(), i.0, i.1);
    if let Ok(Some(t)) = r {
        if st.expandable(t) && i.3 > 0 {
            let i1 = (up2, l2, i.2, (i.3 - 1) as nat);
            lemma_expand_step(st, t, i1);
            if let Some((Ok(()), i3)) = expand_step(st, t, i1) {
                lemma_read_next(st, i3);
            }
        }
    }
}

proof fn lemma_read_peek(st: TeXState, i: Input)
    requires
        lexable_categories(st.category_fn()),
        fits(i),
    ensures
        finished(read_peek(st, i), i),
    decreases i.3, size(i), 2nat,
{
    lemma_read_next(st, i);
}

proof fn lemma_read_test(st: TeXState, i: Input)
    requires
        lexable_categories(st.category_fn()),
        fits(i),
    ensures
        forall|test: spec_fn(TokenView) -> bool| #[trigger] finished(read_test(st, i, test), i),
    decreases i.3, size(i), 3nat,
{
    lemma_read_peek(st, i);
}

proof fn lemma_read_prim_head(st: TeXState, i: Input, names: Seq<&str>)
    requires
        lexable_categories(st.category_fn()),
        fits(i),
    ensures
        finished(read_prim_head(st, i, names), i),
    decreases i.3, size(i), 4nat,
{
    lemma_read_test(st, i);
    assert(finished(read_test(st, i, |t: TokenView| crate::parser::reading::means_one_of(st, t, names)), i));
}

proof fn lemma_heads(st: TeXState, i: Input)
    requires
        lexable_categories(st.category_fn()),
        fits(i),
    ensures
        finished(read_integer_constant_head(st, i), i),
        finished(read_hexadecimal_constant_head(st, i), i),
        finished(read_character_constant_head(st, i), i),
    decreases i.3, size(i), 4nat,
{
    lemma_read_test(st, i);
    assert(finished(read_test(st, i, |t: TokenView| crate::parser::number::is_digit_token(t)), i));
    assert(finished(
        read_test(st, i, |t: TokenView| t == TokenView::Char('"', Category::Other)),
        i,
    ));
    assert(finished(
        read_test(st, i, |t: TokenView| t == TokenView::Char('`', Category::Other)),
        i,
    ));
}

proof fn lemma_read_spaces(st: TeXState, i: Input)
    requires
        lexable_categories(st.category_fn()),
        fits(i),
    ensures
        finished(read_spaces(st, i), i),
    decreases i.3, size(i), 5nat,
{
    lemma_read_next(st, i);
    if let Some((Ok(Some(t)), i2)) = read_next(st, i) {
        if crate::parser::primitives::is_space(t) {
            lemma_read_spaces(st, i2);
        }
    }
}

proof fn lemma_read_space(st: TeXState, i: Input)
    requires
        lexable_categories(st.category_fn()),
        fits(i),
    ensures
        finished(read_space(st, i), i),
    decreases i.3, size(i), 5nat,
{
    lemma_read_next(st, i);
}

proof fn lemma_read_digits(st: TeXState, i: Input, value: u32, hex: bool)
    requires
        lexable_categories(st.category_fn()),
        fits(i),
    ensures
        finished(read_digits(st, i, value, hex), i),
    decreases i.3, size(i), 6nat,
{
    lemma_read_next(st, i);
    match read_next(st, i) {
        Some((Ok(None), i2)) => {
            lemma_read_space(st, i2);
        },
        Some((Ok(Some(t)), i2)) => {
            if crate::parser::reading::is_digit_in(t, hex) {
                let v = value * (if hex {
                    16int
                } else {
                    10int
                }) + crate::parser::number::digit_value(t);
                if v <= u32::MAX {
                    lemma_read_digits(st, i2, v as u32, hex);
                }
            } else {
                lemma_read_space(st, put_back(i2, t));
            }
        },
        _ => {},
    }
}

proof fn lemma_read_integer_constant(st: TeXState, i: Input)
    requires
        lexable_categories(st.category_fn()),
        fits(i),
    ensures
        finished(read_integer_constant(st, i), i),
    decreases i.3, size(i), 7nat,
{
    lemma_read_next(st, i);
    if let Some((Ok(Some(t)), i2)) = read_next(st, i) {
        if crate::parser::number::is_digit_token(t) {
            lemma_read_digits(st, i2, crate::parser::number::digit_value(t) as u32, false);
        }
    }
}

proof fn lemma_read_hexadecimal_constant(st: TeXState, i: Input)
    requires
        lexable_categories(st.category_fn()),
        fits(i),
    ensures
        finished(read_hexadecimal_constant(st, i), i),
    decreases i.3, size(i), 7nat,
{
    lemma_read_next(st, i);
    if let Some((Ok(Some(TokenView::Char('"', Category::Other))), i2)) = read_next(st, i) {
        lemma_read_next(st, i2);
        if let Some((Ok(Some(t)), i3)) = read_next(st, i2) {
            if crate::parser::number::is_hex_digit_token(t) {
                lemma_read_digits(st, i3, crate::parser::number::digit_value(t) as u32, true);
            }
        }
    }
}

proof fn lemma_read_character_constant(st: TeXState, i: Input)
    requires
        lexable_categories(st.category_fn()),
        fits(i),
    ensures
        finished(read_character_constant(st, i), i),
    decreases i.3, size(i), 7nat,
{
    lemma_read_next(st, i);
    if let Some((Ok(Some(TokenView::Char('`', Category::Other))), i2)) = read_next(st, i) {
        lemma_next_token(st.category_fn(), i2.0, i2.1);
        let (r, up3, l3) = next_token(st.category_fn(), i2.0, i2.1);
        let i3 = (up3, l3, i2.2, i2.3);
        lemma_read_space(st, i3);
    }
}

/// A reading that finished from `j`, where `j` is not behind `i`, finished
/// from `i` too.
proof fn lemma_chain<T>(p: Reading<T>, j: Input, i: Input)
    requires
        finished(p, j),
        le(j, i),
    ensures
        finished(p, i),
{
}

/// Reading a constant as an integer finishes where reading it does.
proof fn lemma_as_integer(p: Reading<u32>, i: Input)
    requires
        finished(p, i),
    ensures
        finished(crate::parser::reading::as_integer(p), i),
{
}

/// What a head gave, where it gave a value: the input after it is not
/// behind `i`.
pub open spec fn head_at(p: Reading<bool>, b: bool, i2: Input, i: Input) -> bool {
    &&& p == Some((Ok::<bool, crate::parser::TeXError>(b), i2))
    &&& fits(i2)
    &&& le(i2, i)
}

#[verifier::rlimit(100)]
#[verifier::spinoff_prover]
proof fn lemma_read_constant(st: TeXState, i: Input)
    requires
        lexable_categories(st.category_fn()),
        fits(i),
    ensures
        finished(read_constant(st, i), i),
    decreases i.3, size(i), 8nat,
{
    lemma_heads(st, i);
    let h1 = read_integer_constant_head(st, i);
    if let Some((Ok(b1), i2)) = h1 {
        assert(head_at(h1, b1, i2, i));
        if b1 {
            lemma_read_integer_constant(st, i2);
            lemma_as_integer(read_integer_constant(st, i2), i2);
            lemma_chain(crate::parser::reading::as_integer(read_integer_constant(st, i2)), i2, i);
            assert(read_constant(st, i) == crate::parser::reading::as_integer(
                read_integer_constant(st, i2),
            ));
        } else {
            lemma_heads(st, i2);
            let h2 = read_hexadecimal_constant_head(st, i2);
            if let Some((Ok(b2), i3)) = h2 {
                assert(head_at(h2, b2, i3, i2));
                assert(le(i3, i));
                if b2 {
                    lemma_read_hexadecimal_constant(st, i3);
                    lemma_as_integer(read_hexadecimal_constant(st, i3), i3);
                    lemma_chain(
                        crate::parser::reading::as_integer(read_hexadecimal_constant(st, i3)),
                        i3,
                        i,
                    );
                    assert(read_constant(st, i) == crate::parser::reading::as_integer(
                        read_hexadecimal_constant(st, i3),
                    ));
                } else {
                    lemma_heads(st, i3);
                    let h3 = read_character_constant_head(st, i3);
                    if let Some((Ok(b3), i4)) = h3 {
                        assert(head_at(h3, b3, i4, i3));
                        assert(le(i4, i));
                        if b3 {
                            lemma_read_character_constant(st, i4);
                            lemma_as_integer(read_character_constant(st, i4), i4);
                            lemma_chain(
                                crate::parser::reading::as_integer(read_character_constant(st, i4)),
                                i4,
                                i,
                            );
                            assert(read_constant(st, i) == crate::parser::reading::as_integer(
                                read_character_constant(st, i4),
                            ));
                        } else {
                            assert(read_constant(st, i) == crate::parser::reading::failed::<i32>(
                                crate::parser::TeXError::MissingNumber,
                                i4,
                            ));
                        }
                    } else {
                        
                    }
                }
            } else {
                
            }
        }
    } else {
        
    }
}

#[verifier::rlimit(100)]
#[verifier::spinoff_prover]
proof fn lemma_read_normal_integer_head(st: TeXState, i: Input)
    requires
        lexable_categories(st.category_fn()),
        fits(i),
    ensures
        finished(read_normal_integer_head(st, i), i),
    decreases i.3, size(i), 5nat,
{
    lemma_read_prim_head(st, i, integer_variable_names());
    let h1 = read_prim_head(st, i, integer_variable_names());
    if let Some((Ok(false), i2)) = h1 {
        assert(head_at(h1, false, i2, i));
        lemma_heads(st, i2);
        let h2 = read_integer_constant_head(st, i2);
        if let Some((Ok(false), i3)) = h2 {
            assert(head_at(h2, false, i3, i2));
            assert(le(i3, i));
            lemma_heads(st, i3);
            let h3 = read_hexadecimal_constant_head(st, i3);
            if let Some((Ok(false), i4)) = h3 {
                assert(head_at(h3, false, i4, i3));
                assert(le(i4, i));
                lemma_heads(st, i4);
                lemma_chain(read_character_constant_head(st, i4), i4, i);
                assert(read_normal_integer_head(st, i) == read_character_constant_head(st, i4));
            } else {
                lemma_chain(h3, i3, i);
                assert(read_normal_integer_head(st, i) == h3);
            }
        } else {
            lemma_chain(h2, i2, i);
            assert(read_normal_integer_head(st, i) == h2);
        }
    } else {
        assert(read_normal_integer_head(st, i) == h1);
    }
}

proof fn lemma_read_signs(st: TeXState, i: Input, sign: i32)
    requires
        lexable_categories(st.category_fn()),
        fits(i),
    ensures
        finished(read_signs(st, i, sign), i),
    decreases i.3, size(i), 6nat,
{
    lemma_read_next(st, i);
    match read_next(st, i) {
        Some((Ok(None), i2)) => {
            lemma_read_spaces(st, i2);
        },
        Some((Ok(Some(t)), i2)) => {
            if t == TokenView::Char('+', Category::Other) || t == TokenView::Char('-', Category::Other) {
                let next_sign: i32 = if t == TokenView::Char('-', Category::Other) {
                    (-sign) as i32
                } else {
                    sign
                };
                lemma_read_spaces(st, i2);
                if let Some((Ok(()), i3)) = read_spaces(st, i2) {
                    lemma_read_signs(st, i3, next_sign);
                }
            } else {
                lemma_read_spaces(st, put_back(i2, t));
            }
        },
        _ => {},
    }
}

proof fn lemma_read_decimal_rest(st: TeXState, i: Input, num: int, den: int, seen: bool, point: bool)
    requires
        lexable_categories(st.category_fn()),
        fits(i),
    ensures
        finished(read_decimal_rest(st, i, num, den, seen, point), i),
    decreases i.3, size(i), 6nat,
{
    lemma_read_next(st, i);
    if let Some((Ok(Some(t)), i2)) = read_next(st, i) {
        lemma_read_decimal_rest(st, i2, num * 10 + crate::parser::number::digit_value(t), den * 10, true, true);
        lemma_read_decimal_rest(st, i2, num, den, true, true);
        lemma_read_decimal_rest(st, i2, num * 10 + crate::parser::number::digit_value(t), den, true, false);
    }
}

proof fn lemma_read_factor(st: TeXState, i: Input)
    requires
        lexable_categories(st.category_fn()),
        fits(i),
    ensures
        finished(read_factor(st, i), i),
{
    lemma_read_prim_head(st, i, integer_variable_names());
    if let Some((Ok(b), i2)) = read_prim_head(st, i, integer_variable_names()) {
        lemma_read_internal_integer(st, i2);
        lemma_read_decimal_rest(st, i2, 0, 1, false, false);
    }
}

proof fn lemma_read_unit_of_measure(st: TeXState, i: Input, allow_fil: bool)
    requires
        lexable_categories(st.category_fn()),
        fits(i),
    ensures
        finished(read_unit_of_measure(st, i, allow_fil), i),
{
    lemma_read_prim_head(st, i, integer_variable_names());
    if let Some((Ok(b), i2)) = read_prim_head(st, i, integer_variable_names()) {
        lemma_read_internal_integer(st, i2);
        lemma_read_unit(st, i2, allow_fil);
    }
}

proof fn lemma_read_spring_dimen(st: TeXState, i: Input, allow_fil: bool)
    requires
        lexable_categories(st.category_fn()),
        fits(i),
    ensures
        finished(read_spring_dimen(st, i, allow_fil), i),
        finished(read_dimen(st, i), i),
{
    lemma_read_signs(st, i, 1);
    if let Some((Ok(sign), i1)) = read_signs(st, i, 1) {
        lemma_read_factor(st, i1);
        if let Some((Ok(f), i2)) = read_factor(st, i1) {
            lemma_read_unit_of_measure(st, i2, allow_fil);
            lemma_read_unit_of_measure(st, i2, false);
        }
    }
}

proof fn lemma_read_glue(st: TeXState, i: Input)
    requires
        lexable_categories(st.category_fn()),
        fits(i),
    ensures
        finished(read_glue(st, i), i),
{
    lemma_read_spring_dimen(st, i, false);
    if let Some((Ok(space), i1)) = read_dimen(st, i) {
        lemma_read_optional_keyword(st, i1, "plus"@);
        if let Some((Ok(b), i2)) = read_optional_keyword(st, i1, "plus"@) {
            lemma_read_spring_dimen(st, i2, true);
        }
        if let Some((Ok(stretch), i3)) = read_optional_spring(st, i1, "plus"@) {
            lemma_read_optional_keyword(st, i3, "minus"@);
            if let Some((Ok(b), i4)) = read_optional_keyword(st, i3, "minus"@) {
                lemma_read_spring_dimen(st, i4, true);
            }
        }
    }
}

proof fn lemma_read_integer_variable(st: TeXState, i: Input)
    requires
        lexable_categories(st.category_fn()),
        fits(i),
    ensures
        finished(read_integer_variable(st, i), i),
    decreases i.3, size(i), 9nat,
{
    lemma_read_next(st, i);
    if let Some((Ok(Some(t)), i2)) = read_next(st, i) {
        if st.is_prim(t, "count"@) {
            lemma_read_8bit_number(st, i2);
        }
    }
}

proof fn lemma_read_dimen_variable(st: TeXState, i: Input)
    requires
        lexable_categories(st.category_fn()),
        fits(i),
    ensures
        finished(read_dimen_variable(st, i), i),
    decreases i.3, size(i), 9nat,
{
    lemma_read_next(st, i);
    if let Some((Ok(Some(t)), i2)) = read_next(st, i) {
        if st.is_prim(t, "wd"@) || st.is_prim(t, "ht"@) || st.is_prim(t, "dp"@) {
            lemma_read_8bit_number(st, i2);
        }
    }
}

proof fn lemma_read_internal_integer(st: TeXState, i: Input)
    requires
        lexable_categories(st.category_fn()),
        fits(i),
    ensures
        finished(read_internal_integer(st, i), i),
    decreases i.3, size(i), 10nat,
{
    lemma_read_prim_head(st, i, integer_variable_names());
    if let Some((Ok(true), i2)) = read_prim_head(st, i, integer_variable_names()) {
        lemma_read_integer_variable(st, i2);
    }
}

proof fn lemma_read_internal_dimen(st: TeXState, i: Input)
    requires
        lexable_categories(st.category_fn()),
        fits(i),
    ensures
        finished(read_internal_dimen(st, i), i),
    decreases i.3, size(i), 10nat,
{
    lemma_read_prim_head(st, i, dimen_variable_names());
    if let Some((Ok(true), i2)) = read_prim_head(st, i, dimen_variable_names()) {
        lemma_read_dimen_variable(st, i2);
    }
}

proof fn lemma_read_normal_integer(st: TeXState, i: Input)
    requires
        lexable_categories(st.category_fn()),
        fits(i),
    ensures
        finished(read_normal_integer(st, i), i),
    decreases i.3, size(i), 11nat,
{
    lemma_read_prim_head(st, i, integer_variable_names());
    match read_prim_head(st, i, integer_variable_names()) {
        Some((Ok(true), i2)) => {
            lemma_read_internal_integer(st, i2);
        },
        Some((Ok(false), i2)) => {
            lemma_read_constant(st, i2);
        },
        _ => {},
    }
}

#[verifier::rlimit(100)]
#[verifier::spinoff_prover]
proof fn lemma_read_unsigned_number(st: TeXState, i: Input)
    requires
        lexable_categories(st.category_fn()),
        fits(i),
    ensures
        finished(read_unsigned_number(st, i), i),
    decreases i.3, size(i), 12nat,
{
    lemma_read_normal_integer_head(st, i);
    match read_normal_integer_head(st, i) {
        Some((Ok(true), i2)) => {
            lemma_read_normal_integer(st, i2);
        },
        Some((Ok(false), i2)) => {
            lemma_read_prim_head(st, i2, dimen_variable_names());
            if let Some((Ok(true), i3)) = read_prim_head(st, i2, dimen_variable_names()) {
                lemma_read_internal_dimen(st, i3);
            }
        },
        _ => {},
    }
}

proof fn lemma_read_number(st: TeXState, i: Input)
    requires
        lexable_categories(st.category_fn()),
        fits(i),
    ensures
        finished(read_number(st, i), i),
    decreases i.3, size(i), 13nat,
{
    lemma_read_signs(st, i, 1);
    if let Some((Ok(sign), i2)) = read_signs(st, i, 1) {
        lemma_read_unsigned_number(st, i2);
    }
}

proof fn lemma_read_8bit_number(st: TeXState, i: Input)
    requires
        lexable_categories(st.category_fn()),
        fits(i),
    ensures
        finished(read_8bit_number(st, i), i),
    decreases i.3, size(i), 14nat,
{
    lemma_read_number(st, i);
}

proof fn lemma_read_relation(st: TeXState, i: Input)
    requires
        lexable_categories(st.category_fn()),
        fits(i),
    ensures
        finished(read_relation(st, i), i),
    decreases i.3, size(i), 6nat,
{
    lemma_read_next(st, i);
    if let Some((Ok(Some(t)), i2)) = read_next(st, i) {
        lemma_read_spaces(st, i2);
    }
}

#[verifier::rlimit(60)]
#[verifier::spinoff_prover]
proof fn lemma_read_ifnum(st: TeXState, i: Input)
    requires
        lexable_categories(st.category_fn()),
        fits(i),
    ensures
        finished(read_ifnum(st, i), i),
    decreases i.3, size(i), 14nat,
{
    lemma_read_number(st, i);
    if let Some((Ok(left), i2)) = read_number(st, i) {
        lemma_read_relation(st, i2);
        if let Some((Ok(rel), i3)) = read_relation(st, i2) {
            lemma_read_number(st, i3);
        }
    }
}

proof fn lemma_read_equals(st: TeXState, i: Input)
    requires
        lexable_categories(st.category_fn()),
        fits(i),
    ensures
        finished(read_equals(st, i), i),
{
    lemma_read_spaces(st, i);
    if let Some((Ok(()), i2)) = read_spaces(st, i) {
        lemma_read_next(st, i2);
    }
}

proof fn lemma_read_keyword_chars(st: TeXState, i: Input, kw: Seq<char>, k: int)
    requires
        lexable_categories(st.category_fn()),
        fits(i),
    ensures
        finished(read_keyword_chars(st, i, kw, k), i),
    decreases kw.len() - k,
{
    lemma_size(i);
    if k < kw.len() {
        lemma_read_next(st, i);
        if let Some((Ok(Some(t)), i2)) = read_next(st, i) {
            if keyword_char_matches(t, kw[k]) {
                lemma_read_keyword_chars(st, i2, kw, k + 1);
                lemma_chain(read_keyword_chars(st, i2, kw, k + 1), i2, i);
            }
        }
    }
}

proof fn lemma_read_keyword(st: TeXState, i: Input, kw: Seq<char>)
    requires
        lexable_categories(st.category_fn()),
        fits(i),
    ensures
        finished(read_keyword(st, i, kw), i),
{
    lemma_read_spaces(st, i);
    if let Some((Ok(()), i2)) = read_spaces(st, i) {
        lemma_read_keyword_chars(st, i2, kw, 0);
        lemma_chain(read_keyword_chars(st, i2, kw, 0), i2, i);
    }
}

/// Reading the rest of an optional keyword, with `parsed` read of it since
/// `o`, finishes no further back than `o`.
proof fn lemma_read_optional_keyword_chars(
    st: TeXState,
    i: Input,
    kw: Seq<char>,
    k: int,
    parsed: Seq<TokenView>,
    o: Input,
)
    requires
        lexable_categories(st.category_fn()),
        fits(i),
        le(put_back_all(i, parsed), o),
    ensures
        finished(read_optional_keyword_chars(st, i, kw, k, parsed), o),
    decreases kw.len() - k,
{
    lemma_size(i);
    if k < kw.len() {
        lemma_read_next(st, i);
        if let Some((Ok(Some(t)), i2)) = read_next(st, i) {
            if keyword_char_matches(t, kw[k]) {
                lemma_read_optional_keyword_chars(st, i2, kw, k + 1, parsed.push(t), o);
            }
        }
    }
}

proof fn lemma_read_optional_keyword(st: TeXState, i: Input, kw: Seq<char>)
    requires
        lexable_categories(st.category_fn()),
        fits(i),
    ensures
        finished(read_optional_keyword(st, i, kw), i),
{
    lemma_read_spaces(st, i);
    if let Some((Ok(()), i2)) = read_spaces(st, i) {
        lemma_read_peek(st, i2);
        if let Some((Ok(Some(t)), i3)) = read_peek(st, i2) {
            assert(put_back_all(i3, Seq::<TokenView>::empty()) =~= i3);
            lemma_read_optional_keyword_chars(st, i3, kw, 0, Seq::empty(), i3);
            lemma_chain(read_optional_keyword_chars(st, i3, kw, 0, Seq::empty()), i3, i);
        }
    }
}

proof fn lemma_read_relaxes(st: TeXState, i: Input)
    requires
        lexable_categories(st.category_fn()),
        fits(i),
    ensures
        finished(read_relaxes(st, i), i),
    decreases i.3, size(i),
{
    lemma_size(i);
    lemma_read_next(st, i);
    if let Some((Ok(Some(t)), i2)) = read_next(st, i) {
        if st.is_prim(t, "relax"@) {
            lemma_read_spaces(st, i2);
            if let Some((Ok(()), i3)) = read_spaces(st, i2) {
                lemma_read_relaxes(st, i3);
            }
        }
    }
}

proof fn lemma_read_filler(st: TeXState, i: Input)
    requires
        lexable_categories(st.category_fn()),
        fits(i),
    ensures
        finished(read_filler(st, i), i),
{
    lemma_read_spaces(st, i);
    if let Some((Ok(()), i2)) = read_spaces(st, i) {
        lemma_read_relaxes(st, i2);
        lemma_chain(read_relaxes(st, i2), i2, i);
    }
}

proof fn lemma_read_math_symbol(st: TeXState, i: Input)
    requires
        lexable_categories(st.category_fn()),
        fits(i),
    ensures
        finished(read_math_symbol_head(st, i), i),
        finished(read_math_symbol(st, i), i),
{
    lemma_read_test(st, i);
    assert(finished(read_character_head(st, i), i));
    if let Some((Ok(b), i2)) = read_character_head(st, i) {
        lemma_read_test(st, i2);
        assert(finished(read_math_character_head(st, i2), i2));
        lemma_chain(read_math_character_head(st, i2), i2, i);
        if b {
            lemma_read_next(st, i2);
            if let Some((Ok(Some(t)), i3)) = read_next(st, i2) {
                lemma_read_8bit_number(st, i3);
            }
            lemma_chain(read_character_to_math_code(st, i2), i2, i);
        } else if let Some((Ok(true), i3)) = read_math_character_head(st, i2) {
            lemma_read_next(st, i3);
            lemma_chain(read_math_character_to_math_code(st, i3), i3, i);
        }
    }
}

proof fn lemma_read_variable_assignment(st: TeXState, i: Input, global: bool)
    requires
        lexable_categories(st.category_fn()),
        fits(i),
    ensures
        finished(read_variable_assignment(st, i, global), i),
{
    reveal(read_variable_assignment);
    lemma_read_prim_head(st, i, integer_variable_names());
    if let Some((Ok(true), i2)) = read_prim_head(st, i, integer_variable_names()) {
        lemma_read_integer_variable(st, i2);
        if let Some((Ok(var), i3)) = read_integer_variable(st, i2) {
            lemma_read_equals(st, i3);
            if let Some((Ok(()), i4)) = read_equals(st, i3) {
                lemma_read_number(st, i4);
            }
        }
    }
    if let Some((Ok(false), i2)) = read_prim_head(st, i, integer_variable_names()) {
        lemma_read_prim_head(st, i2, dimen_variable_names());
        if let Some((Ok(true), i3)) = read_prim_head(st, i2, dimen_variable_names()) {
            lemma_read_dimen_variable(st, i3);
            if let Some((Ok(var), i4)) = read_dimen_variable(st, i3) {
                lemma_read_equals(st, i4);
                if let Some((Ok(()), i5)) = read_equals(st, i4) {
                    lemma_read_spring_dimen(st, i5, false);
                }
            }
        }
    }
}

proof fn lemma_read_let_assignment(st: TeXState, i: Input, global: bool)
    requires
        lexable_categories(st.category_fn()),
        fits(i),
    ensures
        finished(read_let_assignment(st, i, global), i),
{
    reveal(read_let_assignment);
    let cat = st.category_fn();
    lemma_read_next(st, i);
    if let Some((Ok(Some(t)), i2)) = read_next(st, i) {
        lemma_next_token(cat, i2.0, i2.1);
        let (rn, i3) = on_input(i2, next_control_sequence(cat, i2.0, i2.1));
        lemma_skip_equals(cat, i3.0, i3.1);
        let (re, i4) = on_input(i3, skip_equals(cat, i3.0, i3.1));
        lemma_skip_space(cat, i4.0, i4.1);
        let (rs, i5) = on_input(i4, skip_space(cat, i4.0, i4.1));
        lemma_next_token(cat, i5.0, i5.1);
    }
}

proof fn lemma_read_arithmetic(st: TeXState, i: Input, global: bool)
    requires
        lexable_categories(st.category_fn()),
        fits(i),
    ensures
        finished(read_arithmetic(st, i, global), i),
{
    reveal(read_arithmetic);
    lemma_read_next(st, i);
    if let Some((Ok(Some(op)), i2)) = read_next(st, i) {
        lemma_read_integer_variable(st, i2);
        if let Some((Ok(var), i3)) = read_integer_variable(st, i2) {
            lemma_read_optional_keyword(st, i3, "by"@);
            if let Some((Ok(_), i4)) = read_optional_keyword(st, i3, "by"@) {
                lemma_read_spaces(st, i4);
                if let Some((Ok(()), i5)) = read_spaces(st, i4) {
                    lemma_read_number(st, i5);
                }
            }
        }
    }
}

proof fn lemma_read_macro_assignment(st: TeXState, i: Input, global: bool)
    requires
        lexable_categories(st.category_fn()),
        fits(i),
    ensures
        finished(read_macro_assignment(st, i, global), i),
{
    reveal(read_macro_assignment);
    let cat = st.category_fn();
    lemma_read_next(st, i);
    if let Some((Ok(Some(t)), i2)) = read_next(st, i) {
        lemma_next_token(cat, i2.0, i2.1);
        let (rn, i3) = on_input(i2, next_control_sequence(cat, i2.0, i2.1));
        lemma_macro_definition(cat, i3.0, i3.1);
    }
}

proof fn lemma_read_shorthand_definition(st: TeXState, i: Input, global: bool)
    requires
        lexable_categories(st.category_fn()),
        fits(i),
    ensures
        finished(read_shorthand_definition(st, i, global), i),
{
    reveal(read_shorthand_definition);
    let cat = st.category_fn();
    lemma_read_next(st, i);
    if let Some((Ok(Some(t)), i2)) = read_next(st, i) {
        lemma_next_token(cat, i2.0, i2.1);
        let (rn, i3) = on_input(i2, next_control_sequence(cat, i2.0, i2.1));
        lemma_read_equals(st, i3);
        if let Some((Ok(()), i4)) = read_equals(st, i3) {
            lemma_read_number(st, i4);
        }
    }
}

proof fn lemma_read_code_assignment(st: TeXState, i: Input, global: bool)
    requires
        lexable_categories(st.category_fn()),
        fits(i),
    ensures
        finished(read_code_assignment(st, i, global), i),
{
    reveal(read_code_assignment);
    lemma_read_next(st, i);
    if let Some((Ok(Some(t)), i2)) = read_next(st, i) {
        lemma_read_8bit_number(st, i2);
        if let Some((Ok(ch), i3)) = read_8bit_number(st, i2) {
            lemma_read_equals(st, i3);
            if let Some((Ok(()), i4)) = read_equals(st, i3) {
                lemma_read_number(st, i4);
            }
        }
    }
}

proof fn lemma_read_fontdef_assignment(st: TeXState, i: Input, global: bool)
    requires
        lexable_categories(st.category_fn()),
        fits(i),
    ensures
        finished(read_fontdef_assignment(st, i, global), i),
{
    reveal(read_fontdef_assignment);
    lemma_read_next(st, i);
}

proof fn lemma_read_variable_assignment_head(st: TeXState, i: Input)
    requires
        lexable_categories(st.category_fn()),
        fits(i),
    ensures
        finished(read_variable_assignment_head(st, i), i),
{
    lemma_read_prim_head(st, i, integer_variable_names());
    if let Some((Ok(false), i2)) = read_prim_head(st, i, integer_variable_names()) {
        lemma_read_prim_head(st, i2, dimen_variable_names());
        lemma_chain(read_prim_head(st, i2, dimen_variable_names()), i2, i);
    }
}

proof fn lemma_read_assignment(st: TeXState, i: Input, global: bool)
    requires
        lexable_categories(st.category_fn()),
        fits(i),
    ensures
        finished(read_assignment(st, i, global), i),
    decreases i.3, size(i), 2nat,
{
    lemma_size(i);
    lemma_read_prim_head(st, i, seq!["def"]);
    match read_prim_head(st, i, seq!["def"]) {
        Some((Ok(true), i1)) => {
            lemma_read_macro_assignment(st, i1, global);
            lemma_chain(read_macro_assignment(st, i1, global), i1, i);
        },
        Some((Ok(false), i1)) => {
            lemma_read_variable_assignment_head(st, i1);
            match read_variable_assignment_head(st, i1) {
                Some((Ok(true), i2)) => {
                    lemma_read_variable_assignment(st, i2, global);
                    lemma_chain(read_variable_assignment(st, i2, global), i2, i);
                },
                Some((Ok(false), i2)) => {
                    lemma_read_prim_head(st, i2, seq!["let"]);
                    match read_prim_head(st, i2, seq!["let"]) {
                        Some((Ok(true), i3)) => {
                            lemma_read_let_assignment(st, i3, global);
                            lemma_chain(read_let_assignment(st, i3, global), i3, i);
                        },
                        Some((Ok(false), i3)) => {
                            lemma_read_assignment_rest(st, i3, global, i);
                        },
                        _ => {},
                    }
                },
                _ => {},
            }
        },
        _ => {},
    }
}

#[verifier::rlimit(60)]
#[verifier::spinoff_prover]
proof fn lemma_read_assignment_rest(st: TeXState, i: Input, global: bool, i0: Input)
    requires
        lexable_categories(st.category_fn()),
        fits(i),
        lexer_wf(i0.1),
        le(i, i0),
    ensures
        finished(read_assignment_rest(st, i, global, i0), i0),
    decreases i0.3, size(i0), 1nat,
{
    lemma_size(i);
    lemma_size(i0);
    let arith = seq!["advance", "multiply", "divide"];
    lemma_read_prim_head(st, i, arith);
    let h4 = read_prim_head(st, i, arith);
    lemma_chain(h4, i, i0);
    if let Some((Ok(b4), i4)) = h4 {
        if b4 {
            lemma_read_arithmetic(st, i4, global);
            lemma_chain(read_arithmetic(st, i4, global), i4, i0);
        } else {
            lemma_read_prim_head(st, i4, seq!["mathchardef"]);
            let h5 = read_prim_head(st, i4, seq!["mathchardef"]);
            lemma_chain(h5, i4, i0);
            if let Some((Ok(b5), i5)) = h5 {
                if b5 {
                    lemma_read_shorthand_definition(st, i5, global);
                    lemma_chain(read_shorthand_definition(st, i5, global), i5, i0);
                } else {
                    lemma_read_prim_head(st, i5, seq!["mathcode"]);
                    let h6 = read_prim_head(st, i5, seq!["mathcode"]);
                    lemma_chain(h6, i5, i0);
                    if let Some((Ok(b6), i6)) = h6 {
                        if b6 {
                            lemma_read_code_assignment(st, i6, global);
                            lemma_chain(read_code_assignment(st, i6, global), i6, i0);
                        } else {
                            lemma_read_test(st, i6);
                            let h7 = read_fontdef_head(st, i6);
                            assert(finished(h7, i6));
                            lemma_chain(h7, i6, i0);
                            if let Some((Ok(b7), i7)) = h7 {
                                if b7 {
                                    lemma_read_fontdef_assignment(st, i7, global);
                                    lemma_chain(read_fontdef_assignment(st, i7, global), i7, i0);
                                } else {
                                    lemma_read_assignment_tail(st, i7, global, i0);
                                }
                            }
                        }
                    }
                }
            }
        }
    }
}

/// The last kinds of assignment: `\setbox`, `\font`, `\prevdepth`, and
/// `\global` before another assignment.
#[verifier::rlimit(60)]
#[verifier::spinoff_prover]
proof fn lemma_read_assignment_tail(st: TeXState, i7: Input, global: bool, i0: Input)
    requires
        lexable_categories(st.category_fn()),
        fits(i7),
        lexer_wf(i0.1),
        le(i7, i0),
    ensures
        ({
            let p = match read_prim_head(st, i7, seq!["setbox", "font", "prevdepth"]) {
                None => None,
                Some((Err(e), i8)) => crate::parser::reading::failed(e, i8),
                Some((Ok(true), i8)) => crate::parser::reading::failed(crate::parser::TeXError::Unimplemented, i8),
                Some((Ok(false), i8)) => match read_next(st, i8) {
                    None => None,
                    Some((Err(e), i9)) => crate::parser::reading::failed(e, i9),
                    Some((Ok(None), i9)) => crate::parser::reading::failed(crate::parser::TeXError::UnexpectedEnd, i9),
                    Some((Ok(Some(t)), i9)) => if !st.is_prim(t, "global"@) {
                        crate::parser::reading::failed(crate::parser::TeXError::Unimplemented, i9)
                    } else {
                        match read_prim_head(st, i9, assignment_names()) {
                            None => None,
                            Some((Err(e), i10)) => crate::parser::reading::failed(e, i10),
                            Some((Ok(false), i10)) => crate::parser::reading::failed(
                                crate::parser::TeXError::NonAssignmentAfterGlobal,
                                i10,
                            ),
                            Some((Ok(true), i10)) => if lt(i10, i0) {
                                read_assignment(st, i10, true)
                            } else {
                                None
                            },
                        }
                    },
                },
            };
            finished(p, i0)
        }),
    decreases i0.3, size(i0), 0nat,
{
    lemma_size(i7);
    lemma_size(i0);
    let names = seq!["setbox", "font", "prevdepth"];
    lemma_read_prim_head(st, i7, names);
    let h8 = read_prim_head(st, i7, names);
    lemma_chain(h8, i7, i0);
    if let Some((Ok(false), i8)) = h8 {
        lemma_read_next(st, i8);
        lemma_chain(read_next(st, i8), i8, i0);
        if let Some((Ok(Some(t)), i9)) = read_next(st, i8) {
            assert(lt(i9, i0));
            lemma_read_prim_head(st, i9, assignment_names());
            let h10 = read_prim_head(st, i9, assignment_names());
            lemma_chain(h10, i9, i0);
            if let Some((Ok(true), i10)) = h10 {
                assert(lt(i10, i0));
                lemma_read_assignment(st, i10, true);
                lemma_chain(read_assignment(st, i10, true), i10, i0);
            }
        }
    }
}

proof fn lemma_read_more_ls(st: TeXState, i: Input, level: nat)
    requires
        lexable_categories(st.category_fn()),
        fits(i),
    ensures
        finished(read_more_ls(st, i, level), i),
    decreases 3 - level,
{
    lemma_read_peek(st, i);
    if let Some((Ok(Some(t)), i2)) = read_peek(st, i) {
        lemma_read_next(st, i2);
        lemma_chain(read_next(st, i2), i2, i);
        if let Some((Ok(_), i3)) = read_next(st, i2) {
            if level < 2 {
                lemma_read_more_ls(st, i3, level + 1);
                lemma_chain(read_more_ls(st, i3, level + 1), i3, i);
            }
        }
    }
}

proof fn lemma_read_unit_name(st: TeXState, i: Input, is_true: bool, allow_fil: bool)
    requires
        lexable_categories(st.category_fn()),
        fits(i),
    ensures
        finished(read_unit_name(st, i, is_true, allow_fil), i),
{
    lemma_read_next(st, i);
    if let Some((Ok(Some(first)), i1)) = read_next(st, i) {
        lemma_read_next(st, i1);
        lemma_chain(read_next(st, i1), i1, i);
        if let Some((Ok(Some(second)), i2)) = read_next(st, i1) {
            lemma_read_space(st, i2);
            lemma_chain(read_space(st, i2), i2, i);
            lemma_read_next(st, i2);
            lemma_chain(read_next(st, i2), i2, i);
            if let Some((Ok(Some(third)), i3)) = read_next(st, i2) {
                lemma_read_more_ls(st, i3, 0);
                lemma_chain(read_more_ls(st, i3, 0), i3, i);
                if let Some((Ok(level), i4)) = read_more_ls(st, i3, 0) {
                    lemma_read_space(st, i4);
                    lemma_chain(read_space(st, i4), i4, i);
                }
            }
        }
    }
}

proof fn lemma_read_unit(st: TeXState, i: Input, allow_fil: bool)
    requires
        lexable_categories(st.category_fn()),
        fits(i),
    ensures
        finished(read_unit(st, i, allow_fil), i),
{
    lemma_read_spaces(st, i);
    if let Some((Ok(()), i1)) = read_spaces(st, i) {
        lemma_read_peek(st, i1);
        lemma_chain(read_peek(st, i1), i1, i);
        if let Some((Ok(Some(t)), i2)) = read_peek(st, i1) {
            lemma_read_unit_name(st, i2, false, allow_fil);
            lemma_chain(read_unit_name(st, i2, false, allow_fil), i2, i);
            lemma_read_keyword(st, i2, "true"@);
            lemma_chain(read_keyword(st, i2, "true"@), i2, i);
            if let Some((Ok(()), i3)) = read_keyword(st, i2, "true"@) {
                lemma_read_spaces(st, i3);
                lemma_chain(read_spaces(st, i3), i3, i);
                if let Some((Ok(()), i4)) = read_spaces(st, i3) {
                    lemma_read_unit_name(st, i4, true, allow_fil);
                    lemma_chain(read_unit_name(st, i4, true, allow_fil), i4, i);
                }
            }
        }
    }
}

/// Expanded readings finish: where the lexer is within its text, each
/// reading has a result, and the input it leaves is not behind the input it
/// started from (it spent budget, or spent none and read on).
pub proof fn lemma_readings_finish(st: TeXState, i: Input)
    requires
        lexable_categories(st.category_fn()),
        fits(i),
    ensures
        finished(read_next(st, i), i),
        finished(read_peek(st, i), i),
        finished(read_spaces(st, i), i),
        finished(read_space(st, i), i),
        finished(read_constant(st, i), i),
        finished(read_normal_integer_head(st, i), i),
        finished(read_integer_variable(st, i), i),
        finished(read_dimen_variable(st, i), i),
        finished(read_internal_integer(st, i), i),
        finished(read_internal_dimen(st, i), i),
        finished(read_normal_integer(st, i), i),
        finished(read_unsigned_number(st, i), i),
        finished(read_number(st, i), i),
        finished(read_8bit_number(st, i), i),
        finished(read_15bit_number(st, i), i),
        finished(read_relation(st, i), i),
        finished(read_ifnum(st, i), i),
        finished(read_equals(st, i), i),
        finished(read_filler(st, i), i),
        finished(read_glue_variable(st, i), i),
        forall|allow_fil: bool| #[trigger] finished(read_unit(st, i, allow_fil), i),
        forall|allow_fil: bool| #[trigger] finished(read_unit_of_measure(st, i, allow_fil), i),
        forall|allow_fil: bool| #[trigger] finished(read_spring_dimen(st, i, allow_fil), i),
        finished(read_factor(st, i), i),
        finished(read_dimen(st, i), i),
        finished(read_glue(st, i), i),
        forall|num: int, den: int, seen: bool, point: bool| #[trigger] finished(
            read_decimal_rest(st, i, num, den, seen, point),
            i,
        ),
        finished(read_math_symbol_head(st, i), i),
        finished(read_math_symbol(st, i), i),
        forall|global: bool| #[trigger] finished(read_assignment(st, i, global), i),
        forall|names: Seq<&str>| #[trigger] finished(read_prim_head(st, i, names), i),
        forall|test: spec_fn(TokenView) -> bool| #[trigger] finished(read_test(st, i, test), i),
        forall|kw: Seq<char>| #[trigger] finished(read_keyword(st, i, kw), i),
        forall|kw: Seq<char>| #[trigger] finished(read_optional_keyword(st, i, kw), i),
{
    lemma_read_equals(st, i);
    lemma_read_filler(st, i);
    lemma_read_next(st, i);
    assert forall|allow_fil: bool| #[trigger] finished(read_unit(st, i, allow_fil), i) by {
        lemma_read_unit(st, i, allow_fil);
    }
    assert forall|allow_fil: bool| #[trigger] finished(read_unit_of_measure(st, i, allow_fil), i) by {
        lemma_read_unit_of_measure(st, i, allow_fil);
    }
    assert forall|allow_fil: bool| #[trigger] finished(read_spring_dimen(st, i, allow_fil), i) by {
        lemma_read_spring_dimen(st, i, allow_fil);
    }
    assert forall|num: int, den: int, seen: bool, point: bool| #[trigger] finished(
        read_decimal_rest(st, i, num, den, seen, point),
        i,
    ) by {
        lemma_read_decimal_rest(st, i, num, den, seen, point);
    }
    lemma_read_factor(st, i);
    lemma_read_spring_dimen(st, i, false);
    lemma_read_glue(st, i);
    lemma_read_math_symbol(st, i);
    assert forall|global: bool| #[trigger] finished(read_assignment(st, i, global), i) by {
        lemma_read_assignment(st, i, global);
    }
    assert forall|kw: Seq<char>| #[trigger] finished(read_keyword(st, i, kw), i) by {
        lemma_read_keyword(st, i, kw);
    }
    assert forall|kw: Seq<char>| #[trigger] finished(read_optional_keyword(st, i, kw), i) by {
        lemma_read_optional_keyword(st, i, kw);
    }
    lemma_read_next(st, i);
    lemma_read_peek(st, i);
    lemma_read_test(st, i);
    lemma_read_spaces(st, i);
    lemma_read_space(st, i);
    lemma_read_constant(st, i);
    lemma_read_normal_integer_head(st, i);
    lemma_read_integer_variable(st, i);
    lemma_read_dimen_variable(st, i);
    lemma_read_internal_integer(st, i);
    lemma_read_internal_dimen(st, i);
    lemma_read_normal_integer(st, i);
    lemma_read_unsigned_number(st, i);
    lemma_read_number(st, i);
    lemma_read_8bit_number(st, i);
    lemma_read_relation(st, i);
    lemma_read_ifnum(st, i);
    assert forall|names: Seq<&str>| #[trigger] finished(read_prim_head(st, i, names), i) by {
        lemma_read_prim_head(st, i, names);
    }
}

/// At the end of the input, expanded reading stays there: where reading
/// (or peeking at) the next token gives none, reading or peeking again
/// gives none and leaves the input as it is.
pub proof fn lemma_read_at_end(st: TeXState, i: Input)
    requires
        lexable_categories(st.category_fn()),
        fits(i),
        read_next(st, i) matches Some((Ok(None), _)),
    ensures
        ({
            let j = match read_next(st, i) {
                Some((_, j)) => j,
                None => i,
            };
            &&& read_next(st, j) == Some((Ok::<Option<TokenView>, crate::parser::TeXError>(None), j))
            &&& read_peek(st, j) == Some((Ok::<Option<TokenView>, crate::parser::TeXError>(None), j))
            &&& read_peek(st, i) == read_next(st, i)
        }),
    decreases i.3,
{
    lemma_size(i);
    let cat = st.category_fn();
    lemma_next_token(cat, i.0, i.1);
    let (r, up2, l2) = next_token(cat, i.0, i.1);
    match r {
        Ok(Some(t)) => {
            if st.expandable(t) && i.3 > 0 {
                let i1 = (up2, l2, i.2, (i.3 - 1) as nat);
                lemma_expand_step(st, t, i1);
                if let Some((Ok(()), i3)) = expand_step(st, t, i1) {
                    lemma_read_at_end(st, i3);
                }
            }
        },
        Ok(None) => {
            lemma_lex_end(i.1, cat);
            assert(i.0.len() == 0);
        },
        Err(_) => {},
    }
}

/// The input of a well-formed parser is one that every reading finishes
/// on.
pub proof fn lemma_parser_fits(p: crate::parser::Parser)
    requires
        p.wf(),
    ensures
        fits(p.input()),
{
    p.lexer.lemma_wf();
}

} // verus!
