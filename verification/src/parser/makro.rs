use std::collections::HashMap;
use vstd::prelude::*;

use crate::category::Category;
use crate::lexer::LexerView;
use crate::makro::{elem_views, expand_replacement, valid_macro, Macro, MacroListElem, MacroListElemView, MacroView};
use crate::parser::{input_size, next_token, Parser, TeXError};
use crate::token::{token_views, Token, TokenView};

verus! {

broadcast use vstd::std_specs::hash::group_hash_axioms;

/// The number of a macro parameter from the digit after `#`.
fn parse_parameter_number(ch: char) -> (r: Result<usize, TeXError>)
    ensures
        match r {
            Ok(n) => '1' <= ch <= '9' && n == (ch as int) - 48,
            Err(e) => !('1' <= ch <= '9') && e == TeXError::InvalidParameter,
        },
{
    if ch >= '1' && ch <= '9' {
        Ok(((ch as u8) - 48) as usize)
    } else {
        Err(TeXError::InvalidParameter)
    }
}

/// What is read for an undelimited parameter: one token, or a `{`, the
/// balanced text after it and the `}` that closes it.
enum SingleTokenGroup {
    BalancedGroup(Token, Vec<Token>, Token),
    SingleToken(Token),
}

/// The frame that the reading of a macro's parameters keeps: the state,
/// the budget and the open conditionals are as they were, and no more input
/// is left than before.
pub open spec fn unexpanded_frame(before: Parser, after: Parser) -> bool {
    &&& after.wf()
    &&& after.state == before.state
    &&& after.budget() == before.budget()
    &&& after.depth() == before.depth()
    &&& after.lexer_view().source == before.lexer_view().source
    &&& after.input_left() <= before.input_left()
    &&& after.input_left() >= 0
}

/// What a required token of the input gives: the token, or the error for
/// a failed read or for the end of the input.
pub open spec fn required_token(cat: spec_fn(char) -> Category, up: Seq<TokenView>, l: LexerView) -> (
    Result<TokenView, TeXError>,
    Seq<TokenView>,
    LexerView,
) {
    let (r, up2, l2) = next_token(cat, up, l);
    match r {
        Ok(Some(t)) => (Ok(t), up2, l2),
        Ok(None) => (Err(TeXError::UnexpectedEnd), up2, l2),
        Err(e) => (Err(e), up2, l2),
    }
}

/// Whether a read of the input has moved strictly forward.
pub open spec fn moved_on(up: Seq<TokenView>, l: LexerView, up2: Seq<TokenView>, l2: LexerView) -> bool {
    0 <= input_size(up2, l2) < input_size(up, l)
}

/// The element that a parameter character followed by `next` makes in a
/// parameter text: a numbered parameter for a digit from 1 to 9.
pub open spec fn parameter_number_elem(next: TokenView) -> Option<MacroListElemView> {
    match next {
        TokenView::Char(ch, Category::Other) => if '1' <= ch <= '9' {
            Some(MacroListElemView::Parameter(((ch as int) - 48) as usize))
        } else {
            None
        },
        _ => None,
    }
}

/// Reads the parameter text of a definition, after the elements `params`
/// already read, up to the `{` of the replacement text. A `#` right before
/// that `{` puts the `{` at the end of the parameter text, and the result
/// then also gives that `{`, which ends the replacement text too.
pub open spec fn spec_parameter_text(
    cat: spec_fn(char) -> Category,
    up: Seq<TokenView>,
    l: LexerView,
    params: Seq<MacroListElemView>,
) -> (Result<(Seq<MacroListElemView>, Option<TokenView>), TeXError>, Seq<TokenView>, LexerView)
    decreases input_size(up, l),
{
    let (r, up2, l2) = required_token(cat, up, l);
    match r {
        Err(e) => (Err(e), up2, l2),
        Ok(t) => if !moved_on(up, l, up2, l2) {
            (Err(TeXError::UnexpectedEnd), up2, l2)
        } else {
            match t {
                TokenView::Char(_, Category::BeginGroup) => (Ok((params, None)), up2, l2),
                TokenView::Char(_, Category::Parameter) => {
                    let (r3, up3, l3) = required_token(cat, up2, l2);
                    match r3 {
                        Err(e) => (Err(e), up3, l3),
                        Ok(t3) => match t3 {
                            TokenView::Char(ch, Category::BeginGroup) => (
                                Ok(
                                    (
                                        params.push(
                                            MacroListElemView::Token(TokenView::Char(ch, Category::BeginGroup)),
                                        ),
                                        Some(TokenView::Char(ch, Category::BeginGroup)),
                                    ),
                                ),
                                up3,
                                l3,
                            ),
                            _ => match parameter_number_elem(t3) {
                                Some(elem) => if moved_on(up, l, up3, l3) {
                                    spec_parameter_text(cat, up3, l3, params.push(elem))
                                } else {
                                    (Err(TeXError::UnexpectedEnd), up3, l3)
                                },
                                None => (Err(TeXError::InvalidParameter), up3, l3),
                            },
                        },
                    }
                },
                _ => spec_parameter_text(cat, up2, l2, params.push(MacroListElemView::Token(t))),
            }
        }
    }
}

/// Reads the replacement text of a definition, after the elements `repl`
/// already read and inside `level` open groups, up to the `}` that closes
/// it. `##` stands for one `#`, and `#` with a digit from 1 to 9 for a
/// parameter.
pub open spec fn spec_replacement_text(
    cat: spec_fn(char) -> Category,
    up: Seq<TokenView>,
    l: LexerView,
    repl: Seq<MacroListElemView>,
    level: nat,
) -> (Result<Seq<MacroListElemView>, TeXError>, Seq<TokenView>, LexerView)
    decreases input_size(up, l),
{
    let (r, up2, l2) = required_token(cat, up, l);
    match r {
        Err(e) => (Err(e), up2, l2),
        Ok(t) => if !moved_on(up, l, up2, l2) {
            (Err(TeXError::UnexpectedEnd), up2, l2)
        } else {
            match t {
                TokenView::Char(_, Category::EndGroup) => if level == 0 {
                    (Ok(repl), up2, l2)
                } else {
                    spec_replacement_text(cat, up2, l2, repl.push(MacroListElemView::Token(t)), (level - 1) as nat)
                },
                TokenView::Char(_, Category::BeginGroup) => if level >= u64::MAX {
                    (Err(TeXError::ExpansionLimit), up2, l2)
                } else {
                    spec_replacement_text(cat, up2, l2, repl.push(MacroListElemView::Token(t)), level + 1)
                },
                TokenView::Char(_, Category::Parameter) => {
                    let (r3, up3, l3) = required_token(cat, up2, l2);
                    match r3 {
                        Err(e) => (Err(e), up3, l3),
                        Ok(t3) => if !moved_on(up, l, up3, l3) {
                            (Err(TeXError::UnexpectedEnd), up3, l3)
                        } else {
                            match t3 {
                                TokenView::Char(ch, Category::Parameter) => spec_replacement_text(
                                    cat,
                                    up3,
                                    l3,
                                    repl.push(MacroListElemView::Token(TokenView::Char(ch, Category::Parameter))),
                                    level,
                                ),
                                _ => match parameter_number_elem(t3) {
                                    Some(elem) => spec_replacement_text(cat, up3, l3, repl.push(elem), level),
                                    None => (Err(TeXError::InvalidParameter), up3, l3),
                                },
                            }
                        },
                    }
                },
                _ => spec_replacement_text(cat, up2, l2, repl.push(MacroListElemView::Token(t)), level),
            }
        }
    }
}

/// Reads a macro definition after its name: the parameter text, then the
/// replacement text; the `{` that a final `#` puts in the parameter text
/// also ends the replacement text. The parameters must be numbered in
/// order and the replacement text may only name them.
pub open spec fn spec_macro_definition(cat: spec_fn(char) -> Category, up: Seq<TokenView>, l: LexerView) -> (
    Result<MacroView, TeXError>,
    Seq<TokenView>,
    LexerView,
) {
    let (r, up2, l2) = spec_parameter_text(cat, up, l, Seq::empty());
    match r {
        Err(e) => (Err(e), up2, l2),
        Ok((params, final_tok)) => {
            let (r3, up3, l3) = spec_replacement_text(cat, up2, l2, Seq::empty(), 0);
            match r3 {
                Err(e) => (Err(e), up3, l3),
                Ok(repl0) => {
                    let repl = match final_tok {
                        Some(t) => repl0.push(MacroListElemView::Token(t)),
                        None => repl0,
                    };
                    if valid_macro(params, repl) {
                        (Ok(MacroView { parameter_list: params, replacement_list: repl }), up3, l3)
                    } else {
                        (Err(TeXError::InvalidParameter), up3, l3)
                    }
                },
            }
        },
    }
}

/// What an undelimited parameter reads: one token, or the tokens inside a
/// balanced group.
pub enum GroupView {
    Single(TokenView),
    Balanced(TokenView, Seq<TokenView>, TokenView),
}

/// Reads a balanced text, after the tokens `acc` and inside `level` open
/// groups, up to the `}` that closes it; gives the text and that `}`.
pub open spec fn spec_balanced_text(
    cat: spec_fn(char) -> Category,
    up: Seq<TokenView>,
    l: LexerView,
    acc: Seq<TokenView>,
    level: nat,
) -> (Result<(Seq<TokenView>, TokenView), TeXError>, Seq<TokenView>, LexerView)
    decreases input_size(up, l),
{
    let (r, up2, l2) = required_token(cat, up, l);
    match r {
        Err(e) => (Err(e), up2, l2),
        Ok(t) => if !moved_on(up, l, up2, l2) {
            (Err(TeXError::UnexpectedEnd), up2, l2)
        } else {
            match t {
                TokenView::Char(_, Category::BeginGroup) => if level >= u64::MAX {
                    (Err(TeXError::ExpansionLimit), up2, l2)
                } else {
                    spec_balanced_text(cat, up2, l2, acc.push(t), level + 1)
                },
                TokenView::Char(_, Category::EndGroup) => if level == 0 {
                    (Ok((acc, t)), up2, l2)
                } else {
                    spec_balanced_text(cat, up2, l2, acc.push(t), (level - 1) as nat)
                },
                _ => spec_balanced_text(cat, up2, l2, acc.push(t), level),
            }
        }
    }
}

/// Reads one token, or a `{` and the balanced group it opens.
pub open spec fn spec_single_or_group(cat: spec_fn(char) -> Category, up: Seq<TokenView>, l: LexerView) -> (
    Result<GroupView, TeXError>,
    Seq<TokenView>,
    LexerView,
) {
    let (r, up2, l2) = required_token(cat, up, l);
    match r {
        Err(e) => (Err(e), up2, l2),
        Ok(t) => match t {
            TokenView::Char(_, Category::BeginGroup) => {
                let (r3, up3, l3) = spec_balanced_text(cat, up2, l2, Seq::empty(), 0);
                match r3 {
                    Err(e) => (Err(e), up3, l3),
                    Ok((inner, close)) => (Ok(GroupView::Balanced(t, inner, close)), up3, l3),
                }
            },
            _ => (Ok(GroupView::Single(t)), up2, l2),
        },
    }
}

/// The tokens that a group read for a parameter gives.
pub open spec fn group_tokens(g: GroupView) -> Seq<TokenView> {
    match g {
        GroupView::Single(t) => seq![t],
        GroupView::Balanced(_, inner, _) => inner,
    }
}

/// The whole of a group read for a parameter, braces included.
pub open spec fn group_all_tokens(g: GroupView) -> Seq<TokenView> {
    match g {
        GroupView::Single(t) => seq![t],
        GroupView::Balanced(open, inner, close) => seq![open] + inner + seq![close],
    }
}

/// The last `k` of `new` are the first `k` delimiters.
pub open spec fn ends_with_delimiters(new: Seq<TokenView>, delims: Seq<MacroListElemView>, k: int) -> bool {
    &&& 0 <= k <= new.len()
    &&& k <= delims.len()
    &&& forall|j: int| 0 <= j < k ==> delims[j] == MacroListElemView::Token(#[trigger] new[new.len() - k + j])
}

/// The largest `k`, at most `from`, for which `new` ends with the first `k`
/// delimiters: how many of the tokens read last may still start the
/// delimiters.
pub open spec fn delimiter_overlap(new: Seq<TokenView>, delims: Seq<MacroListElemView>, from: int) -> int
    decreases from,
{
    if from <= 0 {
        0
    } else if ends_with_delimiters(new, delims, from) {
        from
    } else {
        delimiter_overlap(new, delims, from - 1)
    }
}

/// The most of the tokens read last that can start the delimiters.
pub open spec fn longest_overlap(new: Seq<TokenView>, delims: Seq<MacroListElemView>) -> int {
    delimiter_overlap(new, delims, if new.len() < delims.len() { new.len() as int } else { delims.len() as int })
}

/// Reads the tokens of a delimited parameter: tokens and groups up to the
/// first place where the delimiters `delims` come one after the other.
/// `pending` holds the tokens read last that match the first delimiters;
/// `result` holds the tokens of the parameter before them. After each token
/// read, the longest run of the last tokens that matches the start of the
/// delimiters stays pending, and the tokens before it go to the result; a
/// group read goes to the result with everything pending.
pub open spec fn spec_delimited(
    cat: spec_fn(char) -> Category,
    up: Seq<TokenView>,
    l: LexerView,
    delims: Seq<MacroListElemView>,
    result: Seq<TokenView>,
    pending: Seq<TokenView>,
) -> (Result<Seq<TokenView>, TeXError>, Seq<TokenView>, LexerView)
    decreases input_size(up, l),
{
    if pending.len() >= delims.len() {
        (Ok(result), up, l)
    } else {
        match delims[pending.len() as int] {
            MacroListElemView::Parameter(_) => (Err(TeXError::NonMatchingParameterText), up, l),
            MacroListElemView::Token(expected) => {
                let (r, up2, l2) = if expected matches TokenView::Char(_, Category::BeginGroup) {
                    let (r0, u, v) = required_token(cat, up, l);
                    (
                        match r0 {
                            Ok(t) => Ok(GroupView::Single(t)),
                            Err(e) => Err(e),
                        },
                        u,
                        v,
                    )
                } else {
                    spec_single_or_group(cat, up, l)
                };
                match r {
                    Err(e) => (Err(e), up2, l2),
                    Ok(g) => if !moved_on(up, l, up2, l2) {
                        (Err(TeXError::UnexpectedEnd), up2, l2)
                    } else {
                        match g {
                            GroupView::Single(t) => {
                                let new = pending.push(t);
                                let cut = new.len() - longest_overlap(new, delims);
                                spec_delimited(cat, up2, l2, delims, result + new.take(cut), new.skip(cut))
                            },
                            GroupView::Balanced(_, _, _) => spec_delimited(
                                cat,
                                up2,
                                l2,
                                delims,
                                result + pending + group_all_tokens(g),
                                Seq::empty(),
                            ),
                        }
                    },
                }
            },
        }
    }
}

/// The index of the first element from `i` on that is not a token: the
/// end of the delimiters that follow a parameter.
pub open spec fn next_non_token(params: Seq<MacroListElemView>, i: int) -> int
    decreases params.len() - i,
{
    if i < 0 || i >= params.len() {
        params.len() as int
    } else if params[i] is Token {
        next_non_token(params, i + 1)
    } else {
        i
    }
}

/// Reads the arguments of a macro whose parameter text is `params`, from
/// element `index` on, with the arguments read so far in `map`: a
/// parameter followed by tokens is delimited by them; one that is not is
/// undelimited and reads one token or group after optional spaces; a token
/// of the parameter text must come as it is.
pub open spec fn spec_arguments(
    cat: spec_fn(char) -> Category,
    up: Seq<TokenView>,
    l: LexerView,
    params: Seq<MacroListElemView>,
    index: int,
    map: Map<usize, Seq<TokenView>>,
) -> (Result<Map<usize, Seq<TokenView>>, TeXError>, Seq<TokenView>, LexerView)
    decreases params.len() - index,
{
    if index < 0 || index >= params.len() {
        (Ok(map), up, l)
    } else {
        match params[index] {
            MacroListElemView::Parameter(n) => if index + 1 < params.len() && params[index + 1] is Token {
                let end = next_non_token(params, index + 1);
                let (r, up2, l2) = spec_delimited(
                    cat,
                    up,
                    l,
                    params.subrange(index + 1, end),
                    Seq::empty(),
                    Seq::empty(),
                );
                match r {
                    Err(e) => (Err(e), up2, l2),
                    Ok(toks) => if index < end <= params.len() {
                        spec_arguments(cat, up2, l2, params, end, map.insert(n, toks))
                    } else {
                        (Err(TeXError::NonMatchingParameterText), up2, l2)
                    },
                }
            } else {
                let (r, up2, l2) = crate::parser::primitives::skip_spaces(cat, up, l);
                match r {
                    Err(e) => (Err(e), up2, l2),
                    Ok(()) => {
                        let (r3, up3, l3) = spec_single_or_group(cat, up2, l2);
                        match r3 {
                            Err(e) => (Err(e), up3, l3),
                            Ok(g) => spec_arguments(cat, up3, l3, params, index + 1, map.insert(n, group_tokens(g))),
                        }
                    },
                }
            },
            MacroListElemView::Token(search) => {
                let (r, up2, l2) = required_token(cat, up, l);
                match r {
                    Err(e) => (Err(e), up2, l2),
                    Ok(t) => if t == search {
                        spec_arguments(cat, up2, l2, params, index + 1, map)
                    } else {
                        (Err(TeXError::NonMatchingParameterText), up2, l2)
                    },
                }
            },
        }
    }
}

/// The views of the token lists of a map of arguments.
pub open spec fn argument_views(m: Map<usize, Vec<Token>>) -> Map<usize, Seq<TokenView>> {
    m.map_values(|v: Vec<Token>| token_views(v@))
}

impl Parser {
    /// Reads the next unexpanded token, failing at the end of the input.
    fn lex_required_token(&mut self) -> (r: Result<Token, TeXError>)
        requires
            old(self).wf(),
        ensures
            unexpanded_frame(*old(self), *final(self)),
            r is Ok ==> final(self).input_left() < old(self).input_left(),
            match old(self).next_unexpanded() {
                (Ok(Some(t)), up, l) => r matches Ok(tok) && tok@ == t && final(self).upcoming() == up
                    && final(self).lexer_view() == l,
                (Ok(None), up, l) => r == Err::<Token, TeXError>(TeXError::UnexpectedEnd)
                    && final(self).upcoming() == up && final(self).lexer_view() == l,
                (Err(e), up, l) => r == Err::<Token, TeXError>(e) && final(self).upcoming() == up
                    && final(self).lexer_view() == l,
            },
    {
        let r = match self.lex_unexpanded_token() {
            Err(e) => Err(e),
            Ok(None) => Err(TeXError::UnexpectedEnd),
            Ok(Some(t)) => Ok(t),
        };
        proof {
            self.lemma_input_left();
        }
        r
    }

    /// Reads the parameter text of a definition, up to the `{` of the
    /// replacement text.
    fn parse_parameter_text(&mut self) -> (r: Result<(Vec<MacroListElem>, Option<Token>), TeXError>)
        requires
            old(self).wf(),
        ensures
            unexpanded_frame(*old(self), *final(self)),
            match spec_parameter_text(
                old(self).state.category_fn(),
                old(self).upcoming(),
                old(self).lexer_view(),
                Seq::empty(),
            ) {
                (Ok((params, final_tok)), up, l) => {
                    &&& r matches Ok((ps, ft)) && elem_views(ps@) == params && match ft {
                        Some(t) => final_tok == Some(t@),
                        None => final_tok is None,
                    }
                    &&& final(self).upcoming() == up
                    &&& final(self).lexer_view() == l
                },
                (Err(e), up, l) => r matches Err(e2) && e2 == e && final(self).upcoming() == up
                    && final(self).lexer_view() == l,
            },
    {
        let ghost cat = self.state.category_fn();
        let ghost target = spec_parameter_text(cat, self.upcoming(), self.lexer_view(), Seq::empty());
        proof {
            self.lemma_input_left();
        }
        let mut parameter_list: Vec<MacroListElem> = Vec::new();
        assert(elem_views(parameter_list@) =~= Seq::<MacroListElemView>::empty());
        loop
            invariant
                unexpanded_frame(*old(self), *self),
                cat == self.state.category_fn(),
                spec_parameter_text(cat, self.upcoming(), self.lexer_view(), elem_views(parameter_list@)) == target,
                target == spec_parameter_text(cat, old(self).upcoming(), old(self).lexer_view(), Seq::empty()),
                cat == old(self).state.category_fn(),
            decreases self.input_left(),
        {
            let ghost up = self.upcoming();
            let ghost l = self.lexer_view();
            let ghost params = elem_views(parameter_list@);
            let token = match self.lex_required_token() {
                Err(e) => {
                    return Err(e);
                },
                Ok(t) => t,
            };
            match token {
                Token::Char(_, Category::BeginGroup) => {
                    return Ok((parameter_list, None));
                },
                Token::Char(_, Category::Parameter) => {
                    let next = match self.lex_required_token() {
                        Err(e) => {
                            return Err(e);
                        },
                        Ok(t) => t,
                    };
                    match next {
                        Token::Char(ch, Category::BeginGroup) => {
                            parameter_list.push(MacroListElem::Token(Token::Char(ch, Category::BeginGroup)));
                            assert(elem_views(parameter_list@) =~= params.push(
                                MacroListElemView::Token(TokenView::Char(ch, Category::BeginGroup)),
                            ));
                            return Ok((parameter_list, Some(Token::Char(ch, Category::BeginGroup))));
                        },
                        Token::Char(ch, Category::Other) => {
                            match parse_parameter_number(ch) {
                                Err(e) => {
                                    return Err(e);
                                },
                                Ok(index) => {
                                    parameter_list.push(MacroListElem::Parameter(index));
                                    assert(elem_views(parameter_list@) =~= params.push(
                                        MacroListElemView::Parameter(index),
                                    ));
                                },
                            }
                        },
                        _ => {
                            return Err(TeXError::InvalidParameter);
                        },
                    }
                },
                other => {
                    let ghost tv = other@;
                    parameter_list.push(MacroListElem::Token(other));
                    assert(elem_views(parameter_list@) =~= params.push(MacroListElemView::Token(tv)));
                },
            }
        }
    }

    /// Reads the replacement text of a definition, up to the `}` that closes
    /// it.
    fn parse_replacement_text(&mut self) -> (r: Result<Vec<MacroListElem>, TeXError>)
        requires
            old(self).wf(),
        ensures
            unexpanded_frame(*old(self), *final(self)),
            match spec_replacement_text(
                old(self).state.category_fn(),
                old(self).upcoming(),
                old(self).lexer_view(),
                Seq::empty(),
                0,
            ) {
                (Ok(repl), up, l) => {
                    &&& r matches Ok(rs) && elem_views(rs@) == repl
                    &&& final(self).upcoming() == up
                    &&& final(self).lexer_view() == l
                },
                (Err(e), up, l) => r matches Err(e2) && e2 == e && final(self).upcoming() == up
                    && final(self).lexer_view() == l,
            },
    {
        let ghost cat = self.state.category_fn();
        let ghost target = spec_replacement_text(cat, self.upcoming(), self.lexer_view(), Seq::empty(), 0);
        proof {
            self.lemma_input_left();
        }
        let mut replacement_list: Vec<MacroListElem> = Vec::new();
        let mut group_level: u64 = 0;
        assert(elem_views(replacement_list@) =~= Seq::<MacroListElemView>::empty());
        loop
            invariant
                unexpanded_frame(*old(self), *self),
                cat == self.state.category_fn(),
                spec_replacement_text(
                    cat,
                    self.upcoming(),
                    self.lexer_view(),
                    elem_views(replacement_list@),
                    group_level as nat,
                ) == target,
                target == spec_replacement_text(cat, old(self).upcoming(), old(self).lexer_view(), Seq::empty(), 0),
                cat == old(self).state.category_fn(),
            decreases self.input_left(),
        {
            let ghost repl = elem_views(replacement_list@);
            let token = match self.lex_required_token() {
                Err(e) => {
                    return Err(e);
                },
                Ok(t) => t,
            };
            match token {
                Token::Char(ch, Category::EndGroup) => {
                    if group_level == 0 {
                        return Ok(replacement_list);
                    } else {
                        replacement_list.push(MacroListElem::Token(Token::Char(ch, Category::EndGroup)));
                        assert(elem_views(replacement_list@) =~= repl.push(
                            MacroListElemView::Token(TokenView::Char(ch, Category::EndGroup)),
                        ));
                        group_level = group_level - 1;
                    }
                },
                Token::Char(ch, Category::BeginGroup) => {
                    if group_level == u64::MAX {
                        return Err(TeXError::ExpansionLimit);
                    }
                    replacement_list.push(MacroListElem::Token(Token::Char(ch, Category::BeginGroup)));
                    assert(elem_views(replacement_list@) =~= repl.push(
                        MacroListElemView::Token(TokenView::Char(ch, Category::BeginGroup)),
                    ));
                    group_level = group_level + 1;
                },
                Token::Char(_, Category::Parameter) => {
                    let next = match self.lex_required_token() {
                        Err(e) => {
                            return Err(e);
                        },
                        Ok(t) => t,
                    };
                    match next {
                        Token::Char(ch, Category::Parameter) => {
                            replacement_list.push(MacroListElem::Token(Token::Char(ch, Category::Parameter)));
                            assert(elem_views(replacement_list@) =~= repl.push(
                                MacroListElemView::Token(TokenView::Char(ch, Category::Parameter)),
                            ));
                        },
                        Token::Char(ch, Category::Other) => {
                            match parse_parameter_number(ch) {
                                Err(e) => {
                                    return Err(e);
                                },
                                Ok(index) => {
                                    replacement_list.push(MacroListElem::Parameter(index));
                                    assert(elem_views(replacement_list@) =~= repl.push(
                                        MacroListElemView::Parameter(index),
                                    ));
                                },
                            }
                        },
                        _ => {
                            return Err(TeXError::InvalidParameter);
                        },
                    }
                },
                other => {
                    let ghost tv = other@;
                    replacement_list.push(MacroListElem::Token(other));
                    assert(elem_views(replacement_list@) =~= repl.push(MacroListElemView::Token(tv)));
                },
            }
        }
    }

    /// Parses the parameter text and the replacement text of a macro
    /// definition, after the name: everything up to the `}` that closes the
    /// replacement text.
    ///
    /// A definition cut off by the end of the input is refused with an error, not ruled out by `requires`:
    /// the parser meets it in the middle of expanded reading (inside a
    /// macro, a conditional or a number), where no caller can check the
    /// input beforehand, so every reader of the parser reports such input
    /// as a `TeXError` and says in its contract which error on which input.
    pub fn parse_macro_definition(&mut self) -> (r: Result<Macro, TeXError>)
        requires
            old(self).wf(),
        ensures
            unexpanded_frame(*old(self), *final(self)),
            match spec_macro_definition(old(self).state.category_fn(), old(self).upcoming(), old(self).lexer_view()) {
                (Ok(mv), up, l) => {
                    &&& r matches Ok(m) && m@ == mv && m.is_valid()
                    &&& final(self).upcoming() == up
                    &&& final(self).lexer_view() == l
                },
                (Err(e), up, l) => r matches Err(e2) && e2 == e && final(self).upcoming() == up
                    && final(self).lexer_view() == l,
            },
    {
        let (parameter_list, maybe_final_tok) = match self.parse_parameter_text() {
            Err(e) => {
                return Err(e);
            },
            Ok(p) => p,
        };
        let mut replacement_list = match self.parse_replacement_text() {
            Err(e) => {
                return Err(e);
            },
            Ok(r) => r,
        };
        let ghost repl0 = elem_views(replacement_list@);
        match maybe_final_tok {
            Some(token) => {
                let ghost tv = token@;
                replacement_list.push(MacroListElem::Token(token));
                assert(elem_views(replacement_list@) =~= repl0.push(MacroListElemView::Token(tv)));
            },
            None => {},
        }
        if Macro::validate(&parameter_list, &replacement_list) {
            Ok(Macro::new(parameter_list, replacement_list))
        } else {
            Err(TeXError::InvalidParameter)
        }
    }

    /// Reads a balanced text up to the `}` that closes it; gives the text
    /// and that `}`.
    fn parse_balanced_text(&mut self) -> (r: Result<(Vec<Token>, Token), TeXError>)
        requires
            old(self).wf(),
        ensures
            unexpanded_frame(*old(self), *final(self)),
            r is Ok ==> final(self).input_left() < old(self).input_left(),
            match spec_balanced_text(
                old(self).state.category_fn(),
                old(self).upcoming(),
                old(self).lexer_view(),
                Seq::empty(),
                0,
            ) {
                (Ok((acc, close)), up, l) => {
                    &&& r matches Ok((v, c)) && token_views(v@) == acc && c@ == close
                    &&& final(self).upcoming() == up
                    &&& final(self).lexer_view() == l
                },
                (Err(e), up, l) => r matches Err(e2) && e2 == e && final(self).upcoming() == up
                    && final(self).lexer_view() == l,
            },
    {
        let ghost cat = self.state.category_fn();
        let ghost target = spec_balanced_text(cat, self.upcoming(), self.lexer_view(), Seq::empty(), 0);
        proof {
            self.lemma_input_left();
        }
        let mut result: Vec<Token> = Vec::new();
        let mut group_level: u64 = 0;
        assert(token_views(result@) =~= Seq::<TokenView>::empty());
        loop
            invariant
                unexpanded_frame(*old(self), *self),
                cat == old(self).state.category_fn(),
                cat == self.state.category_fn(),
                target == spec_balanced_text(cat, old(self).upcoming(), old(self).lexer_view(), Seq::empty(), 0),
                spec_balanced_text(cat, self.upcoming(), self.lexer_view(), token_views(result@), group_level as nat)
                    == target,
                group_level > 0 || result@.len() == 0 ==> true,
                (group_level > 0 || result@.len() > 0) ==> self.input_left() < old(self).input_left(),
            decreases self.input_left(),
        {
            let ghost acc = token_views(result@);
            let token = match self.lex_required_token() {
                Err(e) => {
                    return Err(e);
                },
                Ok(t) => t,
            };
            let ghost tv = token@;
            match token {
                Token::Char(ch, Category::BeginGroup) => {
                    if group_level == u64::MAX {
                        return Err(TeXError::ExpansionLimit);
                    }
                    group_level = group_level + 1;
                    result.push(Token::Char(ch, Category::BeginGroup));
                    assert(token_views(result@) =~= acc.push(tv));
                },
                Token::Char(ch, Category::EndGroup) => {
                    if group_level == 0 {
                        return Ok((result, Token::Char(ch, Category::EndGroup)));
                    } else {
                        group_level = group_level - 1;
                        result.push(Token::Char(ch, Category::EndGroup));
                        assert(token_views(result@) =~= acc.push(tv));
                    }
                },
                other => {
                    result.push(other);
                    assert(token_views(result@) =~= acc.push(tv));
                },
            }
        }
    }

    /// Reads one token or, if it is a `{`, a whole balanced group.
    fn parse_single_token_or_balanced_text(&mut self) -> (r: Result<SingleTokenGroup, TeXError>)
        requires
            old(self).wf(),
        ensures
            unexpanded_frame(*old(self), *final(self)),
            r is Ok ==> final(self).input_left() < old(self).input_left(),
            match spec_single_or_group(old(self).state.category_fn(), old(self).upcoming(), old(self).lexer_view()) {
                (Ok(g), up, l) => {
                    &&& r matches Ok(rg) && group_view(rg) == g
                    &&& final(self).upcoming() == up
                    &&& final(self).lexer_view() == l
                },
                (Err(e), up, l) => r matches Err(e2) && e2 == e && final(self).upcoming() == up
                    && final(self).lexer_view() == l,
            },
    {
        let token = match self.lex_required_token() {
            Err(e) => {
                return Err(e);
            },
            Ok(t) => t,
        };
        match token {
            Token::Char(ch, Category::BeginGroup) => match self.parse_balanced_text() {
                Err(e) => Err(e),
                Ok((inner, close)) => Ok(
                    SingleTokenGroup::BalancedGroup(Token::Char(ch, Category::BeginGroup), inner, close),
                ),
            },
            other => Ok(SingleTokenGroup::SingleToken(other)),
        }
    }

    /// Reads the tokens of a delimited parameter: tokens and balanced groups
    /// up to the first place where the delimiters, the elements of the
    /// parameter text from `start` to `end`, come.
    fn parse_delimited_tokens(&mut self, makro: &Macro, start: usize, end: usize) -> (r: Result<
        Vec<Token>,
        TeXError,
    >)
        requires
            old(self).wf(),
            start <= end <= makro@.parameter_list.len(),
        ensures
            unexpanded_frame(*old(self), *final(self)),
            match spec_delimited(
                old(self).state.category_fn(),
                old(self).upcoming(),
                old(self).lexer_view(),
                makro@.parameter_list.subrange(start as int, end as int),
                Seq::empty(),
                Seq::empty(),
            ) {
                (Ok(toks), up, l) => {
                    &&& r matches Ok(v) && token_views(v@) == toks
                    &&& final(self).upcoming() == up
                    &&& final(self).lexer_view() == l
                },
                (Err(e), up, l) => r matches Err(e2) && e2 == e && final(self).upcoming() == up
                    && final(self).lexer_view() == l,
            },
    {
        let ghost cat = self.state.category_fn();
        let ghost delims = makro@.parameter_list.subrange(start as int, end as int);
        let ghost target = spec_delimited(
            cat,
            self.upcoming(),
            self.lexer_view(),
            delims,
            Seq::empty(),
            Seq::empty(),
        );
        proof {
            self.lemma_input_left();
        }
        let params = makro.parameter_list();
        let mut result_tokens: Vec<Token> = Vec::new();
        let mut pending: Vec<Token> = Vec::new();
        assert(token_views(result_tokens@) =~= Seq::<TokenView>::empty());
        assert(token_views(pending@) =~= Seq::<TokenView>::empty());
        while pending.len() < end - start
            invariant
                unexpanded_frame(*old(self), *self),
                start <= end <= params@.len(),
                elem_views(params@) == makro@.parameter_list,
                delims == makro@.parameter_list.subrange(start as int, end as int),
                cat == old(self).state.category_fn(),
                cat == self.state.category_fn(),
                target == spec_delimited(
                    cat,
                    old(self).upcoming(),
                    old(self).lexer_view(),
                    delims,
                    Seq::empty(),
                    Seq::empty(),
                ),
                spec_delimited(
                    cat,
                    self.upcoming(),
                    self.lexer_view(),
                    delims,
                    token_views(result_tokens@),
                    token_views(pending@),
                ) == target,
            decreases self.input_left(),
        {
            let ghost res = token_views(result_tokens@);
            let ghost pend = token_views(pending@);
            let at = start + pending.len();
            assert(delims[pending@.len() as int] == elem_views(params@)[at as int]);
            let expected = match &params[at] {
                MacroListElem::Token(tok) => tok,
                MacroListElem::Parameter(_) => {
                    return Err(TeXError::NonMatchingParameterText);
                },
            };
            let is_begin_group = match expected {
                Token::Char(_, Category::BeginGroup) => true,
                _ => false,
            };
            let group = if is_begin_group {
                match self.lex_required_token() {
                    Err(e) => {
                        return Err(e);
                    },
                    Ok(t) => SingleTokenGroup::SingleToken(t),
                }
            } else {
                match self.parse_single_token_or_balanced_text() {
                    Err(e) => {
                        return Err(e);
                    },
                    Ok(g) => g,
                }
            };
            match group {
                SingleTokenGroup::SingleToken(check_token) => {
                    let ghost tv = check_token@;
                    pending.push(check_token);
                    let ghost new = pend.push(tv);
                    assert(token_views(pending@) =~= new);
                    let k = longest_delimiter_overlap(&pending, params, start, end);
                    let cut = pending.len() - k;
                    let mut rest = pending.split_off(cut);
                    assert(token_views(pending@) =~= new.take(cut as int));
                    assert(token_views(rest@) =~= new.skip(cut as int));
                    result_tokens.append(&mut pending);
                    assert(token_views(result_tokens@) =~= res + new.take(cut as int));
                    pending = rest;
                },
                SingleTokenGroup::BalancedGroup(open, mut inner, close) => {
                    let ghost g = GroupView::Balanced(open@, token_views(inner@), close@);
                    result_tokens.append(&mut pending);
                    result_tokens.push(open);
                    result_tokens.append(&mut inner);
                    result_tokens.push(close);
                    assert(token_views(result_tokens@) =~= res + pend + group_all_tokens(g));
                    assert(token_views(pending@) =~= Seq::<TokenView>::empty());
                },
            }
        }
        Ok(result_tokens)
    }

    /// Reads the arguments of a macro from the input, as its parameter text
    /// asks, and gives the tokens of each parameter by its number.
    ///
    /// Input that does not match the parameter text is refused with an error, not ruled out by `requires`:
    /// the parser meets it in the middle of expanded reading (inside a
    /// macro, a conditional or a number), where no caller can check the
    /// input beforehand, so every reader of the parser reports such input
    /// as a `TeXError` and says in its contract which error on which input.
    #[verifier::rlimit(80)]
    #[verifier::spinoff_prover]
    pub fn parse_replacement_map(&mut self, makro: &Macro) -> (r: Result<
        HashMap<usize, Vec<Token>>,
        TeXError,
    >)
        requires
            old(self).wf(),
        ensures
            unexpanded_frame(*old(self), *final(self)),
            r matches Ok(map) ==> forall|i: int|
                0 <= i < makro@.parameter_list.len() && (#[trigger] makro@.parameter_list[i]) is Parameter
                    ==> map@.contains_key(makro@.parameter_list[i]->Parameter_0),
            match spec_arguments(
                old(self).state.category_fn(),
                old(self).upcoming(),
                old(self).lexer_view(),
                makro@.parameter_list,
                0,
                Map::empty(),
            ) {
                (Ok(m), up, l) => {
                    &&& r matches Ok(map) && argument_views(map@) == m
                    &&& final(self).upcoming() == up
                    &&& final(self).lexer_view() == l
                },
                (Err(e), up, l) => {
                    &&& r matches Err(e2) && e2 == e
                    &&& final(self).upcoming() == up
                    &&& final(self).lexer_view() == l
                },
            },
    {
        let ghost cat = self.state.category_fn();
        let ghost pv = makro@.parameter_list;
        let ghost target = spec_arguments(cat, self.upcoming(), self.lexer_view(), pv, 0, Map::empty());
        proof {
            self.lemma_input_left();
        }
        let params = makro.parameter_list();
        let mut replacement_map: HashMap<usize, Vec<Token>> = HashMap::new();
        assert(argument_views(replacement_map@) =~= Map::<usize, Seq<TokenView>>::empty());
        let mut index: usize = 0;
        while index < params.len()
            invariant
                unexpanded_frame(*old(self), *self),
                index <= params@.len(),
                elem_views(params@) == makro@.parameter_list,
                pv == makro@.parameter_list,
                cat == old(self).state.category_fn(),
                cat == self.state.category_fn(),
                target == spec_arguments(cat, old(self).upcoming(), old(self).lexer_view(), pv, 0, Map::empty()),
                spec_arguments(cat, self.upcoming(), self.lexer_view(), pv, index as int, argument_views(replacement_map@))
                    == target,
                forall|i: int|
                    0 <= i < index && (#[trigger] makro@.parameter_list[i]) is Parameter
                        ==> replacement_map@.contains_key(makro@.parameter_list[i]->Parameter_0),
            decreases params.len() - index,
        {
            let ghost at = index as int;
            let ghost mv = argument_views(replacement_map@);
            assert(pv[at] == elem_views(params@)[at]);
            match &params[index] {
                MacroListElem::Parameter(parameter_index) => {
                    let is_delimited = index + 1 < params.len() && match &params[index + 1] {
                        MacroListElem::Token(_) => true,
                        _ => false,
                    };
                    if index + 1 < params.len() {
                        assert(pv[at + 1] == elem_views(params@)[at + 1]);
                    }
                    let toks = if is_delimited {
                        let mut end = index + 1;
                        loop
                            invariant
                                unexpanded_frame(*old(self), *self),
                                forall|i: int|
                                    0 <= i < index && (#[trigger] makro@.parameter_list[i]) is Parameter
                                        ==> replacement_map@.contains_key(makro@.parameter_list[i]->Parameter_0),
                                index + 1 <= end <= params@.len(),
                                at == index,
                                elem_views(params@) == makro@.parameter_list,
                                pv == makro@.parameter_list,
                                forall|j: int| at < j < end ==> (#[trigger] pv[j]) is Token,
                            ensures
                                index + 1 <= end <= params@.len(),
                                forall|j: int| at < j < end ==> (#[trigger] pv[j]) is Token,
                                end >= params@.len() || !(pv[end as int] is Token),
                                unexpanded_frame(*old(self), *self),
                                forall|i: int|
                                    0 <= i < index && (#[trigger] makro@.parameter_list[i]) is Parameter
                                        ==> replacement_map@.contains_key(makro@.parameter_list[i]->Parameter_0),
                            decreases params.len() - end,
                        {
                            if end >= params.len() {
                                break ;
                            }
                            let is_token = match &params[end] {
                                MacroListElem::Token(_) => true,
                                _ => false,
                            };
                            assert(pv[end as int] == elem_views(params@)[end as int]);
                            if !is_token {
                                break ;
                            }
                            end = end + 1;
                        }
                        proof {
                            lemma_next_non_token(pv, at + 1, end as int);
                        }
                        let delimited = match self.parse_delimited_tokens(makro, index + 1, end) {
                            Err(e) => {
                                return Err(e);
                            },
                            Ok(t) => t,
                        };
                        index = end;
                        delimited
                    } else {
                        index = index + 1;
                        match self.parse_optional_spaces_unexpanded() {
                            Err(e) => {
                                proof {
                                    self.lemma_input_left();
                                }
                                return Err(e);
                            },
                            Ok(()) => {},
                        }
                        proof {
                            self.lemma_input_left();
                        }
                        match self.parse_single_token_or_balanced_text() {
                            Err(e) => {
                                return Err(e);
                            },
                            Ok(SingleTokenGroup::SingleToken(t)) => {
                                let ghost tv = t@;
                                let v = vec![t];
                                assert(token_views(v@) =~= seq![tv]);
                                v
                            },
                            Ok(SingleTokenGroup::BalancedGroup(_, inner, _)) => inner,
                        }
                    };
                    assert(makro@.parameter_list[at] is Parameter);
                    assert(forall|j: int|
                        at < j < index ==> !(#[trigger] makro@.parameter_list[j] is Parameter));
                    let ghost tv = token_views(toks@);
                    replacement_map.insert(*parameter_index, toks);
                    assert(argument_views(replacement_map@) =~= mv.insert(*parameter_index, tv));
                    assert forall|i: int|
                        0 <= i < index && (#[trigger] makro@.parameter_list[i]) is Parameter implies replacement_map@.contains_key(
                        makro@.parameter_list[i]->Parameter_0,
                    ) by {
                        if i > at {
                            assert(!(makro@.parameter_list[i] is Parameter));
                        }
                    }
                },
                MacroListElem::Token(search_token) => {
                    let found = match self.lex_required_token() {
                        Err(e) => {
                            return Err(e);
                        },
                        Ok(t) => t,
                    };
                    if !found.equals(search_token) {
                        return Err(TeXError::NonMatchingParameterText);
                    }
                    index = index + 1;
                },
            }
        }
        Ok(replacement_map)
    }
}

/// The tokens given to each parameter by a map of arguments.
pub open spec fn argument_values(m: Map<usize, Seq<TokenView>>) -> spec_fn(usize) -> Seq<TokenView> {
    |n: usize| m[n]
}

/// The text of a replacement list is the same under two ways of giving
/// its parameters tokens that agree on each of its parameters.
pub proof fn lemma_expand_replacement_agree(
    repl: Seq<MacroListElemView>,
    f: spec_fn(usize) -> Seq<TokenView>,
    g: spec_fn(usize) -> Seq<TokenView>,
)
    requires
        forall|i: int| 0 <= i < repl.len() && (#[trigger] repl[i]) is Parameter ==> f(repl[i]->Parameter_0) == g(
            repl[i]->Parameter_0,
        ),
    ensures
        expand_replacement(repl, f) == expand_replacement(repl, g),
    decreases repl.len(),
{
    if repl.len() > 0 {
        let rest = repl.drop_last();
        assert forall|i: int| 0 <= i < rest.len() && (#[trigger] rest[i]) is Parameter implies f(
            rest[i]->Parameter_0,
        ) == g(rest[i]->Parameter_0) by {
            assert(rest[i] == repl[i]);
        }
        lemma_expand_replacement_agree(rest, f, g);
        if repl.last() is Parameter {
            assert(repl[repl.len() - 1] is Parameter);
        }
    }
}

impl Parser {
    /// Reads the arguments of a macro and puts its replacement text, with
    /// each parameter replaced by its argument, back into the input: it is
    /// what is read next.
    pub fn expand_macro(&mut self, makro: &Macro) -> (r: Result<(), TeXError>)
        requires
            old(self).wf(),
            makro.is_valid(),
        ensures
            final(self).wf(),
            final(self).state == old(self).state,
            final(self).budget() == old(self).budget(),
            final(self).depth() == old(self).depth(),
            final(self).lexer_view().source == old(self).lexer_view().source,
            match spec_arguments(
                old(self).state.category_fn(),
                old(self).upcoming(),
                old(self).lexer_view(),
                makro@.parameter_list,
                0,
                Map::empty(),
            ) {
                (Ok(m), up, l) => {
                    &&& r is Ok
                    &&& final(self).lexer_view() == l
                    &&& final(self).upcoming() == up + expand_replacement(
                        makro@.replacement_list,
                        argument_values(m),
                    ).reverse()
                },
                (Err(e), up, l) => {
                    &&& r == Err::<(), TeXError>(e)
                    &&& final(self).upcoming() == up
                    &&& final(self).lexer_view() == l
                },
            },
    {
        let map = match self.parse_replacement_map(makro) {
            Err(e) => {
                return Err(e);
            },
            Ok(m) => m,
        };
        proof {
            makro.lemma_replacement_covered(map@);
            let m = argument_views(map@);
            let repl = makro@.replacement_list;
            assert forall|i: int| 0 <= i < repl.len() && (#[trigger] repl[i]) is Parameter implies crate::makro::parameter_values(
                map@,
            )(repl[i]->Parameter_0) == argument_values(m)(repl[i]->Parameter_0) by {
                assert(map@.contains_key(repl[i]->Parameter_0));
            }
            lemma_expand_replacement_agree(repl, crate::makro::parameter_values(map@), argument_values(m));
        }
        let replacement = makro.get_replacement(&map);
        self.add_upcoming_tokens(replacement);
        Ok(())
    }
}

/// The view of a group read for a parameter.
spec fn group_view(g: SingleTokenGroup) -> GroupView {
    match g {
        SingleTokenGroup::SingleToken(t) => GroupView::Single(t@),
        SingleTokenGroup::BalancedGroup(open, inner, close) => GroupView::Balanced(
            open@,
            token_views(inner@),
            close@,
        ),
    }
}

/// The first element from `i` on that is not a token is at `end`, when all
/// the elements from `i` to `end` are tokens and the one at `end` is not.
pub proof fn lemma_next_non_token(params: Seq<MacroListElemView>, i: int, end: int)
    requires
        0 <= i <= end <= params.len(),
        forall|j: int| i <= j < end ==> (#[trigger] params[j]) is Token,
        end < params.len() ==> !(params[end] is Token),
    ensures
        next_non_token(params, i) == end,
    decreases end - i,
{
    if i < end {
        lemma_next_non_token(params, i + 1, end);
    }
}

/// Whether `pending` ends with the first `k` delimiters, the elements of
/// `params` from `start` to `end`.
fn ends_with_delimiters_exec(pending: &Vec<Token>, params: &Vec<MacroListElem>, start: usize, end: usize, k: usize) -> (b: bool)
    requires
        start <= end <= params@.len(),
        k <= pending@.len(),
        k <= end - start,
    ensures
        b == ends_with_delimiters(
            token_views(pending@),
            elem_views(params@).subrange(start as int, end as int),
            k as int,
        ),
{
    let ghost new = token_views(pending@);
    let ghost delims = elem_views(params@).subrange(start as int, end as int);
    let n = pending.len();
    let base = n - k;
    let mut j: usize = 0;
    while j < k
        invariant
            start <= end <= params@.len(),
            k <= pending@.len(),
            k <= end - start,
            n == pending@.len(),
            base + k == n,
            new == token_views(pending@),
            delims == elem_views(params@).subrange(start as int, end as int),
            j <= k,
            forall|i: int| 0 <= i < j ==> delims[i] == MacroListElemView::Token(#[trigger] new[new.len() - k + i]),
        decreases k - j,
    {
        assert(delims[j as int] == params@[start + j]@);
        let same = match &params[start + j] {
            MacroListElem::Token(t) => pending[base + j].equals(t),
            MacroListElem::Parameter(_) => false,
        };
        if !same {
            assert(!(delims[j as int] == MacroListElemView::Token(new[new.len() - k + j])));
            return false;
        }
        j = j + 1;
    }
    true
}

/// The most of the last tokens of `pending` that match the start of the
/// delimiters, the elements of `params` from `start` to `end`.
fn longest_delimiter_overlap(pending: &Vec<Token>, params: &Vec<MacroListElem>, start: usize, end: usize) -> (k: usize)
    requires
        start <= end <= params@.len(),
    ensures
        k == longest_overlap(token_views(pending@), elem_views(params@).subrange(start as int, end as int)),
        k <= pending@.len(),
{
    let ghost new = token_views(pending@);
    let ghost delims = elem_views(params@).subrange(start as int, end as int);
    let m = if pending.len() < end - start { pending.len() } else { end - start };
    let mut k = m;
    while k > 0
        invariant
            start <= end <= params@.len(),
            k <= m,
            m <= pending@.len(),
            m <= end - start,
            new == token_views(pending@),
            delims == elem_views(params@).subrange(start as int, end as int),
            longest_overlap(new, delims) == delimiter_overlap(new, delims, k as int),
        decreases k,
    {
        if ends_with_delimiters_exec(pending, params, start, end, k) {
            return k;
        }
        k = k - 1;
    }
    0
}

} // verus!
