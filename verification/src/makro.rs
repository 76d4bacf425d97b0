use std::collections::HashMap;
use vstd::prelude::*;

use crate::token::{duplicate_tokens, token_views, Token, TokenView};

verus! {

broadcast use vstd::std_specs::hash::group_hash_axioms;

/// An element of a macro's parameter text or replacement text: a token, or
/// a numbered parameter.
#[derive(PartialEq, Eq, Debug)]
pub enum MacroListElem {
    Token(Token),
    Parameter(usize),
}

pub enum MacroListElemView {
    Token(TokenView),
    Parameter(usize),
}

impl View for MacroListElem {
    type V = MacroListElemView;

    open spec fn view(&self) -> MacroListElemView {
        match self {
            MacroListElem::Token(t) => MacroListElemView::Token(t@),
            MacroListElem::Parameter(n) => MacroListElemView::Parameter(*n),
        }
    }
}

pub open spec fn elem_views(s: Seq<MacroListElem>) -> Seq<MacroListElemView> {
    s.map_values(|e: MacroListElem| e@)
}

/// A macro: the text that its parameters are matched against, and the text
/// that replaces it.
#[derive(PartialEq, Eq, Debug)]
pub struct Macro {
    parameter_list: Vec<MacroListElem>,
    replacement_list: Vec<MacroListElem>,
}

pub struct MacroView {
    pub parameter_list: Seq<MacroListElemView>,
    pub replacement_list: Seq<MacroListElemView>,
}

impl View for Macro {
    type V = MacroView;

    closed spec fn view(&self) -> MacroView {
        MacroView {
            parameter_list: elem_views(self.parameter_list@),
            replacement_list: elem_views(self.replacement_list@),
        }
    }
}

/// The number of parameters among the first `n` elements of a list.
pub open spec fn count_parameters(s: Seq<MacroListElemView>, n: int) -> int
    decreases n,
{
    if n <= 0 {
        0
    } else {
        count_parameters(s, n - 1) + if s[n - 1] is Parameter {
            1int
        } else {
            0
        }
    }
}

/// The parameters of a parameter text are numbered 1, 2, ... in order.
pub open spec fn parameters_in_order(params: Seq<MacroListElemView>) -> bool {
    forall|i: int|
        0 <= i < params.len() && (#[trigger] params[i]) is Parameter ==> params[i]->Parameter_0
            == count_parameters(params, i) + 1
}

/// Every parameter of the replacement text is one of the parameter text.
pub open spec fn replacement_in_range(params: Seq<MacroListElemView>, repl: Seq<MacroListElemView>) -> bool {
    forall|i: int|
        0 <= i < repl.len() && (#[trigger] repl[i]) is Parameter ==> 1 <= repl[i]->Parameter_0
            <= count_parameters(params, params.len() as int)
}

/// Every number from 1 to the number of parameters of an ordered parameter
/// text is the number of one of its parameters.
pub proof fn lemma_parameters_present(params: Seq<MacroListElemView>, k: int, n: usize)
    requires
        parameters_in_order(params),
        0 <= k <= params.len(),
        1 <= n <= count_parameters(params, k),
    ensures
        exists|i: int| 0 <= i < k && params[i] == MacroListElemView::Parameter(n),
    decreases k,
{
    if k > 0 {
        if n <= count_parameters(params, k - 1) {
            lemma_parameters_present(params, k - 1, n);
            let i = choose|i: int| 0 <= i < k - 1 && params[i] == MacroListElemView::Parameter(n);
            assert(0 <= i < k && params[i] == MacroListElemView::Parameter(n));
        } else {
            assert(params[k - 1] is Parameter);
            assert(params[k - 1] == MacroListElemView::Parameter(n));
        }
    }
}

/// Whether a parameter text and a replacement text make a macro: the
/// parameters are numbered 1, 2, ... in order, and no parameter of the
/// replacement text has a number above theirs.
pub open spec fn accepted_macro(params: Seq<MacroListElemView>, repl: Seq<MacroListElemView>) -> bool {
    &&& parameters_in_order(params)
    &&& forall|i: int|
        0 <= i < repl.len() && (#[trigger] repl[i]) is Parameter ==> repl[i]->Parameter_0
            <= count_parameters(params, params.len() as int)
}

/// Whether a parameter text and a replacement text make a valid macro, one
/// that can be expanded: every parameter of its replacement text is one of
/// its parameter text.
pub open spec fn valid_macro(params: Seq<MacroListElemView>, repl: Seq<MacroListElemView>) -> bool {
    parameters_in_order(params) && replacement_in_range(params, repl)
}

/// The text that a replacement list expands to, with each parameter
/// replaced by the tokens that `values` gives it.
pub open spec fn expand_replacement(
    repl: Seq<MacroListElemView>,
    values: spec_fn(usize) -> Seq<TokenView>,
) -> Seq<TokenView>
    decreases repl.len(),
{
    if repl.len() == 0 {
        Seq::empty()
    } else {
        expand_replacement(repl.drop_last(), values) + match repl.last() {
            MacroListElemView::Token(t) => seq![t],
            MacroListElemView::Parameter(n) => values(n),
        }
    }
}

/// The token lists of a map from parameter numbers, by their views.
pub open spec fn parameter_values(m: Map<usize, Vec<Token>>) -> spec_fn(usize) -> Seq<TokenView> {
    |n: usize| token_views(m[n]@)
}

impl MacroListElem {
    pub fn duplicate(&self) -> (e: MacroListElem)
        ensures
            e@ == self@,
    {
        match self {
            MacroListElem::Token(t) => MacroListElem::Token(t.duplicate()),
            MacroListElem::Parameter(n) => MacroListElem::Parameter(*n),
        }
    }
}

fn duplicate_elems(s: &Vec<MacroListElem>) -> (r: Vec<MacroListElem>)
    ensures
        elem_views(r@) == elem_views(s@),
{
    let mut r: Vec<MacroListElem> = Vec::new();
    let mut i: usize = 0;
    while i < s.len()
        invariant
            i <= s.len(),
            r.len() == i,
            elem_views(r@) == elem_views(s@.subrange(0, i as int)),
        decreases s.len() - i,
    {
        let ghost old_r = r@;
        let e = s[i].duplicate();
        r.push(e);
        proof {
            assert(r@ == old_r.push(e));
            assert forall|j: int| 0 <= j < i + 1 implies #[trigger] elem_views(r@)[j] == elem_views(
                s@.subrange(0, i + 1),
            )[j] by {
                if j < i {
                    assert(elem_views(old_r)[j] == elem_views(s@.subrange(0, i as int))[j]);
                }
            }
        }
        i = i + 1;
        assert(elem_views(r@) =~= elem_views(s@.subrange(0, i as int)));
    }
    assert(s@.subrange(0, i as int) =~= s@);
    r
}

impl Macro {
    pub closed spec fn is_valid(&self) -> bool {
        valid_macro(self@.parameter_list, self@.replacement_list)
    }

    /// Checks whether a parameter text and a replacement text make a valid
    /// macro: the parameters are numbered 1, 2, ... in order, and the
    /// replacement text only names those parameters.
    pub fn validate(parameter_list: &Vec<MacroListElem>, replacement_list: &Vec<MacroListElem>) -> (b: bool)
        ensures
            b == valid_macro(elem_views(parameter_list@), elem_views(replacement_list@)),
    {
        let ghost params = elem_views(parameter_list@);
        let ghost repl = elem_views(replacement_list@);
        let mut num_parameters: usize = 0;
        let mut i: usize = 0;
        while i < parameter_list.len()
            invariant
                i <= parameter_list.len(),
                params == elem_views(parameter_list@),
                num_parameters == count_parameters(params, i as int),
                num_parameters <= i,
                forall|j: int|
                    0 <= j < i && (#[trigger] params[j]) is Parameter ==> params[j]->Parameter_0
                        == count_parameters(params, j) + 1,
            decreases parameter_list.len() - i,
        {
            if let MacroListElem::Parameter(param_num) = &parameter_list[i] {
                num_parameters = num_parameters + 1;
                if *param_num != num_parameters {
                    assert(params[i as int] is Parameter);
                    return false;
                }
            }
            i = i + 1;
        }
        let mut k: usize = 0;
        while k < replacement_list.len()
            invariant
                k <= replacement_list.len(),
                params == elem_views(parameter_list@),
                repl == elem_views(replacement_list@),
                parameters_in_order(params),
                num_parameters == count_parameters(params, params.len() as int),
                forall|j: int|
                    0 <= j < k && (#[trigger] repl[j]) is Parameter ==> 1 <= repl[j]->Parameter_0
                        <= num_parameters,
            decreases replacement_list.len() - k,
        {
            if let MacroListElem::Parameter(param_num) = &replacement_list[k] {
                if *param_num == 0 || *param_num > num_parameters {
                    assert(repl[k as int] is Parameter);
                    return false;
                }
            }
            k = k + 1;
        }
        true
    }

    /// Makes a macro from a parameter text whose parameters are numbered 1,
    /// 2, ... in order and a replacement text that names no parameter above
    /// them. It is valid, and can be expanded, where the replacement text
    /// has no parameter 0.
    pub fn new(parameter_list: Vec<MacroListElem>, replacement_list: Vec<MacroListElem>) -> (m: Macro)
        requires
            accepted_macro(elem_views(parameter_list@), elem_views(replacement_list@)),
        ensures
            m@.parameter_list == elem_views(parameter_list@),
            m@.replacement_list == elem_views(replacement_list@),
            m.is_valid() == valid_macro(elem_views(parameter_list@), elem_views(replacement_list@)),
    {
        Macro { parameter_list: parameter_list, replacement_list: replacement_list }
    }

    pub fn parameter_list(&self) -> (l: &Vec<MacroListElem>)
        ensures
            elem_views(l@) == self@.parameter_list,
    {
        &self.parameter_list
    }

    /// A macro equal to this one.
    pub fn duplicate(&self) -> (m: Macro)
        ensures
            m@ == self@,
            m.is_valid() == self.is_valid(),
    {
        Macro {
            parameter_list: duplicate_elems(&self.parameter_list),
            replacement_list: duplicate_elems(&self.replacement_list),
        }
    }

    /// A map that has a value for every parameter of the parameter text has
    /// one for every parameter of the replacement text.
    pub proof fn lemma_replacement_covered(&self, m: Map<usize, Vec<Token>>)
        requires
            self.is_valid(),
            forall|i: int|
                0 <= i < self@.parameter_list.len() && (#[trigger] self@.parameter_list[i]) is Parameter
                    ==> m.contains_key(self@.parameter_list[i]->Parameter_0),
        ensures
            forall|i: int|
                0 <= i < self@.replacement_list.len() && (#[trigger] self@.replacement_list[i]) is Parameter
                    ==> m.contains_key(self@.replacement_list[i]->Parameter_0),
    {
        let params = self@.parameter_list;
        assert forall|i: int|
            0 <= i < self@.replacement_list.len() && (#[trigger] self@.replacement_list[i]) is Parameter implies m.contains_key(
            self@.replacement_list[i]->Parameter_0,
        ) by {
            let n = self@.replacement_list[i]->Parameter_0;
            lemma_parameters_present(params, params.len() as int, n);
            let j = choose|j: int| 0 <= j < params.len() && params[j] == MacroListElemView::Parameter(n);
            assert(params[j] is Parameter);
        }
    }

    /// The replacement text, with each parameter replaced by its tokens.
    pub fn get_replacement(&self, parameter_values: &HashMap<usize, Vec<Token>>) -> (r: Vec<Token>)
        requires
            forall|i: int|
                0 <= i < self@.replacement_list.len() && (#[trigger] self@.replacement_list[i]) is Parameter
                    ==> parameter_values@.contains_key(self@.replacement_list[i]->Parameter_0),
        ensures
            token_views(r@) == expand_replacement(
                self@.replacement_list,
                crate::makro::parameter_values(parameter_values@),
            ),
    {
        let ghost repl = self@.replacement_list;
        let ghost vals = crate::makro::parameter_values(parameter_values@);
        let mut result: Vec<Token> = Vec::new();
        let mut i: usize = 0;
        while i < self.replacement_list.len()
            invariant
                i <= self.replacement_list.len(),
                repl == elem_views(self.replacement_list@),
                vals == crate::makro::parameter_values(parameter_values@),
                forall|j: int|
                    0 <= j < repl.len() && (#[trigger] repl[j]) is Parameter
                        ==> parameter_values@.contains_key(repl[j]->Parameter_0),
                token_views(result@) == expand_replacement(repl.subrange(0, i as int), vals),
            decreases self.replacement_list.len() - i,
        {
            let ghost before = result@;
            assert(repl.subrange(0, i + 1).drop_last() =~= repl.subrange(0, i as int));
            match &self.replacement_list[i] {
                MacroListElem::Parameter(param_num) => {
                    assert(repl[i as int] is Parameter);
                    let toks = parameter_values.get(param_num).unwrap();
                    let mut copy = duplicate_tokens(toks);
                    result.append(&mut copy);
                    assert(token_views(result@) =~= token_views(before) + vals(*param_num));
                },
                MacroListElem::Token(tok) => {
                    let t = tok.duplicate();
                    result.push(t);
                    assert(token_views(result@) =~= token_views(before) + seq![tok@]);
                },
            }
            i = i + 1;
        }
        assert(repl.subrange(0, i as int) =~= repl);
        result
    }
}

} // verus!
