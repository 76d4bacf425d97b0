use vstd::prelude::*;

use crate::category::Category;

verus! {

/// A TeX token: a control sequence, or a character with its category.
#[derive(Debug, PartialEq, Eq, Clone, Hash)]
pub enum Token {
    ControlSequence(String),
    Char(char, Category),
}

/// The mathematical value of a token: a control sequence is its name.
pub enum TokenView {
    ControlSequence(Seq<char>),
    Char(char, Category),
}

impl View for Token {
    type V = TokenView;

    open spec fn view(&self) -> TokenView {
        match self {
            Token::ControlSequence(s) => TokenView::ControlSequence(s@),
            Token::Char(c, cat) => TokenView::Char(*c, *cat),
        }
    }
}

/// The views of a sequence of tokens.
pub open spec fn token_views(ts: Seq<Token>) -> Seq<TokenView> {
    ts.map_values(|t: Token| t@)
}

/// A `String` holding the given characters (collecting the characters into
/// a `String` keeps them, in order).
#[verifier::external_body]
pub fn string_from_chars(chars: &Vec<char>) -> (s: String)
    ensures
        s@ == chars@,
{
    chars.iter().collect()
}

/// The characters of a string, in order.
pub fn chars_of_str(s: &str) -> (chars: Vec<char>)
    ensures
        chars@ == s@,
{
    broadcast use vstd::string::axiom_spec_iter;
    let mut v: Vec<char> = Vec::new();
    for c in it: s.chars()
        invariant
            it.seq() == s@,
            v@ == it.seq().take(it.index() as int),
    {
        v.push(c);
    }
    v
}

impl Token {
    /// A token equal to this one.
    pub fn duplicate(&self) -> (t: Token)
        ensures
            t@ == self@,
    {
        match self {
            Token::ControlSequence(s) => Token::ControlSequence(s.clone()),
            Token::Char(c, cat) => Token::Char(*c, *cat),
        }
    }

    /// Whether two tokens are the same token.
    pub fn equals(&self, other: &Token) -> (b: bool)
        ensures
            b == (self@ == other@),
    {
        match (self, other) {
            (Token::ControlSequence(a), Token::ControlSequence(b)) => a.eq(b),
            (Token::Char(c1, cat1), Token::Char(c2, cat2)) => *c1 == *c2 && *cat1 == *cat2,
            _ => false,
        }
    }

    /// A control sequence whose name is the given characters.
    pub fn control_sequence_from_chars(name: &Vec<char>) -> (t: Token)
        ensures
            t@ == TokenView::ControlSequence(name@),
    {
        Token::ControlSequence(string_from_chars(name))
    }
}

/// Copies of a list of tokens.
pub fn duplicate_tokens(ts: &Vec<Token>) -> (r: Vec<Token>)
    ensures
        token_views(r@) == token_views(ts@),
{
    let mut r: Vec<Token> = Vec::new();
    let mut i: usize = 0;
    while i < ts.len()
        invariant
            i <= ts.len(),
            r.len() == i,
            token_views(r@) == token_views(ts@.subrange(0, i as int)),
        decreases ts.len() - i,
    {
        let ghost old_r = r@;
        let t = ts[i].duplicate();
        r.push(t);
        proof {
            assert(r@ == old_r.push(t));
            assert(t@ == ts@[i as int]@);
            assert(token_views(r@).len() == i + 1);
            assert(token_views(r@)[i as int] == t@);
            assert(token_views(ts@.subrange(0, i + 1))[i as int] == ts@[i as int]@);
            assert forall|j: int| 0 <= j < i + 1 implies #[trigger] token_views(r@)[j] == token_views(
                ts@.subrange(0, i + 1),
            )[j] by {
                if j < i {
                    assert(token_views(old_r)[j] == token_views(ts@.subrange(0, i as int))[j]);
                }
            }
        }
        i = i + 1;
        assert(token_views(r@) =~= token_views(ts@.subrange(0, i as int)));
    }
    assert(ts@.subrange(0, i as int) =~= ts@);
    r
}

} // verus!
