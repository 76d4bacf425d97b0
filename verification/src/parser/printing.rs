use vstd::prelude::*;

use crate::category::Category;
use crate::parser::reading::read_number;
use crate::parser::{Parser, TeXError, no_backslide};
use crate::token::{token_views, Token, TokenView};

verus! {

/// The character of a decimal digit.
pub open spec fn digit_char(d: int) -> char {
    ((d + 48) as u8) as char
}

/// The decimal digits of a natural number, most significant first.
pub open spec fn decimal_digits(n: nat) -> Seq<char>
    decreases n,
{
    if n < 10 {
        seq![digit_char(n as int)]
    } else {
        decimal_digits(n / 10).push(digit_char((n % 10) as int))
    }
}

/// The value of a text of decimal digits.
pub open spec fn digits_value(s: Seq<char>) -> int
    decreases s.len(),
{
    if s.len() == 0 {
        0
    } else {
        digits_value(s.drop_last()) * 10 + ((s.last() as int) - 48)
    }
}

/// The decimal digits of a number are digits and read back as the number.
pub proof fn lemma_decimal_digits_value(n: nat)
    ensures
        digits_value(decimal_digits(n)) == n,
        decimal_digits(n).len() >= 1,
        forall|i: int| 0 <= i < decimal_digits(n).len() ==> '0' <= #[trigger] decimal_digits(n)[i] <= '9',
    decreases n,
{
    if n >= 10 {
        lemma_decimal_digits_value(n / 10);
        let d = decimal_digits(n);
        assert(d.drop_last() =~= decimal_digits(n / 10));
        assert(d.last() == digit_char((n % 10) as int));
        assert((digit_char((n % 10) as int) as int) == (n % 10) + 48) by {
            assert(0 <= n % 10 < 10);
        }
        assert((n / 10) * 10 + n % 10 == n) by (nonlinear_arith);
        assert(digits_value(d.drop_last()) == n / 10);
        assert(digits_value(d) == digits_value(d.drop_last()) * 10 + ((d.last() as int) - 48));
        assert forall|i: int| 0 <= i < d.len() implies '0' <= #[trigger] d[i] <= '9' by {
            if i < d.len() - 1 {
                assert(d[i] == decimal_digits(n / 10)[i]);
            }
        }
    } else {
        assert((digit_char(n as int) as int) == n + 48);
        let d = decimal_digits(n);
        assert(d == seq![digit_char(n as int)]);
        assert(d.drop_last() =~= Seq::<char>::empty());
        assert(digits_value(Seq::<char>::empty()) == 0);
        assert(digits_value(d) == digits_value(d.drop_last()) * 10 + ((d.last() as int) - 48));
    }
}

/// How TeX prints an integer: a minus sign for a negative one, then its
/// decimal digits.
pub open spec fn number_text(v: int) -> Seq<char> {
    if v < 0 {
        seq!['-'] + decimal_digits((-v) as nat)
    } else {
        decimal_digits(v as nat)
    }
}

/// Character tokens of category other for the characters of a text.
pub open spec fn other_tokens(s: Seq<char>) -> Seq<TokenView> {
    s.map_values(|c: char| other_char(c))
}

/// A character token of category other.
pub open spec fn other_char(c: char) -> TokenView {
    TokenView::Char(c, Category::Other)
}

/// The tokens of a text with one more character.
pub proof fn lemma_other_tokens_push(s: Seq<char>, c: char)
    ensures
        other_tokens(s.push(c)) == other_tokens(s).push(other_char(c)),
{
    assert(other_tokens(s.push(c)) =~= other_tokens(s).push(other_char(c)));
}

/// The tokens of two texts one after the other.
pub proof fn lemma_other_tokens_add(a: Seq<char>, b: Seq<char>)
    ensures
        other_tokens(a + b) == other_tokens(a) + other_tokens(b),
{
    assert(other_tokens(a + b) =~= other_tokens(a) + other_tokens(b));
}

fn push_digits(n: u32, out: &mut Vec<Token>)
    ensures
        token_views(final(out)@) == token_views(old(out)@) + other_tokens(decimal_digits(n as nat)),
    decreases n,
{
    if n >= 10 {
        push_digits(n / 10, out);
    }
    let ghost before = out@;
    let d: u8 = (n % 10) as u8;
    out.push(Token::Char((d + 48) as char, Category::Other));
    proof {
        if n >= 10 {
            assert(decimal_digits(n as nat) == decimal_digits((n / 10) as nat).push(
                digit_char((n % 10) as int),
            ));
            lemma_other_tokens_push(decimal_digits((n / 10) as nat), digit_char((n % 10) as int));
            assert(other_char(digit_char((n % 10) as int)) == TokenView::Char(
                digit_char((n % 10) as int),
                Category::Other,
            ));
        } else {
            assert(decimal_digits(n as nat) == seq![digit_char(n as int)]);
            assert(n % 10 == n);
            lemma_other_tokens_push(Seq::<char>::empty(), digit_char(n as int));
            assert(seq![digit_char(n as int)] =~= Seq::<char>::empty().push(digit_char(n as int)));
            assert(other_tokens(Seq::<char>::empty()) =~= Seq::<TokenView>::empty());
        }
        assert(token_views(out@) =~= token_views(before).push(
            TokenView::Char(digit_char((n % 10) as int), Category::Other),
        ));
    }
}

/// The tokens that `\number` gives for a value: its decimal text, as
/// character tokens of category other.
pub fn print_number(value: i32) -> (r: Vec<Token>)
    ensures
        token_views(r@) == other_tokens(number_text(value as int)),
{
    let mut out: Vec<Token> = Vec::new();
    let magnitude: u32 = if value < 0 {
        out.push(Token::Char('-', Category::Other));
        (0 - (value as i64)) as u32
    } else {
        value as u32
    };
    let ghost after_sign = out@;
    push_digits(magnitude, &mut out);
    proof {
        if value < 0 {
            assert(token_views(after_sign) =~= seq![TokenView::Char('-', Category::Other)]);
            lemma_other_tokens_add(seq!['-'], decimal_digits(magnitude as nat));
            assert(seq!['-'].drop_last() =~= Seq::<char>::empty());
            assert(other_tokens(Seq::<char>::empty()) == Seq::<TokenView>::empty());
            assert(seq!['-'].last() == '-');
            assert(other_tokens(seq!['-']) == other_tokens(seq!['-'].drop_last()).push(
                TokenView::Char('-', Category::Other),
            ));
            assert(other_tokens(seq!['-']) =~= seq![TokenView::Char('-', Category::Other)]);
        } else {
            assert(token_views(after_sign) =~= Seq::<TokenView>::empty());
        }
    }
    out
}

/// The tokens of a result, by their views.
pub open spec fn tokens_result(r: Result<Vec<Token>, TeXError>) -> Result<Seq<TokenView>, TeXError> {
    match r {
        Ok(toks) => Ok(token_views(toks@)),
        Err(e) => Err(e),
    }
}

/// What `\number` gives after reading a number with result `n`: the tokens
/// of its decimal text.
pub open spec fn printed(n: Result<i32, TeXError>) -> Result<Seq<TokenView>, TeXError> {
    match n {
        Ok(v) => Ok(other_tokens(number_text(v as int))),
        Err(e) => Err(e),
    }
}

impl Parser {
    /// Whether the next token, unexpanded, is `\number`.
    pub fn is_print_head(&mut self) -> (r: Result<bool, TeXError>)
        requires
            old(self).wf(),
        ensures
            final(self).wf(),
            final(self).state == old(self).state,
            final(self).budget() == old(self).budget(),
            final(self).depth() == old(self).depth(),
            final(self).lexer_view().source == old(self).lexer_view().source,
            match old(self).next_unexpanded() {
                (Ok(Some(t)), up, l) => {
                    &&& r == Ok::<bool, TeXError>(old(self).state.is_prim(t, "number"@))
                    &&& final(self).upcoming() == up.push(t)
                    &&& final(self).lexer_view() == l
                },
                (Ok(None), up, l) => r == Ok::<bool, TeXError>(false),
                (Err(e), up, l) => r == Err::<bool, TeXError>(e),
            },
    {
        match self.peek_unexpanded_token() {
            Err(e) => Err(e),
            Ok(Some(token)) => Ok(self.state.is_token_equal_to_prim(&token, "number")),
            Ok(None) => Ok(false),
        }
    }

    /// Carries out the printing command that comes next: `\number` reads a
    /// number and gives the tokens of its decimal text.
    pub fn expand_print(&mut self) -> (r: Result<Vec<Token>, TeXError>)
        requires
            old(self).wf(),
        ensures
            final(self).wf(),
            final(self).state == old(self).state,
            no_backslide(*old(self), *final(self)),
            final(self).lexer_view().source == old(self).lexer_view().source,
            r matches Ok(toks) ==> exists|v: i32| token_views(toks@) == other_tokens(
                #[trigger] number_text(v as int),
            ),
            match old(self).next_unexpanded() {
                (Ok(Some(t)), up, l) => if old(self).state.is_prim(t, "number"@) {
                    read_number(old(self).state, (up, l, old(self).depth(), old(self).budget()))
                        matches Some(n) ==> final(self).read_as(old(self), tokens_result(r), (printed(n.0), n.1))
                } else {
                    r == Err::<Vec<Token>, TeXError>(TeXError::Unimplemented)
                },
                (Ok(None), up, l) => r == Err::<Vec<Token>, TeXError>(TeXError::UnexpectedEnd),
                (Err(e), up, l) => r == Err::<Vec<Token>, TeXError>(e),
            },
        decreases old(self).budget(), old(self).input_left(), 9nat,
    {
        let head = match self.lex_unexpanded_token() {
            Err(e) => {
                return Err(e);
            },
            Ok(None) => {
                return Err(TeXError::UnexpectedEnd);
            },
            Ok(Some(t)) => t,
        };
        if self.state.is_token_equal_to_prim(&head, "number") {
            match self.parse_number() {
                Err(e) => Err(e),
                Ok(value) => Ok(print_number(value)),
            }
        } else {
            Err(TeXError::Unimplemented)
        }
    }
}

} // verus!
