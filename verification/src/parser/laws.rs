use vstd::prelude::*;

use crate::category::Category;
use crate::lexer::LexerView;
use crate::parser::number::{digit_value, is_digit_token, is_hex_digit_token};
use crate::parser::progress::{lemma_parser_fits, lemma_read_at_end, lemma_readings_finish};
use crate::parser::reading::{lemma_read_after_peek, read_next, read_peek};
use crate::parser::{lemma_put_back_many_then_read, next_token, Parser, TeXError};
use crate::token::TokenView;

verus! {

/// Peeking reads nothing. `p1` is what `peek_expanded_token` leaves of `p0`
/// with result `r1`, `p2` what a second peek leaves of `p1` with `r2`, and
/// `p3` what `lex_expanded_token` leaves of `p2` with `r3`. Where the first
/// peek does not fail, the second peek gives the same token and leaves the
/// same input, and reading then gives that token again and leaves the input
/// that reading it from `p0` at once leaves.
pub proof fn law_peek_then_read(
    p0: Parser,
    p1: Parser,
    r1: Result<Option<TokenView>, TeXError>,
    p2: Parser,
    r2: Result<Option<TokenView>, TeXError>,
    p3: Parser,
    r3: Result<Option<TokenView>, TeXError>,
)
    requires
        p0.wf(),
        p1.state == p0.state,
        p2.state == p1.state,
        read_peek(p0.state, p0.input()) matches Some(n) ==> p1.read_as(&p0, r1, n),
        read_peek(p1.state, p1.input()) matches Some(n) ==> p2.read_as(&p1, r2, n),
        read_next(p2.state, p2.input()) matches Some(n) ==> p3.read_as(&p2, r3, n),
        r1 is Ok,
    ensures
        r2 == r1,
        p2.input() == p1.input(),
        r3 == r1,
        read_next(p0.state, p0.input()) == Some((r3, p3.input())),
{
    let st = p0.state;
    let i0 = p0.input();
    lemma_parser_fits(p0);
    lemma_readings_finish(st, i0);
    match read_next(st, i0) {
        Some((Ok(Some(t)), i2)) => {
            lemma_read_after_peek(st, i0, t, i2);
        },
        Some((Ok(None), j)) => {
            lemma_read_at_end(st, i0);
        },
        _ => {},
    }
}

/// What `k` unexpanded readings give one after the other from put-back
/// tokens `up` and a lexer `l`: their results, and the put-back tokens and
/// lexer they leave.
pub open spec fn unexpanded_reads(cat: spec_fn(char) -> Category, up: Seq<TokenView>, l: LexerView, k: nat) -> (
    Seq<Result<Option<TokenView>, TeXError>>,
    Seq<TokenView>,
    LexerView,
)
    decreases k,
{
    if k == 0 {
        (Seq::empty(), up, l)
    } else {
        let (r, up1, l1) = next_token(cat, up, l);
        let (rs, up2, l2) = unexpanded_reads(cat, up1, l1, (k - 1) as nat);
        (seq![r] + rs, up2, l2)
    }
}

/// The results of reading the given tokens one by one.
pub open spec fn tokens_read(ts: Seq<TokenView>) -> Seq<Result<Option<TokenView>, TeXError>> {
    ts.map_values(|t: TokenView| Ok::<Option<TokenView>, TeXError>(Some(t)))
}

/// Tokens put back as `add_upcoming_tokens` puts them back (the old
/// put-back tokens `up` followed by `ts` reversed) are read first to last:
/// `k` unexpanded readings give `ts[0]`, ..., `ts[k-1]` and leave the rest
/// of `ts` put back; once all are read, the input is `up` and `l` again.
pub proof fn law_put_back_tokens_read_in_order(
    cat: spec_fn(char) -> Category,
    up: Seq<TokenView>,
    l: LexerView,
    ts: Seq<TokenView>,
    k: nat,
)
    requires
        k <= ts.len(),
    ensures
        unexpanded_reads(cat, up + ts.reverse(), l, k) == (
            tokens_read(ts.take(k as int)),
            up + ts.skip(k as int).reverse(),
            l,
        ),
        k == ts.len() ==> unexpanded_reads(cat, up + ts.reverse(), l, k).1 == up,
    decreases k,
{
    if k == 0 {
        assert(tokens_read(ts.take(0)) =~= Seq::empty());
        assert(ts.skip(0) =~= ts);
    } else {
        lemma_put_back_many_then_read(cat, up, l, ts);
        law_put_back_tokens_read_in_order(cat, up, l, ts.drop_first(), (k - 1) as nat);
        assert(tokens_read(ts.take(k as int)) =~= seq![Ok::<Option<TokenView>, TeXError>(Some(ts[0]))]
            + tokens_read(ts.drop_first().take(k - 1)));
        assert(ts.skip(k as int) =~= ts.drop_first().skip(k - 1));
    }
    if k == ts.len() {
        assert(ts.skip(k as int).reverse() =~= Seq::<TokenView>::empty());
        assert(up + Seq::<TokenView>::empty() =~= up);
    }
}

/// The values of digit tokens: a hexadecimal digit is worth less than 16;
/// the decimal digits are exactly the `0` to `9` of category other, are
/// hexadecimal digits too, and are worth their distance from `0`; `A` to
/// `F` of category other or letter are worth ten more than their distance
/// from `A`.
pub proof fn law_digit_values(t: TokenView)
    ensures
        is_hex_digit_token(t) ==> 0 <= digit_value(t) < 16,
        is_digit_token(t) <==> (t matches TokenView::Char(c, Category::Other) && '0' <= c <= '9'),
        is_digit_token(t) ==> is_hex_digit_token(t) && digit_value(t) == (t->Char_0 as int) - ('0' as int),
        (t matches TokenView::Char(c, cat) && 'A' <= c <= 'F' && (cat == Category::Other || cat
            == Category::Letter)) ==> is_hex_digit_token(t) && digit_value(t) == (t->Char_0 as int) - ('A' as int)
            + 10,
{
}

} // verus!
