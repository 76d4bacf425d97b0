use vstd::prelude::*;

use crate::dimension::{Dimen, SpringDimen};
use crate::glue::Glue;
use crate::parser::dimen::{read_dimen, read_spring_dimen};
use crate::parser::primitives::read_optional_keyword;
use crate::parser::reading::{failed, Input, Reading};
use crate::parser::{no_backslide, Parser, TeXError};
use crate::state::TeXState;

verus! {

/// A stretch or shrink of nothing.
pub open spec fn no_spring() -> SpringDimen {
    SpringDimen::Dimen(Dimen::spec_from_sp(0))
}

/// An optional keyword and, where it came, a dimension that may be
/// infinite; nothing where it did not.
pub open spec fn read_optional_spring(st: TeXState, i: Input, keyword: Seq<char>) -> Reading<SpringDimen> {
    match read_optional_keyword(st, i, keyword) {
        None => None,
        Some((Err(e), i1)) => failed(e, i1),
        Some((Ok(true), i1)) => read_spring_dimen(st, i1, true),
        Some((Ok(false), i1)) => Some((Ok(no_spring()), i1)),
    }
}

/// Glue, expanded: a dimension, then optionally `plus` and a stretch, then
/// optionally `minus` and a shrink.
pub open spec fn read_glue(st: TeXState, i: Input) -> Reading<Glue> {
    match read_dimen(st, i) {
        None => None,
        Some((Err(e), i1)) => failed(e, i1),
        Some((Ok(space), i1)) => match read_optional_spring(st, i1, "plus"@) {
            None => None,
            Some((Err(e), i2)) => failed(e, i2),
            Some((Ok(stretch), i2)) => match read_optional_spring(st, i2, "minus"@) {
                None => None,
                Some((Err(e), i3)) => failed(e, i3),
                Some((Ok(shrink), i3)) => Some(
                    (Ok(Glue { space: Dimen::spec_from_sp(space), stretch, shrink }), i3),
                ),
            },
        },
    }
}

impl Parser {
    /// Reads an optional keyword and, where it comes, a dimension that may
    /// be infinite.
    fn parse_optional_spring(&mut self, keyword: &str) -> (r: Result<SpringDimen, TeXError>)
        requires
            old(self).wf(),
            keyword@.len() > 0,
        ensures
            final(self).wf(),
            final(self).state == old(self).state,
            no_backslide(*old(self), *final(self)),
            final(self).lexer_view().source == old(self).lexer_view().source,
            read_optional_spring(old(self).state, old(self).input(), keyword@) matches Some(n)
                ==> final(self).read_as(old(self), r, n),
    {
        match self.parse_optional_keyword_expanded(keyword) {
            Err(e) => Err(e),
            Ok(true) => self.parse_spring_dimen(true),
            Ok(false) => {
                let zero = Dimen::zero();
                proof {
                    Dimen::lemma_from_sp(0);
                    Dimen::lemma_sp_injective(zero, Dimen::spec_from_sp(0));
                }
                Ok(SpringDimen::Dimen(zero))
            },
        }
    }

    /// Reads glue, expanded: a dimension, then optionally `plus` and a
    /// stretch, then optionally `minus` and a shrink. What is not there is
    /// zero.
    pub fn parse_glue(&mut self) -> (r: Result<Glue, TeXError>)
        requires
            old(self).wf(),
        ensures
            final(self).wf(),
            final(self).state == old(self).state,
            no_backslide(*old(self), *final(self)),
            final(self).lexer_view().source == old(self).lexer_view().source,
            read_glue(old(self).state, old(self).input()) matches Some(n) ==> final(self).read_as(
                old(self),
                r,
                n,
            ),
    {
        proof {
            reveal_strlit("plus");
            reveal_strlit("minus");
        }
        let space = match self.parse_dimen() {
            Err(e) => {
                return Err(e);
            },
            Ok(d) => d,
        };
        proof {
            Dimen::lemma_sp_bounds(space);
            Dimen::lemma_from_sp(space.sp());
            Dimen::lemma_sp_injective(space, Dimen::spec_from_sp(space.sp()));
        }
        let stretch = match self.parse_optional_spring("plus") {
            Err(e) => {
                return Err(e);
            },
            Ok(s) => s,
        };
        let shrink = match self.parse_optional_spring("minus") {
            Err(e) => {
                return Err(e);
            },
            Ok(s) => s,
        };
        Ok(Glue { space, stretch, shrink })
    }
}

} // verus!
