use vstd::prelude::*;

use crate::parser::reading::read_prim_head;
use crate::parser::{no_backslide, Parser, TeXError};

verus! {

/// The names of the primitives that start a box.
pub open spec fn box_names() -> Seq<&'static str> {
    seq!["hbox", "vbox", "box", "copy"]
}

impl Parser {
    /// Whether a box comes next (expanded): `\hbox`, `\vbox`, `\box` or
    /// `\copy`; the token is put back.
    pub fn is_box_head(&mut self) -> (r: Result<bool, TeXError>)
        requires
            old(self).wf(),
        ensures
            final(self).wf(),
            final(self).state == old(self).state,
            no_backslide(*old(self), *final(self)),
            final(self).lexer_view().source == old(self).lexer_view().source,
            read_prim_head(old(self).state, old(self).input(), box_names())
                matches Some(n) ==> final(self).read_as(old(self), r, n),
    {
        let names: &[&str] = &["hbox", "vbox", "box", "copy"];
        assert(names@ =~= box_names());
        self.is_next_expanded_token_in_set_of_primitives(names)
    }
}

} // verus!
