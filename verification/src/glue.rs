use vstd::prelude::*;

use vstd::std_specs::ops::AddSpecImpl;

use crate::dimension::{in_dimen_range, spring_sum, Dimen, SpringDimen};

verus! {

/// Glue: a natural space that can stretch and shrink.
#[derive(Debug, PartialEq, Eq, Clone, Copy, Structural)]
pub struct Glue {
    pub space: Dimen,
    pub stretch: SpringDimen,
    pub shrink: SpringDimen,
}

impl Glue {
    pub fn zero() -> (g: Glue)
        ensures
            g.space.sp() == 0,
            g.stretch matches SpringDimen::Dimen(d) && d.sp() == 0,
            g.shrink matches SpringDimen::Dimen(d) && d.sp() == 0,
    {
        Self::from_dimen(Dimen::zero())
    }

    /// Rigid glue of the given natural space.
    pub fn from_dimen(dimen: Dimen) -> (g: Glue)
        ensures
            g.space == dimen,
            g.stretch matches SpringDimen::Dimen(d) && d.sp() == 0,
            g.shrink matches SpringDimen::Dimen(d) && d.sp() == 0,
    {
        Glue {
            space: dimen,
            stretch: SpringDimen::Dimen(Dimen::zero()),
            shrink: SpringDimen::Dimen(Dimen::zero()),
        }
    }
}

/// The sum of two glues: the spaces add up, and so do the stretches and
/// the shrinks (see `spring_sum`). `None` where a part is out of range.
pub open spec fn glue_sum(a: Glue, b: Glue) -> Option<Glue> {
    if in_dimen_range(a.space.sp() + b.space.sp()) && spring_sum(a.stretch, b.stretch) is Some
        && spring_sum(a.shrink, b.shrink) is Some {
        Some(
            Glue {
                space: Dimen::spec_from_sp(a.space.sp() + b.space.sp()),
                stretch: spring_sum(a.stretch, b.stretch).unwrap(),
                shrink: spring_sum(a.shrink, b.shrink).unwrap(),
            },
        )
    } else {
        None
    }
}

impl std::ops::Add for Glue {
    type Output = Glue;

    fn add(self, other: Glue) -> (g: Glue) {
        Glue {
            space: self.space + other.space,
            stretch: self.stretch + other.stretch,
            shrink: self.shrink + other.shrink,
        }
    }
}

impl AddSpecImpl for Glue {
    open spec fn obeys_add_spec() -> bool {
        true
    }

    open spec fn add_req(self, other: Glue) -> bool {
        glue_sum(self, other) is Some
    }

    open spec fn add_spec(self, other: Glue) -> Glue {
        glue_sum(self, other).unwrap()
    }
}

} // verus!
