use vstd::prelude::*;

use crate::dimension::Dimen;

verus! {

/// The parameters of line breaking: the width of lines, the tolerance for
/// badness, the demerits added for visually incompatible lines, and whether
/// to log what the line breaker does (set by `\tracingparagraphs`).
pub struct LineBreakingParams {
    pub hsize: Dimen,
    pub tolerance: i32,
    pub visual_incompatibility_demerits: i32,
    pub should_log: bool,
}

/// A place where a line may end or begin: the start of the paragraph, a
/// breakpoint at an index of the list, or the end of the paragraph. They
/// are ordered as they come in the paragraph.
#[derive(Debug, PartialEq, Eq, Hash, Clone, Copy, PartialOrd, Ord)]
pub enum LineBreakPoint {
    Start,
    BreakAtIndex(usize),
    End,
}

/// How loose or tight a line is set, from its badness.
#[derive(Debug, Clone, Copy, PartialEq, Eq, Hash, Structural)]
pub enum VisualClassification {
    VeryLoose,
    Loose,
    Decent,
    Tight,
}

impl VisualClassification {
    /// The position of a classification from the loosest to the tightest.
    pub open spec fn rank(self) -> int {
        match self {
            VisualClassification::VeryLoose => 0,
            VisualClassification::Loose => 1,
            VisualClassification::Decent => 2,
            VisualClassification::Tight => 3,
        }
    }

    /// The classifications, from the loosest to the tightest.
    pub fn all_ordered_classifications() -> (all: [VisualClassification; 4])
        ensures
            forall|i: int| 0 <= i < 4 ==> (#[trigger] all@[i]).rank() == i,
    {
        [
            VisualClassification::VeryLoose,
            VisualClassification::Loose,
            VisualClassification::Decent,
            VisualClassification::Tight,
        ]
    }

    /// Whether two classifications are adjacent: their positions from the
    /// loosest to the tightest differ by at most one. Lines whose
    /// classifications are not adjacent are visually incompatible.
    pub fn is_adjacent(&self, other: &VisualClassification) -> (b: bool)
        ensures
            b == (-1 <= self.rank() - other.rank() <= 1),
    {
        match (self, other) {
            (VisualClassification::VeryLoose, VisualClassification::Decent) => false,
            (VisualClassification::VeryLoose, VisualClassification::Tight) => false,
            (VisualClassification::Loose, VisualClassification::Tight) => false,
            (VisualClassification::Decent, VisualClassification::VeryLoose) => false,
            (VisualClassification::Tight, VisualClassification::Loose) => false,
            (VisualClassification::Tight, VisualClassification::VeryLoose) => false,
            (_, _) => true,
        }
    }

    /// The classification of a line from its badness and whether its glue
    /// shrinks: very loose from 100 on, loose (or tight, when shrinking)
    /// from 13 on, and decent below.
    pub fn from_badness(badness: u64, shrink: bool) -> (c: VisualClassification)
        ensures
            c == if badness >= 100 {
                VisualClassification::VeryLoose
            } else if badness >= 13 {
                if shrink {
                    VisualClassification::Tight
                } else {
                    VisualClassification::Loose
                }
            } else {
                VisualClassification::Decent
            },
    {
        if badness >= 100 {
            VisualClassification::VeryLoose
        } else if badness >= 13 {
            if shrink {
                VisualClassification::Tight
            } else {
                VisualClassification::Loose
            }
        } else {
            VisualClassification::Decent
        }
    }
}

} // verus!
