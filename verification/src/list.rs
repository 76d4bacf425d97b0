use vstd::prelude::*;

use crate::boxes::TeXBox;
use crate::dimension::{in_dimen_range, Dimen, SpringDimen};
use crate::font::{Font, FontView};
use crate::font_metrics::{code, find_metrics, metrics_for, metrics_views, scalable, scaled_at, FontMetrics, FontMetricsView};
use crate::glue::Glue;

verus! {

/// An element of a horizontal list.
#[derive(Debug, PartialEq)]
pub enum HorizontalListElem {
    Char { chr: char, font: Font },
    HSkip(Glue),
    Box { tex_box: TeXBox, shift: Dimen },
}

/// An element of a vertical list.
#[derive(Debug, PartialEq)]
pub enum VerticalListElem {
    Box { tex_box: TeXBox, shift: Dimen },
    VSkip(Glue),
}

/// Glue with the given space that neither stretches nor shrinks.
pub open spec fn rigid_glue(w: int) -> Glue {
    Glue {
        space: Dimen::spec_from_sp(w),
        stretch: SpringDimen::Dimen(Dimen::spec_from_sp(0)),
        shrink: SpringDimen::Dimen(Dimen::spec_from_sp(0)),
    }
}

/// The height, depth and width (as rigid glue) of a character in a font,
/// from the font's metrics at its size; `None` where the font has no
/// metrics in the table or they do not cover the character.
pub open spec fn char_size(table: Seq<FontMetricsView>, chr: char, font: FontView) -> Option<(int, int, Glue)> {
    match metrics_for(table, font) {
        None => None,
        Some(m) => {
            let c = code(chr);
            if m.design_size > 0 && c < m.widths.len() && c < m.heights.len() && c < m.depths.len()
                && scalable(m, m.heights[c] as int) && scalable(m, m.depths[c] as int) && scalable(
                m,
                m.widths[c] as int,
            ) {
                Some(
                    (
                        scaled_at(m, m.heights[c] as int),
                        scaled_at(m, m.depths[c] as int),
                        rigid_glue(scaled_at(m, m.widths[c] as int)),
                    ),
                )
            } else {
                None
            }
        },
    }
}

/// The size of an element in a horizontal list: its height, its depth,
/// and its width as glue. A box counts its shift (down) in its depth and
/// against its height, neither going below zero; a skip has only its glue.
pub open spec fn helem_size(table: Seq<FontMetricsView>, e: HorizontalListElem) -> Option<(int, int, Glue)> {
    match e {
        HorizontalListElem::Char { chr, font } => char_size(table, chr, font@),
        HorizontalListElem::HSkip(g) => Some((0, 0, g)),
        HorizontalListElem::Box { tex_box, shift } => {
            let h = tex_box.height_of().sp() + shift.sp();
            let d = tex_box.depth_of().sp() - shift.sp();
            if in_dimen_range(h) && in_dimen_range(d) {
                Some(
                    (
                        if h < 0 {
                            0
                        } else {
                            h
                        },
                        if d < 0 {
                            0
                        } else {
                            d
                        },
                        rigid_glue(tex_box.width_of().sp()),
                    ),
                )
            } else {
                None
            }
        },
    }
}

/// A box in a horizontal list, shifted by `s`, counts its shift in its
/// height and against its depth: it is as high as the box's height plus
/// `s` and as deep as the box's depth less `s`, neither less than zero, and
/// as wide as the box, rigidly. So a box of height `h >= 0` shifted by
/// `s > 0` is `h + s` high, and shifting by `s` instead of nothing changes
/// only the height and depth.
pub proof fn law_shifted_box_size(table: Seq<FontMetricsView>, tex_box: TeXBox, shift: Dimen)
    requires
        in_dimen_range(tex_box.height_of().sp() + shift.sp()),
        in_dimen_range(tex_box.depth_of().sp() - shift.sp()),
    ensures
        helem_size(table, HorizontalListElem::Box { tex_box, shift }) matches Some((h, d, w)) && {
            &&& h == (if tex_box.height_of().sp() + shift.sp() < 0 {
                0
            } else {
                tex_box.height_of().sp() + shift.sp()
            })
            &&& d == (if tex_box.depth_of().sp() - shift.sp() < 0 {
                0
            } else {
                tex_box.depth_of().sp() - shift.sp()
            })
            &&& h >= 0 && d >= 0
            &&& w.space.sp() == tex_box.width_of().sp()
            &&& w.stretch matches SpringDimen::Dimen(z) && z.sp() == 0
            &&& w.shrink matches SpringDimen::Dimen(z) && z.sp() == 0
        },
        (tex_box.height_of().sp() >= 0 && shift.sp() > 0) ==> helem_size(
            table,
            HorizontalListElem::Box { tex_box, shift },
        ).unwrap().0 == tex_box.height_of().sp() + shift.sp(),
        (tex_box.depth_of().sp() >= 0 && shift.sp() < 0) ==> helem_size(
            table,
            HorizontalListElem::Box { tex_box, shift },
        ).unwrap().1 == tex_box.depth_of().sp() - shift.sp(),
{
    Dimen::lemma_sp_bounds(tex_box.width_of());
    Dimen::lemma_from_sp(tex_box.width_of().sp());
    Dimen::lemma_from_sp(0);
}

/// Rigid glue made of a dimension is the rigid glue of its size.
pub proof fn lemma_rigid_glue(g: Glue, d: Dimen)
    requires
        g.space == d,
        g.stretch matches SpringDimen::Dimen(z) && z.sp() == 0,
        g.shrink matches SpringDimen::Dimen(z) && z.sp() == 0,
    ensures
        g == rigid_glue(d.sp()),
{
    Dimen::lemma_sp_bounds(d);
    Dimen::lemma_from_sp(d.sp());
    Dimen::lemma_from_sp(0);
    Dimen::lemma_sp_injective(d, Dimen::spec_from_sp(d.sp()));
    match (g.stretch, g.shrink) {
        (SpringDimen::Dimen(a), SpringDimen::Dimen(b)) => {
            Dimen::lemma_sp_injective(a, Dimen::spec_from_sp(0));
            Dimen::lemma_sp_injective(b, Dimen::spec_from_sp(0));
        },
        _ => {},
    }
}

impl HorizontalListElem {
    /// The height, depth and width (as glue) of the element, with the
    /// sizes of characters from the metrics of their fonts.
    pub fn get_size(&self, metrics: &Vec<FontMetrics>) -> (r: (Dimen, Dimen, Glue))
        requires
            helem_size(metrics_views(metrics@), *self) is Some,
        ensures
            helem_size(metrics_views(metrics@), *self) == Some((r.0.sp(), r.1.sp(), r.2)),
    {
        match self {
            HorizontalListElem::Char { chr, font } => {
                let found = find_metrics(metrics, font);
                match found {
                    None => (Dimen::zero(), Dimen::zero(), Glue::zero()),
                    Some(i) => {
                        let m = &metrics[i];
                        let height = m.get_height(*chr);
                        let depth = m.get_depth(*chr);
                        let width = m.get_width(*chr);
                        let g = Glue::from_dimen(width);
                        proof {
                            lemma_rigid_glue(g, width);
                        }
                        (height, depth, g)
                    },
                }
            },
            HorizontalListElem::HSkip(glue) => (Dimen::zero(), Dimen::zero(), *glue),
            HorizontalListElem::Box { tex_box, shift } => {
                proof {
                    Dimen::lemma_from_sp(tex_box.height_of().sp() + shift.sp());
                    Dimen::lemma_from_sp(tex_box.depth_of().sp() - shift.sp());
                }
                let height = *tex_box.height() + *shift;
                let depth = *tex_box.depth() - *shift;
                let g = Glue::from_dimen(*tex_box.width());
                proof {
                    lemma_rigid_glue(g, tex_box.width_of());
                }
                (
                    if height.as_scaled_points() < 0 {
                        Dimen::zero()
                    } else {
                        height
                    },
                    if depth.as_scaled_points() < 0 {
                        Dimen::zero()
                    } else {
                        depth
                    },
                    g,
                )
            },
        }
    }
}

impl VerticalListElem {
    /// The size of the element in a vertical list: its height, as glue,
    /// its depth, and its width. A box counts its shift in its width, and
    /// a box shifted left past its width has no width; a skip has only its
    /// glue.
    pub fn get_size(&self) -> (r: (Glue, Dimen, Dimen))
        requires
            self matches VerticalListElem::Box { tex_box, shift } ==> in_dimen_range(
                tex_box.width_of().sp() + shift.sp(),
            ),
        ensures
            match self {
                VerticalListElem::Box { tex_box, shift } => {
                    &&& r.0.space == tex_box.height_of()
                    &&& r.0.stretch matches SpringDimen::Dimen(d) && d.sp() == 0
                    &&& r.0.shrink matches SpringDimen::Dimen(d) && d.sp() == 0
                    &&& r.1 == tex_box.depth_of()
                    &&& r.2.sp() == if tex_box.width_of().sp() + shift.sp() < 0 {
                        0
                    } else {
                        tex_box.width_of().sp() + shift.sp()
                    }
                },
                VerticalListElem::VSkip(glue) => {
                    &&& r.0 == *glue
                    &&& r.1.sp() == 0
                    &&& r.2.sp() == 0
                },
            },
    {
        match self {
            VerticalListElem::Box { tex_box, shift } => {
                proof {
                    Dimen::lemma_from_sp(tex_box.width_of().sp() + shift.sp());
                }
                let width = *tex_box.width() + *shift;
                (
                    Glue::from_dimen(*tex_box.height()),
                    *tex_box.depth(),
                    if width.as_scaled_points() < 0 {
                        Dimen::zero()
                    } else {
                        width
                    },
                )
            },
            VerticalListElem::VSkip(glue) => (*glue, Dimen::zero(), Dimen::zero()),
        }
    }
}

} // verus!
