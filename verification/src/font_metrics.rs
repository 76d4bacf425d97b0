use vstd::prelude::*;

use crate::dimension::{in_dimen_range, trunc_div, Dimen};
use crate::font::{Font, FontView};

verus! {

/// The metrics of a font used at a size: what its metric file gives (the
/// checksum, the design size, and by character code the widths, heights,
/// depths and successors, in scaled points at the design size; the font
/// dimensions, numbered from one) and the size it is used at.
pub struct FontMetrics {
    font_name: String,
    checksum: u32,
    design_size: Dimen,
    scale: Dimen,
    widths: Vec<i32>,
    heights: Vec<i32>,
    depths: Vec<i32>,
    successors: Vec<char>,
    font_dimensions: Vec<i32>,
}

pub struct FontMetricsView {
    pub font: FontView,
    pub checksum: u32,
    pub design_size: int,
    pub widths: Seq<i32>,
    pub heights: Seq<i32>,
    pub depths: Seq<i32>,
    pub successors: Seq<char>,
    pub font_dimensions: Seq<i32>,
}

impl View for FontMetrics {
    type V = FontMetricsView;

    closed spec fn view(&self) -> FontMetricsView {
        FontMetricsView {
            font: FontView { font_name: self.font_name@, scale: self.scale },
            checksum: self.checksum,
            design_size: self.design_size.sp(),
            widths: self.widths@,
            heights: self.heights@,
            depths: self.depths@,
            successors: self.successors@,
            font_dimensions: self.font_dimensions@,
        }
    }
}

/// A dimension of the metric file, at the size the font is used at: scaled
/// by the size over the design size, rounded toward zero.
pub open spec fn scaled_at(m: FontMetricsView, d: int) -> int {
    trunc_div(d * m.font.scale.sp(), m.design_size)
}

/// Whether a dimension of the metric file, scaled, is a dimension.
pub open spec fn scalable(m: FontMetricsView, d: int) -> bool {
    in_dimen_range(scaled_at(m, d))
}

/// The code of a character in the tables.
pub open spec fn code(c: char) -> int {
    c as u32 as int
}

/// The metrics of the first font of the table with the name and size.
pub open spec fn metrics_for(table: Seq<FontMetricsView>, f: FontView) -> Option<FontMetricsView>
    decreases table.len(),
{
    if table.len() == 0 {
        None
    } else if table[0].font == f {
        Some(table[0])
    } else {
        metrics_for(table.drop_first(), f)
    }
}

pub open spec fn metrics_views(t: Seq<FontMetrics>) -> Seq<FontMetricsView> {
    t.map_values(|m: FontMetrics| m@)
}

impl FontMetrics {
    /// The metrics of `font` from the tables of its metric file.
    pub fn from_tables(
        font: &Font,
        checksum: u32,
        design_size: Dimen,
        widths: Vec<i32>,
        heights: Vec<i32>,
        depths: Vec<i32>,
        successors: Vec<char>,
        font_dimensions: Vec<i32>,
    ) -> (m: FontMetrics)
        requires
            design_size.sp() > 0,
        ensures
            m@ == (FontMetricsView {
                font: font@,
                checksum,
                design_size: design_size.sp(),
                widths: widths@,
                heights: heights@,
                depths: depths@,
                successors: successors@,
                font_dimensions: font_dimensions@,
            }),
    {
        FontMetrics {
            font_name: font.font_name.clone(),
            checksum,
            design_size,
            scale: font.scale,
            widths,
            heights,
            depths,
            successors,
            font_dimensions,
        }
    }

    pub fn get_checksum(&self) -> (c: u32)
        ensures
            c == self@.checksum,
    {
        self.checksum
    }

    fn scale_dimen(&self, d: i32) -> (r: Dimen)
        requires
            self@.design_size > 0,
            scalable(self@, d as int),
        ensures
            r.sp() == scaled_at(self@, d as int),
    {
        let scale: i32 = self.scale.as_scaled_points();
        proof {
            assert(-0x4000_0000_0000_0000 <= (d as int) * (scale as int) <= 0x4000_0000_0000_0000)
                by (nonlinear_arith)
                requires
                    i32::MIN <= d <= i32::MAX,
                    i32::MIN <= scale <= i32::MAX,
            ;
        }
        let product: i64 = (d as i64) * (scale as i64);
        let design: i64 = self.design_size.as_scaled_points() as i64;
        let q: i64 = if product >= 0 {
            product / design
        } else {
            0 - ((0 - product) / design)
        };
        proof {
            assert(q == trunc_div(product as int, design as int));
        }
        Dimen::from_scaled_points(q as i32)
    }

    /// The width of a character, at the size the font is used at.
    pub fn get_width(&self, chr: char) -> (d: Dimen)
        requires
            self@.design_size > 0,
            code(chr) < self@.widths.len(),
            scalable(self@, self@.widths[code(chr)] as int),
        ensures
            d.sp() == scaled_at(self@, self@.widths[code(chr)] as int),
    {
        self.scale_dimen(self.widths[chr as u32 as usize])
    }

    /// The height of a character, at the size the font is used at.
    pub fn get_height(&self, chr: char) -> (d: Dimen)
        requires
            self@.design_size > 0,
            code(chr) < self@.heights.len(),
            scalable(self@, self@.heights[code(chr)] as int),
        ensures
            d.sp() == scaled_at(self@, self@.heights[code(chr)] as int),
    {
        self.scale_dimen(self.heights[chr as u32 as usize])
    }

    /// The depth of a character, at the size the font is used at.
    pub fn get_depth(&self, chr: char) -> (d: Dimen)
        requires
            self@.design_size > 0,
            code(chr) < self@.depths.len(),
            scalable(self@, self@.depths[code(chr)] as int),
        ensures
            d.sp() == scaled_at(self@, self@.depths[code(chr)] as int),
    {
        self.scale_dimen(self.depths[chr as u32 as usize])
    }

    /// Font dimension number `n` (they are numbered from one), at the size
    /// the font is used at.
    pub fn get_font_dimension(&self, n: usize) -> (d: Dimen)
        requires
            self@.design_size > 0,
            1 <= n <= self@.font_dimensions.len(),
            scalable(self@, self@.font_dimensions[n - 1] as int),
        ensures
            d.sp() == scaled_at(self@, self@.font_dimensions[n - 1] as int),
    {
        self.scale_dimen(self.font_dimensions[n - 1])
    }

    /// The character that follows `chr` in its list of growing sizes, or
    /// `chr` itself where it has none.
    pub fn get_successor(&self, chr: char) -> (c: char)
        requires
            code(chr) < self@.successors.len(),
        ensures
            c == self@.successors[code(chr)],
    {
        self.successors[chr as u32 as usize]
    }
}

/// The place in the table of the metrics of a font.
pub fn find_metrics(table: &Vec<FontMetrics>, font: &Font) -> (r: Option<usize>)
    ensures
        match r {
            Some(i) => i < table@.len() && metrics_for(metrics_views(table@), font@) == Some(table@[i as int]@),
            None => metrics_for(metrics_views(table@), font@) is None,
        },
{
    let ghost views = metrics_views(table@);
    assert(views.subrange(0, views.len() as int) =~= views);
    let mut i: usize = 0;
    while i < table.len()
        invariant
            i <= table.len(),
            views == metrics_views(table@),
            views.len() == table@.len(),
            metrics_for(views, font@) == metrics_for(views.subrange(i as int, views.len() as int), font@),
        decreases table.len() - i,
    {
        let ghost rest = views.subrange(i as int, views.len() as int);
        assert(rest[0] == views[i as int]);
        assert(rest.drop_first() =~= views.subrange(i + 1, views.len() as int));
        let m = &table[i];
        proof {
            Dimen::lemma_sp_injective(m.scale, font.scale);
        }
        if m.font_name.eq(&font.font_name) && m.scale.as_scaled_points() == font.scale.as_scaled_points() {
            return Some(i);
        }
        i = i + 1;
    }
    assert(views.subrange(i as int, views.len() as int).len() == 0);
    None
}

} // verus!
