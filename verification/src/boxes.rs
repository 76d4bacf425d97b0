use vstd::prelude::*;

use crate::dimension::{in_dimen_range, trunc_div, Dimen, FilDimen, FilKind, SpringDimen};
use crate::font_metrics::{metrics_views, FontMetrics, FontMetricsView};
use crate::glue::{glue_sum, Glue};
use crate::list::{helem_size, lemma_rigid_glue, rigid_glue, HorizontalListElem, VerticalListElem};

use vstd::std_specs::cmp::PartialEqSpecImpl;

verus! {

/// Which glue a glue set ratio applies to: finite glue, or the glue of one
/// order of infinity.
#[derive(Debug, PartialEq, Eq, Clone, Copy, Structural)]
pub enum GlueSetRatioKind {
    Finite,
    Fil,
    Fill,
    Filll,
}

/// The kind of glue set ratio for glue of the given order of infinity.
pub open spec fn kind_for_fil(fil_kind: FilKind) -> GlueSetRatioKind {
    match fil_kind {
        FilKind::Fil => GlueSetRatioKind::Fil,
        FilKind::Fill => GlueSetRatioKind::Fill,
        FilKind::Filll => GlueSetRatioKind::Filll,
    }
}

impl GlueSetRatioKind {
    /// The kind of glue set ratio that stretches or shrinks glue of a given
    /// order of infinity.
    pub fn from_fil_kind(fil_kind: &FilKind) -> (k: GlueSetRatioKind)
        ensures
            k == kind_for_fil(*fil_kind),
    {
        match fil_kind {
            FilKind::Fil => GlueSetRatioKind::Fil,
            FilKind::Fill => GlueSetRatioKind::Fill,
            FilKind::Filll => GlueSetRatioKind::Filll,
        }
    }
}

/// How much the glue of a box stretches or shrinks: the kind of glue that
/// does, and the ratio of the space to fill to the stretch or shrink there
/// is, as a numerator and a non-negative denominator.
#[derive(Debug, Clone, Copy)]
pub struct GlueSetRatio {
    kind: GlueSetRatioKind,
    stretch: (i32, i32),
}

/// The product of two 32-bit integers fits in 64 bits.
proof fn lemma_product_fits(a: int, b: int)
    requires
        i32::MIN <= a <= i32::MAX,
        i32::MIN <= b <= i32::MAX,
    ensures
        i64::MIN <= a * b <= i64::MAX,
        -0x4000_0000_0000_0000 <= a * b <= 0x4000_0000_0000_0000,
{
    assert(-0x4000_0000_0000_0000 <= a * b <= 0x4000_0000_0000_0000) by (nonlinear_arith)
        requires
            -0x8000_0000 <= a <= 0x8000_0000,
            -0x8000_0000 <= b <= 0x8000_0000,
    ;
}

impl PartialEq for GlueSetRatio {
    /// Two glue set ratios are equal when they have the same kind and
    /// their fractions have the same value.
    fn eq(&self, other: &GlueSetRatio) -> (r: bool) {
        let a = self.stretch.0 as i64;
        let b = other.stretch.1 as i64;
        let c = other.stretch.0 as i64;
        let d = self.stretch.1 as i64;
        proof {
            lemma_product_fits(a as int, b as int);
            lemma_product_fits(c as int, d as int);
        }
        self.kind == other.kind && a * b == c * d
    }
}

impl PartialEqSpecImpl for GlueSetRatio {
    open spec fn obeys_eq_spec() -> bool {
        true
    }

    open spec fn eq_spec(&self, other: &GlueSetRatio) -> bool {
        self.kind() == other.kind() && self.ratio().0 * other.ratio().1 == other.ratio().0
            * self.ratio().1
    }
}

/// TeX's badness: an integer close to `100 (t/s)^3`, computed the way TeX
/// computes it, and at most 10000.
pub open spec fn badness(t: int, s: int) -> int {
    if t == 0 {
        0
    } else {
        let r = if t <= 7230584 {
            t * 297 / s
        } else if s >= 1663497 {
            t / (s / 297)
        } else {
            t
        };
        if r > 1290 {
            10000
        } else {
            (r * r * r + 131072) / 262144
        }
    }
}

/// Badness grows with the stretch or shrink needed: for the same available
/// amount, needing more never gives a smaller badness (within the range
/// where TeX computes it exactly), and badness is at most 10000.
pub proof fn lemma_badness_grows(t1: int, t2: int, s: int)
    requires
        0 <= t1 <= t2 <= 7230584,
        s > 0,
    ensures
        0 <= badness(t1, s) <= badness(t2, s) <= 10000,
{
    let r1 = t1 * 297 / s;
    let r2 = t2 * 297 / s;
    assert(0 <= r1 <= r2) by (nonlinear_arith)
        requires
            0 <= t1 <= t2,
            s > 0,
            r1 == t1 * 297 / s,
            r2 == t2 * 297 / s,
    ;
    assert(r1 <= 1290 ==> (r1 * r1 * r1 + 131072) / 262144 <= 10000) by (nonlinear_arith)
        requires
            0 <= r1,
    ;
    assert(r2 <= 1290 ==> (r2 * r2 * r2 + 131072) / 262144 <= 10000) by (nonlinear_arith)
        requires
            0 <= r2,
    ;
    assert((r1 * r1 * r1 + 131072) / 262144 <= (r2 * r2 * r2 + 131072) / 262144) by (nonlinear_arith)
        requires
            0 <= r1 <= r2,
    ;
    assert(0 <= (r1 * r1 * r1 + 131072) / 262144) by (nonlinear_arith)
        requires
            0 <= r1,
    ;
}

pub open spec fn abs(x: int) -> int {
    if x < 0 {
        -x
    } else {
        x
    }
}

/// The absolute value of an integer.
fn magnitude(x: i32) -> (m: u64)
    ensures
        m == abs(x as int),
{
    if x < 0 {
        (0 - (x as i64)) as u64
    } else {
        x as u64
    }
}

impl GlueSetRatio {
    pub closed spec fn kind(&self) -> GlueSetRatioKind {
        self.kind
    }

    /// The ratio, as numerator and denominator.
    pub closed spec fn ratio(&self) -> (i32, i32) {
        self.stretch
    }

    /// A glue set ratio of the given kind and ratio; a negative denominator
    /// is made positive by negating both parts.
    pub fn from_scaled_ratio(kind: GlueSetRatioKind, ratio: (i32, i32)) -> (g: GlueSetRatio)
        requires
            ratio.1 != i32::MIN,
            ratio.1 < 0 ==> ratio.0 != i32::MIN,
        ensures
            g.kind() == kind,
            g.ratio() == if ratio.1 < 0 {
                ((-ratio.0) as i32, (-ratio.1) as i32)
            } else {
                ratio
            },
            g.ratio().1 >= 0,
        decreases (if ratio.1 < 0 { 1int } else { 0int }),
    {
        if ratio.1 < 0 {
            GlueSetRatio::from_scaled_ratio(kind, (-ratio.0, -ratio.1))
        } else {
            GlueSetRatio { kind, stretch: ratio }
        }
    }

    /// Whether the glue stretches (rather than shrinks): the numerator and
    /// the denominator are both positive, or both not.
    pub fn is_stretch(&self) -> (b: bool)
        ensures
            b == ((self.ratio().1 > 0) == (self.ratio().0 > 0)),
    {
        (self.stretch.1 > 0) == (self.stretch.0 > 0)
    }

    /// The badness of a box set with this ratio: TeX's approximation of
    /// `100 (t/s)^3` for finite glue, and 0 for infinite glue.
    pub fn get_badness(&self) -> (b: u64)
        requires
            self.kind() == GlueSetRatioKind::Finite ==> self.ratio().0 == 0 || self.ratio().1 != 0,
        ensures
            b == if self.kind() == GlueSetRatioKind::Finite {
                badness(abs(self.ratio().0 as int), abs(self.ratio().1 as int))
            } else {
                0
            },
            b <= 10000,
    {
        match self.kind {
            GlueSetRatioKind::Finite => {
                let inf_bad: u64 = 10000;
                let t: u64 = magnitude(self.stretch.0);
                let s: u64 = magnitude(self.stretch.1);
                assert(t == abs(self.stretch.0 as int));
                assert(s == abs(self.stretch.1 as int));
                if t == 0 {
                    return 0;
                }
                let r: u64 = if t <= 7230584 {
                    t * 297 / s
                } else if s >= 1663497 {
                    t / (s / 297)
                } else {
                    t
                };
                if r > 1290 {
                    return inf_bad;
                }
                assert(r * r <= 1290 * 1290 && r * r * r <= 1290 * 1290 * 1290) by (nonlinear_arith)
                    requires
                        r <= 1290,
                ;
                let b = (r * r * r + 131072) / 262144;
                assert(b <= 10000) by (nonlinear_arith)
                    requires
                        b == (r * r * r + 131072) / 262144,
                        r * r * r <= 1290 * 1290 * 1290,
                ;
                b
            },
            _ => 0,
        }
    }
}

/// The outcome of setting the glue of a box.
#[derive(Debug, Clone, Copy, PartialEq)]
pub enum GlueSetResult {
    InsufficientShrink,
    ZeroStretch,
    ZeroShrink,
    GlueSetRatio(GlueSetRatio),
}

impl GlueSetResult {
    /// The glue set ratio to use: shrinking all the way (-1) when there was
    /// not enough shrink, no stretch (0) when there was none to use.
    pub fn into_glue_set_ratio(self) -> (g: GlueSetRatio)
        ensures
            match self {
                GlueSetResult::InsufficientShrink => g.kind() == GlueSetRatioKind::Finite && g.ratio()
                    == (-1i32, 1i32),
                GlueSetResult::ZeroStretch => g.kind() == GlueSetRatioKind::Finite && g.ratio() == (
                    0i32,
                    1i32,
                ),
                GlueSetResult::ZeroShrink => g.kind() == GlueSetRatioKind::Finite && g.ratio() == (
                    0i32,
                    1i32,
                ),
                GlueSetResult::GlueSetRatio(r) => g == r,
            },
    {
        match self {
            GlueSetResult::InsufficientShrink => GlueSetRatio::from_scaled_ratio(
                GlueSetRatioKind::Finite,
                (-1, 1),
            ),
            GlueSetResult::ZeroStretch => GlueSetRatio::from_scaled_ratio(GlueSetRatioKind::Finite, (0, 1)),
            GlueSetResult::ZeroShrink => GlueSetRatio::from_scaled_ratio(GlueSetRatioKind::Finite, (0, 1)),
            GlueSetResult::GlueSetRatio(glue_set_ratio) => glue_set_ratio,
        }
    }
}

/// Whether `g` is a glue set ratio of the given kind whose fraction is
/// `num / den`, with the signs moved so that the denominator is not negative.
pub open spec fn is_ratio(g: GlueSetRatio, kind: GlueSetRatioKind, num: int, den: int) -> bool {
    &&& g.kind() == kind
    &&& g.ratio().0 == (if den < 0 { -num } else { num })
    &&& g.ratio().1 == (if den < 0 { -den } else { den })
}

/// What setting glue gives when it must stretch by `needed` scaled points
/// (shrink, where `needed` is negative) and has `available` to do it with.
/// Finite glue with none to give cannot stretch or shrink at all, and finite
/// glue cannot shrink by more than it has; infinite glue can do anything.
pub open spec fn glue_set_result(r: GlueSetResult, needed: int, available: SpringDimen) -> bool {
    match available {
        SpringDimen::Dimen(d) => if needed == 0 {
            r matches GlueSetResult::GlueSetRatio(g) && is_ratio(g, GlueSetRatioKind::Finite, 0, 1)
        } else if d.sp() == 0 {
            if needed < 0 {
                r is ZeroShrink
            } else {
                r is ZeroStretch
            }
        } else if needed < -d.sp() {
            r is InsufficientShrink
        } else {
            r matches GlueSetResult::GlueSetRatio(g) && is_ratio(
                g,
                GlueSetRatioKind::Finite,
                needed,
                d.sp(),
            )
        },
        SpringDimen::FilDimen(f) => r matches GlueSetResult::GlueSetRatio(g) && if f.1 == 0 {
            is_ratio(g, kind_for_fil(f.0), 0, 1)
        } else {
            is_ratio(g, kind_for_fil(f.0), needed, f.1 as int)
        },
    }
}

/// The glue set ratio that a box is set with when its glue must stretch by
/// `needed` with `available` to do it: as `glue_set_result`, where shrinking
/// too far shrinks by all there is (-1) and glue that cannot move does not.
pub open spec fn set_ratio(g: GlueSetRatio, needed: int, available: SpringDimen) -> bool {
    match available {
        SpringDimen::Dimen(d) => if needed == 0 || d.sp() == 0 {
            is_ratio(g, GlueSetRatioKind::Finite, 0, 1)
        } else if needed < -d.sp() {
            is_ratio(g, GlueSetRatioKind::Finite, -1, 1)
        } else {
            is_ratio(g, GlueSetRatioKind::Finite, needed, d.sp())
        },
        SpringDimen::FilDimen(f) => if f.1 == 0 {
            is_ratio(g, kind_for_fil(f.0), 0, 1)
        } else {
            is_ratio(g, kind_for_fil(f.0), needed, f.1 as int)
        },
    }
}

/// Whether an amount of stretch or shrink can be used as the denominator of
/// a glue set ratio.
pub open spec fn spring_in_range(s: SpringDimen) -> bool {
    match s {
        SpringDimen::Dimen(d) => in_dimen_range(d.sp()),
        SpringDimen::FilDimen(f) => f.1 != i32::MIN,
    }
}

/// The part of a glue that a spread uses: its stretch for a positive spread,
/// its shrink otherwise.
pub open spec fn spring_for(spread: int, glue: Glue) -> SpringDimen {
    if spread > 0 {
        glue.stretch
    } else {
        glue.shrink
    }
}

/// Whether a glue's stretch and shrink can both serve as denominators.
pub open spec fn glue_in_range(glue: Glue) -> bool {
    spring_in_range(glue.stretch) && spring_in_range(glue.shrink)
}

/// Sets glue that must stretch by `stretch_needed` (shrink, where it is
/// negative) when `stretch_available` is what it can stretch or shrink by.
fn set_glue_for_positive_stretch(stretch_needed: &Dimen, stretch_available: &SpringDimen) -> (r:
    GlueSetResult)
    requires
        in_dimen_range(stretch_needed.sp()),
        spring_in_range(*stretch_available),
    ensures
        glue_set_result(r, stretch_needed.sp(), *stretch_available),
{
    let needed = stretch_needed.as_scaled_points();
    match stretch_available {
        SpringDimen::Dimen(stretch_dimen) => {
            let available = stretch_dimen.as_scaled_points();
            if needed == 0 {
                GlueSetResult::GlueSetRatio(
                    GlueSetRatio::from_scaled_ratio(GlueSetRatioKind::Finite, (0, 1)),
                )
            } else if available == 0 {
                if needed < 0 {
                    GlueSetResult::ZeroShrink
                } else {
                    GlueSetResult::ZeroStretch
                }
            } else if needed < -available {
                GlueSetResult::InsufficientShrink
            } else {
                GlueSetResult::GlueSetRatio(
                    GlueSetRatio::from_scaled_ratio(GlueSetRatioKind::Finite, (needed, available)),
                )
            }
        },
        SpringDimen::FilDimen(FilDimen(fil_kind, fils)) => {
            let ratio = if *fils == 0 {
                (0i32, 1i32)
            } else {
                (needed, *fils)
            };
            GlueSetResult::GlueSetRatio(
                GlueSetRatio::from_scaled_ratio(GlueSetRatioKind::from_fil_kind(fil_kind), ratio),
            )
        },
    }
}

/// Sets the glue of a box that is `spread` wider (narrower, where it is
/// negative) than its natural size: its stretch is used to grow, its
/// shrink otherwise.
pub fn set_glue_for_spread(spread: &Dimen, glue: &Glue) -> (r: GlueSetResult)
    requires
        in_dimen_range(spread.sp()),
        glue_in_range(*glue),
    ensures
        glue_set_result(r, spread.sp(), spring_for(spread.sp(), *glue)),
{
    let stretch_or_shrink = if spread.as_scaled_points() > 0 {
        &glue.stretch
    } else {
        &glue.shrink
    };
    set_glue_for_positive_stretch(spread, stretch_or_shrink)
}

/// Sets the glue of a box to make it `final_dimen` big: it stretches or
/// shrinks by the difference from its natural space.
pub fn set_glue_for_dimen(final_dimen: &Dimen, glue: &Glue) -> (r: GlueSetResult)
    requires
        in_dimen_range(final_dimen.sp() - glue.space.sp()),
        glue_in_range(*glue),
    ensures
        glue_set_result(
            r,
            final_dimen.sp() - glue.space.sp(),
            spring_for(final_dimen.sp() - glue.space.sp(), *glue),
        ),
{
    let stretch_needed = *final_dimen - glue.space;
    proof {
        Dimen::lemma_from_sp(final_dimen.sp() - glue.space.sp());
    }
    set_glue_for_spread(&stretch_needed, glue)
}

/// How the size of a box is chosen: its natural size, a fixed size, or its
/// natural size plus a spread.
#[derive(Debug, Clone, Copy)]
pub enum BoxLayout {
    Natural,
    Fixed(Dimen),
    Spread(Dimen),
}

/// Whether a box whose contents take up `glue` can be laid out so: the glue
/// can be set, and the size and the spread are dimensions.
pub open spec fn layout_fits(glue: Glue, layout: BoxLayout) -> bool {
    &&& glue_in_range(glue)
    &&& layout matches BoxLayout::Fixed(f) ==> in_dimen_range(f.sp() - glue.space.sp())
    &&& layout matches BoxLayout::Spread(s) ==> in_dimen_range(s.sp()) && in_dimen_range(
        glue.space.sp() + s.sp(),
    )
}

/// Whether `r` is the size and glue set ratio of a box whose contents take
/// up `glue`, laid out so: at its natural size no glue is set; at a fixed
/// size equal to the natural size neither; otherwise the glue is set to
/// reach the size.
pub open spec fn box_set(glue: Glue, layout: BoxLayout, r: (Dimen, Option<GlueSetRatio>)) -> bool {
    match layout {
        BoxLayout::Natural => r.0 == glue.space && r.1 is None,
        BoxLayout::Fixed(f) => r.0 == f && if f == glue.space {
            r.1 is None
        } else {
            r.1 matches Some(g) && set_ratio(
                g,
                f.sp() - glue.space.sp(),
                spring_for(f.sp() - glue.space.sp(), glue),
            )
        },
        BoxLayout::Spread(s) => r.0.sp() == glue.space.sp() + s.sp() && (r.1 matches Some(g)
            && set_ratio(g, s.sp(), spring_for(s.sp(), glue))),
    }
}

/// The size a box is set to and the glue set ratio it needs, when `glue` is
/// the sum of what its contents take up and `layout` says how big it is to
/// be: at its natural size no glue is set; at a fixed size equal to the
/// natural size neither; otherwise the glue is set to reach the size.
pub fn get_set_dimen_and_ratio(glue: Glue, layout: &BoxLayout) -> (r: (Dimen, Option<GlueSetRatio>))
    requires
        layout_fits(glue, *layout),
    ensures
        box_set(glue, *layout, r),
{
    match *layout {
        BoxLayout::Natural => (glue.space, None),
        BoxLayout::Fixed(final_dimen) => {
            let natural_dimen = glue.space;
            if final_dimen == natural_dimen {
                (final_dimen, None)
            } else {
                (final_dimen, Some(set_glue_for_dimen(&final_dimen, &glue).into_glue_set_ratio()))
            }
        },
        BoxLayout::Spread(spread_needed) => {
            let set_dimen = glue.space + spread_needed;
            proof {
                Dimen::lemma_from_sp(glue.space.sp() + spread_needed.sp());
            }
            (set_dimen, Some(set_glue_for_spread(&spread_needed, &glue).into_glue_set_ratio()))
        },
    }
}

/// How much of a stretch or shrink a glue set ratio acts on: finite
/// amounts for a finite ratio, and amounts of the ratio's own order of
/// infinity for an infinite one; nothing else.
pub open spec fn spring_amount(r: GlueSetRatio, s: SpringDimen) -> int {
    match s {
        SpringDimen::Dimen(d) => if r.kind() == GlueSetRatioKind::Finite {
            d.sp()
        } else {
            0
        },
        SpringDimen::FilDimen(FilDimen(k, n)) => if r.kind() == kind_for_fil(k) {
            n as int
        } else {
            0
        },
    }
}

/// The stretch or shrink of a glue that a ratio applies to: its stretch
/// where the ratio stretches, its shrink where it shrinks.
pub open spec fn spring_of(r: GlueSetRatio, glue: Glue) -> SpringDimen {
    if (r.ratio().1 > 0) == (r.ratio().0 > 0) {
        glue.stretch
    } else {
        glue.shrink
    }
}

/// The amount of a spring scaled by the ratio, the exact quotient
/// truncated toward zero.
pub open spec fn scaled_spring(r: GlueSetRatio, s: SpringDimen) -> int {
    trunc_div(spring_amount(r, s) * r.ratio().0, r.ratio().1 as int)
}

/// The size of a glue set with a ratio: its natural space, plus its
/// stretch (or shrink) scaled by the ratio.
pub open spec fn glue_set_size(r: GlueSetRatio, glue: Glue) -> int {
    glue.space.sp() + scaled_spring(r, spring_of(r, glue))
}

/// Whether a glue can be set with a ratio: the ratio has a denominator, and
/// the scaled spring and the size are dimensions.
pub open spec fn glue_settable(r: GlueSetRatio, glue: Glue) -> bool {
    &&& r.ratio().1 != 0
    &&& in_dimen_range(scaled_spring(r, spring_of(r, glue)))
    &&& in_dimen_range(glue_set_size(r, glue))
}

/// `a / b` rounded toward zero.
fn truncating_div_i64(a: i64, b: i64) -> (q: i64)
    requires
        b != 0,
        -0x4000_0000_0000_0000 <= a <= 0x4000_0000_0000_0000,
        -0x1_0000_0000 < b < 0x1_0000_0000,
    ensures
        q == trunc_div(a as int, b as int),
{
    let na: u64 = if a >= 0 { a as u64 } else { (0 - a) as u64 };
    let nb: u64 = if b >= 0 { b as u64 } else { (0 - b) as u64 };
    let m: u64 = na / nb;
    proof {
        assert(0 <= na / nb <= na) by (nonlinear_arith)
            requires
                nb > 0,
        ;
    }
    if (a >= 0) == (b > 0) {
        m as i64
    } else {
        0 - (m as i64)
    }
}

impl GlueSetRatio {
    /// The size that a glue takes in a box set with this ratio.
    pub fn apply_to_glue(&self, glue: &Glue) -> (d: Dimen)
        requires
            glue_settable(*self, *glue),
        ensures
            d.sp() == glue_set_size(*self, *glue),
    {
        let spring = if self.is_stretch() {
            glue.stretch
        } else {
            glue.shrink
        };
        let amount: i64 = match spring {
            SpringDimen::Dimen(d) => match self.kind {
                GlueSetRatioKind::Finite => d.as_scaled_points() as i64,
                _ => 0,
            },
            SpringDimen::FilDimen(FilDimen(k, n)) => {
                let same = match (self.kind, k) {
                    (GlueSetRatioKind::Fil, FilKind::Fil) => true,
                    (GlueSetRatioKind::Fill, FilKind::Fill) => true,
                    (GlueSetRatioKind::Filll, FilKind::Filll) => true,
                    _ => false,
                };
                if same {
                    n as i64
                } else {
                    0
                }
            },
        };
        assert(spring == spring_of(*self, *glue));
        assert(amount == spring_amount(*self, spring_of(*self, *glue)));
        proof {
            lemma_product_fits(amount as int, self.stretch.0 as int);
        }
        let scaled = truncating_div_i64(amount * (self.stretch.0 as i64), self.stretch.1 as i64);
        let part = Dimen::from_scaled_points(scaled as i32);
        proof {
            Dimen::lemma_from_sp(glue.space.sp() + part.sp());
        }
        glue.space + part
    }
}

/// A box of horizontal material: its size, its list, and how its glue is
/// set.
#[derive(Debug, PartialEq)]
pub struct HorizontalBox {
    pub height: Dimen,
    pub depth: Dimen,
    pub width: Dimen,
    pub list: Vec<HorizontalListElem>,
    /// How much each glue of the list stretches or shrinks.
    pub glue_set_ratio: Option<GlueSetRatio>,
}

/// A box of vertical material: its size, its list, and how its glue is set.
#[derive(Debug, PartialEq)]
pub struct VerticalBox {
    pub height: Dimen,
    pub depth: Dimen,
    pub width: Dimen,
    pub list: Vec<VerticalListElem>,
    /// How much each glue of the list stretches or shrinks.
    pub glue_set_ratio: Option<GlueSetRatio>,
}

/// A box, horizontal or vertical.
#[derive(Debug, PartialEq)]
pub enum TeXBox {
    HorizontalBox(HorizontalBox),
    VerticalBox(VerticalBox),
}

/// The characters of a box, for a rough look at its contents: the
/// characters of its lists in order, a space for each horizontal skip, a
/// line end after each box of a vertical list; an empty horizontal box of
/// positive width shows as one space.
pub open spec fn box_chars(b: TeXBox) -> Seq<char>
    decreases b,
{
    match b {
        TeXBox::HorizontalBox(h) => hbox_chars(h),
        TeXBox::VerticalBox(v) => vlist_chars(v.list@),
    }
}

/// The characters of a horizontal box.
pub open spec fn hbox_chars(h: HorizontalBox) -> Seq<char>
    decreases h,
{
    if h.list@.len() == 0 && h.width.sp() > 0 {
        seq![' ']
    } else {
        hlist_chars(h.list@)
    }
}

/// The characters of a horizontal list.
pub open spec fn hlist_chars(s: Seq<HorizontalListElem>) -> Seq<char>
    decreases s,
{
    if s.len() == 0 {
        Seq::empty()
    } else {
        hlist_chars(s.drop_last()) + match s.last() {
            HorizontalListElem::Char { chr, font: _ } => seq![chr],
            HorizontalListElem::HSkip(_) => seq![' '],
            HorizontalListElem::Box { tex_box, shift: _ } => box_chars(tex_box),
        }
    }
}

/// The characters of a vertical list.
pub open spec fn vlist_chars(s: Seq<VerticalListElem>) -> Seq<char>
    decreases s,
{
    if s.len() == 0 {
        Seq::empty()
    } else {
        vlist_chars(s.drop_last()) + match s.last() {
            VerticalListElem::VSkip(_) => Seq::empty(),
            VerticalListElem::Box { tex_box, shift: _ } => box_chars(tex_box).push('\n'),
        }
    }
}

impl HorizontalBox {
    /// An empty horizontal box of no size.
    pub fn empty() -> (b: HorizontalBox)
        ensures
            b.height.sp() == 0,
            b.depth.sp() == 0,
            b.width.sp() == 0,
            b.list@.len() == 0,
            b.glue_set_ratio is None,
    {
        HorizontalBox {
            height: Dimen::zero(),
            depth: Dimen::zero(),
            width: Dimen::zero(),
            list: Vec::new(),
            glue_set_ratio: None,
        }
    }

    /// A box of a horizontal list: as high and as deep as its highest and
    /// deepest element (and never less than zero), and as wide as `layout`
    /// makes the sum of the widths of its elements, with the glue set to
    /// match.
    pub fn create_from_horizontal_list_with_layout(
        list: Vec<HorizontalListElem>,
        layout: &BoxLayout,
        metrics: &Vec<FontMetrics>,
    ) -> (b: HorizontalBox)
        requires
            hlist_size(metrics_views(metrics@), list@) is Some,
            layout_fits(hlist_size(metrics_views(metrics@), list@).unwrap().2, *layout),
        ensures
            b.height.sp() == hlist_size(metrics_views(metrics@), list@).unwrap().0,
            b.depth.sp() == hlist_size(metrics_views(metrics@), list@).unwrap().1,
            box_set(hlist_size(metrics_views(metrics@), list@).unwrap().2, *layout, (b.width, b.glue_set_ratio)),
            b.list@ == list@,
    {
        let ghost t = metrics_views(metrics@);
        let mut height = Dimen::zero();
        let mut depth = Dimen::zero();
        let mut width = Glue::zero();
        proof {
            lemma_rigid_glue(width, width.space);
            lemma_hlist_size_prefix(t, list@, 0);
            assert(list@.take(0) =~= Seq::<HorizontalListElem>::empty());
        }
        let mut i: usize = 0;
        while i < list.len()
            invariant
                i <= list@.len(),
                t == metrics_views(metrics@),
                hlist_size(t, list@) is Some,
                hlist_size(t, list@.take(i as int)) == Some((height.sp(), depth.sp(), width)),
            decreases list.len() - i,
        {
            proof {
                lemma_hlist_size_prefix(t, list@, i + 1);
                assert(list@.take(i + 1).drop_last() =~= list@.take(i as int));
                assert(list@.take(i + 1).last() == list@[i as int]);
            }
            let (elem_height, elem_depth, elem_width) = list[i].get_size(metrics);
            if elem_height.as_scaled_points() > height.as_scaled_points() {
                height = elem_height;
            }
            if elem_depth.as_scaled_points() > depth.as_scaled_points() {
                depth = elem_depth;
            }
            width = width + elem_width;
            i = i + 1;
        }
        assert(list@.take(i as int) =~= list@);
        let (set_width, set_ratio) = get_set_dimen_and_ratio(width, layout);
        HorizontalBox { height, depth, width: set_width, list, glue_set_ratio: set_ratio }
    }
}

/// The height, depth and total width (as glue) of a horizontal list: the
/// greatest height and depth of its elements (zero at least), and the sum
/// of their widths. `None` where an element has no size or the sum goes out
/// of range.
pub open spec fn hlist_size(table: Seq<FontMetricsView>, s: Seq<HorizontalListElem>) -> Option<(int, int, Glue)>
    decreases s.len(),
{
    if s.len() == 0 {
        Some((0, 0, rigid_glue(0)))
    } else {
        match (hlist_size(table, s.drop_last()), helem_size(table, s.last())) {
            (Some((h, d, w)), Some((eh, ed, ew))) => match glue_sum(w, ew) {
                Some(g) => Some(
                    (
                        if eh > h {
                            eh
                        } else {
                            h
                        },
                        if ed > d {
                            ed
                        } else {
                            d
                        },
                        g,
                    ),
                ),
                None => None,
            },
            _ => None,
        }
    }
}

/// A horizontal list is as high as its highest element and as deep as its
/// deepest one, and never less than zero: every element has a size, none is
/// higher or deeper than the list, and the list's height (depth) is zero or
/// that of one of its elements. Its natural width is the sum of the widths
/// of its elements.
pub proof fn law_hlist_is_as_high_as_its_highest_element(table: Seq<FontMetricsView>, s: Seq<HorizontalListElem>)
    requires
        hlist_size(table, s) is Some,
    ensures
        ({
            let (h, d, w) = hlist_size(table, s).unwrap();
            &&& h >= 0 && d >= 0
            &&& forall|i: int|
                0 <= i < s.len() ==> (#[trigger] helem_size(table, s[i])) is Some && helem_size(
                    table,
                    s[i],
                ).unwrap().0 <= h && helem_size(table, s[i]).unwrap().1 <= d
            &&& h == 0 || exists|i: int| 0 <= i < s.len() && (#[trigger] helem_size(table, s[i])).unwrap().0 == h
            &&& d == 0 || exists|i: int| 0 <= i < s.len() && (#[trigger] helem_size(table, s[i])).unwrap().1 == d
            &&& w.space.sp() == space_sum(table, s)
        }),
    decreases s.len(),
{
    Dimen::lemma_from_sp(0);
    if s.len() > 0 {
        let p = s.drop_last();
        law_hlist_is_as_high_as_its_highest_element(table, p);
        let (h0, d0, w0) = hlist_size(table, p).unwrap();
        let (eh, ed, ew) = helem_size(table, s.last()).unwrap();
        assert(s.last() == s[s.len() - 1]);
        assert forall|i: int| 0 <= i < p.len() implies #[trigger] p[i] == s[i] by {}
        let (h, d, w) = hlist_size(table, s).unwrap();
        assert(forall|i: int|
            0 <= i < s.len() ==> (#[trigger] helem_size(table, s[i])) is Some && helem_size(table, s[i]).unwrap().0
                <= h && helem_size(table, s[i]).unwrap().1 <= d) by {
            assert forall|i: int| 0 <= i < s.len() implies (#[trigger] helem_size(table, s[i])) is Some
                && helem_size(table, s[i]).unwrap().0 <= h && helem_size(table, s[i]).unwrap().1 <= d by {
                if i < p.len() {
                    assert(p[i] == s[i]);
                }
            }
        }
        if h != 0 {
            if h == eh {
                assert(helem_size(table, s[s.len() - 1]).unwrap().0 == h);
            } else {
                let j = choose|j: int| 0 <= j < p.len() && (#[trigger] helem_size(table, p[j])).unwrap().0 == h0;
                assert(p[j] == s[j]);
                assert(helem_size(table, s[j]).unwrap().0 == h);
            }
        }
        if d != 0 {
            if d == ed {
                assert(helem_size(table, s[s.len() - 1]).unwrap().1 == d);
            } else {
                let j = choose|j: int| 0 <= j < p.len() && (#[trigger] helem_size(table, p[j])).unwrap().1 == d0;
                assert(p[j] == s[j]);
                assert(helem_size(table, s[j]).unwrap().1 == d);
            }
        }
        Dimen::lemma_from_sp(w0.space.sp() + ew.space.sp());
    }
}

/// The sum of the natural widths of the elements of a horizontal list.
pub open spec fn space_sum(table: Seq<FontMetricsView>, s: Seq<HorizontalListElem>) -> int
    decreases s.len(),
{
    if s.len() == 0 {
        0
    } else {
        space_sum(table, s.drop_last()) + helem_size(table, s.last()).unwrap().2.space.sp()
    }
}

/// A list whose size is known has prefixes whose sizes are known.
proof fn lemma_hlist_size_prefix(table: Seq<FontMetricsView>, s: Seq<HorizontalListElem>, n: int)
    requires
        0 <= n <= s.len(),
        hlist_size(table, s) is Some,
    ensures
        hlist_size(table, s.take(n)) is Some,
    decreases s.len() - n,
{
    if n < s.len() {
        lemma_hlist_size_prefix(table, s, n + 1);
        assert(s.take(n + 1).drop_last() =~= s.take(n));
    } else {
        assert(s.take(n) =~= s);
    }
}

impl TeXBox {
    /// The height of the box.
    pub open spec fn height_of(&self) -> Dimen {
        match self {
            TeXBox::HorizontalBox(h) => h.height,
            TeXBox::VerticalBox(v) => v.height,
        }
    }

    /// The width of the box.
    pub open spec fn width_of(&self) -> Dimen {
        match self {
            TeXBox::HorizontalBox(h) => h.width,
            TeXBox::VerticalBox(v) => v.width,
        }
    }

    /// The depth of the box.
    pub open spec fn depth_of(&self) -> Dimen {
        match self {
            TeXBox::HorizontalBox(h) => h.depth,
            TeXBox::VerticalBox(v) => v.depth,
        }
    }

    /// The height of the box.
    pub fn height(&self) -> (d: &Dimen)
        ensures
            *d == match self {
                TeXBox::HorizontalBox(h) => h.height,
                TeXBox::VerticalBox(v) => v.height,
            },
    {
        match self {
            TeXBox::HorizontalBox(hbox) => &hbox.height,
            TeXBox::VerticalBox(vbox) => &vbox.height,
        }
    }

    /// The width of the box.
    pub fn width(&self) -> (d: &Dimen)
        ensures
            *d == match self {
                TeXBox::HorizontalBox(h) => h.width,
                TeXBox::VerticalBox(v) => v.width,
            },
    {
        match self {
            TeXBox::HorizontalBox(hbox) => &hbox.width,
            TeXBox::VerticalBox(vbox) => &vbox.width,
        }
    }

    /// The depth of the box.
    pub fn depth(&self) -> (d: &Dimen)
        ensures
            *d == match self {
                TeXBox::HorizontalBox(h) => h.depth,
                TeXBox::VerticalBox(v) => v.depth,
            },
    {
        match self {
            TeXBox::HorizontalBox(hbox) => &hbox.depth,
            TeXBox::VerticalBox(vbox) => &vbox.depth,
        }
    }

    /// The height of the box, to be changed.
    pub fn mut_height(&mut self) -> (d: &mut Dimen)
        ensures
            *d == match *old(self) {
                TeXBox::HorizontalBox(h) => h.height,
                TeXBox::VerticalBox(v) => v.height,
            },
            *final(self) == match *old(self) {
                TeXBox::HorizontalBox(h) => TeXBox::HorizontalBox(HorizontalBox { height: *final(d), ..h }),
                TeXBox::VerticalBox(v) => TeXBox::VerticalBox(VerticalBox { height: *final(d), ..v }),
            },
    {
        match self {
            TeXBox::HorizontalBox(hbox) => &mut hbox.height,
            TeXBox::VerticalBox(vbox) => &mut vbox.height,
        }
    }

    /// The width of the box, to be changed.
    pub fn mut_width(&mut self) -> (d: &mut Dimen)
        ensures
            *d == match *old(self) {
                TeXBox::HorizontalBox(h) => h.width,
                TeXBox::VerticalBox(v) => v.width,
            },
            *final(self) == match *old(self) {
                TeXBox::HorizontalBox(h) => TeXBox::HorizontalBox(HorizontalBox { width: *final(d), ..h }),
                TeXBox::VerticalBox(v) => TeXBox::VerticalBox(VerticalBox { width: *final(d), ..v }),
            },
    {
        match self {
            TeXBox::HorizontalBox(hbox) => &mut hbox.width,
            TeXBox::VerticalBox(vbox) => &mut vbox.width,
        }
    }

    /// The depth of the box, to be changed.
    pub fn mut_depth(&mut self) -> (d: &mut Dimen)
        ensures
            *d == match *old(self) {
                TeXBox::HorizontalBox(h) => h.depth,
                TeXBox::VerticalBox(v) => v.depth,
            },
            *final(self) == match *old(self) {
                TeXBox::HorizontalBox(h) => TeXBox::HorizontalBox(HorizontalBox { depth: *final(d), ..h }),
                TeXBox::VerticalBox(v) => TeXBox::VerticalBox(VerticalBox { depth: *final(d), ..v }),
            },
    {
        match self {
            TeXBox::HorizontalBox(hbox) => &mut hbox.depth,
            TeXBox::VerticalBox(vbox) => &mut vbox.depth,
        }
    }
}

impl HorizontalBox {
    /// The characters of the box; see `box_chars`.
    pub fn to_chars(&self) -> (r: Vec<char>)
        ensures
            r@ == hbox_chars(*self),
        decreases self,
    {
        if self.list.len() == 0 && self.width.as_scaled_points() > 0 {
            let mut out: Vec<char> = Vec::new();
            out.push(' ');
            return out;
        }
        let mut out: Vec<char> = Vec::new();
        let mut i: usize = 0;
        while i < self.list.len()
            invariant
                i <= self.list@.len(),
                out@ == hlist_chars(self.list@.take(i as int)),
            decreases self.list.len() - i,
        {
            assert(self.list@.take(i + 1).drop_last() =~= self.list@.take(i as int));
            match &self.list[i] {
                HorizontalListElem::Char { chr, font: _ } => {
                    out.push(*chr);
                },
                HorizontalListElem::HSkip(_) => {
                    out.push(' ');
                },
                HorizontalListElem::Box { tex_box, shift: _ } => {
                    assert(decreases_to!(self => self.list));
                    assert(decreases_to!(self.list => self.list@));
                    assert(decreases_to!(self.list@ => self.list@[i as int]));
                    let mut inner = tex_box.to_chars();
                    out.append(&mut inner);
                },
            }
            i = i + 1;
        }
        assert(self.list@.take(i as int) =~= self.list@);
        out
    }
}

impl VerticalBox {
    /// The characters of the box; see `box_chars`.
    pub fn to_chars(&self) -> (r: Vec<char>)
        ensures
            r@ == vlist_chars(self.list@),
        decreases self,
    {
        let mut out: Vec<char> = Vec::new();
        let mut i: usize = 0;
        while i < self.list.len()
            invariant
                i <= self.list@.len(),
                out@ == vlist_chars(self.list@.take(i as int)),
            decreases self.list.len() - i,
        {
            assert(self.list@.take(i + 1).drop_last() =~= self.list@.take(i as int));
            match &self.list[i] {
                VerticalListElem::VSkip(_) => {},
                VerticalListElem::Box { tex_box, shift: _ } => {
                    assert(decreases_to!(self => self.list));
                    assert(decreases_to!(self.list => self.list@));
                    assert(decreases_to!(self.list@ => self.list@[i as int]));
                    let mut inner = tex_box.to_chars();
                    out.append(&mut inner);
                    out.push('\n');
                },
            }
            i = i + 1;
        }
        assert(self.list@.take(i as int) =~= self.list@);
        out
    }
}

impl TeXBox {
    /// The characters of the box; see `box_chars`.
    pub fn to_chars(&self) -> (r: Vec<char>)
        ensures
            r@ == box_chars(*self),
        decreases self,
    {
        match self {
            TeXBox::HorizontalBox(hbox) => hbox.to_chars(),
            TeXBox::VerticalBox(vbox) => vbox.to_chars(),
        }
    }
}

} // verus!
