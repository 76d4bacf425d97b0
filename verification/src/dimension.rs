use vstd::prelude::*;

use vstd::std_specs::ops::{AddSpecImpl, DivSpecImpl, MulSpecImpl, SubSpecImpl};

verus! {

/// The largest value that a dimension may have, in scaled points.
pub const DIMEN_MAX: i32 = 1073741823;

/// The smallest value that a dimension may have, in scaled points.
pub const DIMEN_MIN: i32 = -1073741823;

/// The physical units that a dimension can be written in.
#[derive(Debug, Clone, Copy, PartialEq, Eq)]
pub enum Unit {
    Point,
    Pica,
    Inch,
    BigPoint,
    Centimeter,
    Millimeter,
    DidotPoint,
    Cicero,
    ScaledPoint,
}

/// A dimension, as a number of scaled points (2^16 scaled points make a
/// point).
#[derive(Debug, Clone, Copy, PartialEq, Eq, Hash, Structural)]
pub struct Dimen(i32);

/// Whether a number of scaled points is a valid dimension.
pub open spec fn in_dimen_range(sp: int) -> bool {
    DIMEN_MIN <= sp <= DIMEN_MAX
}

/// Integer division rounding toward zero, as Rust's `/` does.
pub open spec fn trunc_div(a: int, b: int) -> int {
    if a >= 0 {
        if b > 0 {
            a / b
        } else {
            -(a / -b)
        }
    } else {
        if b > 0 {
            -((-a) / b)
        } else {
            (-a) / (-b)
        }
    }
}

/// `a / b` rounded toward zero, for a dividend that is a valid dimension.
fn truncating_div(a: i32, b: i32) -> (q: i32)
    requires
        b != 0,
        in_dimen_range(a as int),
    ensures
        q == trunc_div(a as int, b as int),
        in_dimen_range(q as int),
{
    if b == i32::MIN {
        return 0;
    }
    let na: i32 = if a >= 0 { a } else { -a };
    let nb: i32 = if b >= 0 { b } else { -b };
    let m = na / nb;
    proof {
        assert(0 <= na / nb <= na) by (nonlinear_arith)
            requires
                na >= 0,
                nb > 0,
        ;
    }
    if (a >= 0) == (b > 0) {
        m
    } else {
        -m
    }
}

impl Dimen {
    /// The number of scaled points.
    pub closed spec fn sp(self) -> int {
        self.0 as int
    }

    /// The dimension of the given number of scaled points.
    pub closed spec fn spec_from_sp(sp: int) -> Dimen {
        Dimen(sp as i32)
    }

    pub proof fn lemma_from_sp(sp: int)
        requires
            i32::MIN <= sp <= i32::MAX,
        ensures
            Dimen::spec_from_sp(sp).sp() == sp,
    {
    }

    /// A dimension's number of scaled points fits an `i32`.
    pub proof fn lemma_sp_bounds(d: Dimen)
        ensures
            i32::MIN <= d.sp() <= i32::MAX,
    {
    }

    /// Two dimensions with the same number of scaled points are equal.
    pub proof fn lemma_sp_injective(a: Dimen, b: Dimen)
        ensures
            a.sp() == b.sp() <==> a == b,
    {
    }

    /// Checks that a number of scaled points is a valid dimension.
    fn validate(sp: i32) -> (d: Dimen)
        requires
            in_dimen_range(sp as int),
        ensures
            d.sp() == sp,
    {
        Dimen(sp)
    }

    pub fn zero() -> (d: Dimen)
        ensures
            d.sp() == 0,
    {
        Dimen(0)
    }

    pub fn from_scaled_points(sp: i32) -> (d: Dimen)
        requires
            in_dimen_range(sp as int),
        ensures
            d.sp() == sp,
    {
        Dimen::validate(sp)
    }

    pub fn as_scaled_points(&self) -> (sp: i32)
        ensures
            sp == self.sp(),
    {
        self.0
    }
}

impl std::ops::Add for Dimen {
    type Output = Dimen;

    fn add(self, other: Dimen) -> (d: Dimen) {
        Dimen::validate(self.0 + other.0)
    }
}

impl AddSpecImpl for Dimen {
    open spec fn obeys_add_spec() -> bool {
        true
    }

    open spec fn add_req(self, other: Dimen) -> bool {
        in_dimen_range(self.sp() + other.sp())
    }

    open spec fn add_spec(self, other: Dimen) -> Dimen {
        Dimen::spec_from_sp(self.sp() + other.sp())
    }
}

impl std::ops::Sub for Dimen {
    type Output = Dimen;

    fn sub(self, other: Dimen) -> (d: Dimen) {
        Dimen::validate(self.0 - other.0)
    }
}

impl SubSpecImpl for Dimen {
    open spec fn obeys_sub_spec() -> bool {
        true
    }

    open spec fn sub_req(self, other: Dimen) -> bool {
        in_dimen_range(self.sp() - other.sp())
    }

    open spec fn sub_spec(self, other: Dimen) -> Dimen {
        Dimen::spec_from_sp(self.sp() - other.sp())
    }
}

impl std::ops::Mul<i32> for Dimen {
    type Output = Dimen;

    fn mul(self, other: i32) -> (d: Dimen) {
        Dimen::validate(self.0 * other)
    }
}

impl MulSpecImpl<i32> for Dimen {
    open spec fn obeys_mul_spec() -> bool {
        true
    }

    open spec fn mul_req(self, other: i32) -> bool {
        in_dimen_range(self.sp() * other)
    }

    open spec fn mul_spec(self, other: i32) -> Dimen {
        Dimen::spec_from_sp(self.sp() * other)
    }
}

impl std::ops::Div<i32> for Dimen {
    type Output = Dimen;

    fn div(self, other: i32) -> (d: Dimen) {
        Dimen::validate(truncating_div(self.0, other))
    }
}

impl DivSpecImpl<i32> for Dimen {
    open spec fn obeys_div_spec() -> bool {
        true
    }

    open spec fn div_req(self, other: i32) -> bool {
        &&& other != 0
        &&& in_dimen_range(self.sp())
    }

    open spec fn div_spec(self, other: i32) -> Dimen {
        Dimen::spec_from_sp(trunc_div(self.sp(), other as int))
    }
}

/// The three orders of infinite stretchability.
#[derive(Debug, Clone, Copy, PartialEq, Eq, Structural)]
pub enum FilKind {
    Fil,
    Fill,
    Filll,
}

/// An amount of infinite stretchability: a number of fils, fills or filll
/// (in units of 2^-16).
#[derive(Debug, Clone, Copy, PartialEq, Eq, Structural)]
pub struct FilDimen(pub FilKind, pub i32);

/// The stretch or shrink of a glue: finite, or infinite of some order.
#[derive(Debug, Clone, Copy, PartialEq, Eq, Structural)]
pub enum SpringDimen {
    Dimen(Dimen),
    FilDimen(FilDimen),
}

/// The order of infinity of a stretch or shrink: none for a finite one,
/// then fil, fill, filll.
pub open spec fn spring_order(s: SpringDimen) -> int {
    match s {
        SpringDimen::Dimen(_) => 0,
        SpringDimen::FilDimen(FilDimen(FilKind::Fil, _)) => 1,
        SpringDimen::FilDimen(FilDimen(FilKind::Fill, _)) => 2,
        SpringDimen::FilDimen(FilDimen(FilKind::Filll, _)) => 3,
    }
}

/// The amount of a stretch or shrink, in its order.
pub open spec fn spring_value(s: SpringDimen) -> int {
    match s {
        SpringDimen::Dimen(d) => d.sp(),
        SpringDimen::FilDimen(f) => f.1 as int,
    }
}

/// The sum of two stretches (or shrinks): of different orders of infinity
/// the higher one is kept whole; of the same order the amounts add up.
/// `None` where that amount is not a dimension.
pub open spec fn spring_sum(a: SpringDimen, b: SpringDimen) -> Option<SpringDimen> {
    if spring_order(a) > spring_order(b) {
        Some(a)
    } else if spring_order(a) < spring_order(b) {
        Some(b)
    } else if !in_dimen_range(spring_value(a) + spring_value(b)) {
        None
    } else {
        match a {
            SpringDimen::Dimen(x) => Some(SpringDimen::Dimen(Dimen::spec_from_sp(spring_value(a) + spring_value(b)))),
            SpringDimen::FilDimen(f) => Some(SpringDimen::FilDimen(FilDimen(f.0, (spring_value(a) + spring_value(b)) as i32))),
        }
    }
}

impl std::ops::Add for SpringDimen {
    type Output = SpringDimen;

    fn add(self, other: SpringDimen) -> (r: SpringDimen) {
        let (a_order, b_order) = (order_of(&self), order_of(&other));
        if a_order > b_order {
            self
        } else if a_order < b_order {
            other
        } else {
            match (self, other) {
                (SpringDimen::Dimen(x), SpringDimen::Dimen(y)) => SpringDimen::Dimen(x + y),
                (SpringDimen::FilDimen(f), SpringDimen::FilDimen(g)) => {
                    proof {
                        Dimen::lemma_from_sp(spring_value(self) + spring_value(other));
                    }
                    SpringDimen::FilDimen(FilDimen(f.0, f.1 + g.1))
                },
                _ => self,
            }
        }
    }
}

impl AddSpecImpl for SpringDimen {
    open spec fn obeys_add_spec() -> bool {
        true
    }

    open spec fn add_req(self, other: SpringDimen) -> bool {
        spring_sum(self, other) is Some
    }

    open spec fn add_spec(self, other: SpringDimen) -> SpringDimen {
        spring_sum(self, other).unwrap()
    }
}

/// The order of infinity of a stretch or shrink.
fn order_of(s: &SpringDimen) -> (o: u8)
    ensures
        o == spring_order(*s),
{
    match s {
        SpringDimen::Dimen(_) => 0,
        SpringDimen::FilDimen(FilDimen(FilKind::Fil, _)) => 1,
        SpringDimen::FilDimen(FilDimen(FilKind::Fill, _)) => 2,
        SpringDimen::FilDimen(FilDimen(FilKind::Filll, _)) => 3,
    }
}

} // verus!
