use vstd::prelude::*;

use crate::boxes::{HorizontalBox, TeXBox, VerticalBox};
use crate::glue::Glue;
use crate::list::{rigid_glue, lemma_rigid_glue, HorizontalListElem, VerticalListElem};
use crate::dimension::{in_dimen_range, Dimen};
use crate::math_code::{MathClass, MathCode};

verus! {

/// The kinds of atoms of a math list.
#[derive(Debug, PartialEq, Eq, Clone, Copy, Hash, Structural)]
pub enum AtomKind {
    Ord,
    Op,
    Bin,
    Rel,
    Open,
    Close,
    Punct,
    Inner,
    Over,
    Under,
    Acc,
    Rad,
    Vcent,
}

impl AtomKind {
    /// The kind of atom that a character of a math class makes.
    pub open spec fn spec_from_math_class(class: MathClass) -> AtomKind {
        match class {
            MathClass::Ordinary => AtomKind::Ord,
            MathClass::LargeOperator => AtomKind::Op,
            MathClass::BinaryOperation => AtomKind::Bin,
            MathClass::Relation => AtomKind::Rel,
            MathClass::Opening => AtomKind::Open,
            MathClass::Closing => AtomKind::Close,
            MathClass::Punctuation => AtomKind::Punct,
            _ => AtomKind::Ord,
        }
    }

    /// The kind of atom that a character of a math class makes; a variable
    /// family character is an ordinary atom.
    pub fn from_math_class(class: &MathClass) -> (k: AtomKind)
        requires
            *class != MathClass::Active,
        ensures
            k == match class {
                MathClass::Ordinary => AtomKind::Ord,
                MathClass::LargeOperator => AtomKind::Op,
                MathClass::BinaryOperation => AtomKind::Bin,
                MathClass::Relation => AtomKind::Rel,
                MathClass::Opening => AtomKind::Open,
                MathClass::Closing => AtomKind::Close,
                MathClass::Punctuation => AtomKind::Punct,
                _ => AtomKind::Ord,
            },
    {
        match class {
            MathClass::Ordinary => AtomKind::Ord,
            MathClass::LargeOperator => AtomKind::Op,
            MathClass::BinaryOperation => AtomKind::Bin,
            MathClass::Relation => AtomKind::Rel,
            MathClass::Opening => AtomKind::Open,
            MathClass::Closing => AtomKind::Close,
            MathClass::Punctuation => AtomKind::Punct,
            _ => AtomKind::Ord,
        }
    }
}

/// A math symbol: a position in a font family.
#[derive(Debug, PartialEq, Eq, Clone, Copy)]
pub struct MathSymbol {
    pub family_number: u8,
    pub position_number: u8,
}

impl MathSymbol {
    /// The symbol that a math code names.
    pub fn from_math_code(math_code: &MathCode) -> (s: MathSymbol)
        ensures
            s.family_number == math_code.family,
            s.position_number == math_code.position,
    {
        MathSymbol { family_number: math_code.family, position_number: math_code.position }
    }
}

/// The eight styles of math: display, text, script and scriptscript, each
/// also cramped (primed).
#[derive(Debug, PartialEq, Eq, Clone, Copy, Hash, Structural)]
pub enum MathStyle {
    DisplayStyle,
    DisplayStylePrime,
    TextStyle,
    TextStylePrime,
    ScriptStyle,
    ScriptStylePrime,
    ScriptScriptStyle,
    ScriptScriptStylePrime,
}

impl MathStyle {
    pub open spec fn spec_is_script(self) -> bool {
        match self {
            MathStyle::ScriptStyle | MathStyle::ScriptStylePrime | MathStyle::ScriptScriptStyle
            | MathStyle::ScriptScriptStylePrime => true,
            _ => false,
        }
    }

    /// Whether a style is cramped.
    pub open spec fn is_cramped(self) -> bool {
        match self {
            MathStyle::DisplayStylePrime | MathStyle::TextStylePrime | MathStyle::ScriptStylePrime
            | MathStyle::ScriptScriptStylePrime => true,
            _ => false,
        }
    }

    pub open spec fn spec_prime(self) -> MathStyle {
        match self {
            MathStyle::DisplayStyle | MathStyle::DisplayStylePrime => MathStyle::DisplayStylePrime,
            MathStyle::TextStyle | MathStyle::TextStylePrime => MathStyle::TextStylePrime,
            MathStyle::ScriptStyle | MathStyle::ScriptStylePrime => MathStyle::ScriptStylePrime,
            MathStyle::ScriptScriptStyle | MathStyle::ScriptScriptStylePrime => MathStyle::ScriptScriptStylePrime,
        }
    }

    pub open spec fn spec_up_arrow(self) -> MathStyle {
        match self {
            MathStyle::DisplayStyle | MathStyle::TextStyle => MathStyle::ScriptStyle,
            MathStyle::DisplayStylePrime | MathStyle::TextStylePrime => MathStyle::ScriptStylePrime,
            MathStyle::ScriptStyle | MathStyle::ScriptScriptStyle => MathStyle::ScriptScriptStyle,
            MathStyle::ScriptStylePrime | MathStyle::ScriptScriptStylePrime => MathStyle::ScriptScriptStylePrime,
        }
    }

    /// Whether this is a script or scriptscript style.
    pub fn is_script(&self) -> (b: bool)
        ensures
            b == self.spec_is_script(),
    {
        match *self {
            MathStyle::DisplayStyle => false,
            MathStyle::DisplayStylePrime => false,
            MathStyle::TextStyle => false,
            MathStyle::TextStylePrime => false,
            MathStyle::ScriptStyle => true,
            MathStyle::ScriptStylePrime => true,
            MathStyle::ScriptScriptStyle => true,
            MathStyle::ScriptScriptStylePrime => true,
        }
    }

    /// The cramped version of the style.
    pub fn prime(&self) -> (s: MathStyle)
        ensures
            s == self.spec_prime(),
    {
        match *self {
            MathStyle::DisplayStyle => MathStyle::DisplayStylePrime,
            MathStyle::DisplayStylePrime => MathStyle::DisplayStylePrime,
            MathStyle::TextStyle => MathStyle::TextStylePrime,
            MathStyle::TextStylePrime => MathStyle::TextStylePrime,
            MathStyle::ScriptStyle => MathStyle::ScriptStylePrime,
            MathStyle::ScriptStylePrime => MathStyle::ScriptStylePrime,
            MathStyle::ScriptScriptStyle => MathStyle::ScriptScriptStylePrime,
            MathStyle::ScriptScriptStylePrime => MathStyle::ScriptScriptStylePrime,
        }
    }

    /// The style of a superscript of this style.
    pub fn up_arrow(&self) -> (s: MathStyle)
        ensures
            s == self.spec_up_arrow(),
    {
        match *self {
            MathStyle::DisplayStyle => MathStyle::ScriptStyle,
            MathStyle::DisplayStylePrime => MathStyle::ScriptStylePrime,
            MathStyle::TextStyle => MathStyle::ScriptStyle,
            MathStyle::TextStylePrime => MathStyle::ScriptStylePrime,
            MathStyle::ScriptStyle => MathStyle::ScriptScriptStyle,
            MathStyle::ScriptStylePrime => MathStyle::ScriptScriptStylePrime,
            MathStyle::ScriptScriptStyle => MathStyle::ScriptScriptStyle,
            MathStyle::ScriptScriptStylePrime => MathStyle::ScriptScriptStylePrime,
        }
    }

    /// The style of a subscript of this style: that of a superscript,
    /// cramped.
    pub fn down_arrow(&self) -> (s: MathStyle)
        ensures
            s == self.spec_up_arrow().spec_prime(),
    {
        self.up_arrow().prime()
    }
}

impl MathStyle {
    /// The size of type a style sets in: text size (0) for display and text
    /// styles, script size (1), scriptscript size (2).
    pub open spec fn type_size(self) -> int {
        match self {
            MathStyle::DisplayStyle | MathStyle::DisplayStylePrime | MathStyle::TextStyle
            | MathStyle::TextStylePrime => 0,
            MathStyle::ScriptStyle | MathStyle::ScriptStylePrime => 1,
            MathStyle::ScriptScriptStyle | MathStyle::ScriptScriptStylePrime => 2,
        }
    }
}

impl MathStyle {
    /// Whether a style is display style, cramped or not.
    pub open spec fn is_display(self) -> bool {
        self == MathStyle::DisplayStyle || self == MathStyle::DisplayStylePrime
    }
}

/// Cramping keeps a style's size and whether it is display style, and makes
/// it cramped; a style is fixed by those three, so cramping a cramped style
/// leaves it as it is. Script styles are exactly those of script and
/// scriptscript size.
pub proof fn law_cramping_keeps_size(s: MathStyle, t: MathStyle)
    ensures
        s.spec_prime().type_size() == s.type_size(),
        s.spec_prime().is_display() == s.is_display(),
        s.spec_prime().is_cramped(),
        (s.type_size() == t.type_size() && s.is_display() == t.is_display() && s.is_cramped()
            == t.is_cramped()) ==> s == t,
        s.spec_is_script() == (s.type_size() > 0),
        s.is_display() ==> s.type_size() == 0,
{
}

/// Each class of math character makes the atom of the same name: ordinary
/// characters (and variable family ones) ordinary atoms, large operators
/// operator atoms, binary operations binary atoms, relations relation
/// atoms, openings and closings opening and closing atoms, punctuation
/// punctuation atoms.
pub proof fn law_atom_kinds_of_classes(c: MathClass)
    ensures
        c == MathClass::Ordinary ==> AtomKind::spec_from_math_class(c) == AtomKind::Ord,
        c == MathClass::LargeOperator ==> AtomKind::spec_from_math_class(c) == AtomKind::Op,
        c == MathClass::BinaryOperation ==> AtomKind::spec_from_math_class(c) == AtomKind::Bin,
        c == MathClass::Relation ==> AtomKind::spec_from_math_class(c) == AtomKind::Rel,
        c == MathClass::Opening ==> AtomKind::spec_from_math_class(c) == AtomKind::Open,
        c == MathClass::Closing ==> AtomKind::spec_from_math_class(c) == AtomKind::Close,
        c == MathClass::Punctuation ==> AtomKind::spec_from_math_class(c) == AtomKind::Punct,
        c == MathClass::VariableFamily ==> AtomKind::spec_from_math_class(c) == AtomKind::Ord,
{
}

/// A script is set one size smaller than the style it is attached to, but
/// never below scriptscript size: a superscript keeps the crampedness of
/// its style and a subscript is cramped. So display and text styles give
/// the same scripts (script style, or its cramped form), and script and
/// scriptscript styles give scriptscript ones. The size and crampedness
/// fix a style among the script styles.
pub proof fn law_script_style_sizes(s: MathStyle, t: MathStyle)
    ensures
        s.spec_up_arrow().type_size() == if s.type_size() < 2 {
            s.type_size() + 1
        } else {
            2
        },
        s.spec_up_arrow().is_cramped() == s.is_cramped(),
        s.spec_up_arrow().spec_prime().type_size() == s.spec_up_arrow().type_size(),
        s.spec_up_arrow().spec_prime().is_cramped(),
        s.type_size() == 0 ==> s.spec_up_arrow().type_size() == 1,
        (s.type_size() == t.type_size() && s.is_cramped() == t.is_cramped() && s.type_size() > 0) ==> s == t,
{
}

/// Cramping a style twice is cramping it once, and the result is cramped
/// and of the same size.
pub proof fn lemma_prime_idempotent(s: MathStyle)
    ensures
        s.spec_prime().spec_prime() == s.spec_prime(),
        s.spec_prime().is_cramped(),
        s.spec_prime().spec_is_script() == s.spec_is_script(),
        s.is_cramped() ==> s.spec_prime() == s,
{
}

/// The styles of superscripts and subscripts are script styles; a
/// subscript's is cramped, and a superscript's is cramped exactly when the
/// style it is in is.
pub proof fn lemma_script_styles(s: MathStyle)
    ensures
        s.spec_up_arrow().spec_is_script(),
        s.spec_up_arrow().spec_prime().spec_is_script(),
        s.spec_up_arrow().spec_prime().is_cramped(),
        s.spec_up_arrow().is_cramped() == s.is_cramped(),
{
}

/// A delimiter: a small and a large variant, each a family and a position.
#[derive(Debug, PartialEq, Eq)]
pub struct MathDelimiter {
    pub small_font_family: u16,
    pub small_position: u16,
    pub large_font_family: u16,
    pub large_position: u16,
}

/// A generalized fraction (`\over`, `\atop`, `\above` and their variants
/// with delimiters).
#[derive(Debug, PartialEq, Eq)]
pub struct GeneralizedFraction {
    pub left_delim: Option<MathDelimiter>,
    pub right_delim: Option<MathDelimiter>,
    pub bar_height: Dimen,
}

/// The two sides of a `\left`...`\right` pair.
#[derive(Debug, PartialEq, Eq, Clone, Copy)]
pub enum BoundaryKind {
    Left,
    Right,
}

/// What a field of an atom holds: a symbol, a box, or a math list.
#[derive(Debug, PartialEq)]
pub enum MathField {
    Symbol(MathSymbol),
    TeXBox(TeXBox),
    MathList(Vec<MathListElem>),
}

/// An atom of a math list: its kind, its nucleus, and its superscript and
/// subscript.
#[derive(Debug, PartialEq)]
pub struct MathAtom {
    pub kind: AtomKind,
    pub nucleus: Option<MathField>,
    pub superscript: Option<MathField>,
    pub subscript: Option<MathField>,
}

/// An element of a math list.
#[derive(Debug, PartialEq)]
pub enum MathListElem {
    Atom(MathAtom),
    StyleChange(MathStyle),
    GeneralizedFraction(GeneralizedFraction),
    Boundary(BoundaryKind, Option<MathDelimiter>),
    FourWayChoice {
        display: Vec<MathListElem>,
        text: Vec<MathListElem>,
        script: Vec<MathListElem>,
        scriptscript: Vec<MathListElem>,
    },
}

impl MathAtom {
    /// An ordinary atom with nothing in it.
    pub fn empty_ord() -> (a: MathAtom)
        ensures
            a.kind == AtomKind::Ord,
            a.nucleus is None,
            a.superscript is None,
            a.subscript is None,
    {
        MathAtom { kind: AtomKind::Ord, nucleus: None, superscript: None, subscript: None }
    }

    /// The atom of a math character: of the kind its class gives, with the
    /// symbol it names as nucleus.
    pub fn from_math_code(math_code: &MathCode) -> (a: MathAtom)
        requires
            math_code.class != MathClass::Active,
        ensures
            a.kind == AtomKind::spec_from_math_class(math_code.class),
            a.nucleus == Some(
                MathField::Symbol(
                    MathSymbol { family_number: math_code.family, position_number: math_code.position },
                ),
            ),
            a.superscript is None,
            a.subscript is None,
    {
        let symbol = MathSymbol::from_math_code(math_code);
        MathAtom {
            kind: AtomKind::from_math_class(&math_code.class),
            nucleus: Some(MathField::Symbol(symbol)),
            superscript: None,
            subscript: None,
        }
    }

    /// An ordinary atom whose nucleus is a math list.
    pub fn from_math_list(math_list: Vec<MathListElem>) -> (a: MathAtom)
        ensures
            a.kind == AtomKind::Ord,
            a.nucleus == Some(MathField::MathList(math_list)),
            a.superscript is None,
            a.subscript is None,
    {
        MathAtom {
            kind: AtomKind::Ord,
            nucleus: Some(MathField::MathList(math_list)),
            superscript: None,
            subscript: None,
        }
    }

    /// An ordinary atom whose nucleus is a box.
    pub fn from_box(tex_box: TeXBox) -> (a: MathAtom)
        ensures
            a.kind == AtomKind::Ord,
            a.nucleus == Some(MathField::TeXBox(tex_box)),
            a.superscript is None,
            a.subscript is None,
    {
        MathAtom { kind: AtomKind::Ord, nucleus: Some(MathField::TeXBox(tex_box)), superscript: None, subscript: None }
    }

    /// The atom with the given superscript.
    pub fn with_superscript(self, superscript: MathField) -> (a: MathAtom)
        ensures
            a == (MathAtom { superscript: Some(superscript), ..self }),
    {
        let mut atom = self;
        atom.superscript = Some(superscript);
        atom
    }

    /// Whether the atom has a superscript.
    pub fn has_superscript(&self) -> (b: bool)
        ensures
            b == self.superscript is Some,
    {
        self.superscript.is_some()
    }

    /// The atom with the given subscript.
    pub fn with_subscript(self, subscript: MathField) -> (a: MathAtom)
        ensures
            a == (MathAtom { subscript: Some(subscript), ..self }),
    {
        let mut atom = self;
        atom.subscript = Some(subscript);
        atom
    }

    /// Whether the atom has a subscript.
    pub fn has_subscript(&self) -> (b: bool)
        ensures
            b == self.subscript is Some,
    {
        self.subscript.is_some()
    }
}

/// The font dimensions that placing scripts uses, in scaled points: the
/// superscript and subscript drops (from the symbol fonts of the script
/// styles), and from the symbol font of the style the three superscript
/// shifts, the two subscript shifts and the x-height, and from the
/// extension font the default rule thickness.
pub struct ScriptParams {
    pub sup_drop: i32,
    pub sub_drop: i32,
    pub sup1: i32,
    pub sup2: i32,
    pub sup3: i32,
    pub sub1: i32,
    pub sub2: i32,
    pub x_height: i32,
    pub rule_thickness: i32,
}

/// Where scripts go: a superscript raised by a shift, a subscript lowered
/// by one, or both, with the skip between the superscript's depth and the
/// subscript's height.
#[derive(Debug, PartialEq, Eq, Clone, Copy, Structural)]
pub enum ScriptShifts {
    Sup(Dimen),
    Sub(Dimen),
    Both { sup_shift: Dimen, sub_shift: Dimen, skip: Dimen },
}

pub open spec fn max_int(a: int, b: int) -> int {
    if a > b {
        a
    } else {
        b
    }
}

pub open spec fn abs_int(a: int) -> int {
    if a < 0 {
        -a
    } else {
        a
    }
}

/// The least shift of a superscript in a style: the first in display
/// style, the third in cramped styles, the second otherwise.
pub open spec fn sup_for_style(style: MathStyle, p: ScriptParams) -> int {
    match style {
        MathStyle::DisplayStyle => p.sup1 as int,
        MathStyle::DisplayStylePrime | MathStyle::TextStylePrime | MathStyle::ScriptStylePrime
        | MathStyle::ScriptScriptStylePrime => p.sup3 as int,
        _ => p.sup2 as int,
    }
}

/// The shifts of scripts attached to a nucleus of height `h` and depth `d`
///: a superscript of depth `sup.1` is
/// raised at least by its drop below the nucleus's top, by the style's
/// least shift and by its depth plus a quarter of the x-height; a subscript
/// of height `sub.0` is lowered at least by its drop below the nucleus's
/// bottom, by the first subscript shift and by its height less four fifths
/// of the x-height. With both, the subscript is lowered by the second
/// subscript shift at least, and where the gap between them is less than
/// four rule thicknesses it is widened to that, moving the superscript up
/// (and the subscript up by as much) while the superscript's bottom is
/// below four fifths of the x-height.
pub open spec fn script_shifts(
    style: MathStyle,
    nucleus_is_symbol: bool,
    h: int,
    d: int,
    sup: Option<(int, int)>,
    sub: Option<(int, int)>,
    p: ScriptParams,
) -> (int, int, int) {
    let u0 = if nucleus_is_symbol {
        0
    } else {
        h - p.sup_drop
    };
    let v0 = if nucleus_is_symbol {
        0
    } else {
        d + p.sub_drop
    };
    let x = abs_int(p.x_height as int);
    match (sup, sub) {
        (Some((_, sd)), None) => (max_int(max_int(u0, sup_for_style(style, p)), sd + x / 4), 0, 0),
        (None, Some((sh, _))) => (0, max_int(max_int(v0, p.sub1 as int), sh - (x * 4) / 5), 0),
        (Some((_, sd)), Some((sh, _))) => {
            let u = max_int(max_int(u0, sup_for_style(style, p)), sd + x / 4);
            let v = max_int(v0, p.sub2 as int);
            let theta4 = 4 * p.rule_thickness;
            if (u - sd) - (sh - v) < theta4 {
                let v1 = theta4 + sh - (u - sd);
                let f = (x * 4) / 5 - (u - sd);
                if f > 0 {
                    (u + f, v1 - f, u + f + v1 - f - sd - sh)
                } else {
                    (u, v1, u + v1 - sd - sh)
                }
            } else {
                (u, v, u + v - sd - sh)
            }
        },
        (None, None) => (0, 0, 0),
    }
}

fn max_i64(a: i64, b: i64) -> (r: i64)
    ensures
        r == max_int(a as int, b as int),
{
    if a > b {
        a
    } else {
        b
    }
}

/// The shifts of the scripts attached to a nucleus of height `h` and depth
/// `d`, as `script_shifts` gives them: at least one of the superscript
/// (its height and depth) and the subscript is there. `None` where a
/// shift or the skip is not a dimension.
#[verifier::rlimit(40)]
#[verifier::spinoff_prover]
pub fn place_scripts(
    style: MathStyle,
    nucleus_is_symbol: bool,
    h: Dimen,
    d: Dimen,
    sup: Option<(Dimen, Dimen)>,
    sub: Option<(Dimen, Dimen)>,
    p: &ScriptParams,
) -> (r: Option<ScriptShifts>)
    requires
        sup is Some || sub is Some,
    ensures
        ({
            let (u, v, k) = script_shifts(style, nucleus_is_symbol, h.sp(), d.sp(), dims(sup), dims(sub), *p);
            match r {
                None => !(in_dimen_range(u) && in_dimen_range(v) && in_dimen_range(k)),
                Some(ScriptShifts::Sup(s)) => sup is Some && sub is None && s.sp() == u && in_dimen_range(u),
                Some(ScriptShifts::Sub(s)) => sup is None && sub is Some && s.sp() == v && in_dimen_range(v),
                Some(ScriptShifts::Both { sup_shift, sub_shift, skip }) => sup is Some && sub is Some
                    && sup_shift.sp() == u && sub_shift.sp() == v && skip.sp() == k && in_dimen_range(u)
                    && in_dimen_range(v) && in_dimen_range(k),
            }
        }),
{
    let hs = h.as_scaled_points() as i64;
    let ds = d.as_scaled_points() as i64;
    let u0: i64 = if nucleus_is_symbol {
        0
    } else {
        hs - p.sup_drop as i64
    };
    let v0: i64 = if nucleus_is_symbol {
        0
    } else {
        ds + p.sub_drop as i64
    };
    let x: i64 = if p.x_height < 0 {
        0 - (p.x_height as i64)
    } else {
        p.x_height as i64
    };
    let sup_style: i64 = match style {
        MathStyle::DisplayStyle => p.sup1 as i64,
        MathStyle::DisplayStylePrime | MathStyle::TextStylePrime | MathStyle::ScriptStylePrime
        | MathStyle::ScriptScriptStylePrime => p.sup3 as i64,
        _ => p.sup2 as i64,
    };
    let ghost spec = script_shifts(style, nucleus_is_symbol, h.sp(), d.sp(), dims(sup), dims(sub), *p);
    let (u, v, k): (i64, i64, i64) = match (sup, sub) {
        (Some((_, sd)), None) => {
            let u = max_i64(max_i64(u0, sup_style), sd.as_scaled_points() as i64 + x / 4);
            (u, 0, 0)
        },
        (None, Some((sh, _))) => {
            let v = max_i64(max_i64(v0, p.sub1 as i64), sh.as_scaled_points() as i64 - (x * 4) / 5);
            (0, v, 0)
        },
        (Some((_, sdd)), Some((shd, _))) => {
            let sd = sdd.as_scaled_points() as i64;
            let sh = shd.as_scaled_points() as i64;
            let u = max_i64(max_i64(u0, sup_style), sd + x / 4);
            let v = max_i64(v0, p.sub2 as i64);
            let theta4: i64 = 4 * (p.rule_thickness as i64);
            if (u - sd) - (sh - v) < theta4 {
                let v1 = theta4 + sh - (u - sd);
                let f = (x * 4) / 5 - (u - sd);
                if f > 0 {
                    (u + f, v1 - f, u + f + v1 - f - sd - sh)
                } else {
                    (u, v1, u + v1 - sd - sh)
                }
            } else {
                (u, v, u + v - sd - sh)
            }
        },
        (None, None) => (0, 0, 0),
    };
    assert(u == spec.0 && v == spec.1 && k == spec.2);
    if u < -1073741823 || u > 1073741823 || v < -1073741823 || v > 1073741823 || k < -1073741823 || k
        > 1073741823 {
        return None;
    }
    let (us, vs, ks) = (Dimen::from_scaled_points(u as i32), Dimen::from_scaled_points(v as i32), Dimen::from_scaled_points(k as i32));
    match (sup, sub) {
        (Some(_), None) => Some(ScriptShifts::Sup(us)),
        (None, Some(_)) => Some(ScriptShifts::Sub(vs)),
        _ => Some(ScriptShifts::Both { sup_shift: us, sub_shift: vs, skip: ks }),
    }
}

/// The sizes of an optional script, as scaled points.
pub open spec fn dims(s: Option<(Dimen, Dimen)>) -> Option<(int, int)> {
    match s {
        Some((a, b)) => Some((a.sp(), b.sp())),
        None => None,
    }
}

/// The space put after a script: half a point.
pub open spec fn script_space() -> int {
    32768
}

/// Whether `b` is script box `s` made wider by the script space.
pub open spec fn widened(b: HorizontalBox, s: HorizontalBox) -> bool {
    &&& b.width.sp() == s.width.sp() + script_space()
    &&& b.height == s.height
    &&& b.depth == s.depth
    &&& b.list@ == s.list@
    &&& b.glue_set_ratio == s.glue_set_ratio
}

/// Whether `e` places the scripts: a superscript alone raised by its shift,
/// a subscript alone lowered by its own, both stacked in a vertical box
/// (superscript, the skip, subscript) as high as the superscript's height
/// and both shifts, as deep as the subscript and as wide as the wider of
/// them, lowered by the subscript's shift. Each script is widened by the
/// script space.
pub open spec fn scripts_placed(
    e: HorizontalListElem,
    sup: Option<HorizontalBox>,
    sub: Option<HorizontalBox>,
    u: int,
    v: int,
    k: int,
) -> bool {
    match (sup, sub) {
        (Some(a), None) => e matches HorizontalListElem::Box { tex_box: TeXBox::HorizontalBox(b), shift }
            && widened(b, a) && shift.sp() == u,
        (None, Some(c)) => e matches HorizontalListElem::Box { tex_box: TeXBox::HorizontalBox(b), shift }
            && widened(b, c) && shift.sp() == -v,
        (Some(a), Some(c)) => e matches HorizontalListElem::Box { tex_box: TeXBox::VerticalBox(vb), shift } && {
            &&& shift.sp() == -v
            &&& vb.height.sp() == a.height.sp() + u + v
            &&& vb.depth == c.depth
            &&& vb.width.sp() == max_int(a.width.sp(), c.width.sp()) + script_space()
            &&& vb.glue_set_ratio is None
            &&& vb.list@.len() == 3
            &&& vb.list@[0] matches VerticalListElem::Box { tex_box: TeXBox::HorizontalBox(b0), shift: s0 }
                && widened(b0, a) && s0.sp() == 0
            &&& vb.list@[1] == VerticalListElem::VSkip(rigid_glue(k))
            &&& vb.list@[2] matches VerticalListElem::Box { tex_box: TeXBox::HorizontalBox(b2), shift: s2 }
                && widened(b2, c) && s2.sp() == 0
        },
        (None, None) => false,
    }
}

/// Whether a script box can be made wider by the script space.
fn widenable(s: &HorizontalBox) -> (r: bool)
    ensures
        r == in_dimen_range(s.width.sp() + script_space()),
{
    let w = s.width.as_scaled_points();
    -1073774591 <= w && w <= 1073709055
}

/// A script box made wider by the script space.
fn widen(s: HorizontalBox) -> (b: HorizontalBox)
    requires
        in_dimen_range(s.width.sp() + script_space()),
    ensures
        widened(b, s),
{
    proof {
        Dimen::lemma_from_sp(s.width.sp() + 32768);
    }
    let width = s.width + Dimen::from_scaled_points(32768);
    HorizontalBox { width, ..s }
}

/// Attaches scripts, already made into boxes, to the translation of a
/// nucleus of height `h` and depth `d`: the translation, then the element
/// that places them with the shifts of `place_scripts`. `None` where a
/// shift, the skip or a size is not a dimension.
pub fn attach_scripts(
    translation: Vec<HorizontalListElem>,
    nucleus_is_symbol: bool,
    h: Dimen,
    d: Dimen,
    sup: Option<HorizontalBox>,
    sub: Option<HorizontalBox>,
    style: MathStyle,
    p: &ScriptParams,
) -> (r: Option<Vec<HorizontalListElem>>)
    ensures
        ({
            let sizes_of = |b: Option<HorizontalBox>| match b {
                Some(x) => Some((x.height.sp(), x.depth.sp())),
                None => None,
            };
            let (u, v, k) = script_shifts(style, nucleus_is_symbol, h.sp(), d.sp(), sizes_of(sup), sizes_of(sub), *p);
            match r {
                Some(out) => if sup is None && sub is None {
                    out@ == translation@
                } else {
                    &&& out@.len() == translation@.len() + 1
                    &&& out@.take(translation@.len() as int) == translation@
                    &&& scripts_placed(out@.last(), sup, sub, u, v, k)
                },
                None => (sup is Some || sub is Some) && !({
                    &&& in_dimen_range(u) && in_dimen_range(v) && in_dimen_range(k)
                    &&& (sup matches Some(a) ==> in_dimen_range(a.width.sp() + script_space()))
                    &&& (sub matches Some(c) ==> in_dimen_range(c.width.sp() + script_space()))
                    &&& (sup matches Some(a) ==> (sub is Some ==> in_dimen_range(a.height.sp() + u + v)))
                }),
            }
        }),
{
    if sup.is_none() && sub.is_none() {
        return Some(translation);
    }
    let sup_sizes = match &sup {
        Some(b) => Some((b.height, b.depth)),
        None => None,
    };
    let sub_sizes = match &sub {
        Some(b) => Some((b.height, b.depth)),
        None => None,
    };
    let shifts = match place_scripts(style, nucleus_is_symbol, h, d, sup_sizes, sub_sizes, p) {
        None => {
            return None;
        },
        Some(s) => s,
    };
    let mut out = translation;
    let ghost before = out@;
    match (sup, sub, shifts) {
        (Some(a), None, ScriptShifts::Sup(u)) => {
            if !widenable(&a) {
                return None;
            }
            out.push(HorizontalListElem::Box { tex_box: TeXBox::HorizontalBox(widen(a)), shift: u });
        },
        (None, Some(c), ScriptShifts::Sub(v)) => {
            if !widenable(&c) {
                return None;
            }
            proof {
                Dimen::lemma_from_sp(-v.sp());
            }
            let down = Dimen::zero() - v;
            out.push(HorizontalListElem::Box { tex_box: TeXBox::HorizontalBox(widen(c)), shift: down });
        },
        (Some(a), Some(c), ScriptShifts::Both { sup_shift, sub_shift, skip }) => {
            let hu = a.height.as_scaled_points() as i64 + sup_shift.as_scaled_points() as i64
                + sub_shift.as_scaled_points() as i64;
            if !widenable(&a) || !widenable(&c) || hu < -1073741823 || hu > 1073741823 {
                return None;
            }
            let sup_box = widen(a);
            let sub_box = widen(c);
            let width = if sup_box.width.as_scaled_points() > sub_box.width.as_scaled_points() {
                sup_box.width
            } else {
                sub_box.width
            };
            let depth = sub_box.depth;
            let skip_glue = Glue::from_dimen(skip);
            proof {
                lemma_rigid_glue(skip_glue, skip);
                Dimen::lemma_from_sp(hu as int);
                Dimen::lemma_from_sp(-sub_shift.sp());
            }
            let height = Dimen::from_scaled_points(hu as i32);
            let mut list: Vec<VerticalListElem> = Vec::new();
            list.push(VerticalListElem::Box { tex_box: TeXBox::HorizontalBox(sup_box), shift: Dimen::zero() });
            list.push(VerticalListElem::VSkip(skip_glue));
            list.push(VerticalListElem::Box { tex_box: TeXBox::HorizontalBox(sub_box), shift: Dimen::zero() });
            let vb = VerticalBox { height, depth, width, list, glue_set_ratio: None };
            let down = Dimen::zero() - sub_shift;
            out.push(HorizontalListElem::Box { tex_box: TeXBox::VerticalBox(vb), shift: down });
        },
        _ => {
            return None;
        },
    }
    assert(out@.take(before.len() as int) =~= before);
    Some(out)
}

} // verus!
