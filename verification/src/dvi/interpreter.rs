use vstd::prelude::*;

use crate::dvi::file::{CommandView, DVICommand, DVIFile};

verus! {

/// Something placed on a page.
#[derive(Debug, PartialEq, Eq, Clone, Hash)]
pub enum DVIOutputElement {
    Character { char: i32, font: String },
}

/// An element placed at a position of a page, by its view.
pub struct PlacementView {
    pub h: i32,
    pub v: i32,
    pub char: i32,
    pub font: Seq<char>,
}

/// An element placed at a position `(h, v)` of a page.
#[derive(Debug, PartialEq, Eq, Clone)]
pub struct Placement {
    pub h: i32,
    pub v: i32,
    pub element: DVIOutputElement,
}

impl View for Placement {
    type V = PlacementView;

    open spec fn view(&self) -> PlacementView {
        match &self.element {
            DVIOutputElement::Character { char, font } => PlacementView {
                h: self.h,
                v: self.v,
                char: *char,
                font: font@,
            },
        }
    }
}

pub open spec fn placement_views(s: Seq<Placement>) -> Seq<PlacementView> {
    s.map_values(|p: Placement| p@)
}

/// What a page shows: each element at each position, once.
pub struct DVIPageOutput {
    pub placements: Vec<Placement>,
}

/// The widths of the characters of a font, by character code, in scaled
/// points.
pub struct FontWidths {
    pub font_name: String,
    pub widths: Vec<i32>,
}

pub struct FontWidthsView {
    pub font_name: Seq<char>,
    pub widths: Seq<i32>,
}

impl View for FontWidths {
    type V = FontWidthsView;

    open spec fn view(&self) -> FontWidthsView {
        FontWidthsView { font_name: self.font_name@, widths: self.widths@ }
    }
}

pub open spec fn font_table_view(t: Seq<FontWidths>) -> Seq<FontWidthsView> {
    t.map_values(|f: FontWidths| f@)
}

/// What makes the interpretation of a DVI file fail.
#[derive(Debug, PartialEq, Eq, Clone, Copy, Structural)]
pub enum DVIInterpretError {
    /// The file does not start with a `Pre`.
    MissingPre,
    /// The format of the `Pre` is not 2.
    UnknownFormat(u8),
    /// The unit fraction is not the usual 25400000/473628672.
    UnsupportedUnits,
    /// The magnification is not 1000.
    UnsupportedMagnification,
    /// A page does not start with a `Bop`.
    MissingBop,
    /// The commands end inside a page or before the `Post`.
    UnexpectedEnd,
    /// A `Pop` with no `Push` before it on the page.
    PopWithoutPush,
    /// A character is set with no font selected.
    NoFontSelected,
    /// The selected font number was never defined.
    UndefinedFont,
    /// The font table has no widths for the font or the character.
    MissingWidth,
    /// A position went out of the range of 32-bit integers.
    PositionOverflow,
    /// A command that this interpreter does not handle.
    UnknownCommand,
}

/// The positions and spacing amounts of one level of the DVI stack.
#[derive(Debug, PartialEq, Eq, Clone, Copy, Structural)]
pub struct Frame {
    pub h: i32,
    pub v: i32,
    pub w: i32,
    pub x: i32,
    pub y: i32,
    pub z: i32,
}

pub open spec fn zero_frame() -> Frame {
    Frame { h: 0, v: 0, w: 0, x: 0, y: 0, z: 0 }
}

/// The interpreter's state, by its view: the fonts defined so far (by
/// number, the last definition counting), the current font and the stack.
pub struct StateView {
    pub fonts: Seq<(i32, Seq<char>)>,
    pub f: Option<i32>,
    pub stack: Seq<Frame>,
}

/// The name of the font last defined with a number.
pub open spec fn font_lookup(fonts: Seq<(i32, Seq<char>)>, n: i32) -> Option<Seq<char>>
    decreases fonts.len(),
{
    if fonts.len() == 0 {
        None
    } else if fonts.last().0 == n {
        Some(fonts.last().1)
    } else {
        font_lookup(fonts.drop_last(), n)
    }
}

/// The width of a character in the first font of the table with the given
/// name.
pub open spec fn width_lookup(table: Seq<FontWidthsView>, name: Seq<char>, ch: int) -> Option<i32>
    decreases table.len(),
{
    if table.len() == 0 {
        None
    } else if table[0].font_name == name {
        if 0 <= ch < table[0].widths.len() {
            Some(table[0].widths[ch])
        } else {
            None
        }
    } else {
        width_lookup(table.drop_first(), name, ch)
    }
}

pub open spec fn is_i32(x: int) -> bool {
    i32::MIN <= x <= i32::MAX
}

/// The state with the top frame replaced.
pub open spec fn with_top(st: StateView, fr: Frame) -> StateView {
    StateView { stack: st.stack.update(st.stack.len() - 1, fr), ..st }
}

/// Moves right by `b`, after setting `w` to `new_w`.
pub open spec fn move_right(st: StateView, b: int, new_w: i32) -> Result<
    (StateView, Option<PlacementView>),
    DVIInterpretError,
> {
    let top = st.stack.last();
    if is_i32(top.h + b) {
        Ok((with_top(st, Frame { h: (top.h + b) as i32, w: new_w, ..top }), None))
    } else {
        Err(DVIInterpretError::PositionOverflow)
    }
}

/// Moves down by `a`, after setting `y` to `new_y`.
pub open spec fn move_down(st: StateView, a: int, new_y: i32) -> Result<
    (StateView, Option<PlacementView>),
    DVIInterpretError,
> {
    let top = st.stack.last();
    if is_i32(top.v + a) {
        Ok((with_top(st, Frame { v: (top.v + a) as i32, y: new_y, ..top }), None))
    } else {
        Err(DVIInterpretError::PositionOverflow)
    }
}

/// What one command inside a page does: the new state and the element it
/// places, if any.
pub open spec fn step(st: StateView, cmd: CommandView, table: Seq<FontWidthsView>) -> Result<
    (StateView, Option<PlacementView>),
    DVIInterpretError,
> {
    let top = st.stack.last();
    match cmd {
        CommandView::Push => Ok((StateView { stack: st.stack.push(top), ..st }, None)),
        CommandView::Pop => if st.stack.len() <= 1 {
            Err(DVIInterpretError::PopWithoutPush)
        } else {
            Ok((StateView { stack: st.stack.drop_last(), ..st }, None))
        },
        CommandView::Right3(b) => move_right(st, b as int, top.w),
        CommandView::Right4(b) => move_right(st, b as int, top.w),
        CommandView::W0 => move_right(st, top.w as int, top.w),
        CommandView::W3(b) => move_right(st, b as int, b),
        CommandView::Down3(a) => move_down(st, a as int, top.y),
        CommandView::Down4(a) => move_down(st, a as int, top.y),
        CommandView::Y0 => move_down(st, top.y as int, top.y),
        CommandView::Y3(a) => move_down(st, a as int, a),
        CommandView::FntDef1 { font_num, font_name, .. } => Ok(
            (StateView { fonts: st.fonts.push((font_num as i32, font_name)), ..st }, None),
        ),
        CommandView::FntDef4 { font_num, font_name, .. } => Ok(
            (StateView { fonts: st.fonts.push((font_num, font_name)), ..st }, None),
        ),
        CommandView::FntNumN(n) => Ok((StateView { f: Some(n as i32), ..st }, None)),
        CommandView::Fnt4(n) => Ok((StateView { f: Some(n), ..st }, None)),
        CommandView::SetCharN(n) => match st.f {
            None => Err(DVIInterpretError::NoFontSelected),
            Some(fnum) => match font_lookup(st.fonts, fnum) {
                None => Err(DVIInterpretError::UndefinedFont),
                Some(name) => match width_lookup(table, name, n as int) {
                    None => Err(DVIInterpretError::MissingWidth),
                    Some(width) => if is_i32(top.h + width) {
                        Ok(
                            (
                                with_top(st, Frame { h: (top.h + width) as i32, ..top }),
                                Some(PlacementView { h: top.h, v: top.v, char: n as i32, font: name }),
                            ),
                        )
                    } else {
                        Err(DVIInterpretError::PositionOverflow)
                    },
                },
            },
        },
        _ => Err(DVIInterpretError::UnknownCommand),
    }
}

/// A `Push` followed by a `Pop` leaves the state as it was: positions and
/// spacing amounts are restored.
pub proof fn lemma_push_pop_restores(st: StateView, table: Seq<FontWidthsView>)
    requires
        st.stack.len() >= 1,
    ensures
        step(st, CommandView::Push, table) matches Ok((st2, None)) && step(st2, CommandView::Pop, table)
            matches Ok((st3, None)) && st3 == st,
{
    let st2 = StateView { stack: st.stack.push(st.stack.last()), ..st };
    assert(st2.stack.drop_last() =~= st.stack);
}

/// A page's placements with one more: an element placed twice at the same
/// position is shown once.
pub open spec fn add_placement(acc: Seq<PlacementView>, p: PlacementView) -> Seq<PlacementView> {
    if acc.contains(p) {
        acc
    } else {
        acc.push(p)
    }
}

/// Interprets the commands of a page from index `i` up to its `Eop`; gives
/// the placements, the state after the page and the index after the `Eop`.
pub open spec fn page_body(
    cmds: Seq<CommandView>,
    i: int,
    st: StateView,
    table: Seq<FontWidthsView>,
    acc: Seq<PlacementView>,
) -> Result<(Seq<PlacementView>, StateView, int), DVIInterpretError>
    decreases cmds.len() - i,
{
    if i < 0 || i >= cmds.len() {
        Err(DVIInterpretError::UnexpectedEnd)
    } else if cmds[i] is Eop {
        Ok((acc, st, i + 1))
    } else {
        match step(st, cmds[i], table) {
            Err(e) => Err(e),
            Ok((st2, p)) => page_body(
                cmds,
                i + 1,
                st2,
                table,
                match p {
                    Some(pl) => add_placement(acc, pl),
                    None => acc,
                },
            ),
        }
    }
}

/// Interprets the page that starts at index `i` with its `Bop`: the current
/// font is unset and the stack holds one frame of zeros.
pub open spec fn page_spec(cmds: Seq<CommandView>, i: int, st: StateView, table: Seq<FontWidthsView>) -> Result<
    (Seq<PlacementView>, StateView, int),
    DVIInterpretError,
> {
    if i < 0 || i >= cmds.len() {
        Err(DVIInterpretError::UnexpectedEnd)
    } else if !(cmds[i] is Bop) {
        Err(DVIInterpretError::MissingBop)
    } else {
        page_body(
            cmds,
            i + 1,
            StateView { fonts: st.fonts, f: None, stack: seq![zero_frame()] },
            table,
            Seq::empty(),
        )
    }
}

/// The pages from index `i` up to the `Post`.
pub open spec fn pages_spec(
    cmds: Seq<CommandView>,
    i: int,
    st: StateView,
    table: Seq<FontWidthsView>,
) -> Result<Seq<Seq<PlacementView>>, DVIInterpretError>
    decreases cmds.len() - i,
{
    if i < 0 || i >= cmds.len() {
        Err(DVIInterpretError::UnexpectedEnd)
    } else if cmds[i] is Post {
        Ok(Seq::empty())
    } else {
        match page_spec(cmds, i, st, table) {
            Err(e) => Err(e),
            Ok((page, st2, j)) => if i < j <= cmds.len() {
                match pages_spec(cmds, j, st2, table) {
                    Err(e) => Err(e),
                    Ok(rest) => Ok(seq![page] + rest),
                }
            } else {
                Err(DVIInterpretError::UnexpectedEnd)
            },
        }
    }
}

/// The pages of a whole file: it must start with a `Pre` of format 2, with
/// the usual unit fraction and a magnification of 1000.
pub open spec fn file_spec(cmds: Seq<CommandView>, table: Seq<FontWidthsView>) -> Result<
    Seq<Seq<PlacementView>>,
    DVIInterpretError,
> {
    if cmds.len() == 0 {
        Err(DVIInterpretError::MissingPre)
    } else {
        match cmds[0] {
            CommandView::Pre { format, num, den, mag, .. } => if format != 2 {
                Err(DVIInterpretError::UnknownFormat(format))
            } else if num != 25400000 || den != 473628672 {
                Err(DVIInterpretError::UnsupportedUnits)
            } else if mag != 1000 {
                Err(DVIInterpretError::UnsupportedMagnification)
            } else {
                pages_spec(cmds, 1, StateView { fonts: Seq::empty(), f: None, stack: seq![zero_frame()] }, table)
            },
            _ => Err(DVIInterpretError::MissingPre),
        }
    }
}

pub open spec fn font_entry_view(e: (i32, String)) -> (i32, Seq<char>) {
    (e.0, e.1@)
}

/// The interpreter's state.
pub struct DVIState {
    fonts: Vec<(i32, String)>,
    f: Option<i32>,
    stack: Vec<Frame>,
}

impl View for DVIState {
    type V = StateView;

    closed spec fn view(&self) -> StateView {
        StateView {
            fonts: self.fonts@.map_values(|e: (i32, String)| font_entry_view(e)),
            f: self.f,
            stack: self.stack@,
        }
    }
}

impl DVIState {
    /// A state with no fonts defined, no font selected and one frame of
    /// zeros.
    pub fn new() -> (s: DVIState)
        ensures
            s@ == (StateView { fonts: Seq::empty(), f: None, stack: seq![zero_frame()] }),
    {
        let mut stack: Vec<Frame> = Vec::new();
        stack.push(Frame { h: 0, v: 0, w: 0, x: 0, y: 0, z: 0 });
        let s = DVIState { fonts: Vec::new(), f: None, stack };
        assert(s@.fonts =~= Seq::<(i32, Seq<char>)>::empty());
        assert(s@.stack =~= seq![zero_frame()]);
        s
    }

    fn font_name(&self, n: i32) -> (r: Option<String>)
        ensures
            match r {
                Some(s) => font_lookup(self@.fonts, n) == Some(s@),
                None => font_lookup(self@.fonts, n) is None,
            },
    {
        let mut i = self.fonts.len();
        assert(self@.fonts.subrange(0, i as int) =~= self@.fonts);
        while i > 0
            invariant
                i <= self.fonts.len(),
                font_lookup(self@.fonts, n) == font_lookup(self@.fonts.subrange(0, i as int), n),
            decreases i,
        {
            let ghost sub = self@.fonts.subrange(0, i as int);
            assert(sub.drop_last() =~= self@.fonts.subrange(0, i - 1));
            if self.fonts[i - 1].0 == n {
                return Some(self.fonts[i - 1].1.clone());
            }
            i = i - 1;
        }
        None
    }
}

pub open spec fn command_views(cs: Seq<DVICommand>) -> Seq<CommandView> {
    cs.map_values(|c: DVICommand| c@)
}

impl DVIState {
    /// Replaces the top frame of the stack.
    fn set_top(&mut self, fr: Frame)
        requires
            old(self)@.stack.len() >= 1,
        ensures
            final(self)@ == with_top(old(self)@, fr),
    {
        let n = self.stack.len();
        self.stack.set(n - 1, fr);
        assert(self@.stack =~= old(self)@.stack.update(n - 1, fr));
        assert(self@.fonts =~= old(self)@.fonts);
    }

    fn move_right(&mut self, b: i32, new_w: i32) -> (r: Result<Option<Placement>, DVIInterpretError>)
        requires
            old(self)@.stack.len() >= 1,
        ensures
            match move_right(old(self)@, b as int, new_w) {
                Ok((st, p)) => r matches Ok(None) && final(self)@ == st && p is None,
                Err(e) => r == Err::<Option<Placement>, DVIInterpretError>(e),
            },
    {
        let top = self.stack[self.stack.len() - 1];
        let nh: i64 = top.h as i64 + b as i64;
        if nh < i32::MIN as i64 || nh > i32::MAX as i64 {
            return Err(DVIInterpretError::PositionOverflow);
        }
        self.set_top(Frame { h: nh as i32, w: new_w, ..top });
        Ok(None)
    }

    fn move_down(&mut self, a: i32, new_y: i32) -> (r: Result<Option<Placement>, DVIInterpretError>)
        requires
            old(self)@.stack.len() >= 1,
        ensures
            match move_down(old(self)@, a as int, new_y) {
                Ok((st, p)) => r matches Ok(None) && final(self)@ == st && p is None,
                Err(e) => r == Err::<Option<Placement>, DVIInterpretError>(e),
            },
    {
        let top = self.stack[self.stack.len() - 1];
        let nv: i64 = top.v as i64 + a as i64;
        if nv < i32::MIN as i64 || nv > i32::MAX as i64 {
            return Err(DVIInterpretError::PositionOverflow);
        }
        self.set_top(Frame { v: nv as i32, y: new_y, ..top });
        Ok(None)
    }

    fn define_font(&mut self, n: i32, name: &String)
        ensures
            final(self)@ == (StateView { fonts: old(self)@.fonts.push((n, name@)), ..old(self)@ }),
    {
        self.fonts.push((n, name.clone()));
        assert(self@.fonts =~= old(self)@.fonts.push((n, name@)));
    }

    /// Carries out one command inside a page.
    pub fn step(&mut self, cmd: &DVICommand, table: &Vec<FontWidths>) -> (r: Result<
        Option<Placement>,
        DVIInterpretError,
    >)
        requires
            old(self)@.stack.len() >= 1,
        ensures
            match step(old(self)@, cmd@, font_table_view(table@)) {
                Ok((st, p)) => {
                    &&& r is Ok
                    &&& final(self)@ == st
                    &&& match p {
                        Some(pv) => r matches Ok(Some(x)) && x@ == pv,
                        None => r matches Ok(None),
                    }
                },
                Err(e) => r == Err::<Option<Placement>, DVIInterpretError>(e),
            },
    {
        let top = self.stack[self.stack.len() - 1];
        match cmd {
            DVICommand::Push => {
                self.stack.push(top);
                assert(self@.stack =~= old(self)@.stack.push(top));
                assert(self@.fonts =~= old(self)@.fonts);
                Ok(None)
            },
            DVICommand::Pop => {
                if self.stack.len() <= 1 {
                    return Err(DVIInterpretError::PopWithoutPush);
                }
                self.stack.pop();
                assert(self@.stack =~= old(self)@.stack.drop_last());
                assert(self@.fonts =~= old(self)@.fonts);
                Ok(None)
            },
            DVICommand::Right3(b) => self.move_right(*b, top.w),
            DVICommand::Right4(b) => self.move_right(*b, top.w),
            DVICommand::W0 => self.move_right(top.w, top.w),
            DVICommand::W3(b) => self.move_right(*b, *b),
            DVICommand::Down3(a) => self.move_down(*a, top.y),
            DVICommand::Down4(a) => self.move_down(*a, top.y),
            DVICommand::Y0 => self.move_down(top.y, top.y),
            DVICommand::Y3(a) => self.move_down(*a, *a),
            DVICommand::FntDef1 { font_num, font_name, .. } => {
                self.define_font(*font_num as i32, font_name);
                Ok(None)
            },
            DVICommand::FntDef4 { font_num, font_name, .. } => {
                self.define_font(*font_num, font_name);
                Ok(None)
            },
            DVICommand::FntNumN(n) => {
                self.f = Some(*n as i32);
                Ok(None)
            },
            DVICommand::Fnt4(n) => {
                self.f = Some(*n);
                Ok(None)
            },
            DVICommand::SetCharN(n) => {
                let fnum = match self.f {
                    None => {
                        return Err(DVIInterpretError::NoFontSelected);
                    },
                    Some(f) => f,
                };
                let name = match self.font_name(fnum) {
                    None => {
                        return Err(DVIInterpretError::UndefinedFont);
                    },
                    Some(name) => name,
                };
                let width = match width_of(table, &name, *n) {
                    None => {
                        return Err(DVIInterpretError::MissingWidth);
                    },
                    Some(w) => w,
                };
                let nh: i64 = top.h as i64 + width as i64;
                if nh < i32::MIN as i64 || nh > i32::MAX as i64 {
                    return Err(DVIInterpretError::PositionOverflow);
                }
                self.set_top(Frame { h: nh as i32, ..top });
                Ok(
                    Some(
                        Placement {
                            h: top.h,
                            v: top.v,
                            element: DVIOutputElement::Character { char: *n as i32, font: name },
                        },
                    ),
                )
            },
            _ => Err(DVIInterpretError::UnknownCommand),
        }
    }
}

fn placement_equal(a: &Placement, b: &Placement) -> (r: bool)
    ensures
        r == (a@ == b@),
{
    match (&a.element, &b.element) {
        (
            DVIOutputElement::Character { char: c1, font: f1 },
            DVIOutputElement::Character { char: c2, font: f2 },
        ) => {
            let same_font = f1.eq(f2);
            a.h == b.h && a.v == b.v && *c1 == *c2 && same_font
        },
    }
}

impl DVIPageOutput {
    pub open spec fn views(&self) -> Seq<PlacementView> {
        placement_views(self.placements@)
    }

    /// Places an element on the page, unless it is already there at that
    /// position.
    pub fn add(&mut self, p: Placement)
        ensures
            final(self).views() == add_placement(old(self).views(), p@),
    {
        let ghost acc = self.views();
        let mut i: usize = 0;
        while i < self.placements.len()
            invariant
                i <= self.placements.len(),
                acc == self.views(),
                self.placements@ == old(self).placements@,
                forall|j: int| 0 <= j < i ==> acc[j] != p@,
            decreases self.placements.len() - i,
        {
            if placement_equal(&self.placements[i], &p) {
                assert(acc[i as int] == p@);
                assert(acc.contains(p@));
                return;
            }
            i = i + 1;
        }
        assert(!acc.contains(p@));
        self.placements.push(p);
        assert(self.views() =~= acc.push(p@));
    }
}

impl DVIPageOutput {
    /// The elements placed at position `(h, v)`, in the order they were
    /// placed.
    pub fn get(&self, h: i32, v: i32) -> (r: Vec<DVIOutputElement>)
        ensures
            r@.map_values(|e: DVIOutputElement| element_view(e)) == self.views().filter(
                |p: PlacementView| p.h == h && p.v == v,
            ).map_values(|p: PlacementView| (p.char, p.font)),
    {
        let ghost all = self.views();
        let mut out: Vec<DVIOutputElement> = Vec::new();
        let mut i: usize = 0;
        while i < self.placements.len()
            invariant
                i <= self.placements.len(),
                all == self.views(),
                out@.map_values(|e: DVIOutputElement| element_view(e)) == all.subrange(0, i as int).filter(
                    |p: PlacementView| p.h == h && p.v == v,
                ).map_values(|p: PlacementView| (p.char, p.font)),
            decreases self.placements.len() - i,
        {
            let ghost before = out@;
            proof {
                assert(all.subrange(0, i + 1).drop_last() =~= all.subrange(0, i as int));
                reveal(Seq::filter);
            }
            let p = &self.placements[i];
            if p.h == h && p.v == v {
                out.push(p.element.duplicate());
                proof {
                    assert(all[i as int] == p@);
                    assert(out@.map_values(|e: DVIOutputElement| element_view(e)) =~= before.map_values(
                        |e: DVIOutputElement| element_view(e),
                    ).push((p@.char, p@.font)));
                }
            } else {
                assert(out@ == before);
            }
            i = i + 1;
            proof {
                assert(all.subrange(0, i as int).filter(|p: PlacementView| p.h == h && p.v == v).map_values(
                    |p: PlacementView| (p.char, p.font),
                ) == out@.map_values(|e: DVIOutputElement| element_view(e)));
            }
        }
        assert(all.subrange(0, i as int) =~= all);
        out
    }

    /// The number of positions where something is placed.
    pub fn len(&self) -> (n: usize)
        ensures
            n == self.views().map_values(|p: PlacementView| (p.h, p.v)).to_set().len(),
    {
        let ghost all = self.views().map_values(|p: PlacementView| (p.h, p.v));
        let mut seen: Vec<(i32, i32)> = Vec::new();
        let mut i: usize = 0;
        while i < self.placements.len()
            invariant
                i <= self.placements.len(),
                all == self.views().map_values(|p: PlacementView| (p.h, p.v)),
                seen@.no_duplicates(),
                seen@.to_set() == all.subrange(0, i as int).to_set(),
            decreases self.placements.len() - i,
        {
            let h = self.placements[i].h;
            let v = self.placements[i].v;
            let mut found = false;
            let mut k: usize = 0;
            while k < seen.len()
                invariant
                    k <= seen.len(),
                    found == exists|j: int| 0 <= j < k && seen@[j] == (h, v),
                decreases seen.len() - k,
            {
                if seen[k].0 == h && seen[k].1 == v {
                    found = true;
                }
                k = k + 1;
            }
            proof {
                assert(all[i as int] == (h, v));
                assert(all.subrange(0, i + 1) =~= all.subrange(0, i as int).push((h, v)));
                all.subrange(0, i as int).lemma_push_to_set_commute((h, v));
            }
            if !found {
                proof {
                    assert(!seen@.contains((h, v)));
                    seen@.lemma_push_to_set_commute((h, v));
                }
                seen.push((h, v));
            } else {
                proof {
                    assert(seen@.contains((h, v)));
                    assert(seen@.to_set().insert((h, v)) =~= seen@.to_set());
                }
            }
            i = i + 1;
        }
        assert(all.subrange(0, i as int) =~= all);
        proof {
            seen@.unique_seq_to_set();
        }
        seen.len()
    }
}

impl DVIOutputElement {
    /// An element equal to this one.
    pub fn duplicate(&self) -> (e: DVIOutputElement)
        ensures
            element_view(e) == element_view(*self),
    {
        match self {
            DVIOutputElement::Character { char, font } => DVIOutputElement::Character {
                char: *char,
                font: font.clone(),
            },
        }
    }
}

pub open spec fn element_view(e: DVIOutputElement) -> (i32, Seq<char>) {
    match e {
        DVIOutputElement::Character { char, font } => (char, font@),
    }
}

/// The result for the pages still to come, after the pages already done.
pub open spec fn after_pages(
    done: Seq<Seq<PlacementView>>,
    rest: Result<Seq<Seq<PlacementView>>, DVIInterpretError>,
) -> Result<Seq<Seq<PlacementView>>, DVIInterpretError> {
    match rest {
        Ok(r) => Ok(done + r),
        Err(e) => Err(e),
    }
}

pub open spec fn page_views(ps: Seq<DVIPageOutput>) -> Seq<Seq<PlacementView>> {
    ps.map_values(|p: DVIPageOutput| p.views())
}

/// Interprets the page that starts at `start` with its `Bop`, up to its
/// `Eop`; gives the page and the index after the `Eop`.
pub fn interpret_page(
    commands: &Vec<DVICommand>,
    start: usize,
    state: &mut DVIState,
    table: &Vec<FontWidths>,
) -> (r: Result<(DVIPageOutput, usize), DVIInterpretError>)
    ensures
        match page_spec(command_views(commands@), start as int, old(state)@, font_table_view(table@)) {
            Ok((acc, st, j)) => r matches Ok((page, k)) && page.views() == acc && k == j && final(state)@
                == st && st.stack.len() >= 1,
            Err(e) => r == Err::<(DVIPageOutput, usize), DVIInterpretError>(e),
        },
{
    let ghost cv = command_views(commands@);
    let ghost tv = font_table_view(table@);
    if start >= commands.len() {
        return Err(DVIInterpretError::UnexpectedEnd);
    }
    match &commands[start] {
        DVICommand::Bop { .. } => {},
        _ => {
            return Err(DVIInterpretError::MissingBop);
        },
    }
    let mut stack: Vec<Frame> = Vec::new();
    stack.push(Frame { h: 0, v: 0, w: 0, x: 0, y: 0, z: 0 });
    state.f = None;
    state.stack = stack;
    assert(state@.stack =~= seq![zero_frame()]);
    assert(state@.fonts == old(state)@.fonts);
    let mut page = DVIPageOutput { placements: Vec::new() };
    assert(page.views() =~= Seq::<PlacementView>::empty());
    let mut i: usize = start + 1;
    loop
        invariant
            cv == command_views(commands@),
            tv == font_table_view(table@),
            start < i <= commands.len() + 1,
            state@.stack.len() >= 1,
            page_body(cv, i as int, state@, tv, page.views()) == page_spec(
                cv,
                start as int,
                old(state)@,
                tv,
            ),
        decreases commands.len() + 1 - i,
    {
        if i >= commands.len() {
            return Err(DVIInterpretError::UnexpectedEnd);
        }
        let is_eop = match &commands[i] {
            DVICommand::Eop => true,
            _ => false,
        };
        if is_eop {
            return Ok((page, i + 1));
        }
        let ghost before = state@;
        match state.step(&commands[i], table) {
            Err(e) => {
                return Err(e);
            },
            Ok(Some(p)) => {
                page.add(p);
            },
            Ok(None) => {},
        }
        proof {
            lemma_step_keeps_stack(before, cv[i as int], tv);
        }
        i = i + 1;
    }
}

/// A step inside a page leaves at least one frame on the stack.
pub proof fn lemma_step_keeps_stack(st: StateView, cmd: CommandView, table: Seq<FontWidthsView>)
    requires
        st.stack.len() >= 1,
    ensures
        step(st, cmd, table) matches Ok((st2, p)) ==> st2.stack.len() >= 1,
{
}

/// Interprets the commands of a DVI file into the placements of characters
/// on its pages. The widths of the characters of each font that the file
/// defines come from `table`.
pub fn interpret_dvi_file(file: &DVIFile, table: &Vec<FontWidths>) -> (r: Result<
    Vec<DVIPageOutput>,
    DVIInterpretError,
>)
    ensures
        match file_spec(command_views(file.commands@), font_table_view(table@)) {
            Ok(pages) => r matches Ok(ps) && page_views(ps@) == pages,
            Err(e) => r == Err::<Vec<DVIPageOutput>, DVIInterpretError>(e),
        },
{
    let commands = &file.commands;
    let ghost cv = command_views(commands@);
    let ghost tv = font_table_view(table@);
    if commands.len() == 0 {
        return Err(DVIInterpretError::MissingPre);
    }
    match &commands[0] {
        DVICommand::Pre { format, num, den, mag, .. } => {
            if *format != 2 {
                return Err(DVIInterpretError::UnknownFormat(*format));
            }
            if *num != 25400000 || *den != 473628672 {
                return Err(DVIInterpretError::UnsupportedUnits);
            }
            if *mag != 1000 {
                return Err(DVIInterpretError::UnsupportedMagnification);
            }
        },
        _ => {
            return Err(DVIInterpretError::MissingPre);
        },
    }
    let mut state = DVIState::new();
    let mut pages: Vec<DVIPageOutput> = Vec::new();
    let mut i: usize = 1;
    assert(page_views(pages@) =~= Seq::<Seq<PlacementView>>::empty());
    assert(after_pages(page_views(pages@), pages_spec(cv, 1, state@, tv)) =~~= pages_spec(cv, 1, state@, tv));
    loop
        invariant
            cv == command_views(commands@),
            commands@ == file.commands@,
            tv == font_table_view(table@),
            1 <= i,
            state@.stack.len() >= 1,
            after_pages(page_views(pages@), pages_spec(cv, i as int, state@, tv)) == file_spec(cv, tv),
        decreases commands.len() + 1 - i,
    {
        if i >= commands.len() {
            assert(pages_spec(cv, i as int, state@, tv) == Err::<Seq<Seq<PlacementView>>, DVIInterpretError>(
                DVIInterpretError::UnexpectedEnd,
            ));
            assert(file_spec(cv, tv) == Err::<Seq<Seq<PlacementView>>, DVIInterpretError>(
                DVIInterpretError::UnexpectedEnd,
            ));
            return Err(DVIInterpretError::UnexpectedEnd);
        }
        let is_post = match &commands[i] {
            DVICommand::Post { .. } => true,
            _ => false,
        };
        if is_post {
            assert(page_views(pages@) + Seq::<Seq<PlacementView>>::empty() =~= page_views(pages@));
            return Ok(pages);
        }
        let ghost before = state@;
        let ghost done = page_views(pages@);
        match interpret_page(commands, i, &mut state, table) {
            Err(e) => {
                return Err(e);
            },
            Ok((page, j)) => {
                if j <= i || j > commands.len() {
                    return Err(DVIInterpretError::UnexpectedEnd);
                }
                let ghost pv = page.views();
                pages.push(page);
                proof {
                    assert(page_views(pages@) =~= done.push(pv));
                    match pages_spec(cv, j as int, state@, tv) {
                        Ok(rest) => {
                            assert(done + (seq![pv] + rest) =~= done.push(pv) + rest);
                        },
                        Err(e) => {},
                    }
                }
                i = j;
            },
        }
    }
}

fn width_of(table: &Vec<FontWidths>, name: &String, ch: u8) -> (r: Option<i32>)
    ensures
        r == width_lookup(font_table_view(table@), name@, ch as int),
{
    let ghost tv = font_table_view(table@);
    let mut i: usize = 0;
    assert(tv.subrange(0, tv.len() as int) =~= tv);
    while i < table.len()
        invariant
            i <= table.len(),
            tv == font_table_view(table@),
            width_lookup(tv, name@, ch as int) == width_lookup(tv.subrange(i as int, tv.len() as int), name@, ch as int),
        decreases table.len() - i,
    {
        let ghost sub = tv.subrange(i as int, tv.len() as int);
        assert(sub.drop_first() =~= tv.subrange(i + 1, tv.len() as int));
        assert(sub[0] == table@[i as int]@);
        if table[i].font_name == *name {
            if (ch as usize) < table[i].widths.len() {
                return Some(table[i].widths[ch as usize]);
            } else {
                return None;
            }
        }
        i = i + 1;
    }
    None
}

} // verus!
