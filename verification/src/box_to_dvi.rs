use vstd::prelude::*;

use crate::boxes::{glue_set_size, glue_settable, GlueSetRatio, TeXBox};
use crate::dimension::Dimen;
use crate::dvi::file::{command_byte_size, utf8_len, CommandView, DVICommand, DVIFile};
use crate::dvi::interpreter::{is_i32, step, Frame, FontWidthsView, StateView};
use crate::font::{Font, FontView};
use crate::glue::Glue;
use crate::list::{HorizontalListElem, VerticalListElem};

verus! {

/// Interpreting `Push` then a move down by `a`: the frame below is kept,
/// and the new top frame is the old one moved down by `a`.
pub open spec fn pushed_and_moved(st: StateView, a: int, table: Seq<FontWidthsView>) -> Option<StateView> {
    match step(st, CommandView::Push, table) {
        Ok((st1, _)) => match step(st1, CommandView::Down4(a as i32), table) {
            Ok((st2, _)) => Some(st2),
            Err(_) => None,
        },
        Err(_) => None,
    }
}

/// A box shifted by `s` in a horizontal list is drawn `s` higher than the
/// same box unshifted, and the list goes on from the same place: its
/// commands are those of the unshifted box, wrapped in `Push`, a move up by
/// `s` and `Pop` before the move past the box. Interpreted, the `Push` and
/// the move leave the enclosing position saved and make the box's position
/// `s` higher than the enclosing one.
pub proof fn law_shifted_horizontal_box_is_raised(
    w: PageState,
    tex_box: TeXBox,
    shift: Dimen,
    ratio: Option<GlueSetRatio>,
    t: Seq<FontInfoView>,
    st: StateView,
    table: Seq<FontWidthsView>,
)
    requires
        shift.sp() != 0,
        shift.sp() != i32::MIN,
        helem_commands(w, HorizontalListElem::Box { tex_box, shift: Dimen::spec_from_sp(0) }, ratio, t) is Some,
        st.stack.len() >= 1,
        is_i32(st.stack.last().v - shift.sp()),
    ensures
        ({
            let (c0, w0) = helem_commands(
                w,
                HorizontalListElem::Box { tex_box, shift: Dimen::spec_from_sp(0) },
                ratio,
                t,
            ).unwrap();
            &&& c0.len() >= 1
            &&& helem_commands(w, HorizontalListElem::Box { tex_box, shift }, ratio, t) == Some(
                (
                    seq![CommandView::Push, CommandView::Down4((-shift.sp()) as i32)] + c0.drop_last() + seq![
                        CommandView::Pop,
                        c0.last(),
                    ],
                    w0,
                ),
            )
            &&& c0.last() == CommandView::Right4(tex_box.width_of().sp() as i32)
            &&& pushed_and_moved(st, -shift.sp(), table) == Some(
                StateView {
                    stack: st.stack.push(Frame { v: (st.stack.last().v - shift.sp()) as i32, ..st.stack.last() }),
                    ..st
                },
            )
        }),
{
    Dimen::lemma_from_sp(0);
    let (c0, w0) = helem_commands(
        w,
        HorizontalListElem::Box { tex_box, shift: Dimen::spec_from_sp(0) },
        ratio,
        t,
    ).unwrap();
    let c = box_commands(w, tex_box, t).unwrap().0;
    assert(c0 == c.push(CommandView::Right4(tex_box.width_of().sp() as i32)));
    assert(c0.drop_last() =~= c);
    assert((seq![CommandView::Push, CommandView::Down4((-shift.sp()) as i32)] + c + seq![CommandView::Pop]).push(
        CommandView::Right4(tex_box.width_of().sp() as i32),
    ) =~= seq![CommandView::Push, CommandView::Down4((-shift.sp()) as i32)] + c0.drop_last() + seq![
        CommandView::Pop,
        c0.last(),
    ]);
    let st1 = StateView { stack: st.stack.push(st.stack.last()), ..st };
    assert(st1.stack.last() == st.stack.last());
    assert(st1.stack.len() - 1 == st.stack.len());
    assert(st1.stack.update(st1.stack.len() - 1, Frame { v: (st.stack.last().v - shift.sp()) as i32, ..st.stack.last() })
        =~= st.stack.push(Frame { v: (st.stack.last().v - shift.sp()) as i32, ..st.stack.last() }));
    assert(step(st, CommandView::Push, table) == Ok::<(StateView, Option<crate::dvi::interpreter::PlacementView>), crate::dvi::interpreter::DVIInterpretError>((st1, None)));
    Dimen::lemma_sp_bounds(shift);
    assert(((-shift.sp()) as i32) as int == -shift.sp());
    assert(pushed_and_moved(st, -shift.sp(), table) == Some(
                StateView {
                    stack: st.stack.push(Frame { v: (st.stack.last().v - shift.sp()) as i32, ..st.stack.last() }),
                    ..st
                },
            ));
    assert(helem_commands(w, HorizontalListElem::Box { tex_box, shift }, ratio, t) == Some(
                (
                    seq![CommandView::Push, CommandView::Down4((-shift.sp()) as i32)] + c0.drop_last() + seq![
                        CommandView::Pop,
                        c0.last(),
                    ],
                    w0,
                ),
            ));
}

/// A box shifted by `s` in a vertical list is drawn `s` to the right of the
/// same box unshifted, and the list goes on from the same place: its
/// commands are those of the unshifted box with the box itself wrapped in
/// `Push`, a move right by `s` and `Pop`, between the moves down by its
/// height and by its depth.
pub proof fn law_shifted_vertical_box_is_moved_right(
    w: PageState,
    tex_box: TeXBox,
    shift: Dimen,
    ratio: Option<GlueSetRatio>,
    t: Seq<FontInfoView>,
)
    requires
        shift.sp() != 0,
        velem_commands(w, VerticalListElem::Box { tex_box, shift: Dimen::spec_from_sp(0) }, ratio, t) is Some,
    ensures
        ({
            let (c0, w0) = velem_commands(
                w,
                VerticalListElem::Box { tex_box, shift: Dimen::spec_from_sp(0) },
                ratio,
                t,
            ).unwrap();
            &&& c0.len() >= 2
            &&& c0[0] == CommandView::Down4(tex_box.height_of().sp() as i32)
            &&& c0.last() == CommandView::Down4(tex_box.depth_of().sp() as i32)
            &&& velem_commands(w, VerticalListElem::Box { tex_box, shift }, ratio, t) == Some(
                (
                    seq![c0[0], CommandView::Push, CommandView::Right4(shift.sp() as i32)] + c0.subrange(
                        1,
                        c0.len() - 1,
                    ) + seq![CommandView::Pop, c0.last()],
                    w0,
                ),
            )
        }),
{
    Dimen::lemma_from_sp(0);
    let (c0, w0) = velem_commands(
        w,
        VerticalListElem::Box { tex_box, shift: Dimen::spec_from_sp(0) },
        ratio,
        t,
    ).unwrap();
    let c = box_commands(w, tex_box, t).unwrap().0;
    let hd = CommandView::Down4(tex_box.height_of().sp() as i32);
    let dd = CommandView::Down4(tex_box.depth_of().sp() as i32);
    assert(c0 == seq![hd] + c + seq![dd]);
    assert(c0.subrange(1, c0.len() - 1) =~= c);
    assert(seq![hd] + (seq![CommandView::Push, CommandView::Right4(shift.sp() as i32)] + c + seq![CommandView::Pop])
        + seq![dd] =~= seq![c0[0], CommandView::Push, CommandView::Right4(shift.sp() as i32)] + c0.subrange(
        1,
        c0.len() - 1,
    ) + seq![CommandView::Pop, c0.last()]);
}

/// The number of bytes that commands occupy in a DVI file.
pub open spec fn total_size(cs: Seq<CommandView>) -> int
    decreases cs.len(),
{
    if cs.len() == 0 {
        0
    } else {
        total_size(cs.drop_last()) + command_byte_size(cs.last())
    }
}

pub open spec fn command_views(cs: Seq<DVICommand>) -> Seq<CommandView> {
    cs.map_values(|c: DVICommand| c@)
}

/// Every command occupies at least one byte.
pub proof fn lemma_command_size_positive(c: CommandView)
    ensures
        command_byte_size(c) >= 1,
{
    match c {
        CommandView::FntDef1 { font_name, .. } => {
            assert(crate::dvi::file::utf8_len(font_name) >= 0);
        },
        CommandView::FntDef2 { font_name, .. } => {
            assert(crate::dvi::file::utf8_len(font_name) >= 0);
        },
        CommandView::FntDef3 { font_name, .. } => {
            assert(crate::dvi::file::utf8_len(font_name) >= 0);
        },
        CommandView::FntDef4 { font_name, .. } => {
            assert(crate::dvi::file::utf8_len(font_name) >= 0);
        },
        _ => {},
    }
}

/// The size of a prefix of the commands is at most that of all of them.
pub proof fn lemma_total_size_prefix(cs: Seq<CommandView>, n: int)
    requires
        0 <= n <= cs.len(),
    ensures
        0 <= total_size(cs.subrange(0, n)) <= total_size(cs),
    decreases cs.len() - n,
{
    if n < cs.len() {
        lemma_total_size_prefix(cs, n + 1);
        assert(cs.subrange(0, n + 1).drop_last() =~= cs.subrange(0, n));
        assert(cs.subrange(0, n + 1).last() == cs[n]);
        lemma_command_size_positive(cs[n]);
        lemma_total_size_nonneg(cs.subrange(0, n));
    } else {
        assert(cs.subrange(0, n) =~= cs);
        lemma_total_size_nonneg(cs);
    }
}

pub proof fn lemma_total_size_nonneg(cs: Seq<CommandView>)
    ensures
        total_size(cs) >= 0,
    decreases cs.len(),
{
    if cs.len() > 0 {
        lemma_total_size_nonneg(cs.drop_last());
        lemma_command_size_positive(cs.last());
    }
}

/// What the writer needs to know of a font's metrics to define it: its
/// checksum and its design size in scaled points.
pub struct FontInfo {
    pub font_name: String,
    pub checksum: u32,
    pub design_size: u32,
}

pub struct FontInfoView {
    pub font_name: Seq<char>,
    pub checksum: u32,
    pub design_size: u32,
}

impl View for FontInfo {
    type V = FontInfoView;

    open spec fn view(&self) -> FontInfoView {
        FontInfoView { font_name: self.font_name@, checksum: self.checksum, design_size: self.design_size }
    }
}

pub open spec fn info_views(t: Seq<FontInfo>) -> Seq<FontInfoView> {
    t.map_values(|f: FontInfo| f@)
}

/// What the writer keeps while writing pages: the font selected, the fonts
/// defined with their numbers, the next font number, and how deep boxes
/// are nested now and at most.
pub struct PageState {
    pub cur_font: i32,
    pub fonts: Seq<(FontView, i32)>,
    pub next_font: i32,
    pub depth: int,
    pub max_depth: int,
}

/// Commands written and the state after them, or `None` where writing
/// fails: a font with no metrics, a glue that cannot be set, boxes nested
/// deeper than the counter goes, more fonts than font numbers.
pub type Written = Option<(Seq<CommandView>, PageState)>;

/// The number of a defined font, the first defined with its name and size.
pub open spec fn font_number(fonts: Seq<(FontView, i32)>, f: FontView) -> Option<i32>
    decreases fonts.len(),
{
    if fonts.len() == 0 {
        None
    } else if fonts[0].0 == f {
        Some(fonts[0].1)
    } else {
        font_number(fonts.drop_first(), f)
    }
}

/// The metrics of the first font of the table with the given name.
pub open spec fn font_info(table: Seq<FontInfoView>, name: Seq<char>) -> Option<FontInfoView>
    decreases table.len(),
{
    if table.len() == 0 {
        None
    } else if table[0].font_name == name {
        Some(table[0])
    } else {
        font_info(table.drop_first(), name)
    }
}

/// The definition of a font under a number; its length field is the byte
/// length of the name as a `usize`, cut to a byte.
pub open spec fn font_def(f: FontView, info: FontInfoView, n: i32) -> CommandView {
    CommandView::FntDef4 {
        font_num: n,
        checksum: info.checksum,
        scale: f.scale.sp() as u32,
        design_size: info.design_size,
        area: 0,
        length: (utf8_len(f.font_name) as usize) as u8,
        font_name: f.font_name,
    }
}

/// Selects font `n`, unless it is selected already.
pub open spec fn select_font(w: PageState, n: i32) -> (Seq<CommandView>, PageState) {
    if n != w.cur_font {
        (seq![CommandView::Fnt4(n)], PageState { cur_font: n, ..w })
    } else {
        (Seq::empty(), w)
    }
}

/// Switches to a font, defining it first if it is new.
pub open spec fn switch_font(w: PageState, f: FontView, table: Seq<FontInfoView>) -> Written {
    match font_number(w.fonts, f) {
        Some(n) => Some(select_font(w, n)),
        None => match font_info(table, f.font_name) {
            None => None,
            Some(info) => if w.next_font >= i32::MAX {
                None
            } else {
                let n = w.next_font;
                let w1 = PageState { fonts: w.fonts.push((f, n)), next_font: (n + 1) as i32, ..w };
                let (c, w2) = select_font(w1, n);
                Some((seq![font_def(f, info, n)] + c, w2))
            },
        },
    }
}

/// The character code that a character is set with.
pub open spec fn char_code(c: char) -> u8 {
    (c as u32) as u8
}

/// The size of a glue in a list set with `ratio`, or `None` where it cannot
/// be set.
pub open spec fn glue_size(ratio: Option<GlueSetRatio>, glue: Glue) -> Option<int> {
    match ratio {
        None => Some(glue.space.sp()),
        Some(r) => if glue_settable(r, glue) {
            Some(glue_set_size(r, glue))
        } else {
            None
        },
    }
}

/// The commands for a box: `Push`, its contents (a vertical box first moves
/// up by its height), `Pop`; after the `Pop` the nesting depth is that
/// before the `Push` again.
pub open spec fn box_commands(w: PageState, b: TeXBox, table: Seq<FontInfoView>) -> Written
    decreases b, 0nat,
{
    if w.depth + 1 > u16::MAX {
        None
    } else {
        let w1 = PageState {
            depth: w.depth + 1,
            max_depth: if w.depth + 1 > w.max_depth {
                w.depth + 1
            } else {
                w.max_depth
            },
            ..w
        };
        let inner = match b {
            TeXBox::HorizontalBox(h) => hlist_commands(w1, h.list@, h.glue_set_ratio, table),
            TeXBox::VerticalBox(v) => if v.height.sp() == i32::MIN {
                None
            } else {
                match vlist_commands(w1, v.list@, v.glue_set_ratio, table) {
                    None => None,
                    Some((c, w2)) => Some((seq![CommandView::Down4((-v.height.sp()) as i32)] + c, w2)),
                }
            },
        };
        match inner {
            None => None,
            Some((c, w2)) => Some(
                (
                    seq![CommandView::Push] + c + seq![CommandView::Pop],
                    PageState { depth: w.depth, ..w2 },
                ),
            ),
        }
    }
}

/// The commands for a horizontal list set with `ratio`.
pub open spec fn hlist_commands(
    w: PageState,
    s: Seq<HorizontalListElem>,
    ratio: Option<GlueSetRatio>,
    table: Seq<FontInfoView>,
) -> Written
    decreases s, 0nat,
{
    if s.len() == 0 {
        Some((Seq::empty(), w))
    } else {
        match hlist_commands(w, s.drop_last(), ratio, table) {
            None => None,
            Some((c1, w1)) => match helem_commands(w1, s.last(), ratio, table) {
                None => None,
                Some((c2, w2)) => Some((c1 + c2, w2)),
            },
        }
    }
}

/// The commands for an element of a horizontal list: a character is set in
/// its font, a skip moves right by its set size, a box is written (moved
/// down by its shift) and then moved past.
pub open spec fn helem_commands(
    w: PageState,
    e: HorizontalListElem,
    ratio: Option<GlueSetRatio>,
    table: Seq<FontInfoView>,
) -> Written
    decreases e, 0nat,
{
    match e {
        HorizontalListElem::Char { chr, font } => match switch_font(w, font@, table) {
            None => None,
            Some((c, w1)) => Some(
                (
                    c.push(
                        if char_code(chr) < 128 {
                            CommandView::SetCharN(char_code(chr))
                        } else {
                            CommandView::Set1(char_code(chr))
                        },
                    ),
                    w1,
                ),
            ),
        },
        HorizontalListElem::HSkip(glue) => match glue_size(ratio, glue) {
            None => None,
            Some(v) => Some((seq![CommandView::Right4(v as i32)], w)),
        },
        HorizontalListElem::Box { tex_box, shift } => match box_commands(w, tex_box, table) {
            None => None,
            Some(_) if shift.sp() == i32::MIN => None,
            Some((c, w1)) => Some(
                (
                    (if shift.sp() != 0 {
                        seq![CommandView::Push, CommandView::Down4((-shift.sp()) as i32)] + c + seq![
                            CommandView::Pop,
                        ]
                    } else {
                        c
                    }).push(CommandView::Right4(tex_box.width_of().sp() as i32)),
                    w1,
                ),
            ),
        },
    }
}

/// The commands for a vertical list set with `ratio`.
pub open spec fn vlist_commands(
    w: PageState,
    s: Seq<VerticalListElem>,
    ratio: Option<GlueSetRatio>,
    table: Seq<FontInfoView>,
) -> Written
    decreases s, 0nat,
{
    if s.len() == 0 {
        Some((Seq::empty(), w))
    } else {
        match vlist_commands(w, s.drop_last(), ratio, table) {
            None => None,
            Some((c1, w1)) => match velem_commands(w1, s.last(), ratio, table) {
                None => None,
                Some((c2, w2)) => Some((c1 + c2, w2)),
            },
        }
    }
}

/// The commands for an element of a vertical list: a skip moves down by its
/// set size; a box moves down by its height, is written (moved right by
/// its shift), and moves down by its depth.
pub open spec fn velem_commands(
    w: PageState,
    e: VerticalListElem,
    ratio: Option<GlueSetRatio>,
    table: Seq<FontInfoView>,
) -> Written
    decreases e, 0nat,
{
    match e {
        VerticalListElem::VSkip(glue) => match glue_size(ratio, glue) {
            None => None,
            Some(v) => Some((seq![CommandView::Down4(v as i32)], w)),
        },
        VerticalListElem::Box { tex_box, shift } => match box_commands(w, tex_box, table) {
            None => None,
            Some((c, w1)) => Some(
                (
                    seq![CommandView::Down4(tex_box.height_of().sp() as i32)] + (if shift.sp() != 0 {
                        seq![CommandView::Push, CommandView::Right4(shift.sp() as i32)] + c + seq![
                            CommandView::Pop,
                        ]
                    } else {
                        c
                    }) + seq![CommandView::Down4(tex_box.depth_of().sp() as i32)],
                    w1,
                ),
            ),
        },
    }
}

/// The definitions of the fonts, in the order they were defined.
pub open spec fn font_defs(fonts: Seq<(FontView, i32)>, table: Seq<FontInfoView>) -> Seq<CommandView>
    decreases fonts.len(),
{
    if fonts.len() == 0 {
        Seq::empty()
    } else {
        font_defs(fonts.drop_last(), table).push(
            font_def(fonts.last().0, font_info(table, fonts.last().0.font_name).unwrap(), fonts.last().1),
        )
    }
}

/// The commands of a page's vertical list: no font is selected when a page
/// starts.
pub open spec fn page_commands(
    w: PageState,
    elems: Seq<VerticalListElem>,
    ratio: Option<GlueSetRatio>,
    table: Seq<FontInfoView>,
) -> Written {
    vlist_commands(PageState { cur_font: -1i32, ..w }, elems, ratio, table)
}

/// The size of commands one after the other is the sum of their sizes.
pub proof fn lemma_total_size_append(a: Seq<CommandView>, b: Seq<CommandView>)
    ensures
        total_size(a + b) == total_size(a) + total_size(b),
    decreases b.len(),
{
    if b.len() > 0 {
        lemma_total_size_append(a, b.drop_last());
        assert((a + b).drop_last() =~= a + b.drop_last());
        assert((a + b).last() == b.last());
    } else {
        assert(a + b =~= a);
    }
}

/// A list whose commands can be written has a prefix whose commands can be.
proof fn lemma_hlist_prefix(
    w: PageState,
    s: Seq<HorizontalListElem>,
    r: Option<GlueSetRatio>,
    t: Seq<FontInfoView>,
    n: int,
)
    requires
        0 <= n <= s.len(),
        hlist_commands(w, s, r, t) is Some,
    ensures
        hlist_commands(w, s.take(n), r, t) is Some,
    decreases s.len() - n,
{
    if n < s.len() {
        lemma_hlist_prefix(w, s, r, t, n + 1);
        assert(s.take(n + 1).drop_last() =~= s.take(n));
    } else {
        assert(s.take(n) =~= s);
    }
}

proof fn lemma_vlist_prefix(
    w: PageState,
    s: Seq<VerticalListElem>,
    r: Option<GlueSetRatio>,
    t: Seq<FontInfoView>,
    n: int,
)
    requires
        0 <= n <= s.len(),
        vlist_commands(w, s, r, t) is Some,
    ensures
        vlist_commands(w, s.take(n), r, t) is Some,
    decreases s.len() - n,
{
    if n < s.len() {
        lemma_vlist_prefix(w, s, r, t, n + 1);
        assert(s.take(n + 1).drop_last() =~= s.take(n));
    } else {
        assert(s.take(n) =~= s);
    }
}

/// Builds a DVI file: the preamble, then the pages, then the postamble.
pub struct DVIFileWriter {
    commands: Vec<DVICommand>,
    last_page_start: i32,
    curr_font_num: i32,
    font_nums: Vec<(Font, i32)>,
    next_font_num: i32,
    num: u32,
    den: u32,
    mag: u32,
    num_pages: u16,
    max_stack_depth: u16,
    curr_stack_depth: u16,
}

/// The views of defined fonts with their numbers.
pub open spec fn font_table_views(v: Seq<(Font, i32)>) -> Seq<(FontView, i32)> {
    v.map_values(|p: (Font, i32)| (p.0@, p.1))
}

/// The number of a font among the defined ones.
fn find_font_number(fonts: &Vec<(Font, i32)>, f: &Font) -> (r: Option<i32>)
    ensures
        r == font_number(font_table_views(fonts@), f@),
{
    let ghost views = font_table_views(fonts@);
    assert(views.subrange(0, views.len() as int) =~= views);
    let mut i: usize = 0;
    while i < fonts.len()
        invariant
            i <= fonts.len(),
            views == font_table_views(fonts@),
            views.len() == fonts@.len(),
            font_number(views, f@) == font_number(views.subrange(i as int, views.len() as int), f@),
        decreases fonts.len() - i,
    {
        let ghost rest = views.subrange(i as int, views.len() as int);
        assert(rest[0] == views[i as int]);
        assert(rest.drop_first() =~= views.subrange(i + 1, views.len() as int));
        let entry = &fonts[i];
        proof {
            Dimen::lemma_sp_injective(entry.0.scale, f.scale);
        }
        if entry.0.font_name.eq(&f.font_name) && entry.0.scale.as_scaled_points()
            == f.scale.as_scaled_points() {
            return Some(entry.1);
        }
        i = i + 1;
    }
    assert(views.subrange(i as int, views.len() as int).len() == 0);
    None
}

/// The place in the table of the metrics of the font with the given name.
fn find_font_info(table: &Vec<FontInfo>, name: &String) -> (r: Option<usize>)
    ensures
        match r {
            Some(i) => i < table@.len() && font_info(info_views(table@), name@) == Some(table@[i as int]@),
            None => font_info(info_views(table@), name@) is None,
        },
{
    let ghost views = info_views(table@);
    assert(views.subrange(0, views.len() as int) =~= views);
    let mut i: usize = 0;
    while i < table.len()
        invariant
            i <= table.len(),
            views == info_views(table@),
            views.len() == table@.len(),
            font_info(views, name@) == font_info(views.subrange(i as int, views.len() as int), name@),
        decreases table.len() - i,
    {
        let ghost rest = views.subrange(i as int, views.len() as int);
        assert(rest[0] == views[i as int]);
        assert(rest.drop_first() =~= views.subrange(i + 1, views.len() as int));
        if table[i].font_name.eq(name) {
            return Some(i);
        }
        i = i + 1;
    }
    assert(views.subrange(i as int, views.len() as int).len() == 0);
    None
}

/// The definition of a font under a number.
fn font_definition(font: &Font, info: &FontInfo, n: i32) -> (c: DVICommand)
    ensures
        c@ == font_def(font@, info@, n),
{
    let name = font.font_name.clone();
    let len = font.font_name.as_str().len();
    assert(len == utf8_len(font@.font_name) as usize);
    let scale = font.scale.as_scaled_points();
    DVICommand::FntDef4 {
        font_num: n,
        checksum: info.checksum,
        scale: scale as u32,
        design_size: info.design_size,
        area: 0,
        length: len as u8,
        font_name: name,
    }
}

impl DVIFileWriter {
    /// The commands written so far.
    pub closed spec fn commands(&self) -> Seq<CommandView> {
        command_views(self.commands@)
    }

    pub closed spec fn unit_fraction(&self) -> (u32, u32, u32) {
        (self.num, self.den, self.mag)
    }

    pub closed spec fn last_page_start(&self) -> i32 {
        self.last_page_start
    }

    pub closed spec fn num_pages(&self) -> u16 {
        self.num_pages
    }

    pub closed spec fn max_stack_depth(&self) -> u16 {
        self.max_stack_depth
    }

    /// The fonts defined, the font selected and how deep boxes are nested.
    pub closed spec fn page_state(&self) -> PageState {
        PageState {
            cur_font: self.curr_font_num,
            fonts: font_table_views(self.font_nums@),
            next_font: self.next_font_num,
            depth: self.curr_stack_depth as int,
            max_depth: self.max_stack_depth as int,
        }
    }

    /// What writing a page leaves alone: where the last page starts, the
    /// unit fraction and the number of pages.
    pub closed spec fn frame(&self) -> (i32, u32, u32, u32, u16) {
        (self.last_page_start, self.num, self.den, self.mag, self.num_pages)
    }

    /// This writer is `before` with the commands and state of `r` added.
    pub open spec fn wrote(&self, before: &Self, r: Written) -> bool {
        &&& r is Some
        &&& self.commands() == before.commands() + r.unwrap().0
        &&& self.page_state() == r.unwrap().1
        &&& self.frame() == before.frame()
    }

    /// The commands written so far.
    pub fn command_list(&self) -> (r: &Vec<DVICommand>)
        ensures
            command_views(r@) == self.commands(),
    {
        &self.commands
    }

    fn push_command(&mut self, c: DVICommand)
        ensures
            final(self).commands() == old(self).commands().push(c@),
            final(self).page_state() == old(self).page_state(),
            final(self).frame() == old(self).frame(),
            final(self).unit_fraction() == old(self).unit_fraction(),
    {
        let ghost before = self.commands();
        let ghost cv = c@;
        self.commands.push(c);
        assert(self.commands() =~= before.push(cv));
    }

    fn select_font_number(&mut self, n: i32)
        ensures
            final(self).wrote(old(self), Some(select_font(old(self).page_state(), n))),
    {
        if n != self.curr_font_num {
            self.push_command(DVICommand::Fnt4(n));
            self.curr_font_num = n;
            assert(self.commands() =~= old(self).commands() + seq![CommandView::Fnt4(n)]);
        } else {
            assert(self.commands() =~= old(self).commands() + Seq::<CommandView>::empty());
        }
    }

    fn switch_to_font(&mut self, font: &Font, table: &Vec<FontInfo>)
        requires
            switch_font(old(self).page_state(), font@, info_views(table@)) is Some,
        ensures
            final(self).wrote(old(self), switch_font(old(self).page_state(), font@, info_views(table@))),
    {
        match find_font_number(&self.font_nums, font) {
            Some(n) => {
                self.select_font_number(n);
            },
            None => {
                let found = find_font_info(table, &font.font_name);
                match found {
                    None => {},
                    Some(i) => {
                        let n = self.next_font_num;
                        let ghost w = self.page_state();
                        let ghost before = self.commands();
                        let def = font_definition(font, &table[i], n);
                        self.next_font_num = n + 1;
                        let ghost old_fonts = self.font_nums@;
                        let copy = font.duplicate();
                        self.font_nums.push((copy, n));
                        assert(font_table_views(self.font_nums@) =~= w.fonts.push((font@, n)));
                        self.push_command(def);
                        let ghost mid = self.commands();
                        self.select_font_number(n);
                        assert(self.commands() =~= before + (seq![def@] + select_font(
                            PageState { fonts: w.fonts.push((font@, n)), next_font: (n + 1) as i32, ..w },
                            n,
                        ).0));
                    },
                }
            },
        }
    }
}

impl DVIFileWriter {

    /// A writer with no commands, no page and no unit fraction yet.
    pub fn new() -> (w: Self)
        ensures
            w.commands() == Seq::<CommandView>::empty(),
            w.last_page_start() == -1,
            w.unit_fraction() == (0u32, 0u32, 0u32),
            w.num_pages() == 0,
            w.max_stack_depth() == 0,
    {
        let w = DVIFileWriter {
            commands: Vec::new(),
            last_page_start: -1,
            curr_font_num: -1,
            font_nums: Vec::new(),
            next_font_num: 0,
            num: 0,
            den: 0,
            mag: 0,
            num_pages: 0,
            max_stack_depth: 0,
            curr_stack_depth: 0,
        };
        assert(w.commands() =~= Seq::<CommandView>::empty());
        w
    }

    /// Writes the preamble, with the unit fraction, the magnification and
    /// the comment.
    pub fn start(&mut self, unit_frac: (u32, u32), mag: u32, comment: Vec<u8>)
        ensures
            final(self).commands() == old(self).commands().push(
                CommandView::Pre { format: 2, num: unit_frac.0, den: unit_frac.1, mag, comment: comment@ },
            ),
            final(self).unit_fraction() == (unit_frac.0, unit_frac.1, mag),
            final(self).last_page_start() == old(self).last_page_start(),
            final(self).num_pages() == old(self).num_pages(),
            final(self).max_stack_depth() == old(self).max_stack_depth(),
    {
        let (num, den) = unit_frac;
        self.num = num;
        self.den = den;
        self.mag = mag;
        let ghost before = self.commands();
        let ghost cv = CommandView::Pre { format: 2, num, den, mag, comment: comment@ };
        self.commands.push(DVICommand::Pre { format: 2, num, den, mag, comment });
        assert(self.commands() =~= before.push(cv));
    }

    /// Writes a box: `Push`, its contents, `Pop`.
    pub fn add_box(&mut self, b: &TeXBox, table: &Vec<FontInfo>)
        requires
            box_commands(old(self).page_state(), *b, info_views(table@)) is Some,
        ensures
            final(self).wrote(old(self), box_commands(old(self).page_state(), *b, info_views(table@))),
        decreases b,
    {
        let ghost t = info_views(table@);
        let ghost start = self.commands();
        let saved_depth = self.curr_stack_depth;
        self.push_command(DVICommand::Push);
        self.curr_stack_depth = self.curr_stack_depth + 1;
        if self.curr_stack_depth > self.max_stack_depth {
            self.max_stack_depth = self.curr_stack_depth;
        }
        let ghost w1 = self.page_state();
        let ghost f0 = self.frame();
        let ghost inner: Written = match b {
            TeXBox::HorizontalBox(h) => hlist_commands(w1, h.list@, h.glue_set_ratio, t),
            TeXBox::VerticalBox(v) => match vlist_commands(w1, v.list@, v.glue_set_ratio, t) {
                None => None,
                Some((c, w2)) => Some((seq![CommandView::Down4((-v.height.sp()) as i32)] + c, w2)),
            },
        };
        match b {
            TeXBox::HorizontalBox(h) => {
                let ghost s0 = self.commands();
                proof {
                    lemma_hlist_prefix(w1, h.list@, h.glue_set_ratio, t, 0);
                    assert(h.list@.take(0) =~= Seq::<HorizontalListElem>::empty());
                    assert(self.commands() =~= s0 + Seq::<CommandView>::empty());
                }
                let mut i: usize = 0;
                while i < h.list.len()
                    invariant
                        i <= h.list@.len(),
                        t == info_views(table@),
                        hlist_commands(w1, h.list@, h.glue_set_ratio, t) is Some,
                        *b == TeXBox::HorizontalBox(*h),
                        hlist_commands(w1, h.list@.take(i as int), h.glue_set_ratio, t) is Some,
                        self.commands() == s0 + hlist_commands(
                            w1,
                            h.list@.take(i as int),
                            h.glue_set_ratio,
                            t,
                        ).unwrap().0,
                        self.page_state() == hlist_commands(
                            w1,
                            h.list@.take(i as int),
                            h.glue_set_ratio,
                            t,
                        ).unwrap().1,
                        self.frame() == f0,
                    decreases h.list.len() - i,
                {
                    proof {
                        lemma_hlist_prefix(w1, h.list@, h.glue_set_ratio, t, i + 1);
                        assert(h.list@.take(i + 1).drop_last() =~= h.list@.take(i as int));
                        assert(h.list@.take(i + 1).last() == h.list@[i as int]);
                    }
                    assert(decreases_to!(*b => (*b)->HorizontalBox_0));
                    assert(decreases_to!(h => h.list));
                    assert(decreases_to!(h.list => h.list@));
                    assert(decreases_to!(h.list@ => h.list@[i as int]));
                    let ghost before = self.commands();
                    self.add_horizontal_list_elem(&h.list[i], &h.glue_set_ratio, table);
                    assert(self.commands() =~= s0 + hlist_commands(
                        w1,
                        h.list@.take(i + 1),
                        h.glue_set_ratio,
                        t,
                    ).unwrap().0);
                    i = i + 1;
                }
                assert(h.list@.take(i as int) =~= h.list@);
                assert(self.commands() =~= start.push(CommandView::Push) + inner.unwrap().0);
            },
            TeXBox::VerticalBox(v) => {
                let up = -v.height.as_scaled_points();
                self.push_command(DVICommand::Down4(up));
                let ghost s0 = self.commands();
                proof {
                    lemma_vlist_prefix(w1, v.list@, v.glue_set_ratio, t, 0);
                    assert(v.list@.take(0) =~= Seq::<VerticalListElem>::empty());
                    assert(self.commands() =~= s0 + Seq::<CommandView>::empty());
                }
                let mut i: usize = 0;
                while i < v.list.len()
                    invariant
                        i <= v.list@.len(),
                        t == info_views(table@),
                        vlist_commands(w1, v.list@, v.glue_set_ratio, t) is Some,
                        *b == TeXBox::VerticalBox(*v),
                        vlist_commands(w1, v.list@.take(i as int), v.glue_set_ratio, t) is Some,
                        self.commands() == s0 + vlist_commands(
                            w1,
                            v.list@.take(i as int),
                            v.glue_set_ratio,
                            t,
                        ).unwrap().0,
                        self.page_state() == vlist_commands(
                            w1,
                            v.list@.take(i as int),
                            v.glue_set_ratio,
                            t,
                        ).unwrap().1,
                        self.frame() == f0,
                    decreases v.list.len() - i,
                {
                    proof {
                        lemma_vlist_prefix(w1, v.list@, v.glue_set_ratio, t, i + 1);
                        assert(v.list@.take(i + 1).drop_last() =~= v.list@.take(i as int));
                        assert(v.list@.take(i + 1).last() == v.list@[i as int]);
                    }
                    assert(decreases_to!(*b => (*b)->VerticalBox_0));
                    assert(decreases_to!(v => v.list));
                    assert(decreases_to!(v.list => v.list@));
                    assert(decreases_to!(v.list@ => v.list@[i as int]));
                    self.add_vertical_list_elem(&v.list[i], &v.glue_set_ratio, table);
                    assert(self.commands() =~= s0 + vlist_commands(
                        w1,
                        v.list@.take(i + 1),
                        v.glue_set_ratio,
                        t,
                    ).unwrap().0);
                    i = i + 1;
                }
                assert(v.list@.take(i as int) =~= v.list@);
                assert(self.commands() =~= start.push(CommandView::Push) + inner.unwrap().0);
            },
        }
        self.push_command(DVICommand::Pop);
        self.curr_stack_depth = saved_depth;
        assert(self.commands() =~= start + (seq![CommandView::Push] + inner.unwrap().0 + seq![
            CommandView::Pop,
        ]));
    }

    /// Writes an element of a horizontal list set with `ratio`.
    pub fn add_horizontal_list_elem(
        &mut self,
        e: &HorizontalListElem,
        ratio: &Option<GlueSetRatio>,
        table: &Vec<FontInfo>,
    )
        requires
            helem_commands(old(self).page_state(), *e, *ratio, info_views(table@)) is Some,
        ensures
            final(self).wrote(old(self), helem_commands(old(self).page_state(), *e, *ratio, info_views(table@))),
        decreases e,
    {
        let ghost start = self.commands();
        match e {
            HorizontalListElem::Char { chr, font } => {
                let ghost sw = switch_font(self.page_state(), font@, info_views(table@));
                let code: u8 = (*chr as u32) as u8;
                assert(code == char_code(*chr));
                self.switch_to_font(font, table);
                let ghost mid = self.commands();
                assert(mid == start + sw.unwrap().0);
                if code < 128 {
                    self.push_command(DVICommand::SetCharN(code));
                    assert(self.commands() =~= start + sw.unwrap().0.push(CommandView::SetCharN(code)));
                } else {
                    self.push_command(DVICommand::Set1(code));
                    assert(self.commands() =~= start + sw.unwrap().0.push(CommandView::Set1(code)));
                }

            },
            HorizontalListElem::HSkip(glue) => {
                let amount: i32 = match ratio {
                    Some(r) => r.apply_to_glue(glue).as_scaled_points(),
                    None => glue.space.as_scaled_points(),
                };
                self.push_command(DVICommand::Right4(amount));
                assert(self.commands() =~= start + seq![CommandView::Right4(amount)]);
            },
            HorizontalListElem::Box { tex_box, shift } => {
                let s = shift.as_scaled_points();
                assert(decreases_to!(e => tex_box));
                let ghost bc = box_commands(self.page_state(), *tex_box, info_views(table@));
                if s != 0 {
                    let down = -s;
                    self.push_command(DVICommand::Push);
                    self.push_command(DVICommand::Down4(down));
                    let ghost s1 = self.commands();
                    self.add_box(tex_box, table);
                    let ghost c = bc.unwrap().0;
                    self.push_command(DVICommand::Pop);
                    let width = tex_box.width().as_scaled_points();
                    self.push_command(DVICommand::Right4(width));
                    assert(self.commands() =~= start + (seq![CommandView::Push, CommandView::Down4(down)] + c
                        + seq![CommandView::Pop]).push(CommandView::Right4(width)));
                } else {
                    self.add_box(tex_box, table);
                    let ghost c = bc.unwrap().0;
                    let width = tex_box.width().as_scaled_points();
                    self.push_command(DVICommand::Right4(width));
                    assert(self.commands() =~= start + c.push(CommandView::Right4(width)));
                }
            },
        }
    }

    /// Writes an element of a vertical list set with `ratio`.
    pub fn add_vertical_list_elem(
        &mut self,
        e: &VerticalListElem,
        ratio: &Option<GlueSetRatio>,
        table: &Vec<FontInfo>,
    )
        requires
            velem_commands(old(self).page_state(), *e, *ratio, info_views(table@)) is Some,
        ensures
            final(self).wrote(old(self), velem_commands(old(self).page_state(), *e, *ratio, info_views(table@))),
        decreases e,
    {
        let ghost start = self.commands();
        match e {
            VerticalListElem::VSkip(glue) => {
                let amount: i32 = match ratio {
                    Some(r) => r.apply_to_glue(glue).as_scaled_points(),
                    None => glue.space.as_scaled_points(),
                };
                assert(glue_size(*ratio, *glue) == Some(amount as int));
                self.push_command(DVICommand::Down4(amount));
                assert(self.commands() =~= start + seq![CommandView::Down4(amount)]);

            },
            VerticalListElem::Box { tex_box, shift } => {
                let s = shift.as_scaled_points();
                let height = tex_box.height().as_scaled_points();
                let depth = tex_box.depth().as_scaled_points();
                assert(decreases_to!(e => tex_box));
                let ghost bc = box_commands(self.page_state(), *tex_box, info_views(table@));
                self.push_command(DVICommand::Down4(height));
                let ghost s1 = self.commands();
                if s != 0 {
                    self.push_command(DVICommand::Push);
                    self.push_command(DVICommand::Right4(s));
                    let ghost s2 = self.commands();
                    self.add_box(tex_box, table);
                    let ghost c = bc.unwrap().0;
                    self.push_command(DVICommand::Pop);
                    self.push_command(DVICommand::Down4(depth));
                    assert(self.commands() =~= start + (seq![CommandView::Down4(height)] + (seq![
                        CommandView::Push,
                        CommandView::Right4(s),
                    ] + c + seq![CommandView::Pop]) + seq![CommandView::Down4(depth)]));
                } else {
                    self.add_box(tex_box, table);
                    let ghost c = bc.unwrap().0;
                    self.push_command(DVICommand::Down4(depth));
                    assert(self.commands() =~= start + (seq![CommandView::Down4(height)] + c + seq![
                        CommandView::Down4(depth),
                    ]));
                }
            },
        }
    }

    /// The number of bytes of the commands written so far.
    fn total_byte_size(&self) -> (n: usize)
        requires
            total_size(self.commands()) <= usize::MAX,
        ensures
            n == total_size(self.commands()),
    {
        let ghost cs = self.commands();
        let mut total: usize = 0;
        let mut i: usize = 0;
        while i < self.commands.len()
            invariant
                i <= self.commands.len(),
                cs == self.commands(),
                cs.len() == self.commands.len(),
                total_size(cs) <= usize::MAX,
                total == total_size(cs.subrange(0, i as int)),
            decreases self.commands.len() - i,
        {
            proof {
                lemma_total_size_prefix(cs, i + 1);
                assert(cs.subrange(0, i + 1).drop_last() =~= cs.subrange(0, i as int));
                assert(cs[i as int] == self.commands@[i as int]@);
                lemma_command_size_positive(cs[i as int]);
            }
            let size = self.commands[i].byte_size();
            total = total + size;
            i = i + 1;
        }
        assert(cs.subrange(0, i as int) =~= cs);
        total
    }

    /// Writes a page: `Bop` with the counters and the position of the
    /// previous page, then the elements of the vertical list set with
    /// `ratio`, then `Eop`. Fonts are selected anew on each page; a font is
    /// defined where it is first used, with its metrics from `fonts`.
    pub fn add_page(
        &mut self,
        elems: &[VerticalListElem],
        ratio: &Option<GlueSetRatio>,
        cs: [i32; 10],
        fonts: &Vec<FontInfo>,
    )
        requires
            old(self).num_pages() < u16::MAX,
            total_size(old(self).commands()) <= usize::MAX,
            page_commands(old(self).page_state(), elems@, *ratio, info_views(fonts@)) is Some,
        ensures
            final(self).commands() == old(self).commands() + seq![
                CommandView::Bop { cs: cs@, pointer: old(self).last_page_start() },
            ] + page_commands(old(self).page_state(), elems@, *ratio, info_views(fonts@)).unwrap().0
                + seq![CommandView::Eop],
            final(self).page_state() == page_commands(
                old(self).page_state(),
                elems@,
                *ratio,
                info_views(fonts@),
            ).unwrap().1,
            final(self).num_pages() == old(self).num_pages() + 1,
            final(self).last_page_start() == total_size(old(self).commands()) as i32,
            final(self).unit_fraction() == old(self).unit_fraction(),
    {
        let ghost t = info_views(fonts@);
        let ghost start = self.commands();
        self.num_pages = self.num_pages + 1;
        let old_last_page_start = self.last_page_start;
        let size = self.total_byte_size();
        self.last_page_start = size as i32;
        self.push_command(DVICommand::Bop { cs, pointer: old_last_page_start });
        self.curr_font_num = -1;
        let ghost w1 = self.page_state();
        let ghost f0 = self.frame();
        let ghost s0 = self.commands();
        proof {
            lemma_vlist_prefix(w1, elems@, *ratio, t, 0);
            assert(elems@.take(0) =~= Seq::<VerticalListElem>::empty());
            assert(self.commands() =~= s0 + Seq::<CommandView>::empty());
        }
        let mut i: usize = 0;
        while i < elems.len()
            invariant
                i <= elems@.len(),
                t == info_views(fonts@),
                vlist_commands(w1, elems@, *ratio, t) is Some,
                vlist_commands(w1, elems@.take(i as int), *ratio, t) is Some,
                self.commands() == s0 + vlist_commands(w1, elems@.take(i as int), *ratio, t).unwrap().0,
                self.page_state() == vlist_commands(w1, elems@.take(i as int), *ratio, t).unwrap().1,
                self.frame() == f0,
                self.unit_fraction() == old(self).unit_fraction(),
            decreases elems.len() - i,
        {
            proof {
                lemma_vlist_prefix(w1, elems@, *ratio, t, i + 1);
                assert(elems@.take(i + 1).drop_last() =~= elems@.take(i as int));
                assert(elems@.take(i + 1).last() == elems@[i as int]);
            }
            self.add_vertical_list_elem(&elems[i], ratio, fonts);
            assert(self.commands() =~= s0 + vlist_commands(w1, elems@.take(i + 1), *ratio, t).unwrap().0);
            i = i + 1;
        }
        assert(elems@.take(i as int) =~= elems@);
        let ghost body = vlist_commands(w1, elems@, *ratio, t).unwrap().0;
        self.push_command(DVICommand::Eop);
        assert(self.commands() =~= start + seq![
            CommandView::Bop { cs: cs@, pointer: old(self).last_page_start() },
        ] + body + seq![CommandView::Eop]);
    }

    /// Writes the postamble: the `Post`, the definitions of the fonts used
    /// (with their metrics from `fonts`), then the `PostPost` with the
    /// position of the `Post` and the padding that makes the file a
    /// multiple of four bytes long. The fonts are forgotten after.
    pub fn end(&mut self, fonts: &Vec<FontInfo>)
        requires
            forall|i: int|
                0 <= i < old(self).page_state().fonts.len() ==> (#[trigger] font_info(
                    info_views(fonts@),
                    old(self).page_state().fonts[i].0.font_name,
                )) is Some,
            total_size(old(self).commands()) + 29 + total_size(
                font_defs(old(self).page_state().fonts, info_views(fonts@)),
            ) + 13 <= usize::MAX,
        ensures
            ({
                let post_pointer = total_size(old(self).commands());
                let with_defs = old(self).commands().push(
                    CommandView::Post {
                        pointer: old(self).last_page_start() as u32,
                        num: old(self).unit_fraction().0,
                        den: old(self).unit_fraction().1,
                        mag: old(self).unit_fraction().2,
                        max_page_height: 43725786,
                        max_page_width: 30785863,
                        max_stack_depth: old(self).max_stack_depth(),
                        num_pages: old(self).num_pages(),
                    },
                ) + font_defs(old(self).page_state().fonts, info_views(fonts@));
                final(self).commands() == with_defs.push(
                    CommandView::PostPost {
                        post_pointer: post_pointer as u32,
                        format: 2,
                        tail: (7 - ((total_size(with_defs) + 6 - 1) % 4)) as u8,
                    },
                )
            }),
            final(self).page_state().fonts == Seq::<(FontView, i32)>::empty(),
    {
        let ghost t = info_views(fonts@);
        let ghost defined = self.page_state().fonts;
        proof {
            lemma_total_size_nonneg(font_defs(defined, t));
        }
        let post_pointer = self.total_byte_size();
        let ghost before = self.commands();
        let post = DVICommand::Post {
            pointer: self.last_page_start as u32,
            num: self.num,
            den: self.den,
            mag: self.mag,
            max_page_height: 43725786,
            max_page_width: 30785863,
            max_stack_depth: self.max_stack_depth,
            num_pages: self.num_pages,
        };
        let ghost pv = post@;
        self.push_command(post);
        let ghost with_post = self.commands();
        proof {
            assert(defined.take(0) =~= Seq::<(FontView, i32)>::empty());
            assert(with_post =~= with_post + font_defs(defined.take(0), t));
        }
        let mut i: usize = 0;
        while i < self.font_nums.len()
            invariant
                i <= self.font_nums@.len(),
                t == info_views(fonts@),
                defined == font_table_views(self.font_nums@),
                defined.len() == self.font_nums@.len(),
                forall|k: int|
                    0 <= k < defined.len() ==> (#[trigger] font_info(t, defined[k].0.font_name)) is Some,
                self.commands() == with_post + font_defs(defined.take(i as int), t),
            decreases self.font_nums.len() - i,
        {
            let ghost before_def = self.commands();
            assert(defined[i as int] == (self.font_nums@[i as int].0@, self.font_nums@[i as int].1));
            assert(font_info(t, defined[i as int].0.font_name) is Some);
            let found = find_font_info(fonts, &self.font_nums[i].0.font_name);
            match found {
                None => {},
                Some(j) => {
                    let def = font_definition(&self.font_nums[i].0, &fonts[j], self.font_nums[i].1);
                    self.push_command(def);
                },
            }
            proof {
                assert(defined.take(i + 1).drop_last() =~= defined.take(i as int));
                assert(defined.take(i + 1).last() == defined[i as int]);
                assert(self.commands() =~= with_post + font_defs(defined.take(i + 1), t));
            }
            i = i + 1;
        }
        assert(defined.take(i as int) =~= defined);
        self.font_nums = Vec::new();
        assert(self.page_state().fonts =~= Seq::<(FontView, i32)>::empty());
        let ghost with_defs = self.commands();
        proof {
            lemma_total_size_append(before.push(pv), font_defs(defined, t));
            assert(total_size(before.push(pv)) == total_size(before) + 29) by {
                assert(before.push(pv).drop_last() =~= before);
            }
        }
        let total_size = self.total_byte_size();
        let tail: u8 = (7 - ((total_size + 6 - 1) % 4)) as u8;
        let post_post = DVICommand::PostPost { post_pointer: post_pointer as u32, format: 2, tail };
        self.push_command(post_post);
    }

    /// The file made of the commands written.
    pub fn to_file(self) -> (f: DVIFile)
        ensures
            command_views(f.commands@) == self.commands(),
    {
        DVIFile { commands: self.commands }
    }
}

} // verus!
