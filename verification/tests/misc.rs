use std::collections::HashMap;

use rs_tex::boxes::{
    set_glue_for_dimen, GlueSetRatio, GlueSetRatioKind, GlueSetResult, HorizontalBox, TeXBox, VerticalBox,
};
use rs_tex::font::Font;
use rs_tex::list::{HorizontalListElem, VerticalListElem};
use rs_tex::dimension::{Dimen, FilDimen, FilKind, SpringDimen};
use rs_tex::glue::Glue;
use rs_tex::line_breaking::LineBreakPoint;
use rs_tex::makro::{Macro, MacroListElem};
use rs_tex::token::Token;

#[test]
fn it_correctly_calculates_badness_for_glue() {
    assert_eq!(
        GlueSetRatio::from_scaled_ratio(GlueSetRatioKind::Finite, (1, 1))
            .get_badness(),
        100
    );
    assert_eq!(
        GlueSetRatio::from_scaled_ratio(GlueSetRatioKind::Finite, (2, 1))
            .get_badness(),
        800
    );
    assert_eq!(
        GlueSetRatio::from_scaled_ratio(GlueSetRatioKind::Finite, (3, 1))
            .get_badness(),
        2698
    );
    assert_eq!(
        GlueSetRatio::from_scaled_ratio(GlueSetRatioKind::Finite, (4, 1))
            .get_badness(),
        6396
    );
}

#[test]
fn it_supports_arithmetic() {
    assert_eq!(Dimen::from_scaled_points(1234) + Dimen::from_scaled_points(2345), Dimen::from_scaled_points(3579));
    assert_eq!(Dimen::from_scaled_points(2345) - Dimen::from_scaled_points(1234), Dimen::from_scaled_points(1111));
    assert_eq!(Dimen::from_scaled_points(1234) * 3, Dimen::from_scaled_points(3702));
    assert_eq!(Dimen::from_scaled_points(12345) / 2, Dimen::from_scaled_points(6172));
}

#[test]
fn it_correctly_generates_replacements() {
    let makro = Macro::new(
        vec![MacroListElem::Parameter(1), MacroListElem::Parameter(2)],
        vec![
            MacroListElem::Parameter(2),
            MacroListElem::Token(Token::ControlSequence("boo".to_string())),
            MacroListElem::Parameter(1),
        ],
    );

    let mut replacements = HashMap::new();
    replacements.insert(1, vec![Token::ControlSequence("c".to_string())]);
    replacements.insert(
        2,
        vec![
            Token::ControlSequence("a".to_string()),
            Token::ControlSequence("b".to_string()),
        ],
    );

    assert_eq!(
        vec![
            Token::ControlSequence("a".to_string()),
            Token::ControlSequence("b".to_string()),
            Token::ControlSequence("boo".to_string()),
            Token::ControlSequence("c".to_string())
        ],
        makro.get_replacement(&replacements)
    );
}

#[test]
fn it_orders_line_break_points_correctly() {
    assert!(LineBreakPoint::Start < LineBreakPoint::BreakAtIndex(0));
    assert!(LineBreakPoint::Start < LineBreakPoint::BreakAtIndex(100));
    assert!(
        LineBreakPoint::BreakAtIndex(0) < LineBreakPoint::BreakAtIndex(1)
    );
    assert!(
        LineBreakPoint::BreakAtIndex(100)
            < LineBreakPoint::BreakAtIndex(101)
    );
    assert!(LineBreakPoint::Start < LineBreakPoint::End);
    assert!(LineBreakPoint::BreakAtIndex(0) < LineBreakPoint::End);
    assert!(LineBreakPoint::BreakAtIndex(101) < LineBreakPoint::End);
}

fn pt(points: i32) -> Dimen {
    Dimen::from_scaled_points(points * 65536)
}

#[test]
fn it_limits_glue_shrink_to_negative_one() {
    let glue = Glue {
        space: pt(10),
        stretch: SpringDimen::Dimen(Dimen::zero()),
        shrink: SpringDimen::Dimen(pt(5)),
    };

    assert_eq!(
        set_glue_for_dimen(&pt(10), &glue),
        GlueSetResult::GlueSetRatio(GlueSetRatio::from_scaled_ratio(
            GlueSetRatioKind::Finite,
            (0, 1)
        ))
    );

    assert_eq!(
        set_glue_for_dimen(&pt(6), &glue),
        GlueSetResult::GlueSetRatio(GlueSetRatio::from_scaled_ratio(
            GlueSetRatioKind::Finite,
            (-4, 5)
        ))
    );

    assert_eq!(
        set_glue_for_dimen(&pt(5), &glue),
        GlueSetResult::GlueSetRatio(GlueSetRatio::from_scaled_ratio(
            GlueSetRatioKind::Finite,
            (-5, 5)
        ))
    );

    assert_eq!(
        set_glue_for_dimen(&pt(4), &glue),
        GlueSetResult::InsufficientShrink,
    );

    assert_eq!(
        set_glue_for_dimen(&pt(4), &glue).into_glue_set_ratio(),
        GlueSetRatio::from_scaled_ratio(GlueSetRatioKind::Finite, (-1, 1)),
    );

    let infinite_glue = Glue {
        space: pt(10),
        stretch: SpringDimen::Dimen(Dimen::zero()),
        shrink: SpringDimen::FilDimen(FilDimen(FilKind::Fil, 65536)),
    };

    assert_eq!(
        set_glue_for_dimen(&pt(4), &infinite_glue).into_glue_set_ratio(),
        GlueSetRatio::from_scaled_ratio(GlueSetRatioKind::Fil, (-6, 1)),
    );
}

#[test]
fn it_handles_glue_with_zero_shrink_and_stretch() {
    let fixed_glue = Glue {
        space: pt(10),
        stretch: SpringDimen::Dimen(Dimen::zero()),
        shrink: SpringDimen::Dimen(Dimen::zero()),
    };

    assert_eq!(
        set_glue_for_dimen(&pt(10), &fixed_glue),
        GlueSetResult::GlueSetRatio(GlueSetRatio::from_scaled_ratio(
            GlueSetRatioKind::Finite,
            (0, 1)
        ))
    );

    assert_eq!(
        set_glue_for_dimen(&pt(9), &fixed_glue),
        GlueSetResult::ZeroShrink,
    );

    assert_eq!(
        set_glue_for_dimen(&pt(9), &fixed_glue).into_glue_set_ratio(),
        GlueSetRatio::from_scaled_ratio(GlueSetRatioKind::Finite, (0, 1)),
    );

    assert_eq!(
        set_glue_for_dimen(&pt(11), &fixed_glue),
        GlueSetResult::ZeroStretch,
    );

    assert_eq!(
        set_glue_for_dimen(&pt(11), &fixed_glue).into_glue_set_ratio(),
        GlueSetRatio::from_scaled_ratio(GlueSetRatioKind::Finite, (0, 1)),
    );
}

fn cmr10() -> Font {
    Font { font_name: "cmr10".to_string(), scale: Dimen::from_scaled_points(655360) }
}

fn inner_hbox() -> TeXBox {
    TeXBox::HorizontalBox(HorizontalBox {
        width: Dimen::zero(),
        height: Dimen::zero(),
        depth: Dimen::zero(),
        list: vec![
            HorizontalListElem::Char { chr: 'a', font: cmr10() },
            HorizontalListElem::HSkip(Glue::from_dimen(Dimen::zero())),
            HorizontalListElem::Box {
                tex_box: TeXBox::HorizontalBox(HorizontalBox {
                    width: Dimen::zero(),
                    height: Dimen::zero(),
                    depth: Dimen::zero(),
                    list: vec![
                        HorizontalListElem::Char { chr: 'b', font: cmr10() },
                        HorizontalListElem::HSkip(Glue::from_dimen(Dimen::zero())),
                    ],
                    glue_set_ratio: None,
                }),
                shift: Dimen::zero(),
            },
            HorizontalListElem::Char { chr: 'c', font: cmr10() },
        ],
        glue_set_ratio: None,
    })
}

#[test]
fn it_parses_to_chars() {
    let test_box = TeXBox::VerticalBox(VerticalBox {
        width: Dimen::zero(),
        height: Dimen::zero(),
        depth: Dimen::zero(),
        list: vec![
            VerticalListElem::Box { tex_box: inner_hbox(), shift: Dimen::zero() },
            VerticalListElem::VSkip(Glue::from_dimen(Dimen::zero())),
            VerticalListElem::Box { tex_box: inner_hbox(), shift: Dimen::zero() },
        ],
        glue_set_ratio: None,
    });

    assert_eq!(
        test_box.to_chars(),
        vec![
            'a', ' ', 'b', ' ', 'c', '\n',
            'a', ' ', 'b', ' ', 'c', '\n',
        ]
    );
}

#[test]
fn boxes_give_their_sizes() {
    let mut b = TeXBox::HorizontalBox(HorizontalBox::empty());
    *b.mut_width() = Dimen::from_scaled_points(300);
    *b.mut_height() = Dimen::from_scaled_points(200);
    *b.mut_depth() = Dimen::from_scaled_points(100);
    assert_eq!(*b.width(), Dimen::from_scaled_points(300));
    assert_eq!(*b.height(), Dimen::from_scaled_points(200));
    assert_eq!(*b.depth(), Dimen::from_scaled_points(100));
    assert_eq!(b.to_chars(), vec![' ']);
    let elem = VerticalListElem::Box { tex_box: b, shift: Dimen::from_scaled_points(-400) };
    let (height, depth, width) = elem.get_size();
    assert_eq!(height, Glue::from_dimen(Dimen::from_scaled_points(200)));
    assert_eq!(depth, Dimen::from_scaled_points(100));
    assert_eq!(width, Dimen::zero());
}

fn sized_hbox() -> TeXBox {
    let mut hbox = HorizontalBox::empty();
    hbox.height = pt(2);
    hbox.depth = pt(3);
    hbox.width = pt(4);
    TeXBox::HorizontalBox(hbox)
}

#[test]
fn it_calculates_vertical_list_elem_sizes_with_shifts() {
    assert_eq!(
        VerticalListElem::Box { tex_box: sized_hbox(), shift: Dimen::zero() }.get_size(),
        (Glue::from_dimen(pt(2)), pt(3), pt(4))
    );
    assert_eq!(
        VerticalListElem::Box { tex_box: sized_hbox(), shift: pt(1) }.get_size(),
        (Glue::from_dimen(pt(2)), pt(3), pt(5))
    );
    assert_eq!(
        VerticalListElem::Box { tex_box: sized_hbox(), shift: pt(4) }.get_size(),
        (Glue::from_dimen(pt(2)), pt(3), pt(8))
    );
    assert_eq!(
        VerticalListElem::Box { tex_box: sized_hbox(), shift: pt(-1) }.get_size(),
        (Glue::from_dimen(pt(2)), pt(3), pt(3))
    );
    assert_eq!(
        VerticalListElem::Box { tex_box: sized_hbox(), shift: pt(-5) }.get_size(),
        (Glue::from_dimen(pt(2)), pt(3), pt(0))
    );
}
