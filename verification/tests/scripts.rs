use rs_tex::boxes::TeXBox;
use rs_tex::dimension::Dimen;
use rs_tex::list::{HorizontalListElem, VerticalListElem};
use rs_tex::math_list::{place_scripts, MathStyle, ScriptParams, ScriptShifts};

fn params() -> ScriptParams {
    ScriptParams {
        sup_drop: 3,
        sub_drop: 2,
        sup1: 10,
        sup2: 8,
        sup3: 6,
        sub1: 5,
        sub2: 7,
        x_height: 40,
        rule_thickness: 1,
    }
}

fn sp(n: i32) -> Dimen {
    Dimen::from_scaled_points(n)
}

#[test]
fn superscripts_clear_a_quarter_of_the_x_height() {
    let p = params();
    assert_eq!(
        place_scripts(MathStyle::TextStyle, true, sp(0), sp(0), Some((sp(5), sp(1))), None, &p),
        Some(ScriptShifts::Sup(sp(11)))
    );
    assert_eq!(
        place_scripts(MathStyle::DisplayStyle, false, sp(30), sp(0), Some((sp(5), sp(1))), None, &p),
        Some(ScriptShifts::Sup(sp(27)))
    );
    assert_eq!(
        place_scripts(MathStyle::TextStylePrime, true, sp(0), sp(0), Some((sp(5), sp(-9))), None, &p),
        Some(ScriptShifts::Sup(sp(6)))
    );
}

#[test]
fn subscripts_sit_below_four_fifths_of_the_x_height() {
    let p = params();
    assert_eq!(
        place_scripts(MathStyle::TextStyle, true, sp(0), sp(0), None, Some((sp(40), sp(0))), &p),
        Some(ScriptShifts::Sub(sp(8)))
    );
    assert_eq!(
        place_scripts(MathStyle::TextStyle, false, sp(0), sp(20), None, Some((sp(10), sp(0))), &p),
        Some(ScriptShifts::Sub(sp(22)))
    );
}

#[test]
fn both_scripts_keep_four_rule_thicknesses_apart() {
    let p = params();
    assert_eq!(
        place_scripts(MathStyle::TextStyle, true, sp(0), sp(0), Some((sp(5), sp(1))), Some((sp(40), sp(0))), &p),
        Some(ScriptShifts::Both { sup_shift: sp(33), sub_shift: sp(12), skip: sp(4) })
    );
    assert_eq!(
        place_scripts(MathStyle::TextStyle, true, sp(0), sp(0), Some((sp(5), sp(1))), Some((sp(2), sp(0))), &p),
        Some(ScriptShifts::Both { sup_shift: sp(11), sub_shift: sp(7), skip: sp(15) })
    );
}

#[test]
fn shifts_out_of_range_are_refused() {
    let p = params();
    assert_eq!(
        place_scripts(MathStyle::TextStyle, false, sp(1073741823), sp(0), Some((sp(5), sp(-1073741823))), None, &p),
        Some(ScriptShifts::Sup(sp(1073741820)))
    );
    assert_eq!(
        place_scripts(MathStyle::TextStyle, false, sp(0), sp(1073741823), None, Some((sp(0), sp(0))), &p),
        None
    );
}

fn script_box(width: i32, height: i32, depth: i32) -> rs_tex::boxes::HorizontalBox {
    let mut b = rs_tex::boxes::HorizontalBox::empty();
    b.width = sp(width);
    b.height = sp(height);
    b.depth = sp(depth);
    b
}

#[test]
fn scripts_are_attached_after_the_nucleus() {
    let p = params();
    let nucleus = vec![HorizontalListElem::HSkip(rs_tex::glue::Glue::from_dimen(sp(7)))];
    let out = rs_tex::math_list::attach_scripts(
        nucleus,
        true,
        sp(0),
        sp(0),
        Some(script_box(100, 5, 1)),
        None,
        MathStyle::TextStyle,
        &p,
    )
    .unwrap();
    assert_eq!(out.len(), 2);
    match &out[1] {
        HorizontalListElem::Box { tex_box: TeXBox::HorizontalBox(b), shift } => {
            assert_eq!(b.width, sp(100 + 32768));
            assert_eq!(*shift, sp(11));
        }
        other => panic!("unexpected element {:?}", other),
    }

    let out = rs_tex::math_list::attach_scripts(
        vec![],
        true,
        sp(0),
        sp(0),
        Some(script_box(100, 5, 1)),
        Some(script_box(200, 40, 3)),
        MathStyle::TextStyle,
        &p,
    )
    .unwrap();
    assert_eq!(out.len(), 1);
    match &out[0] {
        HorizontalListElem::Box { tex_box: TeXBox::VerticalBox(vb), shift } => {
            assert_eq!(*shift, sp(-12));
            assert_eq!(vb.height, sp(5 + 33 + 12));
            assert_eq!(vb.depth, sp(3));
            assert_eq!(vb.width, sp(200 + 32768));
            assert_eq!(vb.list.len(), 3);
            assert_eq!(vb.list[1], VerticalListElem::VSkip(rs_tex::glue::Glue::from_dimen(sp(4))));
        }
        other => panic!("unexpected element {:?}", other),
    }
}
