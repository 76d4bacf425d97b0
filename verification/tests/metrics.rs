use rs_tex::boxes::{BoxLayout, HorizontalBox};
use rs_tex::dimension::{Dimen, FilDimen, FilKind, SpringDimen};
use rs_tex::font::Font;
use rs_tex::font_metrics::FontMetrics;
use rs_tex::glue::Glue;
use rs_tex::list::HorizontalListElem;

const DESIGN_SIZE: i32 = 10 * 65536;

fn cmr10_at(points: i32) -> FontMetrics {
    let mut widths = vec![0; 256];
    let mut heights = vec![0; 256];
    let mut depths = vec![0; 256];
    let mut successors: Vec<char> = (0u8..=255).map(|c| c as char).collect();
    widths['a' as usize] = 327681;
    heights['a' as usize] = 282168;
    widths['w' as usize] = 491521;
    heights['w' as usize] = 282168;
    widths['j' as usize] = 196609;
    heights['j' as usize] = 437406;
    depths['j' as usize] = 127431;
    widths['g' as usize] = 327681;
    heights['g' as usize] = 282168;
    depths['g' as usize] = 127431;
    successors[0x50] = 0x58 as char;
    let font_dimensions = vec![0, 218453, 109226, 72818, 282168, 655361, 72818];
    FontMetrics::from_tables(
        &Font { font_name: "cmr10".to_string(), scale: Dimen::from_scaled_points(points * 65536) },
        0x4BF1_6079,
        Dimen::from_scaled_points(DESIGN_SIZE),
        widths,
        heights,
        depths,
        successors,
        font_dimensions,
    )
}

#[test]
fn it_correctly_loads_font_metrics() {
    let metrics = cmr10_at(10);
    assert_eq!(metrics.get_width('a'), Dimen::from_scaled_points(327681));
    assert_eq!(metrics.get_checksum(), 0x4BF1_6079);
}

#[test]
fn it_loads_scaled_fonts() {
    let tenpt_metrics = cmr10_at(10);
    let fivept_metrics = cmr10_at(5);
    let twentypt_metrics = cmr10_at(20);

    assert_eq!(tenpt_metrics.get_width('a') / 2, fivept_metrics.get_width('a'));
    assert_eq!(twentypt_metrics.get_height('w') / 2, tenpt_metrics.get_height('w'));
    assert_eq!(twentypt_metrics.get_depth('j') / 4, fivept_metrics.get_depth('j'));
}

#[test]
fn it_scales_font_dimensions() {
    let twentypt_metrics = cmr10_at(20);
    assert_eq!(twentypt_metrics.get_font_dimension(5), Dimen::from_scaled_points(282168 * 2));
}

#[test]
fn it_correctly_gets_successors() {
    let cmr_metrics = cmr10_at(20);
    assert_eq!(cmr_metrics.get_successor('i'), 'i');
    assert_eq!(cmr_metrics.get_successor('a'), 'a');
    assert_eq!(cmr_metrics.get_successor(0x50 as char), 0x58 as char);
    assert_eq!(cmr_metrics.get_successor(0x78 as char), 0x78 as char);
}

fn cmr10() -> Font {
    Font { font_name: "cmr10".to_string(), scale: Dimen::from_scaled_points(10 * 65536) }
}

fn chars(s: &str) -> Vec<HorizontalListElem> {
    s.chars().map(|chr| HorizontalListElem::Char { chr, font: cmr10() }).collect()
}

#[test]
fn horizontal_boxes_take_the_size_of_their_contents() {
    let metrics = vec![cmr10_at(10)];
    let hbox = HorizontalBox::create_from_horizontal_list_with_layout(chars("ajg"), &BoxLayout::Natural, &metrics);
    assert_eq!(hbox.height, Dimen::from_scaled_points(437406));
    assert_eq!(hbox.depth, Dimen::from_scaled_points(127431));
    assert_eq!(hbox.width, Dimen::from_scaled_points(327681 + 196609 + 327681));
    assert_eq!(hbox.glue_set_ratio, None);
    assert_eq!(hbox.list.len(), 3);

    let empty = HorizontalBox::create_from_horizontal_list_with_layout(vec![], &BoxLayout::Natural, &metrics);
    assert_eq!(empty.height, Dimen::zero());
    assert_eq!(empty.width, Dimen::zero());
}

#[test]
fn horizontal_boxes_set_their_glue_to_reach_a_width() {
    let metrics = vec![cmr10_at(10)];
    let mut list = chars("a");
    list.push(HorizontalListElem::HSkip(Glue {
        space: Dimen::from_scaled_points(2 * 65536),
        stretch: SpringDimen::Dimen(Dimen::from_scaled_points(4 * 65536)),
        shrink: SpringDimen::Dimen(Dimen::zero()),
    }));
    list.extend(chars("a"));
    let natural = 2 * 327681 + 2 * 65536;
    let hbox = HorizontalBox::create_from_horizontal_list_with_layout(
        list,
        &BoxLayout::Fixed(Dimen::from_scaled_points(natural + 65536)),
        &metrics,
    );
    assert_eq!(hbox.width, Dimen::from_scaled_points(natural + 65536));
    let ratio = hbox.glue_set_ratio.expect("the glue is set");
    assert!(ratio.is_stretch());
    assert_eq!(ratio.apply_to_glue(&Glue {
        space: Dimen::from_scaled_points(2 * 65536),
        stretch: SpringDimen::Dimen(Dimen::from_scaled_points(4 * 65536)),
        shrink: SpringDimen::Dimen(Dimen::zero()),
    }), Dimen::from_scaled_points(3 * 65536));
}

#[test]
fn infinite_stretch_outweighs_finite_stretch_in_sums() {
    let finite = Glue {
        space: Dimen::from_scaled_points(65536),
        stretch: SpringDimen::Dimen(Dimen::from_scaled_points(65536)),
        shrink: SpringDimen::Dimen(Dimen::from_scaled_points(3)),
    };
    let fil = Glue {
        space: Dimen::from_scaled_points(2 * 65536),
        stretch: SpringDimen::FilDimen(FilDimen(FilKind::Fil, 65536)),
        shrink: SpringDimen::Dimen(Dimen::from_scaled_points(4)),
    };
    let sum = finite + fil;
    assert_eq!(sum.space, Dimen::from_scaled_points(3 * 65536));
    assert_eq!(sum.stretch, SpringDimen::FilDimen(FilDimen(FilKind::Fil, 65536)));
    assert_eq!(sum.shrink, SpringDimen::Dimen(Dimen::from_scaled_points(7)));
    let two_fils = fil + fil;
    assert_eq!(two_fils.stretch, SpringDimen::FilDimen(FilDimen(FilKind::Fil, 2 * 65536)));
    let fill = SpringDimen::FilDimen(FilDimen(FilKind::Fill, 5));
    assert_eq!(fil.stretch + fill, fill);
}
