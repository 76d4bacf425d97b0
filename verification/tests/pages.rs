use rs_tex::box_to_dvi::{DVIFileWriter, FontInfo};
use rs_tex::boxes::{GlueSetRatio, GlueSetRatioKind, HorizontalBox, TeXBox, VerticalBox};
use rs_tex::dimension::{Dimen, FilDimen, FilKind, SpringDimen};
use rs_tex::dvi::file::DVICommand;
use rs_tex::font::Font;
use rs_tex::glue::Glue;
use rs_tex::list::{HorizontalListElem, VerticalListElem};

const CMR10_CHECKSUM: u32 = 0x4BF1_6079;
const CMR7_CHECKSUM: u32 = 0xD62B_C05B;
const CMTT10_CHECKSUM: u32 = 0xDF64_6ABD;

fn pt(n: i32) -> Dimen {
    Dimen::from_scaled_points(n * 65536)
}

fn font(name: &str, size: i32) -> Font {
    Font { font_name: name.to_string(), scale: pt(size) }
}

fn cmr10() -> Font {
    font("cmr10", 10)
}

fn metrics() -> Vec<FontInfo> {
    vec![
        FontInfo { font_name: "cmr10".to_string(), checksum: CMR10_CHECKSUM, design_size: 10 * 65536 },
        FontInfo { font_name: "cmr7".to_string(), checksum: CMR7_CHECKSUM, design_size: 7 * 65536 },
        FontInfo { font_name: "cmtt10".to_string(), checksum: CMTT10_CHECKSUM, design_size: 10 * 65536 },
    ]
}

fn ratio(kind: GlueSetRatioKind, num: i32, den: i32) -> Option<GlueSetRatio> {
    Some(GlueSetRatio::from_scaled_ratio(kind, (num, den)))
}

fn fil(n: i32) -> SpringDimen {
    SpringDimen::FilDimen(FilDimen(FilKind::Fil, n * 65536))
}

fn glue(space: i32, stretch: SpringDimen, shrink: SpringDimen) -> Glue {
    Glue { space: pt(space), stretch, shrink }
}

fn no_spring() -> SpringDimen {
    SpringDimen::Dimen(Dimen::zero())
}

#[test]
fn it_generates_commands_for_chars() {
    let table = metrics();
    let mut writer = DVIFileWriter::new();
    writer.add_horizontal_list_elem(&HorizontalListElem::Char { chr: 'a', font: cmr10() }, &None, &table);
    writer.add_horizontal_list_elem(
        &HorizontalListElem::Char { chr: 200 as char, font: cmr10() },
        &None,
        &table,
    );

    // The commands start with a fnt_def4 and fnt4 command, then come the
    // chars.
    assert_eq!(writer.command_list().len(), 4);
    assert_eq!(&writer.command_list()[2..], &[DVICommand::SetCharN(97), DVICommand::Set1(200)]);
}

#[test]
fn it_generates_fnt_commands() {
    let table = metrics();
    let cmr7 = font("cmr7", 7);
    let big_cmr10 = font("cmr10", 15);
    let small_cmr10 = font("cmr10", 6);
    let cmtt10 = font("cmtt10", 10);

    let mut writer = DVIFileWriter::new();
    for f in [
        cmr10(),
        cmr10(),
        cmr7.clone(),
        cmr7.clone(),
        cmr10(),
        big_cmr10.clone(),
        small_cmr10.clone(),
        big_cmr10,
        small_cmr10,
        cmtt10.clone(),
        cmr7.clone(),
        cmr10(),
    ] {
        writer.add_horizontal_list_elem(&HorizontalListElem::Char { chr: 'a', font: f }, &None, &table);
    }

    let def = |font_num: i32, checksum: u32, scale: i32, design_size: u32, name: &str| DVICommand::FntDef4 {
        font_num,
        checksum,
        scale: (scale * 65536) as u32,
        design_size,
        area: 0,
        length: name.len() as u8,
        font_name: name.to_string(),
    };

    assert_eq!(
        writer.command_list(),
        &vec![
            def(0, CMR10_CHECKSUM, 10, 10 * 65536, "cmr10"),
            DVICommand::Fnt4(0),
            DVICommand::SetCharN(97),
            DVICommand::SetCharN(97),
            def(1, CMR7_CHECKSUM, 7, 7 * 65536, "cmr7"),
            DVICommand::Fnt4(1),
            DVICommand::SetCharN(97),
            DVICommand::SetCharN(97),
            DVICommand::Fnt4(0),
            DVICommand::SetCharN(97),
            def(2, CMR10_CHECKSUM, 15, 10 * 65536, "cmr10"),
            DVICommand::Fnt4(2),
            DVICommand::SetCharN(97),
            def(3, CMR10_CHECKSUM, 6, 10 * 65536, "cmr10"),
            DVICommand::Fnt4(3),
            DVICommand::SetCharN(97),
            DVICommand::Fnt4(2),
            DVICommand::SetCharN(97),
            DVICommand::Fnt4(3),
            DVICommand::SetCharN(97),
            def(4, CMTT10_CHECKSUM, 10, 10 * 65536, "cmtt10"),
            DVICommand::Fnt4(4),
            DVICommand::SetCharN(97),
            DVICommand::Fnt4(1),
            DVICommand::SetCharN(97),
            DVICommand::Fnt4(0),
            DVICommand::SetCharN(97),
        ]
    );
}

#[test]
fn it_adds_hskips() {
    let table = metrics();
    let mut writer = DVIFileWriter::new();
    let fixed = Glue::from_dimen(pt(2));
    let stretchy = glue(2, SpringDimen::Dimen(pt(3)), no_spring());
    let shrinky = glue(4, no_spring(), SpringDimen::Dimen(pt(2)));
    let fil_stretchy = glue(2, fil(3), no_spring());
    let fil_shrinky = glue(6, no_spring(), fil(2));
    let cases: Vec<(Glue, Option<GlueSetRatio>)> = vec![
        // No stretch/shrink
        (fixed, None),
        (fixed, ratio(GlueSetRatioKind::Finite, 2, 1)),
        // Finite stretch
        (stretchy, None),
        (stretchy, ratio(GlueSetRatioKind::Finite, 3, 2)),
        (stretchy, ratio(GlueSetRatioKind::Fil, 2, 1)),
        (stretchy, ratio(GlueSetRatioKind::Finite, -3, 2)),
        // Finite shrink
        (shrinky, None),
        (shrinky, ratio(GlueSetRatioKind::Finite, -1, 2)),
        (shrinky, ratio(GlueSetRatioKind::Fil, -3, 2)),
        (shrinky, ratio(GlueSetRatioKind::Finite, 3, 2)),
        // Infinite stretch
        (fil_stretchy, None),
        (fil_stretchy, ratio(GlueSetRatioKind::Fil, 3, 2)),
        (fil_stretchy, ratio(GlueSetRatioKind::Finite, 3, 2)),
        (fil_stretchy, ratio(GlueSetRatioKind::Fill, 3, 2)),
        (fil_stretchy, ratio(GlueSetRatioKind::Fil, -1, 2)),
        // Infinite shrink
        (fil_shrinky, None),
        (fil_shrinky, ratio(GlueSetRatioKind::Fil, -3, 2)),
        (fil_shrinky, ratio(GlueSetRatioKind::Finite, -1, 2)),
        (fil_shrinky, ratio(GlueSetRatioKind::Fill, -3, 2)),
        (fil_shrinky, ratio(GlueSetRatioKind::Fil, 3, 2)),
    ];
    for (g, r) in cases.iter() {
        writer.add_horizontal_list_elem(&HorizontalListElem::HSkip(*g), r, &table);
    }
    assert_eq!(
        writer.command_list(),
        &vec![
            DVICommand::Right4(2 * 65536),
            DVICommand::Right4(2 * 65536),
            DVICommand::Right4(2 * 65536),
            DVICommand::Right4(2 * 65536 + 3 * 3 * 65536 / 2),
            DVICommand::Right4(2 * 65536),
            DVICommand::Right4(2 * 65536),
            DVICommand::Right4(4 * 65536),
            DVICommand::Right4(4 * 65536 - 2 * 65536 / 2),
            DVICommand::Right4(4 * 65536),
            DVICommand::Right4(4 * 65536),
            DVICommand::Right4(2 * 65536),
            DVICommand::Right4(2 * 65536 + 3 * 3 * 65536 / 2),
            DVICommand::Right4(2 * 65536),
            DVICommand::Right4(2 * 65536),
            DVICommand::Right4(2 * 65536),
            DVICommand::Right4(6 * 65536),
            DVICommand::Right4(6 * 65536 - 3 * 65536),
            DVICommand::Right4(6 * 65536),
            DVICommand::Right4(6 * 65536),
            DVICommand::Right4(6 * 65536),
        ]
    );
}

fn empty_page_writer(pages: i32) -> DVIFileWriter {
    let mut writer = DVIFileWriter::new();
    writer.start((25400000, 473628672), 1000, vec![]);
    for n in 1..=pages {
        writer.add_page(&[], &None, [n, 0, 0, 0, 0, 0, 0, 0, 0, 0], &Vec::new());
    }
    writer.end(&Vec::new());
    writer
}

fn bop(n: i32, pointer: i32) -> DVICommand {
    DVICommand::Bop { cs: [n, 0, 0, 0, 0, 0, 0, 0, 0, 0], pointer }
}

fn pre() -> DVICommand {
    DVICommand::Pre { format: 2, num: 25400000, den: 473628672, mag: 1000, comment: vec![] }
}

fn post(pointer: u32, num_pages: u16) -> DVICommand {
    DVICommand::Post {
        pointer,
        num: 25400000,
        den: 473628672,
        mag: 1000,
        max_page_height: 43725786,
        max_page_width: 30785863,
        max_stack_depth: 0,
        num_pages,
    }
}

#[test]
fn it_calculates_num_pages_correctly() {
    let writer = empty_page_writer(3);
    assert_eq!(
        writer.command_list(),
        &vec![
            pre(),
            bop(1, -1),
            DVICommand::Eop,
            bop(2, 15),
            DVICommand::Eop,
            bop(3, 61),
            DVICommand::Eop,
            post(107, 3),
            DVICommand::PostPost { post_pointer: 153, format: 2, tail: 4 },
        ]
    );
}

#[test]
fn it_converts_to_a_file() {
    let writer = empty_page_writer(1);
    let file = writer.to_file();
    assert_eq!(
        file.commands,
        vec![
            pre(),
            bop(1, -1),
            DVICommand::Eop,
            post(15, 1),
            DVICommand::PostPost { post_pointer: 61, format: 2, tail: 4 },
        ]
    );
}

fn hbox_of(list: Vec<HorizontalListElem>, width: i32, height: i32, depth: i32) -> TeXBox {
    TeXBox::HorizontalBox(HorizontalBox {
        height: pt(height),
        depth: pt(depth),
        width: pt(width),
        list,
        glue_set_ratio: None,
    })
}

#[test]
fn pages_hold_boxes_and_end_defines_their_fonts() {
    let table = metrics();
    let line = || hbox_of(vec![HorizontalListElem::Char { chr: 'a', font: cmr10() }], 5, 4, 0);
    let page = vec![
        VerticalListElem::Box { tex_box: line(), shift: Dimen::zero() },
        VerticalListElem::VSkip(Glue::from_dimen(pt(3))),
        VerticalListElem::Box { tex_box: line(), shift: pt(2) },
    ];
    let mut writer = DVIFileWriter::new();
    writer.start((25400000, 473628672), 1000, vec![]);
    writer.add_page(&page, &None, [1, 0, 0, 0, 0, 0, 0, 0, 0, 0], &table);
    writer.end(&table);
    let def = || DVICommand::FntDef4 {
        font_num: 0,
        checksum: CMR10_CHECKSUM,
        scale: 10 * 65536,
        design_size: 10 * 65536,
        area: 0,
        length: 5,
        font_name: "cmr10".to_string(),
    };
    let commands = writer.command_list();
    assert_eq!(
        &commands[..18],
        &[
            pre(),
            bop(1, -1),
            DVICommand::Down4(4 * 65536),
            DVICommand::Push,
            def(),
            DVICommand::Fnt4(0),
            DVICommand::SetCharN(97),
            DVICommand::Pop,
            DVICommand::Down4(0),
            DVICommand::Down4(3 * 65536),
            DVICommand::Down4(4 * 65536),
            DVICommand::Push,
            DVICommand::Right4(2 * 65536),
            DVICommand::Push,
            DVICommand::SetCharN(97),
            DVICommand::Pop,
            DVICommand::Pop,
            DVICommand::Down4(0),
        ]
    );
    assert_eq!(commands[18], DVICommand::Eop);
    match &commands[19] {
        DVICommand::Post { max_stack_depth, num_pages, .. } => {
            assert_eq!(*max_stack_depth, 1);
            assert_eq!(*num_pages, 1);
        }
        other => panic!("unexpected command {:?}", other),
    }
    assert_eq!(commands[20], def());
    assert!(matches!(commands[21], DVICommand::PostPost { .. }));
}

#[test]
fn vertical_boxes_move_up_by_their_height_first() {
    let table = metrics();
    let inner = VerticalBox {
        height: pt(7),
        depth: pt(1),
        width: pt(3),
        list: vec![VerticalListElem::VSkip(glue(2, SpringDimen::Dimen(pt(2)), no_spring()))],
        glue_set_ratio: ratio(GlueSetRatioKind::Finite, 1, 2),
    };
    let mut writer = DVIFileWriter::new();
    writer.add_box(&TeXBox::VerticalBox(inner), &table);
    assert_eq!(
        writer.command_list(),
        &vec![
            DVICommand::Push,
            DVICommand::Down4(-7 * 65536),
            DVICommand::Down4(3 * 65536),
            DVICommand::Pop,
        ]
    );
}
