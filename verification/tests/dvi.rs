use rs_tex::dvi::file::{DVICommand, DVIFile};
use rs_tex::dvi::file_reader::DVIFileReader;
use rs_tex::dvi::file_writer::DVIFileWriter;
use rs_tex::dvi::interpreter::{interpret_dvi_file, interpret_page, DVIOutputElement, DVIPageOutput, DVIState, FontWidths};

/// A font table with the font of these tests; no test here looks at the
/// widths of its characters.
fn font_table() -> Vec<FontWidths> {
    vec![FontWidths { font_name: "cmr10".to_string(), widths: vec![0; 128] }]
}

fn interpret_page_from_commands(commands: Vec<DVICommand>) -> DVIPageOutput {
    let mut state = DVIState::new();
    interpret_page(&commands, 0, &mut state, &font_table()).unwrap().0
}

#[test]
fn it_reads_unsigned_numbers() {
    let mut reader = DVIFileReader::new(&[
        0x01,
        0xff,

        0x00, 0x01,
        0x01, 0x00,
        0xff, 0xff,

        0x00, 0x00, 0x01,
        0x00, 0x01, 0x00,
        0x01, 0x00, 0x00,
        0xff, 0xff, 0xff,

        0x00, 0x00, 0x00, 0x01,
        0x00, 0x00, 0x01, 0x00,
        0x00, 0x01, 0x00, 0x00,
        0x01, 0x00, 0x00, 0x00,
        0xff, 0xff, 0xff, 0xff,
    ][..]);

    assert_eq!(reader.read_1_byte_unsigned().unwrap(), 1);
    assert_eq!(reader.read_1_byte_unsigned().unwrap(), 255);

    assert_eq!(reader.read_2_bytes_unsigned().unwrap(), 1);
    assert_eq!(reader.read_2_bytes_unsigned().unwrap(), 256);
    assert_eq!(reader.read_2_bytes_unsigned().unwrap(), 65535);

    assert_eq!(reader.read_3_bytes_unsigned().unwrap(), 1);
    assert_eq!(reader.read_3_bytes_unsigned().unwrap(), 256);
    assert_eq!(reader.read_3_bytes_unsigned().unwrap(), 65536);
    assert_eq!(reader.read_3_bytes_unsigned().unwrap(), 16777215);

    assert_eq!(reader.read_4_bytes_unsigned().unwrap(), 1);
    assert_eq!(reader.read_4_bytes_unsigned().unwrap(), 256);
    assert_eq!(reader.read_4_bytes_unsigned().unwrap(), 65536);
    assert_eq!(reader.read_4_bytes_unsigned().unwrap(), 16777216);
    assert_eq!(reader.read_4_bytes_unsigned().unwrap(), 4294967295);
}

#[test]
fn it_reads_signed_numbers() {
    let mut reader = DVIFileReader::new(&[
        0x01,
        0x7f,
        0x80,
        0xff,

        0x00, 0x01,
        0x7f, 0xff,
        0x80, 0x00,
        0xff, 0xff,

        0x00, 0x00, 0x01,
        0x7f, 0xff, 0xff,
        0x80, 0x00, 0x00,
        0xff, 0x00, 0x00,
        0xff, 0xff, 0xff,

        0x00, 0x00, 0x00, 0x01,
        0x7f, 0xff, 0xff, 0xff,
        0x80, 0x00, 0x00, 0x00,
        0xff, 0xff, 0xff, 0xff,
    ][..]);

    assert_eq!(reader.read_1_byte_signed().unwrap(), 1);
    assert_eq!(reader.read_1_byte_signed().unwrap(), 127);
    assert_eq!(reader.read_1_byte_signed().unwrap(), -128);
    assert_eq!(reader.read_1_byte_signed().unwrap(), -1);

    assert_eq!(reader.read_2_bytes_signed().unwrap(), 1);
    assert_eq!(reader.read_2_bytes_signed().unwrap(), 32767);
    assert_eq!(reader.read_2_bytes_signed().unwrap(), -32768);
    assert_eq!(reader.read_2_bytes_signed().unwrap(), -1);

    assert_eq!(reader.read_3_bytes_signed().unwrap(), 1);
    assert_eq!(reader.read_3_bytes_signed().unwrap(), 8388607);
    assert_eq!(reader.read_3_bytes_signed().unwrap(), -8388608);
    assert_eq!(reader.read_3_bytes_signed().unwrap(), -65536);
    assert_eq!(reader.read_3_bytes_signed().unwrap(), -1);

    assert_eq!(reader.read_4_bytes_signed().unwrap(), 1);
    assert_eq!(reader.read_4_bytes_signed().unwrap(), 2147483647);
    assert_eq!(reader.read_4_bytes_signed().unwrap(), -2147483648);
    assert_eq!(reader.read_4_bytes_signed().unwrap(), -1);
}

#[test]
fn it_reads_arrays() {
    let mut reader = DVIFileReader::new(&[0x01, 0x02, 0x03, 0x04][..]);

    assert_eq!(reader.read_array(4).unwrap(), vec![0x01, 0x02, 0x03, 0x04]);
}

#[test]
fn it_reads_strings() {
    let mut reader = DVIFileReader::new(
        &[
            0x48, 0x65, 0x6c, 0x6c, 0x6f, 0x2c, 0x20, 0x77, 0x6f, 0x72,
            0x6c, 0x64, 0x21,
        ][..],
    );

    assert_eq!(reader.read_string(13).unwrap(), "Hello, world!");
}

#[test]
fn it_writes_unsigned_numbers() {
    let mut writer = DVIFileWriter::new(Vec::new());

    writer.write_1_byte_unsigned(1);
    writer.write_1_byte_unsigned(255);

    writer.write_2_bytes_unsigned(1);
    writer.write_2_bytes_unsigned(256);
    writer.write_2_bytes_unsigned(65535);

    writer.write_3_bytes_unsigned(1);
    writer.write_3_bytes_unsigned(256);
    writer.write_3_bytes_unsigned(65536);
    writer.write_3_bytes_unsigned(16777215);

    writer.write_4_bytes_unsigned(1);
    writer.write_4_bytes_unsigned(256);
    writer.write_4_bytes_unsigned(65536);
    writer.write_4_bytes_unsigned(16777216);
    writer.write_4_bytes_unsigned(4294967295);
    let output = writer.into_bytes();
    assert_eq!(
        output,
        vec![
            0x01,
            0xff,

            0x00, 0x01,
            0x01, 0x00,
            0xff, 0xff,

            0x00, 0x00, 0x01,
            0x00, 0x01, 0x00,
            0x01, 0x00, 0x00,
            0xff, 0xff, 0xff,

            0x00, 0x00, 0x00, 0x01,
            0x00, 0x00, 0x01, 0x00,
            0x00, 0x01, 0x00, 0x00,
            0x01, 0x00, 0x00, 0x00,
            0xff, 0xff, 0xff, 0xff,
        ]);
}

#[test]
fn it_writes_signed_numbers() {
    let mut writer = DVIFileWriter::new(Vec::new());

    writer.write_1_byte_signed(1);
    writer.write_1_byte_signed(127);
    writer.write_1_byte_signed(-128);
    writer.write_1_byte_signed(-1);

    writer.write_2_bytes_signed(1);
    writer.write_2_bytes_signed(32767);
    writer.write_2_bytes_signed(-32768);
    writer.write_2_bytes_signed(-1);

    writer.write_3_bytes_signed(1);
    writer.write_3_bytes_signed(8388607);
    writer.write_3_bytes_signed(-8388608);
    writer.write_3_bytes_signed(-65536);
    writer.write_3_bytes_signed(-1);

    writer.write_4_bytes_signed(1);
    writer.write_4_bytes_signed(2147483647);
    writer.write_4_bytes_signed(-2147483648);
    writer.write_4_bytes_signed(-1);
    let output = writer.into_bytes();
    assert_eq!(
        output,
        vec![
            0x01,
            0x7f,
            0x80,
            0xff,

            0x00, 0x01,
            0x7f, 0xff,
            0x80, 0x00,
            0xff, 0xff,

            0x00, 0x00, 0x01,
            0x7f, 0xff, 0xff,
            0x80, 0x00, 0x00,
            0xff, 0x00, 0x00,
            0xff, 0xff, 0xff,

            0x00, 0x00, 0x00, 0x01,
            0x7f, 0xff, 0xff, 0xff,
            0x80, 0x00, 0x00, 0x00,
            0xff, 0xff, 0xff, 0xff,
        ]);
}

#[test]
fn it_writes_arrays() {
    let mut writer = DVIFileWriter::new(Vec::new());

    writer.write_array(&[0x00, 0x01, 0x02], 2);
    writer.write_array(&[0x00, 0x01, 0x02], 4);

    let output = writer.into_bytes();
    assert_eq!(output, vec![0x00, 0x01, 0x00, 0x01, 0x02, 0x00,]);
}

#[test]
fn it_writes_strings() {
    let mut writer = DVIFileWriter::new(Vec::new());

    writer.write_string("hello", 3);
    writer.write_string("hello", 6);

    let output = writer.into_bytes();
    assert_eq!(
        output,
        vec![
            'h' as u8, 'e' as u8, 'l' as u8, 'h' as u8, 'e' as u8,
            'l' as u8, 'l' as u8, 'o' as u8, 0x00,
        ]
    );
}

#[test]
fn it_writes_commands() {
    // TODO(xymostech): Move this test case into a shared file because it's
    // currently copied between here and the parser tests.
    let file = DVIFile {
        commands: vec![
            DVICommand::Pre {
                format: 2,
                num: 25400000,
                den: 473628672,
                mag: 1000,
                comment: vec!['h' as u8, 'i' as u8],
            },
            DVICommand::Bop {
                cs: [1, 0, 0, 0, 0, 0, 0, 0, 0, 0],
                pointer: -1,
            },
            DVICommand::Push,
            DVICommand::Pop,
            DVICommand::FntDef1 {
                font_num: 0,
                checksum: 305419896,
                scale: 655360,
                design_size: 655360,
                area: 0,
                length: 5,
                font_name: "cmr10".to_string(),
            },
            DVICommand::FntNumN(63),
            DVICommand::FntNumN(0),
            DVICommand::SetCharN(0),
            DVICommand::SetCharN(127),
            DVICommand::Right2(-30000),
            DVICommand::Right3(-60000),
            DVICommand::Right4(-123456789),
            DVICommand::W0,
            DVICommand::W2(-30000),
            DVICommand::W3(-60000),
            DVICommand::Down2(-30000),
            DVICommand::Down3(-60000),
            DVICommand::Down4(-123456789),
            DVICommand::Y0,
            DVICommand::Y3(-60000),
            DVICommand::Eop,
            DVICommand::Post {
                pointer: 18,
                num: 25400000,
                den: 473628672,
                mag: 1000,
                max_page_width: 65536,
                max_page_height: 65536,
                max_stack_depth: 1,
                num_pages: 1,
            },
            DVICommand::FntDef1 {
                font_num: 0,
                checksum: 305419896,
                scale: 655360,
                design_size: 655360,
                area: 0,
                length: 5,
                font_name: "cmr10".to_string(),
            },
            DVICommand::PostPost {
                post_pointer: 128,
                format: 2,
                tail: 6,
            },
        ],
    };

    let mut output: Vec<u8> = Vec::new();
    file.write_to(&mut output).unwrap();
    assert_eq!(
        output,
        vec![
            // pre
            247,
            2,
            1, 131, 146, 192,
            28, 59, 0, 0,
            0, 0, 3, 232,
            2, 'h' as u8, 'i' as u8,

            // bop
            139,
            0, 0, 0, 1,
            0, 0, 0, 0,
            0, 0, 0, 0,
            0, 0, 0, 0,
            0, 0, 0, 0,
            0, 0, 0, 0,
            0, 0, 0, 0,
            0, 0, 0, 0,
            0, 0, 0, 0,
            0, 0, 0, 0,
            0xff, 0xff, 0xff, 0xff,

            // push
            141,

            // pop
            142,

            // fnt_def1
            243,
            0,
            0x12, 0x34, 0x56, 0x78,
            0, 10, 0, 0,
            0, 10, 0, 0,
            0,
            5,
            'c' as u8, 'm' as u8, 'r' as u8, '1' as u8, '0' as u8,

            // fnt_num 63
            234,

            // fnt_num 0
            171,

            // set_char 0
            0,

            // set_char 127
            127,

            // right2
            144, 138, 208,

            // right3
            145, 255, 21, 160,

            // right4
            146, 248, 164, 50, 235,

            // w0
            147,

            // w2
            149, 138, 208,

            // w3
            150, 255, 21, 160,

            // down2
            158, 138, 208,

            // down3
            159, 255, 21, 160,

            // down4
            160, 248, 164, 50, 235,

            // y0
            161,

            // y3
            164, 255, 21, 160,

            // eop
            140,

            // post
            248,
            0, 0, 0, 18,
            1, 131, 146, 192,
            28, 59, 0, 0,
            0, 0, 3, 232,
            0, 1, 0, 0,
            0, 1, 0, 0,
            0, 1,
            0, 1,

            // fnt_def1
            243,
            0,
            0x12, 0x34, 0x56, 0x78,
            0, 10, 0, 0,
            0, 10, 0, 0,
            0,
            5,
            'c' as u8, 'm' as u8, 'r' as u8, '1' as u8, '0' as u8,

            // post_post
            249,
            0, 0, 0, 128,
            2,
            223, 223, 223, 223, 223, 223,
        ]);
}

#[test]
fn test_interpreting_whole_file() {
    let pages = interpret_dvi_file(&DVIFile {
        commands: vec![
            DVICommand::Pre {
                format: 2,
                num: 25400000,
                den: 473628672,
                mag: 1000,
                comment: vec![],
            },
            DVICommand::Bop {
                cs: [1, 0, 0, 0, 0, 0, 0, 0, 0, 0],
                pointer: -1,
            },
            DVICommand::FntDef1 {
                font_num: 0,
                checksum: 305419896,
                scale: 655360,
                design_size: 655360,
                area: 0,
                length: 5,
                font_name: "cmr10".to_string(),
            },
            DVICommand::FntNumN(0),
            DVICommand::SetCharN(63),
            DVICommand::Eop,
            DVICommand::Bop {
                cs: [1, 0, 0, 0, 0, 0, 0, 0, 0, 0],
                pointer: 18,
            },
            DVICommand::FntNumN(0),
            DVICommand::SetCharN(89),
            DVICommand::Eop,
            DVICommand::Post {
                pointer: 18,
                num: 25400000,
                den: 473628672,
                mag: 1000,
                max_page_width: 65536,
                max_page_height: 65536,
                max_stack_depth: 1,
                num_pages: 1,
            },
            DVICommand::FntDef1 {
                font_num: 0,
                checksum: 305419896,
                scale: 655360,
                design_size: 655360,
                area: 0,
                length: 5,
                font_name: "cmr10".to_string(),
            },
            DVICommand::PostPost {
                post_pointer: 128,
                format: 2,
                tail: 6,
            },
        ],
    }, &font_table()).unwrap();

    assert_eq!(pages.len(), 2);

    assert_eq!(pages[0].len(), 1);
    assert_eq!(
        pages[0].get(0, 0),
        vec![DVIOutputElement::Character {
            char: 63,
            font: "cmr10".to_string(),
        }]
    );

    assert_eq!(pages[1].len(), 1);
    assert_eq!(
        pages[1].get(0, 0),
        vec![DVIOutputElement::Character {
            char: 89,
            font: "cmr10".to_string(),
        }]
    );
}

#[test]
fn it_interprets_characters() {
    let page = interpret_page_from_commands(vec![
        DVICommand::Bop {
            cs: [1, 0, 0, 0, 0, 0, 0, 0, 0, 0],
            pointer: -1,
        },
        DVICommand::FntDef1 {
            font_num: 0,
            checksum: 305419896,
            scale: 655360,
            design_size: 655360,
            area: 0,
            length: 5,
            font_name: "cmr10".to_string(),
        },
        DVICommand::FntNumN(0),
        DVICommand::SetCharN(123),
        DVICommand::Eop,
    ]);

    assert_eq!(page.len(), 1);
    assert_eq!(
        page.get(0, 0),
        vec![DVIOutputElement::Character {
            char: 123,
            font: "cmr10".to_string(),
        }]
    );
}

#[test]
fn it_handles_movement_commands() {
    let page = interpret_page_from_commands(vec![
        DVICommand::Bop {
            cs: [1, 0, 0, 0, 0, 0, 0, 0, 0, 0],
            pointer: -1,
        },
        DVICommand::FntDef1 {
            font_num: 0,
            checksum: 305419896,
            scale: 655360,
            design_size: 655360,
            area: 0,
            length: 5,
            font_name: "cmr10".to_string(),
        },
        DVICommand::FntNumN(0),
        DVICommand::Push,
        DVICommand::Right3(1000),
        DVICommand::SetCharN(67),
        DVICommand::Pop,
        DVICommand::Push,
        DVICommand::Right4(2000),
        DVICommand::SetCharN(67),
        DVICommand::Pop,
        DVICommand::Push,
        DVICommand::W3(1500),
        DVICommand::W0,
        DVICommand::SetCharN(67),
        DVICommand::Pop,
        DVICommand::Push,
        DVICommand::Down3(1000),
        DVICommand::SetCharN(67),
        DVICommand::Pop,
        DVICommand::Push,
        DVICommand::Down4(2000),
        DVICommand::SetCharN(67),
        DVICommand::Pop,
        DVICommand::Push,
        DVICommand::Y3(1500),
        DVICommand::Y0,
        DVICommand::SetCharN(67),
        DVICommand::Pop,
        DVICommand::Eop,
    ]);

    let char_vec = vec![DVIOutputElement::Character {
        char: 67,
        font: "cmr10".to_string(),
    }];

    assert_eq!(page.get(1000, 0), char_vec);
    assert_eq!(page.get(2000, 0), char_vec);
    assert_eq!(page.get(3000, 0), char_vec);
    assert_eq!(page.get(0, 1000), char_vec);
    assert_eq!(page.get(0, 2000), char_vec);
    assert_eq!(page.get(0, 3000), char_vec);
}

#[test]
fn it_handles_multiple_characters_in_the_same_location() {
    let page = interpret_page_from_commands(vec![
        DVICommand::Bop {
            cs: [1, 0, 0, 0, 0, 0, 0, 0, 0, 0],
            pointer: -1,
        },
        DVICommand::FntDef1 {
            font_num: 0,
            checksum: 305419896,
            scale: 655360,
            design_size: 655360,
            area: 0,
            length: 5,
            font_name: "cmr10".to_string(),
        },
        DVICommand::FntNumN(0),
        DVICommand::Push,
        DVICommand::SetCharN(67),
        DVICommand::Pop,
        DVICommand::SetCharN(68),
        DVICommand::Eop,
    ]);

    assert_eq!(page.len(), 1);
    assert_eq!(
        page.get(0, 0),
        vec![
            DVIOutputElement::Character {
                char: 67,
                font: "cmr10".to_string(),
            },
            DVIOutputElement::Character {
                char: 68,
                font: "cmr10".to_string(),
            }
        ]
    );
}

#[test]
fn it_parses_dvis() {
    let file = DVIFile::new(
        &[
            // pre
            247,
            2,
            1, 131, 146, 192,
            28, 59, 0, 0,
            0, 0, 3, 232,
            2, 'h' as u8, 'i' as u8,

            // bop
            139,
            0, 0, 0, 1,
            0, 0, 0, 0,
            0, 0, 0, 0,
            0, 0, 0, 0,
            0, 0, 0, 0,
            0, 0, 0, 0,
            0, 0, 0, 0,
            0, 0, 0, 0,
            0, 0, 0, 0,
            0, 0, 0, 0,
            0xff, 0xff, 0xff, 0xff,

            // push
            141,

            // pop
            142,

            // fnt_def1
            243,
            0,
            0x12, 0x34, 0x56, 0x78,
            0, 10, 0, 0,
            0, 10, 0, 0,
            0,
            5,
            'c' as u8, 'm' as u8, 'r' as u8, '1' as u8, '0' as u8,

            // fnt_num 63
            234,

            // fnt_num 0
            171,

            // set_char 0
            0,

            // set_char 127
            127,

            // right2
            144, 138, 208,

            // right3
            145, 255, 21, 160,

            // right4
            146, 248, 164, 50, 235,

            // w0
            147,

            // w2
            149, 138, 208,

            // w3
            150, 255, 21, 160,

            // down2
            158, 138, 208,

            // down3
            159, 255, 21, 160,

            // down4
            160, 248, 164, 50, 235,

            // y0
            161,

            // y3
            164, 255, 21, 160,

            // eop
            140,

            // post
            248,
            0, 0, 0, 18,
            1, 131, 146, 192,
            28, 59, 0, 0,
            0, 0, 3, 232,
            0, 1, 0, 0,
            0, 1, 0, 0,
            0, 1,
            0, 1,

            // fnt_def1
            243,
            0,
            0x12, 0x34, 0x56, 0x78,
            0, 10, 0, 0,
            0, 10, 0, 0,
            0,
            5,
            'c' as u8, 'm' as u8, 'r' as u8, '1' as u8, '0' as u8,

            // post_post
            249,
            0, 0, 0, 128,
            2,
            223, 223, 223, 223, 223, 223,
        ][..],
    )
    .unwrap();

    assert_eq!(
        file,
        DVIFile {
            commands: vec![
                DVICommand::Pre {
                    format: 2,
                    num: 25400000,
                    den: 473628672,
                    mag: 1000,
                    comment: vec!['h' as u8, 'i' as u8],
                },
                DVICommand::Bop {
                    cs: [1, 0, 0, 0, 0, 0, 0, 0, 0, 0],
                    pointer: -1,
                },
                DVICommand::Push,
                DVICommand::Pop,
                DVICommand::FntDef1 {
                    font_num: 0,
                    checksum: 305419896,
                    scale: 655360,
                    design_size: 655360,
                    area: 0,
                    length: 5,
                    font_name: "cmr10".to_string(),
                },
                DVICommand::FntNumN(63),
                DVICommand::FntNumN(0),
                DVICommand::SetCharN(0),
                DVICommand::SetCharN(127),
                DVICommand::Right2(-30000),
                DVICommand::Right3(-60000),
                DVICommand::Right4(-123456789),
                DVICommand::W0,
                DVICommand::W2(-30000),
                DVICommand::W3(-60000),
                DVICommand::Down2(-30000),
                DVICommand::Down3(-60000),
                DVICommand::Down4(-123456789),
                DVICommand::Y0,
                DVICommand::Y3(-60000),
                DVICommand::Eop,
                DVICommand::Post {
                    pointer: 18,
                    num: 25400000,
                    den: 473628672,
                    mag: 1000,
                    max_page_width: 65536,
                    max_page_height: 65536,
                    max_stack_depth: 1,
                    num_pages: 1,
                },
                DVICommand::FntDef1 {
                    font_num: 0,
                    checksum: 305419896,
                    scale: 655360,
                    design_size: 655360,
                    area: 0,
                    length: 5,
                    font_name: "cmr10".to_string(),
                },
                DVICommand::PostPost {
                    post_pointer: 128,
                    format: 2,
                    tail: 6,
                },
            ],
        }
    )
}

/// A table with the widths, in scaled points, of the characters `C` and `E`
/// of cmr10 at ten points.
fn cmr10_widths() -> Vec<FontWidths> {
    let mut widths = vec![0; 128];
    widths[67] = 473316;
    widths[69] = 446010;
    vec![FontWidths { font_name: "cmr10".to_string(), widths }]
}

fn interpret_page_with_widths(commands: Vec<DVICommand>) -> DVIPageOutput {
    let mut state = DVIState::new();
    interpret_page(&commands, 0, &mut state, &cmr10_widths()).unwrap().0
}

fn width_of(ch: usize) -> i32 {
    cmr10_widths()[0].widths[ch]
}

fn cmr10_char(c: i32) -> DVIOutputElement {
    DVIOutputElement::Character { char: c, font: "cmr10".to_string() }
}

fn cmr10_def() -> DVICommand {
    DVICommand::FntDef1 {
        font_num: 0,
        checksum: 305419896,
        scale: 655360,
        design_size: 655360,
        area: 0,
        length: 5,
        font_name: "cmr10".to_string(),
    }
}

#[test]
fn it_adds_char_width_when_setting_chars() {
    let page = interpret_page_with_widths(vec![
        DVICommand::Bop { cs: [1, 0, 0, 0, 0, 0, 0, 0, 0, 0], pointer: -1 },
        cmr10_def(),
        DVICommand::FntNumN(0),
        DVICommand::SetCharN(67),
        DVICommand::SetCharN(67),
        DVICommand::Eop,
    ]);

    assert_eq!(page.len(), 2);
    assert_eq!(page.get(0, 0), vec![cmr10_char(67)]);
    assert_eq!(page.get(width_of(67), 0), vec![cmr10_char(67)]);
}

#[test]
fn it_handles_pushing_and_popping() {
    let page = interpret_page_with_widths(vec![
        DVICommand::Bop { cs: [1, 0, 0, 0, 0, 0, 0, 0, 0, 0], pointer: -1 },
        cmr10_def(),
        DVICommand::FntNumN(0),
        DVICommand::Push,
        DVICommand::Push,
        DVICommand::W3(1000),
        DVICommand::Y3(1000),
        DVICommand::SetCharN(67),
        DVICommand::Pop,
        DVICommand::W0,
        DVICommand::Y0,
        DVICommand::SetCharN(68),
        DVICommand::Pop,
        DVICommand::Down4(2000),
        DVICommand::Push,
        DVICommand::SetCharN(69),
        DVICommand::Push,
        DVICommand::SetCharN(70),
        DVICommand::Pop,
        DVICommand::SetCharN(71),
        DVICommand::Pop,
        DVICommand::Eop,
    ]);

    assert_eq!(page.len(), 4);
    assert_eq!(page.get(0, 0), vec![cmr10_char(68)]);
    assert_eq!(page.get(1000, 1000), vec![cmr10_char(67)]);
    assert_eq!(page.get(0, 2000), vec![cmr10_char(69)]);
    assert_eq!(page.get(width_of(69), 2000), vec![cmr10_char(70), cmr10_char(71)]);
}
