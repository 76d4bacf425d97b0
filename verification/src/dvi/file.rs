use vstd::prelude::*;

verus! {

/// One command of a DVI file, as listed in the DVI format description.
#[derive(Debug, PartialEq)]
pub enum DVICommand {
    SetCharN(u8),
    Set1(u8),
    Set2(u16),
    Set3(u32),
    Set4(i32),
    SetRule { height: i32, width: i32 },
    Put1(u8),
    Put2(u16),
    Put3(u32),
    Put4(i32),
    PutRule { height: i32, width: i32 },
    Nop,
    Bop { cs: [i32; 10], pointer: i32 },
    Eop,
    Push,
    Pop,
    Right1(i8),
    Right2(i16),
    Right3(i32),
    Right4(i32),
    W0,
    W1(i8),
    W2(i16),
    W3(i32),
    W4(i32),
    X0,
    X1(i8),
    X2(i16),
    X3(i32),
    X4(i32),
    Down1(i8),
    Down2(i16),
    Down3(i32),
    Down4(i32),
    Y0,
    Y1(i8),
    Y2(i16),
    Y3(i32),
    Y4(i32),
    Z0,
    Z1(i8),
    Z2(i16),
    Z3(i32),
    Z4(i32),
    FntNumN(u8),
    Fnt1(u8),
    Fnt2(u16),
    Fnt3(u32),
    Fnt4(i32),
    XXX1(Vec<u8>),
    XXX2(Vec<u8>),
    XXX3(Vec<u8>),
    XXX4(Vec<u8>),
    FntDef1 {
        font_num: u8,
        checksum: u32,
        scale: u32,
        design_size: u32,
        area: u8,
        length: u8,
        font_name: String,
    },
    FntDef2 {
        font_num: u16,
        checksum: u32,
        scale: u32,
        design_size: u32,
        area: u8,
        length: u8,
        font_name: String,
    },
    FntDef3 {
        font_num: u32,
        checksum: u32,
        scale: u32,
        design_size: u32,
        area: u8,
        length: u8,
        font_name: String,
    },
    FntDef4 {
        font_num: i32,
        checksum: u32,
        scale: u32,
        design_size: u32,
        area: u8,
        length: u8,
        font_name: String,
    },
    Pre { format: u8, num: u32, den: u32, mag: u32, comment: Vec<u8> },
    Post {
        pointer: u32,
        num: u32,
        den: u32,
        mag: u32,
        max_page_height: u32,
        max_page_width: u32,
        max_stack_depth: u16,
        num_pages: u16,
    },
    PostPost { post_pointer: u32, format: u8, tail: u8 },
}

/// The mathematical value of a `DVICommand`: byte arrays, strings and the
/// `Bop` counters are sequences.
pub enum CommandView {
    SetCharN(u8),
    Set1(u8),
    Set2(u16),
    Set3(u32),
    Set4(i32),
    SetRule { height: i32, width: i32 },
    Put1(u8),
    Put2(u16),
    Put3(u32),
    Put4(i32),
    PutRule { height: i32, width: i32 },
    Nop,
    Bop { cs: Seq<i32>, pointer: i32 },
    Eop,
    Push,
    Pop,
    Right1(i8),
    Right2(i16),
    Right3(i32),
    Right4(i32),
    W0,
    W1(i8),
    W2(i16),
    W3(i32),
    W4(i32),
    X0,
    X1(i8),
    X2(i16),
    X3(i32),
    X4(i32),
    Down1(i8),
    Down2(i16),
    Down3(i32),
    Down4(i32),
    Y0,
    Y1(i8),
    Y2(i16),
    Y3(i32),
    Y4(i32),
    Z0,
    Z1(i8),
    Z2(i16),
    Z3(i32),
    Z4(i32),
    FntNumN(u8),
    Fnt1(u8),
    Fnt2(u16),
    Fnt3(u32),
    Fnt4(i32),
    XXX1(Seq<u8>),
    XXX2(Seq<u8>),
    XXX3(Seq<u8>),
    XXX4(Seq<u8>),
    FntDef1 { font_num: u8, checksum: u32, scale: u32, design_size: u32, area: u8, length: u8, font_name: Seq<char> },
    FntDef2 { font_num: u16, checksum: u32, scale: u32, design_size: u32, area: u8, length: u8, font_name: Seq<char> },
    FntDef3 { font_num: u32, checksum: u32, scale: u32, design_size: u32, area: u8, length: u8, font_name: Seq<char> },
    FntDef4 { font_num: i32, checksum: u32, scale: u32, design_size: u32, area: u8, length: u8, font_name: Seq<char> },
    Pre { format: u8, num: u32, den: u32, mag: u32, comment: Seq<u8> },
    Post {
        pointer: u32,
        num: u32,
        den: u32,
        mag: u32,
        max_page_height: u32,
        max_page_width: u32,
        max_stack_depth: u16,
        num_pages: u16,
    },
    PostPost { post_pointer: u32, format: u8, tail: u8 },
}

impl View for DVICommand {
    type V = CommandView;

    open spec fn view(&self) -> CommandView {
        match self {
            DVICommand::SetCharN(n) => CommandView::SetCharN(*n),
            DVICommand::Set1(n) => CommandView::Set1(*n),
            DVICommand::Set2(n) => CommandView::Set2(*n),
            DVICommand::Set3(n) => CommandView::Set3(*n),
            DVICommand::Set4(n) => CommandView::Set4(*n),
            DVICommand::SetRule { height, width } => CommandView::SetRule { height: *height, width: *width },
            DVICommand::Put1(n) => CommandView::Put1(*n),
            DVICommand::Put2(n) => CommandView::Put2(*n),
            DVICommand::Put3(n) => CommandView::Put3(*n),
            DVICommand::Put4(n) => CommandView::Put4(*n),
            DVICommand::PutRule { height, width } => CommandView::PutRule { height: *height, width: *width },
            DVICommand::Nop => CommandView::Nop,
            DVICommand::Bop { cs, pointer } => CommandView::Bop { cs: cs@, pointer: *pointer },
            DVICommand::Eop => CommandView::Eop,
            DVICommand::Push => CommandView::Push,
            DVICommand::Pop => CommandView::Pop,
            DVICommand::Right1(n) => CommandView::Right1(*n),
            DVICommand::Right2(n) => CommandView::Right2(*n),
            DVICommand::Right3(n) => CommandView::Right3(*n),
            DVICommand::Right4(n) => CommandView::Right4(*n),
            DVICommand::W0 => CommandView::W0,
            DVICommand::W1(n) => CommandView::W1(*n),
            DVICommand::W2(n) => CommandView::W2(*n),
            DVICommand::W3(n) => CommandView::W3(*n),
            DVICommand::W4(n) => CommandView::W4(*n),
            DVICommand::X0 => CommandView::X0,
            DVICommand::X1(n) => CommandView::X1(*n),
            DVICommand::X2(n) => CommandView::X2(*n),
            DVICommand::X3(n) => CommandView::X3(*n),
            DVICommand::X4(n) => CommandView::X4(*n),
            DVICommand::Down1(n) => CommandView::Down1(*n),
            DVICommand::Down2(n) => CommandView::Down2(*n),
            DVICommand::Down3(n) => CommandView::Down3(*n),
            DVICommand::Down4(n) => CommandView::Down4(*n),
            DVICommand::Y0 => CommandView::Y0,
            DVICommand::Y1(n) => CommandView::Y1(*n),
            DVICommand::Y2(n) => CommandView::Y2(*n),
            DVICommand::Y3(n) => CommandView::Y3(*n),
            DVICommand::Y4(n) => CommandView::Y4(*n),
            DVICommand::Z0 => CommandView::Z0,
            DVICommand::Z1(n) => CommandView::Z1(*n),
            DVICommand::Z2(n) => CommandView::Z2(*n),
            DVICommand::Z3(n) => CommandView::Z3(*n),
            DVICommand::Z4(n) => CommandView::Z4(*n),
            DVICommand::FntNumN(n) => CommandView::FntNumN(*n),
            DVICommand::Fnt1(n) => CommandView::Fnt1(*n),
            DVICommand::Fnt2(n) => CommandView::Fnt2(*n),
            DVICommand::Fnt3(n) => CommandView::Fnt3(*n),
            DVICommand::Fnt4(n) => CommandView::Fnt4(*n),
            DVICommand::XXX1(v) => CommandView::XXX1(v@),
            DVICommand::XXX2(v) => CommandView::XXX2(v@),
            DVICommand::XXX3(v) => CommandView::XXX3(v@),
            DVICommand::XXX4(v) => CommandView::XXX4(v@),
            DVICommand::FntDef1 { font_num, checksum, scale, design_size, area, length, font_name } =>
                CommandView::FntDef1 {
                    font_num: *font_num,
                    checksum: *checksum,
                    scale: *scale,
                    design_size: *design_size,
                    area: *area,
                    length: *length,
                    font_name: font_name@,
                },
            DVICommand::FntDef2 { font_num, checksum, scale, design_size, area, length, font_name } =>
                CommandView::FntDef2 {
                    font_num: *font_num,
                    checksum: *checksum,
                    scale: *scale,
                    design_size: *design_size,
                    area: *area,
                    length: *length,
                    font_name: font_name@,
                },
            DVICommand::FntDef3 { font_num, checksum, scale, design_size, area, length, font_name } =>
                CommandView::FntDef3 {
                    font_num: *font_num,
                    checksum: *checksum,
                    scale: *scale,
                    design_size: *design_size,
                    area: *area,
                    length: *length,
                    font_name: font_name@,
                },
            DVICommand::FntDef4 { font_num, checksum, scale, design_size, area, length, font_name } =>
                CommandView::FntDef4 {
                    font_num: *font_num,
                    checksum: *checksum,
                    scale: *scale,
                    design_size: *design_size,
                    area: *area,
                    length: *length,
                    font_name: font_name@,
                },
            DVICommand::Pre { format, num, den, mag, comment } =>
                CommandView::Pre { format: *format, num: *num, den: *den, mag: *mag, comment: comment@ },
            DVICommand::Post {
                pointer,
                num,
                den,
                mag,
                max_page_height,
                max_page_width,
                max_stack_depth,
                num_pages,
            } => CommandView::Post {
                pointer: *pointer,
                num: *num,
                den: *den,
                mag: *mag,
                max_page_height: *max_page_height,
                max_page_width: *max_page_width,
                max_stack_depth: *max_stack_depth,
                num_pages: *num_pages,
            },
            DVICommand::PostPost { post_pointer, format, tail } =>
                CommandView::PostPost { post_pointer: *post_pointer, format: *format, tail: *tail },
        }
    }
}

/// The number of bytes that a UTF-8 string occupies.
pub open spec fn utf8_len(s: Seq<char>) -> int {
    vstd::utf8::encode_utf8(s).len() as int
}

/// The number of bytes that a command occupies in a DVI file.
pub open spec fn command_byte_size(c: CommandView) -> int {
    match c {
        CommandView::SetCharN(_) => 1,
        CommandView::Set1(_) => 2,
        CommandView::Set2(_) => 3,
        CommandView::Set3(_) => 4,
        CommandView::Set4(_) => 5,
        CommandView::SetRule { .. } => 9,
        CommandView::Put1(_) => 2,
        CommandView::Put2(_) => 3,
        CommandView::Put3(_) => 4,
        CommandView::Put4(_) => 5,
        CommandView::PutRule { .. } => 9,
        CommandView::Nop => 1,
        CommandView::Bop { .. } => 45,
        CommandView::Eop => 1,
        CommandView::Push => 1,
        CommandView::Pop => 1,
        CommandView::Right1(_) => 2,
        CommandView::Right2(_) => 3,
        CommandView::Right3(_) => 4,
        CommandView::Right4(_) => 5,
        CommandView::W0 => 1,
        CommandView::W1(_) => 2,
        CommandView::W2(_) => 3,
        CommandView::W3(_) => 4,
        CommandView::W4(_) => 5,
        CommandView::X0 => 1,
        CommandView::X1(_) => 2,
        CommandView::X2(_) => 3,
        CommandView::X3(_) => 4,
        CommandView::X4(_) => 5,
        CommandView::Down1(_) => 2,
        CommandView::Down2(_) => 3,
        CommandView::Down3(_) => 4,
        CommandView::Down4(_) => 5,
        CommandView::Y0 => 1,
        CommandView::Y1(_) => 2,
        CommandView::Y2(_) => 3,
        CommandView::Y3(_) => 4,
        CommandView::Y4(_) => 5,
        CommandView::Z0 => 1,
        CommandView::Z1(_) => 2,
        CommandView::Z2(_) => 3,
        CommandView::Z3(_) => 4,
        CommandView::Z4(_) => 5,
        CommandView::FntNumN(_) => 1,
        CommandView::Fnt1(_) => 2,
        CommandView::Fnt2(_) => 3,
        CommandView::Fnt3(_) => 4,
        CommandView::Fnt4(_) => 5,
        CommandView::XXX1(v) => (2 + v.len()) as int,
        CommandView::XXX2(v) => (3 + v.len()) as int,
        CommandView::XXX3(v) => (4 + v.len()) as int,
        CommandView::XXX4(v) => (5 + v.len()) as int,
        CommandView::FntDef1 { font_name, .. } => 16 + utf8_len(font_name),
        CommandView::FntDef2 { font_name, .. } => 17 + utf8_len(font_name),
        CommandView::FntDef3 { font_name, .. } => 18 + utf8_len(font_name),
        CommandView::FntDef4 { font_name, .. } => 19 + utf8_len(font_name),
        CommandView::Pre { comment, .. } => (15 + comment.len()) as int,
        CommandView::Post { .. } => 29,
        CommandView::PostPost { tail, .. } => 6 + tail as int,
    }
}

impl DVICommand {
    /// Returns the number of bytes that this command occupies in a DVI file.
    pub fn byte_size(&self) -> (size: usize)
        requires
            command_byte_size(self@) <= usize::MAX,
        ensures
            size == command_byte_size(self@),
    {
        match self {
            DVICommand::SetCharN(_) => 1,
            DVICommand::Set1(_) => 2,
            DVICommand::Set2(_) => 3,
            DVICommand::Set3(_) => 4,
            DVICommand::Set4(_) => 5,
            DVICommand::SetRule { .. } => 9,
            DVICommand::Put1(_) => 2,
            DVICommand::Put2(_) => 3,
            DVICommand::Put3(_) => 4,
            DVICommand::Put4(_) => 5,
            DVICommand::PutRule { .. } => 9,
            DVICommand::Nop => 1,
            DVICommand::Bop { .. } => 45,
            DVICommand::Eop => 1,
            DVICommand::Push => 1,
            DVICommand::Pop => 1,
            DVICommand::Right1(_) => 2,
            DVICommand::Right2(_) => 3,
            DVICommand::Right3(_) => 4,
            DVICommand::Right4(_) => 5,
            DVICommand::W0 => 1,
            DVICommand::W1(_) => 2,
            DVICommand::W2(_) => 3,
            DVICommand::W3(_) => 4,
            DVICommand::W4(_) => 5,
            DVICommand::X0 => 1,
            DVICommand::X1(_) => 2,
            DVICommand::X2(_) => 3,
            DVICommand::X3(_) => 4,
            DVICommand::X4(_) => 5,
            DVICommand::Down1(_) => 2,
            DVICommand::Down2(_) => 3,
            DVICommand::Down3(_) => 4,
            DVICommand::Down4(_) => 5,
            DVICommand::Y0 => 1,
            DVICommand::Y1(_) => 2,
            DVICommand::Y2(_) => 3,
            DVICommand::Y3(_) => 4,
            DVICommand::Y4(_) => 5,
            DVICommand::Z0 => 1,
            DVICommand::Z1(_) => 2,
            DVICommand::Z2(_) => 3,
            DVICommand::Z3(_) => 4,
            DVICommand::Z4(_) => 5,
            DVICommand::FntNumN(_) => 1,
            DVICommand::Fnt1(_) => 2,
            DVICommand::Fnt2(_) => 3,
            DVICommand::Fnt3(_) => 4,
            DVICommand::Fnt4(_) => 5,
            DVICommand::XXX1(v) => 2 + v.len(),
            DVICommand::XXX2(v) => 3 + v.len(),
            DVICommand::XXX3(v) => 4 + v.len(),
            DVICommand::XXX4(v) => 5 + v.len(),
            DVICommand::FntDef1 { font_name, .. } => 16 + font_name.as_str().len(),
            DVICommand::FntDef2 { font_name, .. } => 17 + font_name.as_str().len(),
            DVICommand::FntDef3 { font_name, .. } => 18 + font_name.as_str().len(),
            DVICommand::FntDef4 { font_name, .. } => 19 + font_name.as_str().len(),
            DVICommand::Pre { comment, .. } => 15 + comment.len(),
            DVICommand::Post { .. } => 29,
            DVICommand::PostPost { tail, .. } => 6 + (*tail as usize),
        }
    }
}

/// A faithful representation of a DVI file, consisting of the DVI commands.
/// Does no interpretation of the contents of the file, so this could contain
/// invalid constructs.
#[derive(Debug, PartialEq)]
pub struct DVIFile {
    pub commands: Vec<DVICommand>,
}

} // verus!
