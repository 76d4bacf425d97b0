/// Methods for writing DVI files
use vstd::prelude::*;

use super::file::{command_byte_size, utf8_len, CommandView, DVICommand, DVIFile};

verus! {

/// The big-endian bytes of a 16-bit value.
pub open spec fn be_u16(v: u16) -> Seq<u8> {
    seq![(v >> 8u16) as u8, (v & 0xffu16) as u8]
}

/// The three low-order bytes of a 32-bit value, in big-endian order.
pub open spec fn be_u24(v: u32) -> Seq<u8> {
    seq![((v >> 16u32) & 0xffu32) as u8, ((v >> 8u32) & 0xffu32) as u8, (v & 0xffu32) as u8]
}

/// The big-endian bytes of a 32-bit value.
pub open spec fn be_u32(v: u32) -> Seq<u8> {
    seq![
        (v >> 24u32) as u8,
        ((v >> 16u32) & 0xffu32) as u8,
        ((v >> 8u32) & 0xffu32) as u8,
        (v & 0xffu32) as u8,
    ]
}

pub open spec fn be_i8(v: i8) -> Seq<u8> {
    seq![v as u8]
}

pub open spec fn be_i16(v: i16) -> Seq<u8> {
    be_u16(v as u16)
}

pub open spec fn be_i24(v: i32) -> Seq<u8> {
    be_u24(v as u32)
}

pub open spec fn be_i32(v: i32) -> Seq<u8> {
    be_u32(v as u32)
}

/// `value` cut or padded with zero bytes to exactly `size` bytes.
pub open spec fn fit_to_size(value: Seq<u8>, size: nat) -> Seq<u8> {
    if value.len() < size {
        value + Seq::new((size - value.len()) as nat, |i: int| 0u8)
    } else {
        value.subrange(0, size as int)
    }
}

/// The ten `Bop` counters, each as four big-endian bytes.
pub open spec fn be_counters(cs: Seq<i32>, n: nat) -> Seq<u8>
    decreases n,
{
    if n == 0 {
        Seq::empty()
    } else {
        be_counters(cs, (n - 1) as nat) + be_i32(cs[n - 1])
    }
}

/// The bytes that the writer emits for a command, or `None` for the
/// commands that it does not write.
pub open spec fn encode_command(c: CommandView) -> Option<Seq<u8>> {
    match c {
        CommandView::SetCharN(n) => Some(seq![n]),
        CommandView::Bop { cs, pointer } => Some(seq![139u8] + be_counters(cs, 10) + be_i32(pointer)),
        CommandView::Eop => Some(seq![140u8]),
        CommandView::Push => Some(seq![141u8]),
        CommandView::Pop => Some(seq![142u8]),
        CommandView::Right2(b) => Some(seq![144u8] + be_i16(b)),
        CommandView::Right3(b) => Some(seq![145u8] + be_i24(b)),
        CommandView::Right4(b) => Some(seq![146u8] + be_i32(b)),
        CommandView::W0 => Some(seq![147u8]),
        CommandView::W2(b) => Some(seq![149u8] + be_i16(b)),
        CommandView::W3(b) => Some(seq![150u8] + be_i24(b)),
        CommandView::Down2(a) => Some(seq![158u8] + be_i16(a)),
        CommandView::Down3(a) => Some(seq![159u8] + be_i24(a)),
        CommandView::Down4(a) => Some(seq![160u8] + be_i32(a)),
        CommandView::Y0 => Some(seq![161u8]),
        CommandView::Y3(a) => Some(seq![164u8] + be_i24(a)),
        CommandView::FntNumN(n) => if n + 171 <= 255 {
            Some(seq![(n + 171) as u8])
        } else {
            None
        },
        CommandView::Fnt4(n) => Some(seq![238u8] + be_i32(n)),
        CommandView::FntDef1 { font_num, checksum, scale, design_size, area, length, font_name } =>
            if area + length <= 255 {
                Some(seq![243u8, font_num] + be_u32(checksum) + be_u32(scale) + be_u32(design_size)
                    + seq![area, length]
                    + fit_to_size(vstd::utf8::encode_utf8(font_name), (area + length) as nat))
            } else {
                None
            },
        CommandView::FntDef4 { font_num, checksum, scale, design_size, area, length, font_name } =>
            if area + length <= 255 {
                Some(seq![246u8] + be_i32(font_num) + be_u32(checksum) + be_u32(scale) + be_u32(
                    design_size,
                ) + seq![area, length] + fit_to_size(
                    vstd::utf8::encode_utf8(font_name),
                    (area + length) as nat,
                ))
            } else {
                None
            },
        CommandView::Pre { format, num, den, mag, comment } => Some(
            seq![247u8, format] + be_u32(num) + be_u32(den) + be_u32(mag) + seq![comment.len() as u8]
                + comment,
        ),
        CommandView::Post {
            pointer,
            num,
            den,
            mag,
            max_page_height,
            max_page_width,
            max_stack_depth,
            num_pages,
        } => Some(
            seq![248u8] + be_u32(pointer) + be_u32(num) + be_u32(den) + be_u32(mag) + be_u32(
                max_page_height,
            ) + be_u32(max_page_width) + be_u16(max_stack_depth) + be_u16(num_pages),
        ),
        CommandView::PostPost { post_pointer, format, tail } => Some(
            seq![249u8] + be_u32(post_pointer) + seq![format] + Seq::new(tail as nat, |i: int| 223u8),
        ),
        _ => None,
    }
}

/// The counters of a `Bop` take four bytes each.
proof fn lemma_be_counters_len(cs: Seq<i32>, n: nat)
    ensures
        be_counters(cs, n).len() == 4 * n,
    decreases n,
{
    if n > 0 {
        lemma_be_counters_len(cs, (n - 1) as nat);
    }
}

/// The size of a command is the number of bytes the writer writes for it,
/// where the name of a font definition takes as many bytes as its area and
/// length say.
pub proof fn lemma_size_is_encoding_length(c: CommandView)
    requires
        encode_command(c) is Some,
        c matches CommandView::FntDef1 { area, length, font_name, .. } ==> utf8_len(font_name)
            == area + length,
        c matches CommandView::FntDef4 { area, length, font_name, .. } ==> utf8_len(font_name)
            == area + length,
    ensures
        encode_command(c)->0.len() == command_byte_size(c),
{
    if let CommandView::Bop { cs, pointer } = c {
        lemma_be_counters_len(cs, 10);
    }
}

/// Whether the writer can write every command of the sequence.
pub open spec fn all_encodable(cs: Seq<CommandView>) -> bool {
    forall|i: int| 0 <= i < cs.len() ==> (#[trigger] encode_command(cs[i])).is_some()
}

/// The bytes of a sequence of commands, one after the other.
pub open spec fn encode_commands(cs: Seq<CommandView>) -> Seq<u8>
    decreases cs.len(),
{
    if cs.len() == 0 {
        Seq::empty()
    } else {
        encode_commands(cs.drop_last()) + encode_command(cs.last()).unwrap()
    }
}

/// Why a file could not be written: a command that the writer does not
/// handle (an unimplemented command, or a font name length over 255 bytes).
#[derive(Debug, PartialEq, Eq, Clone, Copy)]
pub enum DVIWriteError {
    UnimplementedCommand,
}

/// Writes the values that a DVI file holds into a byte buffer, in the
/// encodings that the DVI format prescribes.
pub struct DVIFileWriter {
    writer: Vec<u8>,
}

impl View for DVIFileWriter {
    type V = Seq<u8>;

    closed spec fn view(&self) -> Seq<u8> {
        self.writer@
    }
}

impl DVIFileWriter {
    pub fn new(writer: Vec<u8>) -> (w: Self)
        ensures
            w@ == writer@,
    {
        DVIFileWriter { writer }
    }

    /// The bytes written so far, including those of the buffer handed to
    /// `new`.
    pub fn into_bytes(self) -> (bytes: Vec<u8>)
        ensures
            bytes@ == self@,
    {
        self.writer
    }

    pub fn write_1_byte_unsigned(&mut self, value: u8)
        ensures
            final(self)@ == old(self)@ + seq![value],
    {
        self.writer.push(value);
    }

    pub fn write_2_bytes_unsigned(&mut self, value: u16)
        ensures
            final(self)@ == old(self)@ + be_u16(value),
    {
        self.writer.push((value >> 8u16) as u8);
        self.writer.push((value & 0xffu16) as u8);
    }

    pub fn write_3_bytes_unsigned(&mut self, value: u32)
        ensures
            final(self)@ == old(self)@ + be_u24(value),
    {
        self.writer.push(((value >> 16u32) & 0xffu32) as u8);
        self.writer.push(((value >> 8u32) & 0xffu32) as u8);
        self.writer.push((value & 0xffu32) as u8);
    }

    pub fn write_4_bytes_unsigned(&mut self, value: u32)
        ensures
            final(self)@ == old(self)@ + be_u32(value),
    {
        self.writer.push((value >> 24u32) as u8);
        self.writer.push(((value >> 16u32) & 0xffu32) as u8);
        self.writer.push(((value >> 8u32) & 0xffu32) as u8);
        self.writer.push((value & 0xffu32) as u8);
    }

    pub fn write_1_byte_signed(&mut self, value: i8)
        ensures
            final(self)@ == old(self)@ + be_i8(value),
    {
        self.writer.push(value as u8);
    }

    pub fn write_2_bytes_signed(&mut self, value: i16)
        ensures
            final(self)@ == old(self)@ + be_i16(value),
    {
        self.write_2_bytes_unsigned(value as u16);
    }

    pub fn write_3_bytes_signed(&mut self, value: i32)
        ensures
            final(self)@ == old(self)@ + be_i24(value),
    {
        self.write_3_bytes_unsigned(value as u32);
    }

    pub fn write_4_bytes_signed(&mut self, value: i32)
        ensures
            final(self)@ == old(self)@ + be_i32(value),
    {
        self.write_4_bytes_unsigned(value as u32);
    }

    /// Writes exactly `size` bytes: `value` cut to `size` bytes, or padded
    /// with zero bytes up to it.
    pub fn write_array(&mut self, value: &[u8], size: usize)
        ensures
            final(self)@ == old(self)@ + fit_to_size(value@, size as nat),
    {
        if value.len() < size {
            let mut i: usize = 0;
            while i < value.len()
                invariant
                    i <= value.len(),
                    self@ == old(self)@ + value@.subrange(0, i as int),
                decreases value.len() - i,
            {
                self.writer.push(value[i]);
                i = i + 1;
                assert(self@ == old(self)@ + value@.subrange(0, i as int));
            }
            let mut j: usize = 0;
            let pad: usize = size - value.len();
            while j < pad
                invariant
                    j <= pad,
                    pad == size - value.len(),
                    value.len() < size,
                    self@ == old(self)@ + value@ + Seq::new(j as nat, |k: int| 0u8),
                decreases pad - j,
            {
                self.writer.push(0u8);
                j = j + 1;
                assert(self@ == old(self)@ + value@ + Seq::new(j as nat, |k: int| 0u8));
            }
            assert(value@.subrange(0, value.len() as int) == value@);
        } else {
            let mut i: usize = 0;
            while i < size
                invariant
                    i <= size,
                    size <= value.len(),
                    self@ == old(self)@ + value@.subrange(0, i as int),
                decreases size - i,
            {
                self.writer.push(value[i]);
                i = i + 1;
                assert(self@ == old(self)@ + value@.subrange(0, i as int));
            }
        }
    }

    /// Writes the UTF-8 bytes of `value`, cut or padded to `size` bytes.
    pub fn write_string(&mut self, value: &str, size: usize)
        ensures
            final(self)@ == old(self)@ + fit_to_size(vstd::utf8::encode_utf8(value@), size as nat),
    {
        self.write_array(value.as_bytes(), size)
    }

    /// Writes one command, which must be one that this writer handles.
    pub fn write(&mut self, command: &DVICommand) -> (r: Result<(), DVIWriteError>)
        requires
            encode_command(command@) is Some,
        ensures
            r is Ok,
            final(self)@ == old(self)@ + encode_command(command@)->0,
    {
        command.write_to(self)
    }
}

impl DVICommand {
    /// Writes this command with `writer`; see `DVIFileWriter::write`.
    #[verifier::rlimit(60)]
    #[verifier::spinoff_prover]
    pub fn write_to(&self, writer: &mut DVIFileWriter) -> (r: Result<(), DVIWriteError>)
        requires
            encode_command(self@) is Some,
        ensures
            r is Ok,
            final(writer)@ == old(writer)@ + encode_command(self@)->0,
    {
        let ghost start = writer@;
        match self {
            DVICommand::SetCharN(n) => {
                writer.write_1_byte_unsigned(*n);
                Ok(())
            },
            DVICommand::Bop { cs, pointer } => {
                writer.write_1_byte_unsigned(139);
                let mut i: usize = 0;
                while i < 10
                    invariant
                        i <= 10,
                        writer@ == start + seq![139u8] + be_counters(cs@, i as nat),
                    decreases 10 - i,
                {
                    writer.write_4_bytes_signed(cs[i]);
                    i = i + 1;
                }
                writer.write_4_bytes_signed(*pointer);
                Ok(())
            },
            DVICommand::Eop => {
                writer.write_1_byte_unsigned(140);
                Ok(())
            },
            DVICommand::Push => {
                writer.write_1_byte_unsigned(141);
                Ok(())
            },
            DVICommand::Pop => {
                writer.write_1_byte_unsigned(142);
                Ok(())
            },
            DVICommand::Right2(b) => {
                writer.write_1_byte_unsigned(144);
                writer.write_2_bytes_signed(*b);
                Ok(())
            },
            DVICommand::Right3(b) => {
                writer.write_1_byte_unsigned(145);
                writer.write_3_bytes_signed(*b);
                Ok(())
            },
            DVICommand::Right4(b) => {
                writer.write_1_byte_unsigned(146);
                writer.write_4_bytes_signed(*b);
                Ok(())
            },
            DVICommand::W0 => {
                writer.write_1_byte_unsigned(147);
                Ok(())
            },
            DVICommand::W2(b) => {
                writer.write_1_byte_unsigned(149);
                writer.write_2_bytes_signed(*b);
                Ok(())
            },
            DVICommand::W3(b) => {
                writer.write_1_byte_unsigned(150);
                writer.write_3_bytes_signed(*b);
                Ok(())
            },
            DVICommand::Down2(a) => {
                writer.write_1_byte_unsigned(158);
                writer.write_2_bytes_signed(*a);
                Ok(())
            },
            DVICommand::Down3(a) => {
                writer.write_1_byte_unsigned(159);
                writer.write_3_bytes_signed(*a);
                Ok(())
            },
            DVICommand::Down4(a) => {
                writer.write_1_byte_unsigned(160);
                writer.write_4_bytes_signed(*a);
                Ok(())
            },
            DVICommand::Y0 => {
                writer.write_1_byte_unsigned(161);
                Ok(())
            },
            DVICommand::Y3(a) => {
                writer.write_1_byte_unsigned(164);
                writer.write_3_bytes_signed(*a);
                Ok(())
            },
            DVICommand::FntNumN(n) => {
                if *n > 84 {
                    return Err(DVIWriteError::UnimplementedCommand);
                }
                writer.write_1_byte_unsigned(*n + 171);
                Ok(())
            },
            DVICommand::Fnt4(n) => {
                writer.write_1_byte_unsigned(238);
                writer.write_4_bytes_signed(*n);
                Ok(())
            },
            DVICommand::FntDef1 { font_num, checksum, scale, design_size, area, length, font_name } => {
                if *area as u16 + *length as u16 > 255 {
                    return Err(DVIWriteError::UnimplementedCommand);
                }
                writer.write_1_byte_unsigned(243);
                writer.write_1_byte_unsigned(*font_num);
                writer.write_4_bytes_unsigned(*checksum);
                writer.write_4_bytes_unsigned(*scale);
                writer.write_4_bytes_unsigned(*design_size);
                writer.write_1_byte_unsigned(*area);
                writer.write_1_byte_unsigned(*length);
                writer.write_string(font_name.as_str(), (*area + *length) as usize);
                Ok(())
            },
            DVICommand::FntDef4 { font_num, checksum, scale, design_size, area, length, font_name } => {
                if *area as u16 + *length as u16 > 255 {
                    return Err(DVIWriteError::UnimplementedCommand);
                }
                writer.write_1_byte_unsigned(246);
                writer.write_4_bytes_signed(*font_num);
                writer.write_4_bytes_unsigned(*checksum);
                writer.write_4_bytes_unsigned(*scale);
                writer.write_4_bytes_unsigned(*design_size);
                writer.write_1_byte_unsigned(*area);
                writer.write_1_byte_unsigned(*length);
                writer.write_string(font_name.as_str(), (*area + *length) as usize);
                Ok(())
            },
            DVICommand::Pre { format, num, den, mag, comment } => {
                writer.write_1_byte_unsigned(247);
                writer.write_1_byte_unsigned(*format);
                writer.write_4_bytes_unsigned(*num);
                writer.write_4_bytes_unsigned(*den);
                writer.write_4_bytes_unsigned(*mag);
                writer.write_1_byte_unsigned(comment.len() as u8);
                writer.write_array(comment.as_slice(), comment.len());
                assert(fit_to_size(comment@, comment.len() as nat) == comment@);
                Ok(())
            },
            DVICommand::Post {
                pointer,
                num,
                den,
                mag,
                max_page_height,
                max_page_width,
                max_stack_depth,
                num_pages,
            } => {
                writer.write_1_byte_unsigned(248);
                writer.write_4_bytes_unsigned(*pointer);
                writer.write_4_bytes_unsigned(*num);
                writer.write_4_bytes_unsigned(*den);
                writer.write_4_bytes_unsigned(*mag);
                writer.write_4_bytes_unsigned(*max_page_height);
                writer.write_4_bytes_unsigned(*max_page_width);
                writer.write_2_bytes_unsigned(*max_stack_depth);
                writer.write_2_bytes_unsigned(*num_pages);
                Ok(())
            },
            DVICommand::PostPost { post_pointer, format, tail } => {
                writer.write_1_byte_unsigned(249);
                writer.write_4_bytes_unsigned(*post_pointer);
                writer.write_1_byte_unsigned(*format);
                let ghost mid = writer@;
                let mut i: u8 = 0;
                while i < *tail
                    invariant
                        i <= *tail,
                        writer@ == mid + Seq::new(i as nat, |k: int| 223u8),
                    decreases *tail - i,
                {
                    writer.write_1_byte_unsigned(223);
                    i = i + 1;
                }
                Ok(())
            },
            _ => Err(DVIWriteError::UnimplementedCommand),
        }
    }
}

impl DVIFile {
    /// Appends the bytes of every command of the file to `output`; the
    /// writer must handle every command of the file.
    pub fn write_to(&self, output: &mut Vec<u8>) -> (r: Result<(), DVIWriteError>)
        requires
            all_encodable(self.commands@.map_values(|c: DVICommand| c@)),
        ensures
            r is Ok,
            final(output)@ == old(output)@ + encode_commands(
                self.commands@.map_values(|c: DVICommand| c@),
            ),
    {
        let ghost cs = self.commands@.map_values(|c: DVICommand| c@);
        let mut out = Vec::new();
        std::mem::swap(&mut out, output);
        let mut writer = DVIFileWriter::new(out);
        let ghost start = writer@;
        let mut i: usize = 0;
        while i < self.commands.len()
            invariant
                i <= self.commands.len(),
                cs == self.commands@.map_values(|c: DVICommand| c@),
                all_encodable(cs),
                writer@ == start + encode_commands(cs.subrange(0, i as int)),
            decreases self.commands.len() - i,
        {
            assert(cs[i as int] == self.commands@[i as int]@);
            let r = writer.write(&self.commands[i]);
            assert(cs.subrange(0, i + 1).drop_last() == cs.subrange(0, i as int));
            assert(encode_command(cs[i as int]).is_some());
            i = i + 1;
        }
        assert(cs.subrange(0, i as int) == cs);
        *output = writer.into_bytes();
        Ok(())
    }
}

} // verus!
