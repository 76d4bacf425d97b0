/// Methods for parsing DVI files
use vstd::prelude::*;

use super::file::{CommandView, DVICommand, DVIFile};
use super::file_reader::{
    i16_at, i24_at, i32_at, u16_at, u32_at, DVIFileReader, DVIReadError,
};

verus! {

/// The outcome of reading one command from the front of some bytes.
pub enum ParseStep {
    /// There are no bytes left.
    End,
    /// A command, and how many bytes it took.
    Command(CommandView, int),
    /// The bytes do not start with a command this reader handles.
    Failure(DVIReadError),
}

/// A command of `size` bytes, if that many bytes are there.
pub open spec fn sized(s: Seq<u8>, size: int, c: CommandView) -> ParseStep {
    if s.len() < size {
        ParseStep::Failure(DVIReadError::UnexpectedEof)
    } else {
        ParseStep::Command(c, size)
    }
}

/// A font definition whose fixed part takes `header` bytes, the last two of
/// which are the area and length of the font name.
pub open spec fn font_def_step(s: Seq<u8>, header: int, c: CommandView) -> ParseStep {
    if s.len() < header {
        ParseStep::Failure(DVIReadError::UnexpectedEof)
    } else if s[header - 2] + s[header - 1] > 255 {
        ParseStep::Failure(DVIReadError::NameLengthOverflow)
    } else {
        let size = (s[header - 2] + s[header - 1]) as int;
        if s.len() < header + size {
            ParseStep::Failure(DVIReadError::UnexpectedEof)
        } else if !vstd::utf8::valid_utf8(s.subrange(header, header + size)) {
            ParseStep::Failure(DVIReadError::InvalidUtf8)
        } else {
            ParseStep::Command(c, header + size)
        }
    }
}

/// The name of a font definition whose fixed part takes `header` bytes.
pub open spec fn font_name_at(s: Seq<u8>, header: int) -> Seq<char> {
    vstd::utf8::decode_utf8(s.subrange(header, header + s[header - 2] + s[header - 1]))
}

/// Reads the command at the front of `s`, the way the DVI format lays them
/// out.
pub open spec fn parse_command(s: Seq<u8>) -> ParseStep {
    if s.len() == 0 {
        ParseStep::End
    } else {
        let op = s[0];
        if op <= 127 {
            ParseStep::Command(CommandView::SetCharN(op), 1)
        } else if op == 139 {
            sized(
                s,
                45,
                CommandView::Bop { cs: Seq::new(10, |i: int| i32_at(s, 1 + 4 * i)), pointer: i32_at(s, 41) },
            )
        } else if op == 140 {
            ParseStep::Command(CommandView::Eop, 1)
        } else if op == 141 {
            ParseStep::Command(CommandView::Push, 1)
        } else if op == 142 {
            ParseStep::Command(CommandView::Pop, 1)
        } else if op == 144 {
            sized(s, 3, CommandView::Right2(i16_at(s, 1)))
        } else if op == 145 {
            sized(s, 4, CommandView::Right3(i24_at(s, 1)))
        } else if op == 146 {
            sized(s, 5, CommandView::Right4(i32_at(s, 1)))
        } else if op == 147 {
            ParseStep::Command(CommandView::W0, 1)
        } else if op == 149 {
            sized(s, 3, CommandView::W2(i16_at(s, 1)))
        } else if op == 150 {
            sized(s, 4, CommandView::W3(i24_at(s, 1)))
        } else if op == 152 {
            ParseStep::Command(CommandView::X0, 1)
        } else if op == 154 {
            sized(s, 3, CommandView::X2(i16_at(s, 1)))
        } else if op == 155 {
            sized(s, 4, CommandView::X3(i24_at(s, 1)))
        } else if op == 158 {
            sized(s, 3, CommandView::Down2(i16_at(s, 1)))
        } else if op == 159 {
            sized(s, 4, CommandView::Down3(i24_at(s, 1)))
        } else if op == 160 {
            sized(s, 5, CommandView::Down4(i32_at(s, 1)))
        } else if op == 161 {
            ParseStep::Command(CommandView::Y0, 1)
        } else if op == 164 {
            sized(s, 4, CommandView::Y3(i24_at(s, 1)))
        } else if 171 <= op <= 234 {
            ParseStep::Command(CommandView::FntNumN((op - 171) as u8), 1)
        } else if op == 238 {
            sized(s, 5, CommandView::Fnt4(i32_at(s, 1)))
        } else if op == 243 {
            font_def_step(
                s,
                16,
                CommandView::FntDef1 {
                    font_num: s[1],
                    checksum: u32_at(s, 2),
                    scale: u32_at(s, 6),
                    design_size: u32_at(s, 10),
                    area: s[14],
                    length: s[15],
                    font_name: font_name_at(s, 16),
                },
            )
        } else if op == 246 {
            font_def_step(
                s,
                19,
                CommandView::FntDef4 {
                    font_num: i32_at(s, 1),
                    checksum: u32_at(s, 5),
                    scale: u32_at(s, 9),
                    design_size: u32_at(s, 13),
                    area: s[17],
                    length: s[18],
                    font_name: font_name_at(s, 19),
                },
            )
        } else if op == 247 {
            if s.len() < 2 {
                ParseStep::Failure(DVIReadError::UnexpectedEof)
            } else if s[1] != 2 {
                ParseStep::Failure(DVIReadError::UnknownFormat(s[1]))
            } else if s.len() < 15 {
                ParseStep::Failure(DVIReadError::UnexpectedEof)
            } else {
                sized(
                    s,
                    15 + s[14],
                    CommandView::Pre {
                        format: s[1],
                        num: u32_at(s, 2),
                        den: u32_at(s, 6),
                        mag: u32_at(s, 10),
                        comment: s.subrange(15, 15 + s[14]),
                    },
                )
            }
        } else if op == 248 {
            sized(
                s,
                29,
                CommandView::Post {
                    pointer: u32_at(s, 1),
                    num: u32_at(s, 5),
                    den: u32_at(s, 9),
                    mag: u32_at(s, 13),
                    max_page_height: u32_at(s, 17),
                    max_page_width: u32_at(s, 21),
                    max_stack_depth: u16_at(s, 25),
                    num_pages: u16_at(s, 27),
                },
            )
        } else if op == 249 {
            if s.len() < 6 {
                ParseStep::Failure(DVIReadError::UnexpectedEof)
            } else if s.len() - 6 > 255 {
                ParseStep::Failure(DVIReadError::TailOverflow)
            } else {
                ParseStep::Command(
                    CommandView::PostPost {
                        post_pointer: u32_at(s, 1),
                        format: s[5],
                        tail: (s.len() - 6) as u8,
                    },
                    s.len() as int,
                )
            }
        } else if op <= 249 {
            ParseStep::Failure(DVIReadError::UnimplementedOpcode(op))
        } else {
            ParseStep::Failure(DVIReadError::InvalidOpcode(op))
        }
    }
}

/// Every command size that `parse_command` reports lies within the bytes
/// and is not zero.
pub proof fn lemma_parse_command_size(s: Seq<u8>)
    ensures
        parse_command(s) matches ParseStep::Command(_, n) ==> 1 <= n <= s.len(),
{
}

/// The failures on data that the reader does not handle: an opcode that it
/// does not implement or that the format does not define, a `pre` of
/// another format, or a font name whose two lengths overflow a byte.
pub open spec fn unhandled(e: DVIReadError) -> bool {
    ||| e is UnknownFormat
    ||| e is UnimplementedOpcode
    ||| e is InvalidOpcode
    ||| e is NameLengthOverflow
}

/// Reads all the commands of `s` one after the other, up to the end of the
/// bytes or the first failure.
pub open spec fn parse_commands(s: Seq<u8>) -> Result<Seq<CommandView>, DVIReadError>
    decreases s.len(),
{
    match parse_command(s) {
        ParseStep::End => Ok(Seq::empty()),
        ParseStep::Failure(e) => Err(e),
        ParseStep::Command(c, n) => if 1 <= n <= s.len() {
            match parse_commands(s.skip(n)) {
                Ok(cs) => Ok(seq![c] + cs),
                Err(e) => Err(e),
            }
        } else {
            Err(DVIReadError::UnexpectedEof)
        },
    }
}

impl DVICommand {
    /// Reads a single command from `reader`: `None` at the end of the data.
    pub fn read_from(reader: &mut DVIFileReader) -> (r: Result<Option<Self>, DVIReadError>)
        requires
            !(parse_command(old(reader).rest()) matches ParseStep::Failure(e) && unhandled(e)),
        ensures
            final(reader).data() == old(reader).data(),
            match parse_command(old(reader).rest()) {
                ParseStep::End => r matches Ok(None),
                ParseStep::Command(c, n) => r matches Ok(Some(cmd)) && cmd@ == c
                    && final(reader).rest() == old(reader).rest().skip(n),
                ParseStep::Failure(e) => r == Err::<Option<Self>, DVIReadError>(e),
            },
    {
        let ghost s = reader.rest();
        let opcode = match reader.read_1_byte_unsigned() {
            Ok(opcode) => opcode,
            Err(_) => {
                return Ok(None);
            },
        };
        if opcode <= 127 {
            return Ok(Some(DVICommand::SetCharN(opcode)));
        }
        match opcode {
            139 => DVICommand::read_bop(reader, Ghost(s)),
            140 => Ok(Some(DVICommand::Eop)),
            141 => Ok(Some(DVICommand::Push)),
            142 => Ok(Some(DVICommand::Pop)),
            144 => {
                let b = reader.read_2_bytes_signed()?;
                Ok(Some(DVICommand::Right2(b)))
            },
            145 => {
                let b = reader.read_3_bytes_signed()?;
                Ok(Some(DVICommand::Right3(b)))
            },
            146 => {
                let b = reader.read_4_bytes_signed()?;
                Ok(Some(DVICommand::Right4(b)))
            },
            147 => Ok(Some(DVICommand::W0)),
            149 => {
                let b = reader.read_2_bytes_signed()?;
                Ok(Some(DVICommand::W2(b)))
            },
            150 => {
                let b = reader.read_3_bytes_signed()?;
                Ok(Some(DVICommand::W3(b)))
            },
            152 => Ok(Some(DVICommand::X0)),
            154 => {
                let b = reader.read_2_bytes_signed()?;
                Ok(Some(DVICommand::X2(b)))
            },
            155 => {
                let b = reader.read_3_bytes_signed()?;
                Ok(Some(DVICommand::X3(b)))
            },
            158 => {
                let a = reader.read_2_bytes_signed()?;
                Ok(Some(DVICommand::Down2(a)))
            },
            159 => {
                let a = reader.read_3_bytes_signed()?;
                Ok(Some(DVICommand::Down3(a)))
            },
            160 => {
                let a = reader.read_4_bytes_signed()?;
                Ok(Some(DVICommand::Down4(a)))
            },
            161 => Ok(Some(DVICommand::Y0)),
            164 => {
                let a = reader.read_3_bytes_signed()?;
                Ok(Some(DVICommand::Y3(a)))
            },
            238 => {
                let k = reader.read_4_bytes_signed()?;
                Ok(Some(DVICommand::Fnt4(k)))
            },
            243 => DVICommand::read_font_def1(reader, Ghost(s)),
            246 => DVICommand::read_font_def4(reader, Ghost(s)),
            247 => {
                let i = reader.read_1_byte_unsigned()?;
                if i != 2 {
                    return Err(DVIReadError::UnknownFormat(i));
                }
                let num = reader.read_4_bytes_unsigned()?;
                let den = reader.read_4_bytes_unsigned()?;
                let mag = reader.read_4_bytes_unsigned()?;
                let k = reader.read_1_byte_unsigned()?;
                let ghost before = reader.rest();
                proof {
                    assert(before == s.skip(15));
                }
                let x = reader.read_array(k as usize)?;
                proof {
                    assert(before.take(k as int) == s.subrange(15, 15 + k));
                    assert(reader.rest() == s.skip(15 + k));
                }
                Ok(Some(DVICommand::Pre { format: i, num: num, den: den, mag: mag, comment: x }))
            },
            248 => {
                let p = reader.read_4_bytes_unsigned()?;
                let num = reader.read_4_bytes_unsigned()?;
                let den = reader.read_4_bytes_unsigned()?;
                let mag = reader.read_4_bytes_unsigned()?;
                let l = reader.read_4_bytes_unsigned()?;
                let u = reader.read_4_bytes_unsigned()?;
                let st = reader.read_2_bytes_unsigned()?;
                let t = reader.read_2_bytes_unsigned()?;
                Ok(
                    Some(
                        DVICommand::Post {
                            pointer: p,
                            num: num,
                            den: den,
                            mag: mag,
                            max_page_height: l,
                            max_page_width: u,
                            max_stack_depth: st,
                            num_pages: t,
                        },
                    ),
                )
            },
            249 => DVICommand::read_post_post(reader, Ghost(s)),
            n => {
                if 171 <= n && n <= 234 {
                    Ok(Some(DVICommand::FntNumN(n - 171)))
                } else if n <= 249 {
                    Err(DVIReadError::UnimplementedOpcode(n))
                } else {
                    Err(DVIReadError::InvalidOpcode(n))
                }
            },
        }
    }
}

impl DVICommand {
    fn read_bop(reader: &mut DVIFileReader, Ghost(s): Ghost<Seq<u8>>) -> (r: Result<
        Option<Self>,
        DVIReadError,
    >)
        requires
            s.len() >= 1,
            s[0] == 139,
            old(reader).rest() == s.skip(1),
        ensures
            final(reader).data() == old(reader).data(),
            match parse_command(s) {
                ParseStep::Command(c, n) => r matches Ok(Some(cmd)) && cmd@ == c
                    && final(reader).rest() == s.skip(n),
                ParseStep::Failure(e) => r == Err::<Option<Self>, DVIReadError>(e),
                ParseStep::End => false,
            },
    {
        let c0 = reader.read_4_bytes_signed()?;
        assert(reader.rest() =~= s.skip(5));
        let c1 = reader.read_4_bytes_signed()?;
        assert(reader.rest() =~= s.skip(9));
        let c2 = reader.read_4_bytes_signed()?;
        assert(reader.rest() =~= s.skip(13));
        let c3 = reader.read_4_bytes_signed()?;
        assert(reader.rest() =~= s.skip(17));
        let c4 = reader.read_4_bytes_signed()?;
        assert(reader.rest() =~= s.skip(21));
        let c5 = reader.read_4_bytes_signed()?;
        assert(reader.rest() =~= s.skip(25));
        let c6 = reader.read_4_bytes_signed()?;
        assert(reader.rest() =~= s.skip(29));
        let c7 = reader.read_4_bytes_signed()?;
        assert(reader.rest() =~= s.skip(33));
        let c8 = reader.read_4_bytes_signed()?;
        assert(reader.rest() =~= s.skip(37));
        let c9 = reader.read_4_bytes_signed()?;
        assert(reader.rest() =~= s.skip(41));
        let p = reader.read_4_bytes_signed()?;
        assert(reader.rest() =~= s.skip(45));
        let cs = [c0, c1, c2, c3, c4, c5, c6, c7, c8, c9];
        proof {
            assert(cs@ =~= Seq::new(10, |i: int| i32_at(s, 1 + 4 * i)));
        }
        Ok(Some(DVICommand::Bop { cs: cs, pointer: p }))
    }

    fn read_font_def1(reader: &mut DVIFileReader, Ghost(s): Ghost<Seq<u8>>) -> (r: Result<
        Option<Self>,
        DVIReadError,
    >)
        requires
            s.len() >= 1,
            s[0] == 243,
            old(reader).rest() == s.skip(1),
        ensures
            final(reader).data() == old(reader).data(),
            match parse_command(s) {
                ParseStep::Command(c, n) => r matches Ok(Some(cmd)) && cmd@ == c
                    && final(reader).rest() == s.skip(n),
                ParseStep::Failure(e) => r == Err::<Option<Self>, DVIReadError>(e),
                ParseStep::End => false,
            },
    {
        let k = reader.read_1_byte_unsigned()?;
        assert(reader.rest() =~= s.skip(2));
        let c = reader.read_4_bytes_unsigned()?;
        assert(reader.rest() =~= s.skip(6));
        let sc = reader.read_4_bytes_unsigned()?;
        assert(reader.rest() =~= s.skip(10));
        let d = reader.read_4_bytes_unsigned()?;
        assert(reader.rest() =~= s.skip(14));
        let a = reader.read_1_byte_unsigned()?;
        assert(reader.rest() =~= s.skip(15));
        let l = reader.read_1_byte_unsigned()?;
        assert(reader.rest() =~= s.skip(16));
        if a as u16 + l as u16 > 255 {
            return Err(DVIReadError::NameLengthOverflow);
        }
        let ghost before = reader.rest();
        proof {
            if 16 + a + l <= s.len() {
                assert(before.take((a + l) as int) =~= s.subrange(16, 16 + a + l));
            }
        }
        let n = reader.read_string((a + l) as usize)?;
        assert(reader.rest() =~= s.skip(16 + a + l));
        Ok(
            Some(
                DVICommand::FntDef1 {
                    font_num: k,
                    checksum: c,
                    scale: sc,
                    design_size: d,
                    area: a,
                    length: l,
                    font_name: n,
                },
            ),
        )
    }

    fn read_font_def4(reader: &mut DVIFileReader, Ghost(s): Ghost<Seq<u8>>) -> (r: Result<
        Option<Self>,
        DVIReadError,
    >)
        requires
            s.len() >= 1,
            s[0] == 246,
            old(reader).rest() == s.skip(1),
        ensures
            final(reader).data() == old(reader).data(),
            match parse_command(s) {
                ParseStep::Command(c, n) => r matches Ok(Some(cmd)) && cmd@ == c
                    && final(reader).rest() == s.skip(n),
                ParseStep::Failure(e) => r == Err::<Option<Self>, DVIReadError>(e),
                ParseStep::End => false,
            },
    {
        let k = reader.read_4_bytes_signed()?;
        assert(reader.rest() =~= s.skip(5));
        let c = reader.read_4_bytes_unsigned()?;
        assert(reader.rest() =~= s.skip(9));
        let sc = reader.read_4_bytes_unsigned()?;
        assert(reader.rest() =~= s.skip(13));
        let d = reader.read_4_bytes_unsigned()?;
        assert(reader.rest() =~= s.skip(17));
        let a = reader.read_1_byte_unsigned()?;
        assert(reader.rest() =~= s.skip(18));
        let l = reader.read_1_byte_unsigned()?;
        assert(reader.rest() =~= s.skip(19));
        if a as u16 + l as u16 > 255 {
            return Err(DVIReadError::NameLengthOverflow);
        }
        let ghost before = reader.rest();
        proof {
            if 19 + a + l <= s.len() {
                assert(before.take((a + l) as int) =~= s.subrange(19, 19 + a + l));
            }
        }
        let n = reader.read_string((a + l) as usize)?;
        assert(reader.rest() =~= s.skip(19 + a + l));
        Ok(
            Some(
                DVICommand::FntDef4 {
                    font_num: k,
                    checksum: c,
                    scale: sc,
                    design_size: d,
                    area: a,
                    length: l,
                    font_name: n,
                },
            ),
        )
    }

    fn read_post_post(reader: &mut DVIFileReader, Ghost(s): Ghost<Seq<u8>>) -> (r: Result<
        Option<Self>,
        DVIReadError,
    >)
        requires
            s.len() >= 1,
            s[0] == 249,
            old(reader).rest() == s.skip(1),
        ensures
            final(reader).data() == old(reader).data(),
            match parse_command(s) {
                ParseStep::Command(c, n) => r matches Ok(Some(cmd)) && cmd@ == c
                    && final(reader).rest() == s.skip(n),
                ParseStep::Failure(e) => r == Err::<Option<Self>, DVIReadError>(e),
                ParseStep::End => false,
            },
    {
        let q = reader.read_4_bytes_unsigned()?;
        assert(reader.rest() =~= s.skip(5));
        let i = reader.read_1_byte_unsigned()?;
        assert(reader.rest() =~= s.skip(6));
        let ghost before = reader.rest();
        let mut num_223s: u8 = 0;
        loop
            invariant
                reader.data() == old(reader).data(),
                s.len() >= 6,
                s[0] == 249,
                before == s.skip(6),
                num_223s <= before.len(),
                reader.rest() == before.skip(num_223s as int),
            ensures
                num_223s == before.len(),
                reader.rest() == before.skip(num_223s as int),
            decreases reader.rest().len(),
        {
            let ghost cur = reader.rest();
            assert(cur.len() == before.len() - num_223s);
            match reader.read_1_byte_unsigned() {
                Ok(_) => {
                    if num_223s == 255 {
                        assert(s.len() - 6 > 255);
                        return Err(DVIReadError::TailOverflow);
                    }
                    assert(reader.rest() =~= before.skip(num_223s + 1));
                    num_223s = num_223s + 1;
                },
                Err(_) => {
                    break ;
                },
            }
        }
        assert(reader.rest() =~= s.skip(s.len() as int));
        Ok(Some(DVICommand::PostPost { post_pointer: q, format: i, tail: num_223s }))
    }
}

impl DVIFile {
    /// Reads a DVI file from its bytes.
    pub fn new(reader: &[u8]) -> (r: Result<Self, DVIReadError>)
        requires
            !(parse_commands(reader@) matches Err(e) && unhandled(e)),
        ensures
            match parse_commands(reader@) {
                Ok(cs) => r matches Ok(f) && f.commands@.map_values(|c: DVICommand| c@) == cs,
                Err(e) => r == Err::<DVIFile, DVIReadError>(e),
            },
    {
        let mut file_reader = DVIFileReader::new(reader);
        let mut commands: Vec<DVICommand> = Vec::new();
        assert(commands@.map_values(|c: DVICommand| c@) + parse_commands(reader@).unwrap()
            =~= parse_commands(reader@).unwrap());
        loop
            invariant_except_break
                file_reader.data() == reader@,
                !(parse_commands(reader@) matches Err(e) && unhandled(e)),
                parse_commands(reader@) == match parse_commands(file_reader.rest()) {
                    Ok(cs) => Ok(commands@.map_values(|c: DVICommand| c@) + cs),
                    Err(e) => Err(e),
                },
            ensures
                parse_commands(reader@) == Ok::<Seq<CommandView>, DVIReadError>(
                    commands@.map_values(|c: DVICommand| c@),
                ),
            decreases file_reader.rest().len(),
        {
            let ghost before = file_reader.rest();
            let ghost old_mapped = commands@.map_values(|c: DVICommand| c@);
            proof {
                lemma_parse_command_size(before);
                if let ParseStep::Failure(e) = parse_command(before) {
                    assert(parse_commands(before) == Err::<Seq<CommandView>, DVIReadError>(e));
                }
            }
            match DVICommand::read_from(&mut file_reader) {
                Ok(Some(command)) => {
                    let ghost c = command@;
                    commands.push(command);
                    proof {
                        assert(commands@.map_values(|c: DVICommand| c@) =~= old_mapped.push(c));
                        let n = parse_command(before)->Command_1;
                        assert(file_reader.rest() == before.skip(n));
                        match parse_commands(before.skip(n)) {
                            Ok(cs) => {
                                assert(old_mapped + (seq![c] + cs) =~= old_mapped.push(c) + cs);
                            },
                            Err(e) => {},
                        }
                    }
                },
                Ok(None) => {
                    proof {
                        assert(old_mapped + Seq::<CommandView>::empty() =~= old_mapped);
                    }
                    break ;
                },
                Err(e) => {
                    return Err(e);
                },
            }
        }
        Ok(DVIFile { commands: commands })
    }
}

} // verus!
