//! What the reader makes of the bytes that the writer wrote.
use vstd::prelude::*;

use super::file::CommandView;
use super::file_reader::{
    i16_at, i24_at, i24_from_be, i32_at, u16_at, u16_from_be, u32_at, u32_from_be,
};
use super::file_writer::{
    be_counters, be_i16, be_i24, be_i32, be_u16, be_u32, encode_command, encode_commands,
    fit_to_size,
};
use super::parser::{parse_command, parse_commands, ParseStep};

verus! {

proof fn lemma_u16_roundtrip(v: u16)
    ensures
        u16_from_be(be_u16(v)[0], be_u16(v)[1]) == v,
{
    let b0 = (v >> 8u16) as u8;
    let b1 = (v & 0xffu16) as u8;
    assert(((b0 as u16) << 8u16) | (b1 as u16) == v) by (bit_vector)
        requires
            b0 == (v >> 8u16) as u8,
            b1 == (v & 0xffu16) as u8,
    ;
}

proof fn lemma_i16_roundtrip(v: i16)
    ensures
        (u16_from_be(be_i16(v)[0], be_i16(v)[1]) as i16) == v,
{
    let u = v as u16;
    lemma_u16_roundtrip(u);
    assert((u as i16) == v) by (bit_vector)
        requires
            u == v as u16,
    ;
}

proof fn lemma_u32_roundtrip(v: u32)
    ensures
        u32_from_be(be_u32(v)[0], be_u32(v)[1], be_u32(v)[2], be_u32(v)[3]) == v,
{
    let b0 = (v >> 24u32) as u8;
    let b1 = ((v >> 16u32) & 0xffu32) as u8;
    let b2 = ((v >> 8u32) & 0xffu32) as u8;
    let b3 = (v & 0xffu32) as u8;
    assert(((b0 as u32) << 24u32) | ((b1 as u32) << 16u32) | ((b2 as u32) << 8u32) | (b3 as u32)
        == v) by (bit_vector)
        requires
            b0 == (v >> 24u32) as u8,
            b1 == ((v >> 16u32) & 0xffu32) as u8,
            b2 == ((v >> 8u32) & 0xffu32) as u8,
            b3 == (v & 0xffu32) as u8,
    ;
}

proof fn lemma_i32_roundtrip(v: i32)
    ensures
        (u32_from_be(be_i32(v)[0], be_i32(v)[1], be_i32(v)[2], be_i32(v)[3]) as i32) == v,
{
    let u = v as u32;
    lemma_u32_roundtrip(u);
    assert((u as i32) == v) by (bit_vector)
        requires
            u == v as u32,
    ;
}

proof fn lemma_i24_roundtrip(v: i32)
    requires
        -0x800000 <= v < 0x800000,
    ensures
        i24_from_be(be_i24(v)[0], be_i24(v)[1], be_i24(v)[2]) == v,
{
    let u = v as u32;
    let b0 = ((u >> 16u32) & 0xffu32) as u8;
    let b1 = ((u >> 8u32) & 0xffu32) as u8;
    let b2 = (u & 0xffu32) as u8;
    assert(((((b0 as u32) << 24u32) | ((b1 as u32) << 16u32) | ((b2 as u32) << 8u32) | (0u8 as u32))
        as i32) >> 8i32 == v) by (bit_vector)
        requires
            -0x800000 <= v < 0x800000,
            u == v as u32,
            b0 == ((u >> 16u32) & 0xffu32) as u8,
            b1 == ((u >> 8u32) & 0xffu32) as u8,
            b2 == (u & 0xffu32) as u8,
    ;
}

proof fn lemma_be_counters(cs: Seq<i32>, n: nat)
    requires
        n <= cs.len(),
    ensures
        be_counters(cs, n).len() == 4 * n,
        forall|i: int, j: int|
            0 <= i < n && 0 <= j < 4 ==> #[trigger] be_counters(cs, n)[4 * i + j] == be_i32(
                cs[i],
            )[j],
    decreases n,
{
    if n > 0 {
        lemma_be_counters(cs, (n - 1) as nat);
        assert forall|i: int, j: int| 0 <= i < n && 0 <= j < 4 implies #[trigger] be_counters(
            cs,
            n,
        )[4 * i + j] == be_i32(cs[i])[j] by {
            if i < n - 1 {
                assert(be_counters(cs, n)[4 * i + j] == be_counters(cs, (n - 1) as nat)[4 * i + j]);
            }
        }
    }
}

/// Whether a command comes back unchanged from being written and read: the
/// writer handles it, its values fit the widths that the reader reads them
/// with, and its font name fills exactly the bytes that it announces.
pub open spec fn round_trips(c: CommandView) -> bool {
    &&& encode_command(c).is_some()
    &&& match c {
        CommandView::SetCharN(n) => n <= 127,
        CommandView::Bop { cs, .. } => cs.len() == 10,
        CommandView::Right3(b) => -0x800000 <= b < 0x800000,
        CommandView::W3(b) => -0x800000 <= b < 0x800000,
        CommandView::Down3(a) => -0x800000 <= a < 0x800000,
        CommandView::Y3(a) => -0x800000 <= a < 0x800000,
        CommandView::FntNumN(n) => n <= 63,
        CommandView::FntDef1 { area, length, font_name, .. } =>
            vstd::utf8::encode_utf8(font_name).len() == area + length,
        CommandView::FntDef4 { area, length, font_name, .. } =>
            vstd::utf8::encode_utf8(font_name).len() == area + length,
        CommandView::Pre { format, comment, .. } => format == 2 && comment.len() <= 255,
        _ => true,
    }
}

proof fn lemma_fit_exact(v: Seq<u8>)
    ensures
        fit_to_size(v, v.len()) == v,
{
    assert(v.subrange(0, v.len() as int) =~= v);
}

#[verifier::rlimit(40)]
proof fn lemma_read_written_command(c: CommandView, t: Seq<u8>)
    requires
        round_trips(c),
        c is PostPost ==> t.len() == 0,
    ensures
        parse_command(encode_command(c).unwrap() + t) == ParseStep::Command(
            c,
            encode_command(c).unwrap().len() as int,
        ),
{
    let e = encode_command(c).unwrap();
    let s = e + t;
    match c {
        CommandView::Bop { cs, pointer } => {
            lemma_bop(cs, pointer, t);
        },
        CommandView::Right2(b) => {
            lemma_i16_roundtrip(b);
            assert(i16_at(s, 1) == b);
        },
        CommandView::W2(b) => {
            lemma_i16_roundtrip(b);
            assert(i16_at(s, 1) == b);
        },
        CommandView::Down2(b) => {
            lemma_i16_roundtrip(b);
            assert(i16_at(s, 1) == b);
        },
        CommandView::Right3(b) => {
            lemma_i24_roundtrip(b);
            assert(i24_at(s, 1) == b);
        },
        CommandView::W3(b) => {
            lemma_i24_roundtrip(b);
            assert(i24_at(s, 1) == b);
        },
        CommandView::Down3(b) => {
            lemma_i24_roundtrip(b);
            assert(i24_at(s, 1) == b);
        },
        CommandView::Y3(b) => {
            lemma_i24_roundtrip(b);
            assert(i24_at(s, 1) == b);
        },
        CommandView::Right4(b) => {
            lemma_i32_roundtrip(b);
            assert(i32_at(s, 1) == b);
        },
        CommandView::Down4(b) => {
            lemma_i32_roundtrip(b);
            assert(i32_at(s, 1) == b);
        },
        CommandView::Fnt4(b) => {
            lemma_i32_roundtrip(b);
            assert(i32_at(s, 1) == b);
        },
        CommandView::FntDef1 { font_num, checksum, scale, design_size, area, length, font_name } => {
            lemma_font_def1(c, t);
        },
        CommandView::FntDef4 { font_num, checksum, scale, design_size, area, length, font_name } => {
            lemma_font_def4(c, t);
        },
        CommandView::Pre { format, num, den, mag, comment } => {
            lemma_u32_roundtrip(num);
            lemma_u32_roundtrip(den);
            lemma_u32_roundtrip(mag);
            assert(u32_at(s, 2) == num);
            assert(u32_at(s, 6) == den);
            assert(u32_at(s, 10) == mag);
            assert(s[14] == comment.len());
            assert(s.subrange(15, 15 + s[14]) =~= comment);
        },
        CommandView::Post {
            pointer,
            num,
            den,
            mag,
            max_page_height,
            max_page_width,
            max_stack_depth,
            num_pages,
        } => {
            lemma_u32_roundtrip(pointer);
            lemma_u32_roundtrip(num);
            lemma_u32_roundtrip(den);
            lemma_u32_roundtrip(mag);
            lemma_u32_roundtrip(max_page_height);
            lemma_u32_roundtrip(max_page_width);
            lemma_u16_roundtrip(max_stack_depth);
            lemma_u16_roundtrip(num_pages);
            assert(u32_at(s, 1) == pointer);
            assert(u32_at(s, 5) == num);
            assert(u32_at(s, 9) == den);
            assert(u32_at(s, 13) == mag);
            assert(u32_at(s, 17) == max_page_height);
            assert(u32_at(s, 21) == max_page_width);
            assert(u16_at(s, 25) == max_stack_depth);
            assert(u16_at(s, 27) == num_pages);
        },
        CommandView::PostPost { post_pointer, format, tail } => {
            lemma_u32_roundtrip(post_pointer);
            assert(t =~= Seq::<u8>::empty());
            assert(s =~= e);
            assert(u32_at(s, 1) == post_pointer);
        },
        _ => {},
    }
}

proof fn lemma_bop(cs: Seq<i32>, pointer: i32, t: Seq<u8>)
    requires
        cs.len() == 10,
    ensures
        ({
            let c = CommandView::Bop { cs, pointer };
            parse_command(encode_command(c).unwrap() + t) == ParseStep::Command(
                c,
                encode_command(c).unwrap().len() as int,
            )
        }),
{
    let c = CommandView::Bop { cs, pointer };
    let e = encode_command(c).unwrap();
    let s = e + t;
    let bc = be_counters(cs, 10);
    lemma_be_counters(cs, 10);
    lemma_i32_roundtrip(pointer);
    assert(e == seq![139u8] + bc + be_i32(pointer));
    assert(e.len() == 45);
    assert forall|k: int| 1 <= k < 41 implies #[trigger] s[k] == bc[k - 1] by {}
    assert forall|i: int| 0 <= i < 10 implies #[trigger] i32_at(s, 1 + 4 * i) == cs[i] by {
        lemma_i32_roundtrip(cs[i]);
        assert(s[1 + 4 * i] == bc[4 * i + 0]);
        assert(s[1 + 4 * i + 1] == bc[4 * i + 1]);
        assert(s[1 + 4 * i + 2] == bc[4 * i + 2]);
        assert(s[1 + 4 * i + 3] == bc[4 * i + 3]);
    }
    assert(Seq::new(10, |i: int| i32_at(s, 1 + 4 * i)) =~= cs);
    assert(i32_at(s, 41) == pointer);
}

proof fn lemma_font_def1(c: CommandView, t: Seq<u8>)
    requires
        round_trips(c),
        c is FntDef1,
    ensures
        parse_command(encode_command(c).unwrap() + t) == ParseStep::Command(
            c,
            encode_command(c).unwrap().len() as int,
        ),
{
    let e = encode_command(c).unwrap();
    let s = e + t;
    match c {
        CommandView::FntDef1 { font_num, checksum, scale, design_size, area, length, font_name } => {
            let name = vstd::utf8::encode_utf8(font_name);
            lemma_fit_exact(name);
            vstd::utf8::encode_utf8_valid_utf8(font_name);
            vstd::utf8::encode_utf8_decode_utf8(font_name);
            lemma_u32_roundtrip(checksum);
            lemma_u32_roundtrip(scale);
            lemma_u32_roundtrip(design_size);
            assert(e.len() == 16 + name.len());
            assert(s[1] == font_num);
            assert(u32_at(s, 2) == checksum);
            assert(u32_at(s, 6) == scale);
            assert(u32_at(s, 10) == design_size);
            assert(s[14] == area);
            assert(s[15] == length);
            assert(s.subrange(16, 16 + area + length) =~= name);
        },
        _ => {},
    }
}

proof fn lemma_font_def4(c: CommandView, t: Seq<u8>)
    requires
        round_trips(c),
        c is FntDef4,
    ensures
        parse_command(encode_command(c).unwrap() + t) == ParseStep::Command(
            c,
            encode_command(c).unwrap().len() as int,
        ),
{
    let e = encode_command(c).unwrap();
    let s = e + t;
    match c {
        CommandView::FntDef4 { font_num, checksum, scale, design_size, area, length, font_name } => {
            let name = vstd::utf8::encode_utf8(font_name);
            lemma_fit_exact(name);
            vstd::utf8::encode_utf8_valid_utf8(font_name);
            vstd::utf8::encode_utf8_decode_utf8(font_name);
            lemma_i32_roundtrip(font_num);
            lemma_u32_roundtrip(checksum);
            lemma_u32_roundtrip(scale);
            lemma_u32_roundtrip(design_size);
            assert(e.len() == 19 + name.len());
            assert(i32_at(s, 1) == font_num);
            assert(u32_at(s, 5) == checksum);
            assert(u32_at(s, 9) == scale);
            assert(u32_at(s, 13) == design_size);
            assert(s[17] == area);
            assert(s[18] == length);
            assert(s.subrange(19, 19 + area + length) =~= name);
        },
        _ => {},
    }
}

proof fn lemma_encode_commands_front(c: CommandView, rest: Seq<CommandView>)
    requires
        encode_command(c).is_some(),
        forall|i: int| 0 <= i < rest.len() ==> (#[trigger] encode_command(rest[i])).is_some(),
    ensures
        encode_commands(seq![c] + rest) == encode_command(c).unwrap() + encode_commands(rest),
    decreases rest.len(),
{
    if rest.len() == 0 {
        assert((seq![c] + rest).drop_last() =~= Seq::<CommandView>::empty());
        assert(encode_commands(Seq::<CommandView>::empty()) =~= Seq::<u8>::empty());
        assert(encode_command(c).unwrap() + Seq::<u8>::empty() =~= encode_command(c).unwrap());
    } else {
        lemma_encode_commands_front(c, rest.drop_last());
        assert((seq![c] + rest).drop_last() =~= seq![c] + rest.drop_last());
        assert((seq![c] + rest).last() == rest.last());
    }
}

/// Writing a sequence of commands and reading the bytes back gives the same
/// commands, when each of them round-trips and a `post_post` command, which
/// takes all the bytes after it, comes only at the end.
#[verifier::rlimit(60)]
pub proof fn lemma_read_written_commands(cs: Seq<CommandView>)
    requires
        forall|i: int| 0 <= i < cs.len() ==> round_trips(#[trigger] cs[i]),
        forall|i: int| 0 <= i < cs.len() - 1 ==> !(#[trigger] cs[i] is PostPost),
    ensures
        parse_commands(encode_commands(cs)) == Ok::<Seq<CommandView>, super::file_reader::DVIReadError>(cs),
    decreases cs.len(),
{
    if cs.len() == 0 {
        assert(encode_commands(cs) =~= Seq::<u8>::empty());
        assert(parse_command(Seq::<u8>::empty()) == ParseStep::End);
        assert(cs =~= Seq::<CommandView>::empty());
    } else {
        let c = cs[0];
        let rest = cs.drop_first();
        assert(cs =~= seq![c] + rest);
        assert forall|i: int| 0 <= i < rest.len() implies (#[trigger] encode_command(
            rest[i],
        )).is_some() by {
            assert(rest[i] == cs[i + 1]);
        }
        lemma_encode_commands_front(c, rest);
        let e = encode_command(c).unwrap();
        let t = encode_commands(rest);
        if c is PostPost {
            assert(rest.len() == 0);
            assert(t =~= Seq::<u8>::empty());
        }
        lemma_read_written_command(c, t);
        assert((e + t).skip(e.len() as int) =~= t);
        assert forall|i: int| 0 <= i < rest.len() implies round_trips(#[trigger] rest[i]) by {
            assert(rest[i] == cs[i + 1]);
        }
        assert forall|i: int| 0 <= i < rest.len() - 1 implies !(#[trigger] rest[i] is PostPost) by {
            assert(rest[i] == cs[i + 1]);
        }
        lemma_read_written_commands(rest);
        assert(encode_commands(cs) == e + t);
        assert(e.len() >= 1);
        assert(parse_commands(t) == Ok::<Seq<CommandView>, super::file_reader::DVIReadError>(rest));
        assert(parse_commands(e + t) == match parse_commands((e + t).skip(e.len() as int)) {
            Ok(cs2) => Ok(seq![c] + cs2),
            Err(err) => Err(err),
        });
    }
}

} // verus!
