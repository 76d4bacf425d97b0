use vstd::prelude::*;

verus! {

/// The 16-bit value of two big-endian bytes.
pub open spec fn u16_from_be(b0: u8, b1: u8) -> u16 {
    ((b0 as u16) << 8u16) | (b1 as u16)
}

/// The 32-bit value of four big-endian bytes.
pub open spec fn u32_from_be(b0: u8, b1: u8, b2: u8, b3: u8) -> u32 {
    ((b0 as u32) << 24u32) | ((b1 as u32) << 16u32) | ((b2 as u32) << 8u32) | (b3 as u32)
}

/// The unsigned value of three big-endian bytes.
pub open spec fn u24_from_be(b0: u8, b1: u8, b2: u8) -> u32 {
    u32_from_be(0, b0, b1, b2)
}

/// The two's-complement value of three big-endian bytes.
pub open spec fn i24_from_be(b0: u8, b1: u8, b2: u8) -> i32 {
    (u32_from_be(b0, b1, b2, 0) as i32) >> 8i32
}

pub open spec fn u16_at(s: Seq<u8>, i: int) -> u16 {
    u16_from_be(s[i], s[i + 1])
}

pub open spec fn u24_at(s: Seq<u8>, i: int) -> u32 {
    u24_from_be(s[i], s[i + 1], s[i + 2])
}

pub open spec fn u32_at(s: Seq<u8>, i: int) -> u32 {
    u32_from_be(s[i], s[i + 1], s[i + 2], s[i + 3])
}

pub open spec fn i8_at(s: Seq<u8>, i: int) -> i8 {
    s[i] as i8
}

pub open spec fn i16_at(s: Seq<u8>, i: int) -> i16 {
    u16_at(s, i) as i16
}

pub open spec fn i24_at(s: Seq<u8>, i: int) -> i32 {
    i24_from_be(s[i], s[i + 1], s[i + 2])
}

pub open spec fn i32_at(s: Seq<u8>, i: int) -> i32 {
    u32_at(s, i) as i32
}

/// What can go wrong while reading a DVI file.
#[derive(Debug, PartialEq, Eq, Clone, Copy)]
pub enum DVIReadError {
    /// The data ended in the middle of a value.
    UnexpectedEof,
    /// A string was not valid UTF-8.
    InvalidUtf8,
    /// The `pre` command names a format other than 2.
    UnknownFormat(u8),
    /// An opcode that this reader does not handle.
    UnimplementedOpcode(u8),
    /// An opcode that the DVI format does not define.
    InvalidOpcode(u8),
    /// The area and length of a font name add up to more than 255.
    NameLengthOverflow,
    /// More than 255 bytes follow a `post_post` command.
    TailOverflow,
}

/// A cursor over the bytes of a DVI file, with methods that read the values
/// the way a DVI file stores them.
pub struct DVIFileReader<'a> {
    reader: &'a [u8],
    pos: usize,
}

/// The UTF-8 decoding of `bytes`, or `None` when they are not valid UTF-8
/// (`String::from_utf8`; its documentation says it fails exactly on invalid
/// UTF-8 and otherwise keeps the bytes).
#[verifier::external_body]
fn string_from_utf8(bytes: Vec<u8>) -> (r: Option<String>)
    ensures
        r is Some <==> vstd::utf8::valid_utf8(bytes@),
        r matches Some(s) ==> s@ == vstd::utf8::decode_utf8(bytes@),
{
    String::from_utf8(bytes).ok()
}

impl<'a> DVIFileReader<'a> {
    /// The bytes that are still to be read.
    pub closed spec fn rest(&self) -> Seq<u8> {
        self.reader@.skip(self.pos as int)
    }

    /// All the bytes, read or not.
    pub closed spec fn data(&self) -> Seq<u8> {
        self.reader@
    }

    /// How many bytes have been read.
    pub closed spec fn position(&self) -> int {
        self.pos as int
    }

    #[verifier::type_invariant]
    closed spec fn inv(&self) -> bool {
        self.pos <= self.reader.len()
    }

    pub fn new(reader: &'a [u8]) -> (r: Self)
        ensures
            r.data() == reader@,
            r.position() == 0,
            r.rest() == reader@,
    {
        DVIFileReader { reader, pos: 0 }
    }

    fn take(&mut self, n: usize) -> (r: Result<usize, DVIReadError>)
        ensures
            final(self).data() == old(self).data(),
            match r {
                Ok(start) => n <= old(self).rest().len() && start == old(self).position()
                    && final(self).position() == start + n,
                Err(e) => e == DVIReadError::UnexpectedEof && n > old(self).rest().len()
                    && final(self).position() == old(self).position(),
            },
            0 <= final(self).position() <= final(self).data().len(),
            final(self).rest() == final(self).data().skip(final(self).position()),
    {
        proof { use_type_invariant(&*self); }
        if self.reader.len() - self.pos < n {
            Err(DVIReadError::UnexpectedEof)
        } else {
            let start = self.pos;
            self.pos = self.pos + n;
            Ok(start)
        }
    }

    pub fn read_1_byte_unsigned(&mut self) -> (r: Result<u8, DVIReadError>)
        ensures
            final(self).data() == old(self).data(),
            match r {
                Ok(v) => 1 <= old(self).rest().len() && v == old(self).rest()[0]
                    && final(self).rest() == old(self).rest().skip(1),
                Err(e) => e == DVIReadError::UnexpectedEof && old(self).rest().len() < 1
                    && final(self).rest() == old(self).rest(),
            },
    {
        proof { use_type_invariant(&*self); }
        let i = self.take(1)?;
        Ok(self.reader[i])
    }

    pub fn read_2_bytes_unsigned(&mut self) -> (r: Result<u16, DVIReadError>)
        ensures
            final(self).data() == old(self).data(),
            match r {
                Ok(v) => 2 <= old(self).rest().len() && v == u16_at(old(self).rest(), 0)
                    && final(self).rest() == old(self).rest().skip(2),
                Err(e) => e == DVIReadError::UnexpectedEof && old(self).rest().len() < 2
                    && final(self).rest() == old(self).rest(),
            },
    {
        proof { use_type_invariant(&*self); }
        let i = self.take(2)?;
        Ok(((self.reader[i] as u16) << 8u16) | (self.reader[i + 1] as u16))
    }

    /// Reads three bytes as an unsigned number.
    pub fn read_3_bytes_unsigned(&mut self) -> (r: Result<u32, DVIReadError>)
        ensures
            final(self).data() == old(self).data(),
            match r {
                Ok(v) => 3 <= old(self).rest().len() && v == u24_at(old(self).rest(), 0)
                    && final(self).rest() == old(self).rest().skip(3),
                Err(e) => e == DVIReadError::UnexpectedEof && old(self).rest().len() < 3
                    && final(self).rest() == old(self).rest(),
            },
    {
        proof { use_type_invariant(&*self); }
        let i = self.take(3)?;
        let b0 = self.reader[i];
        let b1 = self.reader[i + 1];
        let b2 = self.reader[i + 2];
        Ok(((0u8 as u32) << 24u32) | ((b0 as u32) << 16u32) | ((b1 as u32) << 8u32) | (b2 as u32))
    }

    pub fn read_4_bytes_unsigned(&mut self) -> (r: Result<u32, DVIReadError>)
        ensures
            final(self).data() == old(self).data(),
            match r {
                Ok(v) => 4 <= old(self).rest().len() && v == u32_at(old(self).rest(), 0)
                    && final(self).rest() == old(self).rest().skip(4),
                Err(e) => e == DVIReadError::UnexpectedEof && old(self).rest().len() < 4
                    && final(self).rest() == old(self).rest(),
            },
    {
        proof { use_type_invariant(&*self); }
        let i = self.take(4)?;
        Ok(((self.reader[i] as u32) << 24u32) | ((self.reader[i + 1] as u32) << 16u32) | ((
        self.reader[i + 2] as u32) << 8u32) | (self.reader[i + 3] as u32))
    }

    pub fn read_1_byte_signed(&mut self) -> (r: Result<i8, DVIReadError>)
        ensures
            final(self).data() == old(self).data(),
            match r {
                Ok(v) => 1 <= old(self).rest().len() && v == i8_at(old(self).rest(), 0)
                    && final(self).rest() == old(self).rest().skip(1),
                Err(e) => e == DVIReadError::UnexpectedEof && old(self).rest().len() < 1
                    && final(self).rest() == old(self).rest(),
            },
    {
        let b = self.read_1_byte_unsigned()?;
        Ok(b as i8)
    }

    pub fn read_2_bytes_signed(&mut self) -> (r: Result<i16, DVIReadError>)
        ensures
            final(self).data() == old(self).data(),
            match r {
                Ok(v) => 2 <= old(self).rest().len() && v == i16_at(old(self).rest(), 0)
                    && final(self).rest() == old(self).rest().skip(2),
                Err(e) => e == DVIReadError::UnexpectedEof && old(self).rest().len() < 2
                    && final(self).rest() == old(self).rest(),
            },
    {
        let v = self.read_2_bytes_unsigned()?;
        Ok(v as i16)
    }

    /// Reads three bytes as a two's-complement number.
    pub fn read_3_bytes_signed(&mut self) -> (r: Result<i32, DVIReadError>)
        ensures
            final(self).data() == old(self).data(),
            match r {
                Ok(v) => 3 <= old(self).rest().len() && v == i24_at(old(self).rest(), 0)
                    && final(self).rest() == old(self).rest().skip(3),
                Err(e) => e == DVIReadError::UnexpectedEof && old(self).rest().len() < 3
                    && final(self).rest() == old(self).rest(),
            },
    {
        proof { use_type_invariant(&*self); }
        let i = self.take(3)?;
        let b0 = self.reader[i];
        let b1 = self.reader[i + 1];
        let b2 = self.reader[i + 2];
        let full: u32 = ((b0 as u32) << 24u32) | ((b1 as u32) << 16u32) | ((b2 as u32) << 8u32) | (
        0u8 as u32);
        Ok((full as i32) >> 8i32)
    }

    pub fn read_4_bytes_signed(&mut self) -> (r: Result<i32, DVIReadError>)
        ensures
            final(self).data() == old(self).data(),
            match r {
                Ok(v) => 4 <= old(self).rest().len() && v == i32_at(old(self).rest(), 0)
                    && final(self).rest() == old(self).rest().skip(4),
                Err(e) => e == DVIReadError::UnexpectedEof && old(self).rest().len() < 4
                    && final(self).rest() == old(self).rest(),
            },
    {
        let v = self.read_4_bytes_unsigned()?;
        Ok(v as i32)
    }

    /// Reads the next `size` bytes.
    pub fn read_array(&mut self, size: usize) -> (r: Result<Vec<u8>, DVIReadError>)
        ensures
            final(self).data() == old(self).data(),
            match r {
                Ok(v) => size <= old(self).rest().len() && v@ == old(self).rest().take(size as int)
                    && final(self).rest() == old(self).rest().skip(size as int),
                Err(e) => e == DVIReadError::UnexpectedEof && old(self).rest().len() < size
                    && final(self).rest() == old(self).rest(),
            },
    {
        proof { use_type_invariant(&*self); }
        let start = self.take(size)?;
        let mut buf: Vec<u8> = Vec::new();
        let mut i: usize = 0;
        while i < size
            invariant
                i <= size,
                start + size <= self.reader.len(),
                buf@ == self.reader@.subrange(start as int, start + i),
            decreases size - i,
        {
            buf.push(self.reader[start + i]);
            i = i + 1;
        }
        proof {
            assert(buf@ == old(self).rest().take(size as int));
        }
        Ok(buf)
    }

    /// Reads the next `size` bytes as a UTF-8 string. Fails with
    /// `InvalidUtf8`, having read the bytes, when they are not valid UTF-8.
    pub fn read_string(&mut self, size: usize) -> (r: Result<String, DVIReadError>)
        ensures
            final(self).data() == old(self).data(),
            match r {
                Ok(s) => size <= old(self).rest().len()
                    && vstd::utf8::valid_utf8(old(self).rest().take(size as int))
                    && s@ == vstd::utf8::decode_utf8(old(self).rest().take(size as int))
                    && final(self).rest() == old(self).rest().skip(size as int),
                Err(DVIReadError::UnexpectedEof) => old(self).rest().len() < size
                    && final(self).rest() == old(self).rest(),
                Err(DVIReadError::InvalidUtf8) => size <= old(self).rest().len()
                    && !vstd::utf8::valid_utf8(old(self).rest().take(size as int))
                    && final(self).rest() == old(self).rest().skip(size as int),
                Err(_) => false,
            },
    {
        let arr = self.read_array(size)?;
        match string_from_utf8(arr) {
            Some(string) => Ok(string),
            None => Err(DVIReadError::InvalidUtf8),
        }
    }
}

} // verus!
