use vstd::prelude::*;

verus! {

/// The bytes from `pos` to the end of `s`, counted; zero when `pos` is past the end.
pub open spec fn remaining_from(len: nat, pos: int) -> int {
    if pos < len { len - pos } else { 0 }
}

/// The unsigned big-endian value of the four bytes of `s` at `i`.
pub open spec fn be_u32_at(s: Seq<u8>, i: int) -> int {
    s[i] * 16777216 + s[i + 1] * 65536 + s[i + 2] * 256 + s[i + 3]
}

/// The signed (two's complement) big-endian value of the four bytes of `s` at `i`.
pub open spec fn be_i32_at(s: Seq<u8>, i: int) -> i32 {
    let u = be_u32_at(s, i);
    (if u >= 2147483648 { u - 4294967296 } else { u }) as i32
}

/// The four big-endian two's complement bytes of `v`.
pub open spec fn i32_be_bytes(v: i32) -> Seq<u8> {
    let u: int = if v < 0 { v + 4294967296 } else { v as int };
    seq![(u / 16777216) as u8, ((u / 65536) % 256) as u8, ((u / 256) % 256) as u8, (u % 256) as u8]
}

/// Reading back the bytes of `i32_be_bytes(v)` gives `v`.
pub proof fn lemma_i32_be_roundtrip(v: i32)
    ensures
        i32_be_bytes(v).len() == 4,
        be_i32_at(i32_be_bytes(v), 0) == v,
{
    let u: int = if v < 0 { v + 4294967296 } else { v as int };
    assert(0 <= u < 4294967296);
    let b0 = u / 16777216;
    let b1 = (u / 65536) % 256;
    let b2 = (u / 256) % 256;
    let b3 = u % 256;
    assert(b0 * 16777216 + b1 * 65536 + b2 * 256 + b3 == u) by (nonlinear_arith)
        requires
            0 <= u < 4294967296,
            b0 == u / 16777216,
            b1 == (u / 65536) % 256,
            b2 == (u / 256) % 256,
            b3 == u % 256,
    ;
    assert(0 <= b0 < 256 && 0 <= b1 < 256 && 0 <= b2 < 256 && 0 <= b3 < 256) by (nonlinear_arith)
        requires
            0 <= u < 4294967296,
            b0 == u / 16777216,
            b1 == (u / 65536) % 256,
            b2 == (u / 256) % 256,
            b3 == u % 256,
    ;
    let s = i32_be_bytes(v);
    assert(s[0] == b0 && s[1] == b1 && s[2] == b2 && s[3] == b3);
    assert(be_u32_at(s, 0) == u);
}

/// What a `FrameCursor` stands for: the bytes it reads and its position.
pub struct CursorView {
    pub bytes: Seq<u8>,
    pub pos: u64,
}

/// A read position over a byte slice. Reads are big-endian, and the
/// position may stand past the end of the bytes.
pub struct FrameCursor<'a> {
    bytes: &'a [u8],
    pos: u64,
}

impl<'a> View for FrameCursor<'a> {
    type V = CursorView;

    closed spec fn view(&self) -> CursorView {
        CursorView { bytes: self.bytes@, pos: self.pos }
    }
}

impl<'a> FrameCursor<'a> {
    /// A cursor at the start of `bytes`.
    pub fn new(bytes: &'a [u8]) -> (r: Self)
        ensures
            r@ == (CursorView { bytes: bytes@, pos: 0 }),
    {
        FrameCursor { bytes, pos: 0 }
    }

    pub fn position(&self) -> (r: u64)
        ensures
            r == self@.pos,
    {
        self.pos
    }

    pub fn set_position(&mut self, pos: u64)
        ensures
            final(self)@ == (CursorView { bytes: old(self)@.bytes, pos }),
    {
        self.pos = pos;
    }

    /// All the bytes, whatever the position.
    pub fn get_ref(&self) -> (r: &'a [u8])
        ensures
            r@ == self@.bytes,
    {
        self.bytes
    }

    /// The number of bytes between the position and the end.
    pub fn remaining(&self) -> (r: usize)
        ensures
            r == remaining_from(self@.bytes.len(), self@.pos as int),
    {
        let len = self.bytes.len();
        if self.pos < len as u64 {
            len - self.pos as usize
        } else {
            0
        }
    }

    pub fn has_remaining(&self) -> (r: bool)
        ensures
            r == (remaining_from(self@.bytes.len(), self@.pos as int) > 0),
    {
        self.remaining() > 0
    }

    /// Reads one byte and moves past it.
    pub fn get_u8(&mut self) -> (r: u8)
        requires
            remaining_from(old(self)@.bytes.len(), old(self)@.pos as int) >= 1,
        ensures
            r == old(self)@.bytes[old(self)@.pos as int],
            final(self)@.bytes == old(self)@.bytes,
            final(self)@.pos == old(self)@.pos + 1,
    {
        let i = self.pos as usize;
        let b = self.bytes[i];
        self.pos = self.pos + 1;
        b
    }

    /// Reads a big-endian `i32` and moves past its four bytes.
    pub fn get_i32(&mut self) -> (r: i32)
        requires
            remaining_from(old(self)@.bytes.len(), old(self)@.pos as int) >= 4,
        ensures
            r == be_i32_at(old(self)@.bytes, old(self)@.pos as int),
            final(self)@.bytes == old(self)@.bytes,
            final(self)@.pos == old(self)@.pos + 4,
    {
        let i = self.pos as usize;
        let b0 = self.bytes[i] as u32;
        let b1 = self.bytes[i + 1] as u32;
        let b2 = self.bytes[i + 2] as u32;
        let b3 = self.bytes[i + 3] as u32;
        let u: u32 = b0 * 16777216 + b1 * 65536 + b2 * 256 + b3;
        self.pos = self.pos + 4;
        if u >= 2147483648 {
            ((u - 2147483648) as i32) - 2147483647 - 1
        } else {
            u as i32
        }
    }

    /// Moves the position by `offset`. Fails, and stays, where the new position
    /// would be negative or past `u64::MAX`.
    pub fn seek_current(&mut self, offset: i64) -> (r: bool)
        ensures
            r == (0 <= old(self)@.pos + offset <= u64::MAX),
            final(self)@.bytes == old(self)@.bytes,
            r ==> final(self)@.pos == old(self)@.pos + offset,
            !r ==> final(self)@ == old(self)@,
    {
        if offset >= 0 {
            let o = offset as u64;
            if self.pos <= u64::MAX - o {
                self.pos = self.pos + o;
                true
            } else {
                false
            }
        } else {
            let o: u64 = (-(offset + 1)) as u64 + 1;
            if o <= self.pos {
                self.pos = self.pos - o;
                true
            } else {
                false
            }
        }
    }
}

} // verus!
