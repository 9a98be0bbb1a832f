//! A bounds-checked, forward-only reader over a byte buffer.
use vstd::prelude::*;
use crate::error::ReadError;
use crate::types::view_res;
use crate::grammar::{leb, p_fixed, p_i32, p_i64, p_name, p_u32, p_u64, p_u8, pow128};

verus! {

/// A window `[pos, end)` of a borrowed buffer; reads advance `pos`.
#[derive(Clone, Copy)]
pub struct Cursor<'a> {
    data: &'a [u8],
    pos: usize,
    end: usize,
}

impl<'a> Cursor<'a> {
    /// The window is inside the buffer.
    pub closed spec fn wf(&self) -> bool {
        self.pos <= self.end <= self.data@.len()
    }

    /// The whole buffer.
    pub closed spec fn buffer(&self) -> Seq<u8> {
        self.data@
    }

    /// The offset of the next byte in the whole buffer.
    pub closed spec fn offset(&self) -> int {
        self.pos as int
    }

    /// The bytes not yet read.
    pub closed spec fn rest(&self) -> Seq<u8> {
        self.data@.subrange(self.pos as int, self.end as int)
    }

    /// A cursor over a whole buffer.
    pub fn new(data: &'a [u8]) -> (r: Cursor<'a>)
        ensures
            r.wf(),
            r.rest() == data@,
            r.buffer() == data@,
            r.offset() == 0,
    {
        let r = Cursor { data, pos: 0, end: data.len() };
        assert(r.rest() =~= data@);
        r
    }

    /// A cursor over the `len` bytes of a buffer from `offset` on.
    pub fn window(data: &'a [u8], offset: usize, len: usize) -> (r: Cursor<'a>)
        requires
            offset + len <= data@.len(),
        ensures
            r.wf(),
            r.rest() == data@.subrange(offset as int, offset + len),
            r.buffer() == data@,
            r.offset() == offset,
    {
        let n = data.len();
        assert(n == data@.len());
        Cursor { data, pos: offset, end: offset + len }
    }

    /// The offset of the next byte in the whole buffer.
    pub fn position(&self) -> (r: usize)
        ensures
            r == self.offset(),
    {
        self.pos
    }

    /// How many bytes are left to read.
    pub fn remaining(&self) -> (r: usize)
        requires
            self.wf(),
        ensures
            r == self.rest().len(),
    {
        self.end - self.pos
    }

    /// The byte `i` places ahead, not consumed.
    pub fn peek_at(&self, i: usize) -> (r: u8)
        requires
            self.wf(),
            i < self.rest().len(),
        ensures
            r == self.rest()[i as int],
    {
        self.data[self.pos + i]
    }

    /// Whether every byte has been read.
    pub fn is_empty(&self) -> (r: bool)
        requires
            self.wf(),
        ensures
            r == (self.rest().len() == 0),
    {
        self.pos == self.end
    }

    /// Reads one byte.
    pub fn read_u8(&mut self) -> (r: Result<u8, ReadError>)
        requires
            old(self).wf(),
        ensures
            read_step(*old(self), *final(self), p_u8(old(self).rest()), r),
    {
        if self.pos < self.end {
            let b = self.data[self.pos];
            self.pos = self.pos + 1;
            assert(self.rest() =~= old(self).rest().skip(1));
            Ok(b)
        } else {
            Err(ReadError::UnexpectedEof)
        }
    }

    /// The next `n` bytes, copied out.
    pub fn read_fixed(&mut self, n: usize) -> (r: Result<Vec<u8>, ReadError>)
        requires
            old(self).wf(),
        ensures
            read_step(*old(self), *final(self), p_fixed(old(self).rest(), n as nat), view_res(r)),
    {
        if n > self.end - self.pos {
            return Err(ReadError::UnexpectedEof);
        }
        let mut out: Vec<u8> = Vec::new();
        let mut i: usize = 0;
        while i < n
            invariant
                self.wf(),
                *self == *old(self),
                n <= self.end - self.pos,
                i <= n,
                out@ == self.rest().take(i as int),
            decreases n - i,
        {
            out.push(self.data[self.pos + i]);
            i = i + 1;
            assert(out@ =~= self.rest().take(i as int));
        }
        self.pos = self.pos + n;
        assert(self.rest() =~= old(self).rest().skip(n as int));
        Ok(out)
    }

    /// The next `n` bytes as a cursor of their own; this cursor moves past them.
    pub fn take(&mut self, n: usize) -> (r: Result<Cursor<'a>, ReadError>)
        requires
            old(self).wf(),
        ensures
            read_step(*old(self), *final(self), p_fixed(old(self).rest(), n as nat), rest_of(r)),
            r matches Ok(c) ==> c.wf() && c.buffer() == old(self).buffer() && c.offset() == old(self).offset(),
    {
        if n > self.end - self.pos {
            return Err(ReadError::UnexpectedEof);
        }
        let c = Cursor { data: self.data, pos: self.pos, end: self.pos + n };
        self.pos = self.pos + n;
        assert(self.rest() =~= old(self).rest().skip(n as int));
        assert(c.rest() =~= old(self).rest().take(n as int));
        Ok(c)
    }

    /// Reads a name: a 32-bit varint length, then that many bytes, which must
    /// be well-formed UTF-8.
    pub fn read_name(&mut self) -> (r: Result<Vec<u8>, ReadError>)
        requires
            old(self).wf(),
        ensures
            read_step(*old(self), *final(self), p_name(old(self).rest()), view_res(r)),
    {
        let mut c = *self;
        let len = match c.read_varint_u32() {
            Ok(len) => len,
            Err(e) => return Err(e),
        };
        let ghost k = c.offset() - self.offset();
        let bytes = match c.read_fixed(len as usize) {
            Ok(b) => b,
            Err(e) => return Err(e),
        };
        if !is_utf8(bytes.as_slice()) {
            return Err(ReadError::InvalidUtf8);
        }
        proof {
            let s = old(self).rest();
            assert(s.skip(k).skip(len as int) =~= s.skip(k + len));
        }
        *self = c;
        Ok(bytes)
    }

    /// The group reading of the next bytes, not consumed: value, length, and
    /// the weight `128^length` of the group past the last.
    fn peek_leb(&self, limit: usize) -> (r: Option<(u128, usize, u128)>)
        requires
            self.wf(),
            limit <= 10,
        ensures
            match leb(self.rest(), limit as nat) {
                Some((v, n)) => r == Some((v as u128, n as usize, pow128(n) as u128)) && v < pow128(n)
                    && 1 <= n <= limit && n <= self.rest().len() && pow128(n) <= 0x40_0000_0000_0000_0000,
                None => r is None,
            },
    {
        let ghost s = self.rest();
        let avail = self.end - self.pos;
        let mut i: usize = 0;
        let mut acc: u128 = 0;
        let mut scale: u128 = 1;
        proof {
            assert(s.skip(0) =~= s);
            lemma_pow128_bound(0);
        }
        while i < limit && i < avail
            invariant
                self.wf(),
                s == self.rest(),
                avail == s.len(),
                limit <= 10,
                i <= limit,
                i <= avail,
                scale == pow128(i as nat),
                acc < scale,
                scale <= pow128(10),
                leb(s, limit as nat) == lift(leb(s.skip(i as int), (limit - i) as nat), acc as nat, scale as nat, i as nat),
            decreases limit - i,
        {
            let b = self.data[self.pos + i];
            assert(b == s.skip(i as int)[0]);
            proof {
                lemma_pow128_bound((i + 1) as nat);
            }
            if b < 128 {
                assert(acc + scale * b < scale * 128) by (nonlinear_arith)
                    requires acc < scale, b < 128;
                return Some((acc + scale * (b as u128), i + 1, scale * 128));
            }
            proof {
                let t = s.skip(i as int);
                assert(t.drop_first() =~= s.skip(i + 1));
                let g = (b - 128) as nat;
                match leb(s.skip(i + 1), (limit - i - 1) as nat) {
                    Some((v, n)) => {
                        assert(acc + scale * (g + 128 * v) == (acc + scale * g) + (scale * 128) * v) by (nonlinear_arith);
                    },
                    None => {},
                }
                assert(acc + scale * g < scale * 128) by (nonlinear_arith)
                    requires acc < scale, g < 128;
            }
            acc = acc + scale * ((b - 128) as u128);
            scale = scale * 128;
            i = i + 1;
        }
        None
    }

    /// Reads an unsigned varint of at most five bytes that fits 32 bits.
    pub fn read_varint_u32(&mut self) -> (r: Result<u32, ReadError>)
        requires
            old(self).wf(),
        ensures
            read_step(*old(self), *final(self), p_u32(old(self).rest()), nat_of_u32(r)),
    {
        if self.pos == self.end {
            return Err(ReadError::UnexpectedEof);
        }
        match self.peek_leb(5) {
            None => Err(ReadError::MalformedVarint),
            Some((v, n, _)) => {
                if v < 0x1_0000_0000 {
                    self.pos = self.pos + n;
                    assert(self.rest() =~= old(self).rest().skip(n as int));
                    Ok(v as u32)
                } else {
                    Err(ReadError::MalformedVarint)
                }
            },
        }
    }

    /// Reads an unsigned varint of at most ten bytes that fits 64 bits.
    pub fn read_varint_u64(&mut self) -> (r: Result<u64, ReadError>)
        requires
            old(self).wf(),
        ensures
            read_step(*old(self), *final(self), p_u64(old(self).rest()), nat_of_u64(r)),
    {
        if self.pos == self.end {
            return Err(ReadError::UnexpectedEof);
        }
        match self.peek_leb(10) {
            None => Err(ReadError::MalformedVarint),
            Some((v, n, _)) => {
                if v < 0x1_0000_0000_0000_0000 {
                    self.pos = self.pos + n;
                    assert(self.rest() =~= old(self).rest().skip(n as int));
                    Ok(v as u64)
                } else {
                    Err(ReadError::MalformedVarint)
                }
            },
        }
    }

    /// Reads a signed varint of at most five bytes that fits 32 bits.
    pub fn read_varint_i32(&mut self) -> (r: Result<i32, ReadError>)
        requires
            old(self).wf(),
        ensures
            read_step(*old(self), *final(self), p_i32(old(self).rest()), int_of_i32(r)),
    {
        if self.pos == self.end {
            return Err(ReadError::UnexpectedEof);
        }
        match self.peek_leb(5) {
            None => Err(ReadError::MalformedVarint),
            Some((v, n, w)) => {
                let last = self.data[self.pos + n - 1];
                assert(last == self.rest()[n - 1]);

                let x: i128 = if last >= 64 { v as i128 - w as i128 } else { v as i128 };
                if -0x8000_0000 <= x && x < 0x8000_0000 {
                    self.pos = self.pos + n;
                    assert(self.rest() =~= old(self).rest().skip(n as int));
                    Ok(x as i32)
                } else {
                    Err(ReadError::MalformedVarint)
                }
            },
        }
    }

    /// Reads a signed varint of at most ten bytes that fits 64 bits.
    pub fn read_varint_i64(&mut self) -> (r: Result<i64, ReadError>)
        requires
            old(self).wf(),
        ensures
            read_step(*old(self), *final(self), p_i64(old(self).rest()), int_of_i64(r)),
    {
        if self.pos == self.end {
            return Err(ReadError::UnexpectedEof);
        }
        match self.peek_leb(10) {
            None => Err(ReadError::MalformedVarint),
            Some((v, n, w)) => {
                let last = self.data[self.pos + n - 1];
                assert(last == self.rest()[n - 1]);

                let x: i128 = if last >= 64 { v as i128 - w as i128 } else { v as i128 };
                if -0x8000_0000_0000_0000 <= x && x < 0x8000_0000_0000_0000 {
                    self.pos = self.pos + n;
                    assert(self.rest() =~= old(self).rest().skip(n as int));
                    Ok(x as i64)
                } else {
                    Err(ReadError::MalformedVarint)
                }
            },
        }
    }
}

/// Relies on `std::str::from_utf8`, which succeeds exactly on well-formed UTF-8.
#[verifier::external_body]
fn is_utf8(b: &[u8]) -> (r: bool)
    ensures
        r == vstd::utf8::valid_utf8(b@),
{
    std::str::from_utf8(b).is_ok()
}

/// `c1` is `c0` after a read that the grammar answers with `res`, and `r` is
/// the view of what the read returned: on success the bytes read are gone,
/// on failure nothing moved.
pub open spec fn read_step<T>(c0: Cursor, c1: Cursor, res: Result<(T, int), ReadError>, r: Result<T, ReadError>) -> bool {
    &&& c1.wf()
    &&& c1.buffer() == c0.buffer()
    &&& match res {
        Ok((v, n)) => r == Ok::<T, ReadError>(v) && 0 <= n <= c0.rest().len()
            && c1.rest() == c0.rest().skip(n) && c1.offset() == c0.offset() + n,
        Err(e) => r == Err::<T, ReadError>(e) && c1 == c0,
    }
}

/// The value of an unsigned result.
pub open spec fn nat_of_u32(r: Result<u32, ReadError>) -> Result<nat, ReadError> {
    match r {
        Ok(v) => Ok(v as nat),
        Err(e) => Err(e),
    }
}

/// The value of an unsigned result.
pub open spec fn nat_of_u64(r: Result<u64, ReadError>) -> Result<nat, ReadError> {
    match r {
        Ok(v) => Ok(v as nat),
        Err(e) => Err(e),
    }
}

/// The value of a signed result.
pub open spec fn int_of_i32(r: Result<i32, ReadError>) -> Result<int, ReadError> {
    match r {
        Ok(v) => Ok(v as int),
        Err(e) => Err(e),
    }
}

/// The value of a signed result.
pub open spec fn int_of_i64(r: Result<i64, ReadError>) -> Result<int, ReadError> {
    match r {
        Ok(v) => Ok(v as int),
        Err(e) => Err(e),
    }
}

/// The unread bytes of a cursor result.
pub open spec fn rest_of(r: Result<Cursor, ReadError>) -> Result<Seq<u8>, ReadError> {
    match r {
        Ok(c) => Ok(c.rest()),
        Err(e) => Err(e),
    }
}

/// A group reading of the bytes after the first `i`, seen from the start:
/// `acc` is the value of the first `i` groups and `scale` the next weight.
pub open spec fn lift(o: Option<(nat, nat)>, acc: nat, scale: nat, i: nat) -> Option<(nat, nat)> {
    match o {
        Some((v, n)) => Some((acc + scale * v, n + i)),
        None => None,
    }
}

/// Group weights grow with the group and stay within 70 bits for ten groups.
pub proof fn lemma_pow128_bound(n: nat)
    requires
        n <= 10,
    ensures
        pow128(n) <= pow128(10),
        pow128(10) == 0x40_0000_0000_0000_0000,
        n > 0 ==> pow128(n) == 128 * pow128((n - 1) as nat),
    decreases 10 - n,
{
    reveal_with_fuel(pow128, 11);
    if n < 10 {
        lemma_pow128_bound(n + 1);
    }
}

} // verus!
