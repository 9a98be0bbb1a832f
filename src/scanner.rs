//! The module header and the section table.
use vstd::prelude::*;
use crate::cursor::Cursor;
use crate::error::ReadError;
use crate::structure::{magic, p_header, scan, version_one, Section};

verus! {

/// Reads the header: the magic bytes, then version one.
pub fn read_header(c: &mut Cursor) -> (r: Result<(), ReadError>)
    requires
        old(c).wf(),
    ensures
        final(c).wf(),
        final(c).buffer() == old(c).buffer(),
        match p_header(old(c).rest()) {
            Ok(k) => r is Ok && final(c).rest() == old(c).rest().skip(k) && final(c).offset() == old(c).offset() + k,
            Err(e) => r == Err::<(), ReadError>(e) && *final(c) == *old(c),
        },
{
    let ghost s = c.rest();
    if c.remaining() < 4 {
        return Err(ReadError::UnexpectedEof);
    }
    let good_magic = c.peek_at(0) == 0x00 && c.peek_at(1) == 0x61 && c.peek_at(2) == 0x73 && c.peek_at(3) == 0x6d;
    proof {
        let m = s.take(4);
        if m == magic() {
            assert(m[0] == s[0] && m[1] == s[1] && m[2] == s[2] && m[3] == s[3]);
        }
        if good_magic {
            assert(m =~= magic());
        }
    }
    if !good_magic {
        return Err(ReadError::BadMagic);
    }
    if c.remaining() < 8 {
        return Err(ReadError::UnexpectedEof);
    }
    let good_version = c.peek_at(4) == 0x01 && c.peek_at(5) == 0x00 && c.peek_at(6) == 0x00 && c.peek_at(7) == 0x00;
    proof {
        let v = s.subrange(4, 8);
        if v == version_one() {
            assert(v[0] == s[4] && v[1] == s[5] && v[2] == s[6] && v[3] == s[7]);
        }
        if good_version {
            assert(v =~= version_one());
        }
    }
    if !good_version {
        return Err(ReadError::UnsupportedVersion);
    }
    match c.take(8) {
        Ok(_) => Ok(()),
        Err(e) => Err(e),
    }
}

/// The sections read so far, put before what the rest of the table gives.
pub open spec fn prepend(acc: Seq<Section>, r: Result<Seq<Section>, ReadError>) -> Result<Seq<Section>, ReadError> {
    match r {
        Ok(xs) => Ok(acc + xs),
        Err(e) => Err(e),
    }
}

/// Reads the section table up to the end of the cursor: each section's kind
/// and where its payload lies, without decoding any payload.
pub fn scan_sections(c: &mut Cursor) -> (r: Result<Vec<Section>, ReadError>)
    requires
        old(c).wf(),
    ensures
        match scan(old(c).rest(), old(c).offset()) {
            Ok(ss) => r matches Ok(v) && v@ == ss,
            Err(e) => r == Err::<Vec<Section>, ReadError>(e),
        },
{
    let ghost s0 = c.rest();
    let ghost o0 = c.offset();
    let mut out: Vec<Section> = Vec::new();
    proof {
        match scan(s0, o0) {
            Ok(xs) => assert(Seq::<Section>::empty() + xs =~= xs),
            Err(_) => {},
        }
    }
    while !c.is_empty()
        invariant
            c.wf(),
            c.buffer() == old(c).buffer(),
            s0 == old(c).rest(),
            o0 == old(c).offset(),
            scan(s0, o0) == prepend(out@, scan(c.rest(), c.offset())),
        decreases c.rest().len(),
    {
        let ghost s = c.rest();
        let ghost o = c.offset();
        let id = match c.read_u8() {
            Ok(b) => b,
            Err(e) => return Err(e),
        };
        let len = match c.read_varint_u32() {
            Ok(v) => v,
            Err(e) => return Err(e),
        };
        let ghost k = c.offset() - o - 1;
        proof {
            assert(s.skip(1).skip(k) =~= s.skip(1 + k));
        }
        if len as usize > c.remaining() {
            return Err(ReadError::TruncatedSection { section: id });
        }
        let start = c.position();
        let _ = c.take(len as usize);
        proof {
            assert(s.skip(1 + k).skip(len as int) =~= s.skip(1 + k + len));
            let sec = Section { id, offset: start, len: len as usize };
            match scan(c.rest(), c.offset()) {
                Ok(xs) => assert(out@ + (seq![sec] + xs) =~= out@.push(sec) + xs),
                Err(_) => {},
            }
        }
        out.push(Section { id, offset: start, len: len as usize });
    }
    proof {
        assert(out@ + Seq::<Section>::empty() =~= out@);
    }
    Ok(out)
}

} // verus!
