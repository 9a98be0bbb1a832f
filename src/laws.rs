//! Properties of the reader as a whole, proved over the grammar.
use vstd::prelude::*;
use crate::error::ReadError;
use crate::grammar::{leb, lemma_leb_unending, p_sleb, p_u32, p_uleb};
use crate::encoding::{
    enc_u32, lemma_minimal_build, lemma_minimal_header, lemma_minimal_scan, minimal_module, minimal_view,
};
use crate::reader::{export_signature, first_named};
use crate::structure::{
    export_names_unique, exports_in_bounds, p_header, parse, scan, type_indices_in_bounds, validate, Section,
};
use crate::types::{FuncTypeView, ModuleView};

verus! {

/// Every module that reads has as many code bodies as functions, so that
/// the body at index `i` is the one of function `i`; and every type index,
/// function export index and export name is in order.
pub proof fn lemma_parsed_module_aligned(bytes: Seq<u8>)
    requires
        parse(bytes) is Ok,
    ensures
        parse(bytes)->Ok_0.functions.len() == parse(bytes)->Ok_0.code.len(),
        type_indices_in_bounds(parse(bytes)->Ok_0),
        exports_in_bounds(parse(bytes)->Ok_0),
        export_names_unique(parse(bytes)->Ok_0),
{
}

/// Reading depends on the bytes alone: the same buffer read twice gives
/// equal results.
pub proof fn lemma_parse_deterministic(a: Seq<u8>, b: Seq<u8>)
    requires
        a == b,
    ensures
        parse(a) == parse(b),
{
}

/// A module whose section table, after any run of complete sections,
/// holds a section that declares more payload bytes than the buffer still
/// holds fails as a truncated section of that kind, never as a short read.
pub proof fn lemma_overlong_section(s: Seq<u8>, complete: Seq<u8>, len: nat, k: int)
    requires
        p_header(s) == Ok::<int, ReadError>(8),
        scan(complete, 8) is Ok,
        s.len() > 8 + complete.len() as int,
        s.subrange(8, 8 + complete.len() as int) == complete,
        p_u32(s.skip(8 + complete.len() as int + 1)) == Ok::<(nat, int), ReadError>((len, k)),
        8 + complete.len() as int + 1 + k + len > s.len(),
    ensures
        parse(s) == Err::<ModuleView, ReadError>(
            ReadError::TruncatedSection { section: s[8 + complete.len() as int] },
        ),
{
    let r = s.skip(8 + complete.len() as int);
    assert(s.skip(8) =~= complete + r);
    lemma_scan_concat(complete, r, 8);
    assert(r.skip(1) =~= s.skip(8 + complete.len() as int + 1));
    assert(r[0] == s[8 + complete.len() as int]);
    assert(scan(r, 8 + complete.len() as int) == Err::<Seq<Section>, ReadError>(
        ReadError::TruncatedSection { section: r[0] },
    ));
}

/// Reading a table that ends where `p` ends, then going on: the sections
/// of `p`, then those of what follows.
pub proof fn lemma_scan_concat(p: Seq<u8>, r: Seq<u8>, base: int)
    requires
        scan(p, base) is Ok,
    ensures
        scan(p + r, base) == match scan(r, base + p.len()) {
            Ok(ys) => Ok(scan(p, base)->Ok_0 + ys),
            Err(e) => Err::<Seq<Section>, ReadError>(e),
        },
    decreases p.len(),
{
    if p.len() == 0 {
        assert(p + r =~= r);
        match scan(r, base) {
            Ok(ys) => assert(Seq::<Section>::empty() + ys =~= ys),
            Err(_) => {},
        }
    } else {
        let q = p + r;
        assert(q[0] == p[0]);
        assert(q.skip(1) =~= p.skip(1) + r);
        lemma_u32_extend(p.skip(1), r);
        let (len, k) = p_u32(p.skip(1))->Ok_0;
        let n = 1 + k + len;
        assert(q.skip(n) =~= p.skip(n) + r);
        lemma_scan_concat(p.skip(n), r, base + n);
        match scan(r, base + p.len()) {
            Ok(ys) => {
                let sec = Section { id: p[0], offset: (base + 1 + k) as usize, len: len as usize };
                let xs = scan(p.skip(n), base + n)->Ok_0;
                assert(seq![sec] + (xs + ys) =~= (seq![sec] + xs) + ys);
            },
            Err(_) => {},
        }
    }
}

/// A 32-bit varint that reads from `s` reads the same with bytes after it.
pub proof fn lemma_u32_extend(s: Seq<u8>, r: Seq<u8>)
    requires
        p_u32(s) is Ok,
    ensures
        p_u32(s + r) == p_u32(s),
{
    lemma_leb_extend(s, r, 5);
}

/// A group reading that ends within `s` ends the same with bytes after it.
pub proof fn lemma_leb_extend(s: Seq<u8>, r: Seq<u8>, limit: nat)
    requires
        leb(s, limit) is Some,
    ensures
        leb(s + r, limit) == leb(s, limit),
    decreases limit,
{
    assert((s + r)[0] == s[0]);
    if s[0] >= 128 {
        assert((s + r).drop_first() =~= s.drop_first() + r);
        lemma_leb_extend(s.drop_first(), r, (limit - 1) as nat);
    }
}

/// A varint whose high bit is set on every byte up to the width limit
/// fails as malformed, unsigned or signed, of any width.
pub proof fn lemma_unending_varint(s: Seq<u8>, limit: nat, bound: nat)
    requires
        s.len() > 0,
        forall|i: int| 0 <= i < limit && i < s.len() ==> s[i] >= 128,
    ensures
        p_uleb(s, limit, bound) == Err::<(nat, int), ReadError>(ReadError::MalformedVarint),
        p_sleb(s, limit, bound) == Err::<(int, int), ReadError>(ReadError::MalformedVarint),
{
    lemma_leb_unending(s, limit);
}

/// Encoding a module of one signature, one function of it, one export of
/// that function and its body, then reading it, gives exactly one export,
/// which resolves to the declared signature.
pub proof fn lemma_minimal_module_round_trip(t: FuncTypeView, name: Seq<u8>)
    requires
        t.params.len() + t.results.len() + 12 < 0x1_0000_0000,
        name.len() + 8 < 0x1_0000_0000,
        vstd::utf8::valid_utf8(name),
        minimal_module(t, name).len() <= usize::MAX,
    ensures
        parse(minimal_module(t, name)) is Ok,
        parse(minimal_module(t, name))->Ok_0.exports.len() == 1,
        first_named(parse(minimal_module(t, name))->Ok_0, name, 0),
        export_signature(parse(minimal_module(t, name))->Ok_0, 0) == Some(t),
{
    let m = minimal_module(t, name);
    lemma_minimal_header(t, name);
    lemma_minimal_scan(t, name);
    lemma_minimal_build(t, name);
    let mv = minimal_view(t, name);
    assert(type_indices_in_bounds(mv));
    assert(exports_in_bounds(mv));
    assert(export_names_unique(mv));
    assert(validate(mv) is Ok);
    assert(parse(m) == Ok::<ModuleView, ReadError>(mv));
}

/// A value below `2^32` takes at most five bytes.
proof fn lemma_u32_len(v: nat)
    requires
        v < 0x1_0000_0000,
    ensures
        1 <= enc_u32(v).len() <= 5,
{
    crate::encoding::lemma_u32_enc(v, Seq::empty());
}

} // verus!
