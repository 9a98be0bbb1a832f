//! Readers for the items of each standard section, and the section decoders.
use vstd::prelude::*;
use crate::cursor::{read_step, Cursor};
use crate::error::ReadError;
use crate::grammar::{
    code_body_item, export_item, func_type_item, function_item, join, lemma_many_start, lemma_many_step,
    p_code_body, p_export, p_func_type, p_function, p_many, p_section, p_u32, p_value_kind,
    p_vec, value_kind_item, FUNC_TYPE_MARKER,
};
use crate::structure::{custom_of, CODE_SECTION, CUSTOM_SECTION, EXPORT_SECTION, FUNCTION_SECTION, TYPE_SECTION};
use crate::types::{
    lemma_views_push, view_res, views, CodeBody, Export, CustomSection, ExportTarget, FuncType, Function, ValueKind,
};

verus! {

/// Reads one value-kind byte.
pub fn read_value_kind(c: &mut Cursor) -> (r: Result<ValueKind, ReadError>)
    requires
        old(c).wf(),
    ensures
        read_step(*old(c), *final(c), p_value_kind(old(c).rest()), r),
{
    let mut d = *c;
    let t = match d.read_u8() {
        Ok(t) => t,
        Err(e) => return Err(e),
    };
    let k = if t == 0x7f {
        ValueKind::I32
    } else if t == 0x7e {
        ValueKind::I64
    } else if t == 0x7d {
        ValueKind::F32
    } else if t == 0x7c {
        ValueKind::F64
    } else if t == 0x7b {
        ValueKind::V128
    } else if t == 0x70 {
        ValueKind::FuncRef
    } else if t == 0x6f {
        ValueKind::ExternRef
    } else {
        return Err(ReadError::UnknownValueKind { tag: t });
    };
    *c = d;
    Ok(k)
}

/// Reads a vector of value kinds.
pub fn read_value_kinds(c: &mut Cursor) -> (r: Result<Vec<ValueKind>, ReadError>)
    requires
        old(c).wf(),
    ensures
        read_step(*old(c), *final(c), p_vec(old(c).rest(), value_kind_item()), view_res(r)),
{
    let ghost s0 = c.rest();
    let mut d = *c;
    let n = match d.read_varint_u32() {
        Ok(n) => n,
        Err(e) => return Err(e),
    };
    let ghost k0 = d.offset() - c.offset();
    let ghost s1 = s0.skip(k0);
    let ghost p = value_kind_item();
    let mut out: Vec<ValueKind> = Vec::new();
    let mut i: u32 = 0;
    proof {
        lemma_many_start(s1, n as nat, p);
        assert(s1.skip(0) =~= d.rest());
    }
    while i < n
        invariant
            d.wf(),
            d.buffer() == c.buffer(),
            c.wf(),
            *c == *old(c),
            s0 == c.rest(),
            p == value_kind_item(),
            0 <= k0 <= s0.len(),
            s1 == s0.skip(k0),
            p_u32(s0) == Ok::<(nat, int), ReadError>((n as nat, k0)),
            i <= n,
            0 <= d.offset() - c.offset() - k0 <= s1.len(),
            d.rest() == s1.skip(d.offset() - c.offset() - k0),
            p_many(s1, n as nat, p) == join(out@, d.offset() - c.offset() - k0,
                p_many(s1.skip(d.offset() - c.offset() - k0), (n - i) as nat, p)),
        decreases n - i,
    {
        let ghost cnt = d.offset() - c.offset() - k0;
        let ghost before = d;
        match read_value_kind(&mut d) {
            Ok(v) => {
                proof {
                    lemma_many_step(s1, (n - i) as nat, p, out@, cnt, v, d.offset() - before.offset());
                    assert(s1.skip(cnt).skip(d.offset() - before.offset()) =~= s1.skip(d.offset() - c.offset() - k0));
                }
                out.push(v);
            },
            Err(e) => {
                proof {
                    assert(p(s1.skip(cnt)) == p_value_kind(s1.skip(cnt)));
                }
                return Err(e);
            },
        }
        i = i + 1;
    }
    proof {
        let cnt = d.offset() - c.offset() - k0;
        assert(out@ + Seq::<ValueKind>::empty() =~= out@);
        assert(s0.skip(k0).skip(cnt) =~= s0.skip(k0 + cnt));
    }
    *c = d;
    Ok(out)
}

/// Reads one signature.
pub fn read_func_type(c: &mut Cursor) -> (r: Result<FuncType, ReadError>)
    requires
        old(c).wf(),
    ensures
        read_step(*old(c), *final(c), p_func_type(old(c).rest()), view_res(r)),
{
    let ghost s = c.rest();
    let mut d = *c;
    let t = match d.read_u8() {
        Ok(t) => t,
        Err(e) => return Err(e),
    };
    if t != FUNC_TYPE_MARKER {
        return Err(ReadError::UnknownValueKind { tag: t });
    }
    let ghost o1 = d.offset();
    let params = match read_value_kinds(&mut d) {
        Ok(v) => v,
        Err(e) => return Err(e),
    };
    let ghost o2 = d.offset();
    proof {
        assert(s.skip(1).skip(o2 - o1) =~= s.skip(1 + o2 - o1));
    }
    let results = match read_value_kinds(&mut d) {
        Ok(v) => v,
        Err(e) => return Err(e),
    };
    proof {
        assert(s.skip(1 + o2 - o1).skip(d.offset() - o2) =~= s.skip(d.offset() - c.offset()));
    }
    *c = d;
    Ok(FuncType { params, results })
}

/// Reads one function declaration.
pub fn read_function(c: &mut Cursor) -> (r: Result<Function, ReadError>)
    requires
        old(c).wf(),
    ensures
        read_step(*old(c), *final(c), p_function(old(c).rest()), r),
{
    match c.read_varint_u32() {
        Ok(v) => Ok(Function { type_index: v }),
        Err(e) => Err(e),
    }
}

/// Reads one export.
pub fn read_export(c: &mut Cursor) -> (r: Result<Export, ReadError>)
    requires
        old(c).wf(),
    ensures
        read_step(*old(c), *final(c), p_export(old(c).rest()), view_res(r)),
{
    let ghost s = c.rest();
    let mut d = *c;
    let name = match d.read_name() {
        Ok(v) => v,
        Err(e) => return Err(e),
    };
    let ghost k = d.offset() - c.offset();
    let tag = match d.read_u8() {
        Ok(t) => t,
        Err(e) => {
            assert(s.skip(k) == d.rest());
            return Err(e);
        },
    };
    proof {
        assert(s.skip(k).skip(1) =~= s.skip(k + 1));
    }
    let ghost o2 = d.offset();
    let index = match d.read_varint_u32() {
        Ok(v) => v,
        Err(e) => return Err(e),
    };
    proof {
        assert(s.skip(k + 1).skip(d.offset() - o2) =~= s.skip(d.offset() - c.offset()));
    }
    let target = if tag == 0 {
        ExportTarget::Function(index)
    } else if tag == 1 {
        ExportTarget::Table(index)
    } else if tag == 2 {
        ExportTarget::Memory(index)
    } else if tag == 3 {
        ExportTarget::Global(index)
    } else {
        return Err(ReadError::UnknownExportKind { tag });
    };
    *c = d;
    Ok(Export { name, target })
}

/// Reads one code entry, keeping the body's bytes verbatim.
pub fn read_code_body(c: &mut Cursor) -> (r: Result<CodeBody, ReadError>)
    requires
        old(c).wf(),
    ensures
        read_step(*old(c), *final(c), p_code_body(old(c).rest()), view_res(r)),
{
    let ghost s = c.rest();
    let mut d = *c;
    let len = match d.read_varint_u32() {
        Ok(v) => v,
        Err(e) => return Err(e),
    };
    let ghost k = d.offset() - c.offset();
    let bytes = match d.read_fixed(len as usize) {
        Ok(v) => v,
        Err(e) => return Err(e),
    };
    proof {
        assert(s.skip(k).skip(len as int) =~= s.skip(k + len));
    }
    *c = d;
    Ok(CodeBody { bytes })
}
/// Decodes the type section: a vector of signatures that fills the payload exactly.
pub fn decode_type_section(c: Cursor) -> (r: Result<Vec<FuncType>, ReadError>)
    requires
        c.wf(),
    ensures
        match p_section(c.rest(), TYPE_SECTION, func_type_item()) {
            Ok(xs) => r matches Ok(v) && views(v@) == xs,
            Err(e) => r == Err::<Vec<FuncType>, ReadError>(e),
        },
{
    let ghost s0 = c.rest();
    let mut d = c;
    let n = match d.read_varint_u32() {
        Ok(n) => n,
        Err(e) => return Err(e),
    };
    let ghost k0 = d.offset() - c.offset();
    let ghost s1 = s0.skip(k0);
    let ghost p = func_type_item();
    let mut out: Vec<FuncType> = Vec::new();
    let mut i: u32 = 0;
    proof {
        lemma_many_start(s1, n as nat, p);
        assert(s1.skip(0) =~= d.rest());
    }
    while i < n
        invariant
            d.wf(),
            d.buffer() == c.buffer(),
            c.wf(),
            s0 == c.rest(),
            p == func_type_item(),
            0 <= k0 <= s0.len(),
            s1 == s0.skip(k0),
            p_u32(s0) == Ok::<(nat, int), ReadError>((n as nat, k0)),
            i <= n,
            0 <= d.offset() - c.offset() - k0 <= s1.len(),
            d.rest() == s1.skip(d.offset() - c.offset() - k0),
            p_many(s1, n as nat, p) == join(views(out@), d.offset() - c.offset() - k0,
                p_many(s1.skip(d.offset() - c.offset() - k0), (n - i) as nat, p)),
        decreases n - i,
    {
        let ghost cnt = d.offset() - c.offset() - k0;
        let ghost before = d;
        match read_func_type(&mut d) {
            Ok(v) => {
                proof {
                    lemma_many_step(s1, (n - i) as nat, p, views(out@), cnt, v@, d.offset() - before.offset());
                    assert(s1.skip(cnt).skip(d.offset() - before.offset()) =~= s1.skip(d.offset() - c.offset() - k0));
                    lemma_views_push(out@, v);
                }
                out.push(v);
            },
            Err(e) => {
                proof {
                    assert(p(s1.skip(cnt)) == p_func_type(s1.skip(cnt)));
                }
                return Err(e);
            },
        }
        i = i + 1;
    }
    proof {
        let cnt = d.offset() - c.offset() - k0;
        assert(views(out@) + Seq::<crate::types::FuncTypeView>::empty() =~= views(out@));
        assert(s0.skip(k0).skip(cnt) =~= s0.skip(k0 + cnt));
    }
    if !d.is_empty() {
        return Err(ReadError::SectionOverrun { section: TYPE_SECTION });
    }
    Ok(out)
}

/// Decodes the function section: a vector of signature indices that fills the payload exactly.
pub fn decode_function_section(c: Cursor) -> (r: Result<Vec<Function>, ReadError>)
    requires
        c.wf(),
    ensures
        match p_section(c.rest(), FUNCTION_SECTION, function_item()) {
            Ok(xs) => r matches Ok(v) && v@ == xs,
            Err(e) => r == Err::<Vec<Function>, ReadError>(e),
        },
{
    let ghost s0 = c.rest();
    let mut d = c;
    let n = match d.read_varint_u32() {
        Ok(n) => n,
        Err(e) => return Err(e),
    };
    let ghost k0 = d.offset() - c.offset();
    let ghost s1 = s0.skip(k0);
    let ghost p = function_item();
    let mut out: Vec<Function> = Vec::new();
    let mut i: u32 = 0;
    proof {
        lemma_many_start(s1, n as nat, p);
        assert(s1.skip(0) =~= d.rest());
    }
    while i < n
        invariant
            d.wf(),
            d.buffer() == c.buffer(),
            c.wf(),
            s0 == c.rest(),
            p == function_item(),
            0 <= k0 <= s0.len(),
            s1 == s0.skip(k0),
            p_u32(s0) == Ok::<(nat, int), ReadError>((n as nat, k0)),
            i <= n,
            0 <= d.offset() - c.offset() - k0 <= s1.len(),
            d.rest() == s1.skip(d.offset() - c.offset() - k0),
            p_many(s1, n as nat, p) == join(out@, d.offset() - c.offset() - k0,
                p_many(s1.skip(d.offset() - c.offset() - k0), (n - i) as nat, p)),
        decreases n - i,
    {
        let ghost cnt = d.offset() - c.offset() - k0;
        let ghost before = d;
        match read_function(&mut d) {
            Ok(v) => {
                proof {
                    lemma_many_step(s1, (n - i) as nat, p, out@, cnt, v, d.offset() - before.offset());
                    assert(s1.skip(cnt).skip(d.offset() - before.offset()) =~= s1.skip(d.offset() - c.offset() - k0));
                    
                }
                out.push(v);
            },
            Err(e) => {
                proof {
                    assert(p(s1.skip(cnt)) == p_function(s1.skip(cnt)));
                }
                return Err(e);
            },
        }
        i = i + 1;
    }
    proof {
        let cnt = d.offset() - c.offset() - k0;
        assert(out@ + Seq::<Function>::empty() =~= out@);
        assert(s0.skip(k0).skip(cnt) =~= s0.skip(k0 + cnt));
    }
    if !d.is_empty() {
        return Err(ReadError::SectionOverrun { section: FUNCTION_SECTION });
    }
    Ok(out)
}

/// Decodes the export section: a vector of exports that fills the payload exactly.
pub fn decode_export_section(c: Cursor) -> (r: Result<Vec<Export>, ReadError>)
    requires
        c.wf(),
    ensures
        match p_section(c.rest(), EXPORT_SECTION, export_item()) {
            Ok(xs) => r matches Ok(v) && views(v@) == xs,
            Err(e) => r == Err::<Vec<Export>, ReadError>(e),
        },
{
    let ghost s0 = c.rest();
    let mut d = c;
    let n = match d.read_varint_u32() {
        Ok(n) => n,
        Err(e) => return Err(e),
    };
    let ghost k0 = d.offset() - c.offset();
    let ghost s1 = s0.skip(k0);
    let ghost p = export_item();
    let mut out: Vec<Export> = Vec::new();
    let mut i: u32 = 0;
    proof {
        lemma_many_start(s1, n as nat, p);
        assert(s1.skip(0) =~= d.rest());
    }
    while i < n
        invariant
            d.wf(),
            d.buffer() == c.buffer(),
            c.wf(),
            s0 == c.rest(),
            p == export_item(),
            0 <= k0 <= s0.len(),
            s1 == s0.skip(k0),
            p_u32(s0) == Ok::<(nat, int), ReadError>((n as nat, k0)),
            i <= n,
            0 <= d.offset() - c.offset() - k0 <= s1.len(),
            d.rest() == s1.skip(d.offset() - c.offset() - k0),
            p_many(s1, n as nat, p) == join(views(out@), d.offset() - c.offset() - k0,
                p_many(s1.skip(d.offset() - c.offset() - k0), (n - i) as nat, p)),
        decreases n - i,
    {
        let ghost cnt = d.offset() - c.offset() - k0;
        let ghost before = d;
        match read_export(&mut d) {
            Ok(v) => {
                proof {
                    lemma_many_step(s1, (n - i) as nat, p, views(out@), cnt, v@, d.offset() - before.offset());
                    assert(s1.skip(cnt).skip(d.offset() - before.offset()) =~= s1.skip(d.offset() - c.offset() - k0));
                    lemma_views_push(out@, v);
                }
                out.push(v);
            },
            Err(e) => {
                proof {
                    assert(p(s1.skip(cnt)) == p_export(s1.skip(cnt)));
                }
                return Err(e);
            },
        }
        i = i + 1;
    }
    proof {
        let cnt = d.offset() - c.offset() - k0;
        assert(views(out@) + Seq::<crate::types::ExportView>::empty() =~= views(out@));
        assert(s0.skip(k0).skip(cnt) =~= s0.skip(k0 + cnt));
    }
    if !d.is_empty() {
        return Err(ReadError::SectionOverrun { section: EXPORT_SECTION });
    }
    Ok(out)
}

/// Decodes the code section: a vector of code entries that fills the payload exactly.
pub fn decode_code_section(c: Cursor) -> (r: Result<Vec<CodeBody>, ReadError>)
    requires
        c.wf(),
    ensures
        match p_section(c.rest(), CODE_SECTION, code_body_item()) {
            Ok(xs) => r matches Ok(v) && views(v@) == xs,
            Err(e) => r == Err::<Vec<CodeBody>, ReadError>(e),
        },
{
    let ghost s0 = c.rest();
    let mut d = c;
    let n = match d.read_varint_u32() {
        Ok(n) => n,
        Err(e) => return Err(e),
    };
    let ghost k0 = d.offset() - c.offset();
    let ghost s1 = s0.skip(k0);
    let ghost p = code_body_item();
    let mut out: Vec<CodeBody> = Vec::new();
    let mut i: u32 = 0;
    proof {
        lemma_many_start(s1, n as nat, p);
        assert(s1.skip(0) =~= d.rest());
    }
    while i < n
        invariant
            d.wf(),
            d.buffer() == c.buffer(),
            c.wf(),
            s0 == c.rest(),
            p == code_body_item(),
            0 <= k0 <= s0.len(),
            s1 == s0.skip(k0),
            p_u32(s0) == Ok::<(nat, int), ReadError>((n as nat, k0)),
            i <= n,
            0 <= d.offset() - c.offset() - k0 <= s1.len(),
            d.rest() == s1.skip(d.offset() - c.offset() - k0),
            p_many(s1, n as nat, p) == join(views(out@), d.offset() - c.offset() - k0,
                p_many(s1.skip(d.offset() - c.offset() - k0), (n - i) as nat, p)),
        decreases n - i,
    {
        let ghost cnt = d.offset() - c.offset() - k0;
        let ghost before = d;
        match read_code_body(&mut d) {
            Ok(v) => {
                proof {
                    lemma_many_step(s1, (n - i) as nat, p, views(out@), cnt, v@, d.offset() - before.offset());
                    assert(s1.skip(cnt).skip(d.offset() - before.offset()) =~= s1.skip(d.offset() - c.offset() - k0));
                    lemma_views_push(out@, v);
                }
                out.push(v);
            },
            Err(e) => {
                proof {
                    assert(p(s1.skip(cnt)) == p_code_body(s1.skip(cnt)));
                }
                return Err(e);
            },
        }
        i = i + 1;
    }
    proof {
        let cnt = d.offset() - c.offset() - k0;
        assert(views(out@) + Seq::<Seq<u8>>::empty() =~= views(out@));
        assert(s0.skip(k0).skip(cnt) =~= s0.skip(k0 + cnt));
    }
    if !d.is_empty() {
        return Err(ReadError::SectionOverrun { section: CODE_SECTION });
    }
    Ok(out)
}

/// Keeps a section that is not decoded: for a custom section, its name
/// where it reads and the bytes after; for any other kind, the payload.
pub fn decode_custom_section(c: Cursor, id: u8) -> (r: CustomSection)
    requires
        c.wf(),
    ensures
        r@ == custom_of(c.rest(), id),
{
    let mut d = c;
    if id == CUSTOM_SECTION {
        match d.read_name() {
            Ok(name) => {
                let n = d.remaining();
                let ghost r1 = d.rest();
                proof {
                    assert(r1.take(n as int) =~= r1);
                }
                let payload = match d.read_fixed(n) {
                    Ok(p) => p,
                    Err(_) => Vec::new(),
                };
                return CustomSection { id, name, payload };
            },
            Err(_) => {},
        }
    }
    let n = c.remaining();
    let mut e = c;
    let payload = match e.read_fixed(n) {
        Ok(p) => p,
        Err(_) => Vec::new(),
    };
    proof {
        assert(c.rest().take(n as int) =~= c.rest());
    }
    CustomSection { id, name: Vec::new(), payload }
}

} // verus!
