//! The byte grammar of a module, as spec functions over `Seq<u8>`.
//!
//! Each item parser maps the remaining bytes to the value read and the
//! number of bytes it took, or to the error that reading must report.
use vstd::prelude::*;
use crate::error::ReadError;
use crate::types::{ExportTarget, ExportView, FuncTypeView, Function, ValueKind};

verus! {

/// `128` raised to `n`: the weight of the `n`-th seven-bit group.
pub open spec fn pow128(n: nat) -> nat
    decreases n,
{
    if n == 0 {
        1
    } else {
        128 * pow128((n - 1) as nat)
    }
}

/// One byte.
pub open spec fn p_u8(s: Seq<u8>) -> Result<(u8, int), ReadError> {
    if s.len() == 0 {
        Err(ReadError::UnexpectedEof)
    } else {
        Ok((s[0], 1))
    }
}

/// `n` bytes taken whole.
pub open spec fn p_fixed(s: Seq<u8>, n: nat) -> Result<(Seq<u8>, int), ReadError> {
    if s.len() < n {
        Err(ReadError::UnexpectedEof)
    } else {
        Ok((s.take(n as int), n as int))
    }
}

/// The groups of a base-128 integer of at most `limit` bytes, low group
/// first, ended by the first byte whose high bit is clear: its value and its
/// length in bytes. `None` where no byte ends it within `limit` bytes.
pub open spec fn leb(s: Seq<u8>, limit: nat) -> Option<(nat, nat)>
    decreases limit,
{
    if limit == 0 || s.len() == 0 {
        None
    } else if s[0] < 128 {
        Some((s[0] as nat, 1))
    } else {
        match leb(s.drop_first(), (limit - 1) as nat) {
            Some((v, n)) => Some(((s[0] - 128) as nat + 128 * v, n + 1)),
            None => None,
        }
    }
}

/// An unsigned varint of at most `limit` bytes whose value is below `bound`.
pub open spec fn p_uleb(s: Seq<u8>, limit: nat, bound: nat) -> Result<(nat, int), ReadError> {
    if s.len() == 0 {
        Err(ReadError::UnexpectedEof)
    } else {
        match leb(s, limit) {
            Some((v, n)) => if v < bound {
                Ok((v, n as int))
            } else {
                Err(ReadError::MalformedVarint)
            },
            None => Err(ReadError::MalformedVarint),
        }
    }
}

/// The two's-complement reading of the `7 * n` bits of a varint of `n` bytes
/// whose last byte is `last`: negative where that byte's bit six is set.
pub open spec fn sign_extend(v: nat, n: nat, last: u8) -> int {
    if last >= 64 {
        v - pow128(n)
    } else {
        v as int
    }
}

/// A signed varint of at most `limit` bytes within `[-half, half)`.
pub open spec fn p_sleb(s: Seq<u8>, limit: nat, half: nat) -> Result<(int, int), ReadError> {
    if s.len() == 0 {
        Err(ReadError::UnexpectedEof)
    } else {
        match leb(s, limit) {
            Some((v, n)) => {
                let x = sign_extend(v, n, s[n - 1]);
                if -half <= x < half {
                    Ok((x, n as int))
                } else {
                    Err(ReadError::MalformedVarint)
                }
            },
            None => Err(ReadError::MalformedVarint),
        }
    }
}

/// An unsigned 32-bit varint: at most five bytes.
pub open spec fn p_u32(s: Seq<u8>) -> Result<(nat, int), ReadError> {
    p_uleb(s, 5, 0x1_0000_0000)
}

/// An unsigned 64-bit varint: at most ten bytes.
pub open spec fn p_u64(s: Seq<u8>) -> Result<(nat, int), ReadError> {
    p_uleb(s, 10, 0x1_0000_0000_0000_0000)
}

/// A signed 32-bit varint: at most five bytes.
pub open spec fn p_i32(s: Seq<u8>) -> Result<(int, int), ReadError> {
    p_sleb(s, 5, 0x8000_0000)
}

/// A signed 64-bit varint: at most ten bytes.
pub open spec fn p_i64(s: Seq<u8>) -> Result<(int, int), ReadError> {
    p_sleb(s, 10, 0x8000_0000_0000_0000)
}

/// A name: a 32-bit length, then that many bytes of well-formed UTF-8.
pub open spec fn p_name(s: Seq<u8>) -> Result<(Seq<u8>, int), ReadError> {
    match p_u32(s) {
        Err(e) => Err(e),
        Ok((len, k)) => match p_fixed(s.skip(k), len) {
            Err(e) => Err(e),
            Ok((b, m)) => if vstd::utf8::valid_utf8(b) {
                Ok((b, k + m))
            } else {
                Err(ReadError::InvalidUtf8)
            },
        },
    }
}

/// The group reading finds no end where every byte in reach has its high bit set.
pub proof fn lemma_leb_unending(s: Seq<u8>, limit: nat)
    requires
        forall|i: int| 0 <= i < limit && i < s.len() ==> s[i] >= 128,
    ensures
        leb(s, limit) is None,
    decreases limit,
{
    if limit > 0 && s.len() > 0 {
        assert(s[0] >= 128);
        let t = s.drop_first();
        assert forall|i: int| 0 <= i < limit - 1 && i < t.len() implies t[i] >= 128 by {
            assert(t[i] == s[i + 1]);
        }
        lemma_leb_unending(t, (limit - 1) as nat);
    }
}

/// `n` items, each read by `p` from where the one before ended.
pub open spec fn p_many<T>(s: Seq<u8>, n: nat, p: spec_fn(Seq<u8>) -> Result<(T, int), ReadError>) -> Result<(Seq<T>, int), ReadError>
    decreases n,
{
    if n == 0 {
        Ok((Seq::empty(), 0))
    } else {
        match p(s) {
            Err(e) => Err(e),
            Ok((x, k)) => match p_many(s.skip(k), (n - 1) as nat, p) {
                Err(e) => Err(e),
                Ok((xs, m)) => Ok((seq![x] + xs, k + m)),
            },
        }
    }
}

/// A vector: a 32-bit varint count, then that many items read by `p`.
pub open spec fn p_vec<T>(s: Seq<u8>, p: spec_fn(Seq<u8>) -> Result<(T, int), ReadError>) -> Result<(Seq<T>, int), ReadError> {
    match p_u32(s) {
        Err(e) => Err(e),
        Ok((n, k)) => match p_many(s.skip(k), n, p) {
            Err(e) => Err(e),
            Ok((xs, m)) => Ok((xs, k + m)),
        },
    }
}

/// The items `acc` already read in `c` bytes, put before what is read next.
pub open spec fn join<T>(acc: Seq<T>, c: int, r: Result<(Seq<T>, int), ReadError>) -> Result<(Seq<T>, int), ReadError> {
    match r {
        Err(e) => Err(e),
        Ok((xs, m)) => Ok((acc + xs, c + m)),
    }
}

/// Reading `n` items from the start is reading them from any point reached
/// so far, after the items read before it.
pub proof fn lemma_many_start<T>(s: Seq<u8>, n: nat, p: spec_fn(Seq<u8>) -> Result<(T, int), ReadError>)
    ensures
        p_many(s, n, p) == join(Seq::<T>::empty(), 0, p_many(s.skip(0), n, p)),
{
    assert(s.skip(0) =~= s);
    match p_many(s, n, p) {
        Ok((xs, m)) => {
            assert(Seq::<T>::empty() + xs =~= xs);
        },
        Err(_) => {},
    }
}

/// One more item read moves it from what is left to what was read.
pub proof fn lemma_many_step<T>(
    s: Seq<u8>,
    n: nat,
    p: spec_fn(Seq<u8>) -> Result<(T, int), ReadError>,
    acc: Seq<T>,
    c: int,
    x: T,
    k: int,
)
    requires
        0 <= c <= s.len(),
        n > 0,
        p(s.skip(c)) == Ok::<(T, int), ReadError>((x, k)),
        0 <= k <= s.len() - c,
    ensures
        join(acc, c, p_many(s.skip(c), n, p)) == join(acc.push(x), c + k, p_many(s.skip(c + k), (n - 1) as nat, p)),
{
    assert(s.skip(c).skip(k) =~= s.skip(c + k));
    match p_many(s.skip(c + k), (n - 1) as nat, p) {
        Ok((xs, m)) => {
            assert(acc + (seq![x] + xs) =~= acc.push(x) + xs);
        },
        Err(_) => {},
    }
}

/// The kind named by a value-kind byte.
pub open spec fn value_kind_of(tag: u8) -> Option<ValueKind> {
    if tag == 0x7f {
        Some(ValueKind::I32)
    } else if tag == 0x7e {
        Some(ValueKind::I64)
    } else if tag == 0x7d {
        Some(ValueKind::F32)
    } else if tag == 0x7c {
        Some(ValueKind::F64)
    } else if tag == 0x7b {
        Some(ValueKind::V128)
    } else if tag == 0x70 {
        Some(ValueKind::FuncRef)
    } else if tag == 0x6f {
        Some(ValueKind::ExternRef)
    } else {
        None
    }
}

/// One value-kind byte.
pub open spec fn p_value_kind(s: Seq<u8>) -> Result<(ValueKind, int), ReadError> {
    match p_u8(s) {
        Err(e) => Err(e),
        Ok((t, k)) => match value_kind_of(t) {
            Some(v) => Ok((v, k)),
            None => Err(ReadError::UnknownValueKind { tag: t }),
        },
    }
}

/// [`p_value_kind`] as a value.
pub open spec fn value_kind_item() -> spec_fn(Seq<u8>) -> Result<(ValueKind, int), ReadError> {
    |t: Seq<u8>| p_value_kind(t)
}

/// The byte that opens a function signature.
pub const FUNC_TYPE_MARKER: u8 = 0x60;

/// A signature: the marker byte, the parameter kinds, the result kinds.
pub open spec fn p_func_type(s: Seq<u8>) -> Result<(FuncTypeView, int), ReadError> {
    match p_u8(s) {
        Err(e) => Err(e),
        Ok((t, k)) => if t != FUNC_TYPE_MARKER {
            Err(ReadError::UnknownValueKind { tag: t })
        } else {
            match p_vec(s.skip(k), value_kind_item()) {
                Err(e) => Err(e),
                Ok((ps, m)) => match p_vec(s.skip(k + m), value_kind_item()) {
                    Err(e) => Err(e),
                    Ok((rs, q)) => Ok((FuncTypeView { params: ps, results: rs }, k + m + q)),
                },
            }
        },
    }
}

/// [`p_func_type`] as a value.
pub open spec fn func_type_item() -> spec_fn(Seq<u8>) -> Result<(FuncTypeView, int), ReadError> {
    |t: Seq<u8>| p_func_type(t)
}

/// A function declaration: the varint index of its signature.
pub open spec fn p_function(s: Seq<u8>) -> Result<(Function, int), ReadError> {
    match p_u32(s) {
        Err(e) => Err(e),
        Ok((v, k)) => Ok((Function { type_index: v as u32 }, k)),
    }
}

/// [`p_function`] as a value.
pub open spec fn function_item() -> spec_fn(Seq<u8>) -> Result<(Function, int), ReadError> {
    |t: Seq<u8>| p_function(t)
}

/// The target named by an export kind byte and an index.
pub open spec fn export_target_of(tag: u8, index: u32) -> Option<ExportTarget> {
    if tag == 0 {
        Some(ExportTarget::Function(index))
    } else if tag == 1 {
        Some(ExportTarget::Table(index))
    } else if tag == 2 {
        Some(ExportTarget::Memory(index))
    } else if tag == 3 {
        Some(ExportTarget::Global(index))
    } else {
        None
    }
}

/// An export: its name, a kind byte, a varint index.
pub open spec fn p_export(s: Seq<u8>) -> Result<(ExportView, int), ReadError> {
    match p_name(s) {
        Err(e) => Err(e),
        Ok((name, k)) => match p_u8(s.skip(k)) {
            Err(e) => Err(e),
            Ok((tag, m)) => match p_u32(s.skip(k + m)) {
                Err(e) => Err(e),
                Ok((idx, q)) => match export_target_of(tag, idx as u32) {
                    Some(target) => Ok((ExportView { name, target }, k + m + q)),
                    None => Err(ReadError::UnknownExportKind { tag }),
                },
            },
        },
    }
}

/// [`p_export`] as a value.
pub open spec fn export_item() -> spec_fn(Seq<u8>) -> Result<(ExportView, int), ReadError> {
    |t: Seq<u8>| p_export(t)
}

/// A code entry: a varint byte length, then the body's bytes.
pub open spec fn p_code_body(s: Seq<u8>) -> Result<(Seq<u8>, int), ReadError> {
    match p_u32(s) {
        Err(e) => Err(e),
        Ok((len, k)) => match p_fixed(s.skip(k), len) {
            Err(e) => Err(e),
            Ok((b, m)) => Ok((b, k + m)),
        },
    }
}

/// [`p_code_body`] as a value.
pub open spec fn code_body_item() -> spec_fn(Seq<u8>) -> Result<(Seq<u8>, int), ReadError> {
    |t: Seq<u8>| p_code_body(t)
}

/// A standard section's payload: a vector of items that fills it exactly.
pub open spec fn p_section<T>(s: Seq<u8>, id: u8, p: spec_fn(Seq<u8>) -> Result<(T, int), ReadError>) -> Result<Seq<T>, ReadError> {
    match p_vec(s, p) {
        Err(e) => Err(e),
        Ok((xs, m)) => if m == s.len() {
            Ok(xs)
        } else {
            Err(ReadError::SectionOverrun { section: id })
        },
    }
}

} // verus!
