//! The cross-reference checks run on an assembled module.
use vstd::prelude::*;
use crate::error::{InvalidReason, ReadError};
use crate::structure::{
    export_in_bounds, export_names_unique, exports_in_bounds, type_indices_in_bounds, validate,
};
use crate::types::{ExportTarget, Module};

verus! {

/// Whether two byte strings are equal.
pub fn bytes_equal(a: &[u8], b: &[u8]) -> (r: bool)
    ensures
        r == (a@ == b@),
{
    if a.len() != b.len() {
        return false;
    }
    let mut i: usize = 0;
    while i < a.len()
        invariant
            a@.len() == b@.len(),
            i <= a@.len(),
            forall|j: int| 0 <= j < i ==> a@[j] == b@[j],
        decreases a@.len() - i,
    {
        if a[i] != b[i] {
            return false;
        }
        i = i + 1;
    }
    assert(a@ =~= b@);
    true
}

/// The first invariant that the module breaks, checked in the order
/// function and code counts, type indices, export indices, export names.
pub fn check_module(m: &Module) -> (r: Result<(), InvalidReason>)
    ensures
        r == validate(m@),
{
    if m.functions.len() != m.code.len() {
        return Err(InvalidReason::FunctionCodeMismatch);
    }
    let mut i: usize = 0;
    while i < m.functions.len()
        invariant
            i <= m.functions@.len(),
            m@.functions.len() == m@.code.len(),
            forall|j: int| 0 <= j < i ==> m@.functions[j].type_index < m@.types.len(),
        decreases m.functions@.len() - i,
    {
        if m.functions[i].type_index as usize >= m.types.len() {
            return Err(InvalidReason::TypeIndexOutOfBounds);
        }
        i = i + 1;
    }
    assert(type_indices_in_bounds(m@));
    let mut i: usize = 0;
    while i < m.exports.len()
        invariant
            i <= m.exports@.len(),
            m@.functions.len() == m@.code.len(),
            type_indices_in_bounds(m@),
            forall|j: int| 0 <= j < i ==> export_in_bounds(m@, j),
        decreases m.exports@.len() - i,
    {
        match m.exports[i].target {
            ExportTarget::Function(f) => {
                if f as usize >= m.functions.len() {
                    assert(!export_in_bounds(m@, i as int));
                    return Err(InvalidReason::ExportIndexOutOfBounds);
                }
            },
            _ => {},
        }
        assert(export_in_bounds(m@, i as int));
        i = i + 1;
    }
    assert(exports_in_bounds(m@));
    let n = m.exports.len();
    let mut i: usize = 0;
    while i < n
        invariant
            n == m@.exports.len(),
            i <= n,
            m@.functions.len() == m@.code.len(),
            type_indices_in_bounds(m@),
            exports_in_bounds(m@),
            forall|a: int, b: int| 0 <= a < i && a < b < n ==> m@.exports[a].name != m@.exports[b].name,
        decreases n - i,
    {
        let mut j: usize = i + 1;
        while j < n
            invariant
                n == m@.exports.len(),
                i < n,
                i + 1 <= j <= n,
                m@.functions.len() == m@.code.len(),
                type_indices_in_bounds(m@),
                exports_in_bounds(m@),
                forall|b: int| i < b < j ==> m@.exports[i as int].name != m@.exports[b].name,
            decreases n - j,
        {
            assert(m@.exports[i as int].name == m.exports@[i as int].name@);
            assert(m@.exports[j as int].name == m.exports@[j as int].name@);
            if bytes_equal(m.exports[i].name.as_slice(), m.exports[j].name.as_slice()) {
                assert(m@.exports[i as int].name == m.exports@[i as int].name@);
                assert(m@.exports[j as int].name == m.exports@[j as int].name@);
                assert(!export_names_unique(m@));
                return Err(InvalidReason::DuplicateExport);
            }
            j = j + 1;
        }
        i = i + 1;
    }
    assert(export_names_unique(m@));
    Ok(())
}

/// Hands the module back unchanged where it keeps every invariant; else the
/// first one it breaks.
pub fn validate_module(m: Module) -> (r: Result<Module, ReadError>)
    ensures
        match validate(m@) {
            Ok(_) => r matches Ok(v) && v@ == m@,
            Err(reason) => r == Err::<Module, ReadError>(ReadError::InvalidModule { reason }),
        },
{
    match check_module(&m) {
        Ok(()) => Ok(m),
        Err(reason) => Err(ReadError::InvalidModule { reason }),
    }
}

} // verus!
