//! The module-level grammar: header, section table, assembly and the
//! cross-reference invariants, as spec functions.
use vstd::prelude::*;
use crate::error::{InvalidReason, ReadError};
use crate::grammar::{
    code_body_item, export_item, func_type_item, function_item, p_name, p_section, p_u32,
};
use crate::types::{empty_module, CustomView, ExportTarget, ModuleView};

verus! {

/// Kind byte of a custom section.
pub const CUSTOM_SECTION: u8 = 0;
/// Kind byte of the type section.
pub const TYPE_SECTION: u8 = 1;
/// Kind byte of the function section.
pub const FUNCTION_SECTION: u8 = 3;
/// Kind byte of the export section.
pub const EXPORT_SECTION: u8 = 7;
/// Kind byte of the code section.
pub const CODE_SECTION: u8 = 10;

/// The four bytes every module starts with.
pub open spec fn magic() -> Seq<u8> {
    seq![0x00u8, 0x61u8, 0x73u8, 0x6du8]
}

/// The only version this reader knows, as it is stored.
pub open spec fn version_one() -> Seq<u8> {
    seq![0x01u8, 0x00u8, 0x00u8, 0x00u8]
}

/// The fixed header: magic, then version. Its length where it is right.
pub open spec fn p_header(s: Seq<u8>) -> Result<int, ReadError> {
    if s.len() < 4 {
        Err(ReadError::UnexpectedEof)
    } else if s.take(4) != magic() {
        Err(ReadError::BadMagic)
    } else if s.len() < 8 {
        Err(ReadError::UnexpectedEof)
    } else if s.subrange(4, 8) != version_one() {
        Err(ReadError::UnsupportedVersion)
    } else {
        Ok(8)
    }
}

/// Where a section's payload lies in the buffer, and its kind.
#[derive(Clone, Copy, Debug, PartialEq, Eq, Structural)]
pub struct Section {
    pub id: u8,
    pub offset: usize,
    pub len: usize,
}

/// The section table of the bytes `s`, which start at offset `base` of the
/// buffer: a kind byte, a 32-bit varint length and that many payload bytes,
/// over and over until the bytes end.
pub open spec fn scan(s: Seq<u8>, base: int) -> Result<Seq<Section>, ReadError>
    decreases s.len(),
{
    if s.len() == 0 {
        Ok(Seq::empty())
    } else {
        let id = s[0];
        match p_u32(s.skip(1)) {
            Err(e) => Err(e),
            Ok((len, k)) => if 1 + k + len > s.len() {
                Err(ReadError::TruncatedSection { section: id })
            } else {
                match scan(s.skip(1 + k + len), base + 1 + k + len) {
                    Err(e) => Err(e),
                    Ok(rest) => Ok(seq![Section { id, offset: (base + 1 + k) as usize, len: len as usize }] + rest),
                }
            },
        }
    }
}

/// A section kept as data: a custom section's name where it reads, and the
/// bytes after it; for any other kind, the whole payload.
pub open spec fn custom_of(s: Seq<u8>, id: u8) -> CustomView {
    if id == CUSTOM_SECTION {
        match p_name(s) {
            Ok((name, k)) => CustomView { id, name, payload: s.skip(k) },
            Err(_) => CustomView { id, name: Seq::empty(), payload: s },
        }
    } else {
        CustomView { id, name: Seq::empty(), payload: s }
    }
}

/// The module `m` with the records of one more section added.
pub open spec fn add_section(data: Seq<u8>, m: ModuleView, sec: Section) -> Result<ModuleView, ReadError> {
    if sec.offset + sec.len > data.len() {
        Err(ReadError::TruncatedSection { section: sec.id })
    } else {
        let s = data.subrange(sec.offset as int, sec.offset + sec.len);
        if sec.id == TYPE_SECTION {
            match p_section(s, TYPE_SECTION, func_type_item()) {
                Ok(xs) => Ok(ModuleView { types: m.types + xs, ..m }),
                Err(e) => Err(e),
            }
        } else if sec.id == FUNCTION_SECTION {
            match p_section(s, FUNCTION_SECTION, function_item()) {
                Ok(xs) => Ok(ModuleView { functions: m.functions + xs, ..m }),
                Err(e) => Err(e),
            }
        } else if sec.id == EXPORT_SECTION {
            match p_section(s, EXPORT_SECTION, export_item()) {
                Ok(xs) => Ok(ModuleView { exports: m.exports + xs, ..m }),
                Err(e) => Err(e),
            }
        } else if sec.id == CODE_SECTION {
            match p_section(s, CODE_SECTION, code_body_item()) {
                Ok(xs) => Ok(ModuleView { code: m.code + xs, ..m }),
                Err(e) => Err(e),
            }
        } else {
            Ok(ModuleView { customs: m.customs.push(custom_of(s, sec.id)), ..m })
        }
    }
}

/// The module assembled from the sections in order, from an empty one; the
/// first section that does not decode gives the error.
pub open spec fn build(data: Seq<u8>, secs: Seq<Section>) -> Result<ModuleView, ReadError>
    decreases secs.len(),
{
    if secs.len() == 0 {
        Ok(empty_module())
    } else {
        match build(data, secs.drop_last()) {
            Err(e) => Err(e),
            Ok(m) => add_section(data, m, secs.last()),
        }
    }
}

/// Every function names a signature that exists.
pub open spec fn type_indices_in_bounds(m: ModuleView) -> bool {
    forall|i: int| 0 <= i < m.functions.len() ==> m.functions[i].type_index < m.types.len()
}

/// The export at `i` is in bounds: a function export names a function that
/// exists. Other kinds are not checked: their entities are not decoded.
pub open spec fn export_in_bounds(m: ModuleView, i: int) -> bool {
    match m.exports[i].target {
        ExportTarget::Function(f) => f < m.functions.len(),
        _ => true,
    }
}

/// Every export is in bounds.
pub open spec fn exports_in_bounds(m: ModuleView) -> bool {
    forall|i: int| 0 <= i < m.exports.len() ==> export_in_bounds(m, i)
}

/// No two exports share a name.
pub open spec fn export_names_unique(m: ModuleView) -> bool {
    forall|i: int, j: int| 0 <= i < j < m.exports.len() ==> m.exports[i].name != m.exports[j].name
}

/// The first invariant that `m` breaks, in the order: function and code
/// counts, type indices, export indices, export names.
pub open spec fn validate(m: ModuleView) -> Result<(), InvalidReason> {
    if m.functions.len() != m.code.len() {
        Err(InvalidReason::FunctionCodeMismatch)
    } else if !type_indices_in_bounds(m) {
        Err(InvalidReason::TypeIndexOutOfBounds)
    } else if !exports_in_bounds(m) {
        Err(InvalidReason::ExportIndexOutOfBounds)
    } else if !export_names_unique(m) {
        Err(InvalidReason::DuplicateExport)
    } else {
        Ok(())
    }
}

/// What reading the bytes `s` as a module gives.
pub open spec fn parse(s: Seq<u8>) -> Result<ModuleView, ReadError> {
    match p_header(s) {
        Err(e) => Err(e),
        Ok(k) => match scan(s.skip(k), k) {
            Err(e) => Err(e),
            Ok(secs) => match build(s, secs) {
                Err(e) => Err(e),
                Ok(m) => match validate(m) {
                    Err(reason) => Err(ReadError::InvalidModule { reason }),
                    Ok(_) => Ok(m),
                },
            },
        },
    }
}

} // verus!
