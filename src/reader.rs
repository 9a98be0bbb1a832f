//! Reading a whole module, and looking things up in the result.
use vstd::prelude::*;
use crate::builder::build_module;
use crate::cursor::Cursor;
use crate::error::{InvalidReason, ReadError};
use crate::scanner::{read_header, scan_sections};
use crate::structure::{parse, validate};
use crate::types::{ExportTarget, FuncType, FuncTypeView, Module, ModuleView};
use crate::validate::{bytes_equal, validate_module};

verus! {

/// Reads a module: header, section table, every section's records, then
/// the cross-reference checks. Either a module that keeps every invariant,
/// or the first error met.
pub fn parse_module(bytes: &[u8]) -> (r: Result<Module, ReadError>)
    ensures
        match parse(bytes@) {
            Ok(m) => r matches Ok(v) && v@ == m,
            Err(e) => r == Err::<Module, ReadError>(e),
        },
        r matches Ok(v) ==> validate(v@) == Ok::<(), InvalidReason>(()),
{
    let mut c = Cursor::new(bytes);
    match read_header(&mut c) {
        Ok(()) => {},
        Err(e) => return Err(e),
    }
    let secs = match scan_sections(&mut c) {
        Ok(s) => s,
        Err(e) => return Err(e),
    };
    let m = match build_module(bytes, &secs) {
        Ok(m) => m,
        Err(e) => return Err(e),
    };
    validate_module(m)
}

/// The export at `i` carries the name `name`, and none before it does.
pub open spec fn first_named(m: ModuleView, name: Seq<u8>, i: int) -> bool {
    &&& 0 <= i < m.exports.len()
    &&& m.exports[i].name == name
    &&& forall|j: int| 0 <= j < i ==> m.exports[j].name != name
}

/// No export carries the name `name`.
pub open spec fn no_export_named(m: ModuleView, name: Seq<u8>) -> bool {
    forall|j: int| 0 <= j < m.exports.len() ==> m.exports[j].name != name
}

/// The signature of the function that the export at `i` names, where it
/// names a function whose signature exists.
pub open spec fn export_signature(m: ModuleView, i: int) -> Option<FuncTypeView> {
    match m.exports[i].target {
        ExportTarget::Function(f) => if f < m.functions.len() && m.functions[f as int].type_index < m.types.len() {
            Some(m.types[m.functions[f as int].type_index as int])
        } else {
            None
        },
        _ => None,
    }
}

impl Module {
    /// The position of the first export named `name`.
    pub fn export_index(&self, name: &[u8]) -> (r: Option<usize>)
        ensures
            match r {
                Some(i) => first_named(self@, name@, i as int),
                None => no_export_named(self@, name@),
            },
    {
        let mut i: usize = 0;
        while i < self.exports.len()
            invariant
                i <= self@.exports.len(),
                forall|j: int| 0 <= j < i ==> self@.exports[j].name != name@,
            decreases self@.exports.len() - i,
        {
            assert(self@.exports[i as int].name == self.exports@[i as int].name@);
            if bytes_equal(self.exports[i].name.as_slice(), name) {
                return Some(i);
            }
            i = i + 1;
        }
        None
    }

    /// What the export named `name` refers to.
    pub fn find_export(&self, name: &[u8]) -> (r: Option<ExportTarget>)
        ensures
            match r {
                Some(t) => exists|i: int| first_named(self@, name@, i) && self@.exports[i].target == t,
                None => no_export_named(self@, name@),
            },
    {
        match self.export_index(name) {
            Some(i) => Some(self.exports[i].target),
            None => None,
        }
    }

    /// The signature of the function exported as `name`: `None` where no
    /// export has that name, or it names no function with a signature.
    pub fn exported_function_type(&self, name: &[u8]) -> (r: Option<&FuncType>)
        ensures
            match r {
                Some(t) => exists|i: int| first_named(self@, name@, i) && export_signature(self@, i) == Some(t@),
                None => no_export_named(self@, name@) || exists|i: int|
                    first_named(self@, name@, i) && export_signature(self@, i) is None,
            },
    {
        match self.export_index(name) {
            None => None,
            Some(i) => match self.exports[i].target {
                ExportTarget::Function(f) => {
                    if (f as usize) < self.functions.len() {
                        let ti = self.functions[f as usize].type_index as usize;
                        if ti < self.types.len() {
                            assert(self@.exports[i as int].target == self.exports@[i as int].target);
                            assert(self@.types[ti as int] == self.types@[ti as int]@);
                            assert(export_signature(self@, i as int) == Some(self.types@[ti as int]@));
                            return Some(&self.types[ti]);
                        }
                    }
                    None
                },
                _ => None,
            },
        }
    }

    /// Whether some export names the function at `func_index`.
    pub fn is_exported(&self, func_index: u32) -> (r: bool)
        ensures
            r == exists|i: int|
                0 <= i < self@.exports.len() && self@.exports[i].target == ExportTarget::Function(func_index),
    {
        let mut i: usize = 0;
        while i < self.exports.len()
            invariant
                i <= self@.exports.len(),
                forall|j: int| 0 <= j < i ==> self@.exports[j].target != ExportTarget::Function(func_index),
            decreases self@.exports.len() - i,
        {
            assert(self@.exports[i as int].target == self.exports@[i as int].target);
            match self.exports[i].target {
                ExportTarget::Function(f) => {
                    if f == func_index {
                        assert(self@.exports[i as int].target == self.exports@[i as int].target);
                        return true;
                    }
                },
                _ => {},
            }
            i = i + 1;
        }
        false
    }
}

} // verus!
