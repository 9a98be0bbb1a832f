//! Assembles the decoded sections into one module.
use vstd::prelude::*;
use crate::cursor::Cursor;
use crate::decode::{
    decode_code_section, decode_custom_section, decode_export_section, decode_function_section,
    decode_type_section,
};
use crate::error::ReadError;
use crate::structure::{
    add_section, build, Section, CODE_SECTION, EXPORT_SECTION, FUNCTION_SECTION, TYPE_SECTION,
};
use crate::types::{empty_module, lemma_views_concat, lemma_views_push, Module};

verus! {

/// Once a prefix of the sections fails to assemble, the whole list fails
/// with the same error.
pub proof fn lemma_build_prefix_err(data: Seq<u8>, secs: Seq<Section>, i: int, e: ReadError)
    requires
        0 <= i <= secs.len(),
        build(data, secs.take(i)) == Err::<crate::types::ModuleView, ReadError>(e),
    ensures
        build(data, secs) == Err::<crate::types::ModuleView, ReadError>(e),
    decreases secs.len(),
{
    if i == secs.len() {
        assert(secs.take(i) =~= secs);
    } else {
        assert(secs.drop_last().take(i) =~= secs.take(i));
        lemma_build_prefix_err(data, secs.drop_last(), i, e);
    }
}

/// Decodes one section and adds its records to `m`.
fn add_one_section(data: &[u8], m: &mut Module, sec: Section) -> (r: Result<(), ReadError>)
    ensures
        match add_section(data@, old(m)@, sec) {
            Ok(v) => r is Ok && final(m)@ == v,
            Err(e) => r == Err::<(), ReadError>(e),
        },
{
    if sec.offset > data.len() || sec.len > data.len() - sec.offset {
        return Err(ReadError::TruncatedSection { section: sec.id });
    }
    let w = Cursor::window(data, sec.offset, sec.len);
    if sec.id == TYPE_SECTION {
        match decode_type_section(w) {
            Ok(mut v) => {
                proof {
                    lemma_views_concat(m.types@, v@);
                }
                m.types.append(&mut v);
            },
            Err(e) => return Err(e),
        }
    } else if sec.id == FUNCTION_SECTION {
        match decode_function_section(w) {
            Ok(mut v) => m.functions.append(&mut v),
            Err(e) => return Err(e),
        }
    } else if sec.id == EXPORT_SECTION {
        match decode_export_section(w) {
            Ok(mut v) => {
                proof {
                    lemma_views_concat(m.exports@, v@);
                }
                m.exports.append(&mut v);
            },
            Err(e) => return Err(e),
        }
    } else if sec.id == CODE_SECTION {
        match decode_code_section(w) {
            Ok(mut v) => {
                proof {
                    lemma_views_concat(m.code@, v@);
                }
                m.code.append(&mut v);
            },
            Err(e) => return Err(e),
        }
    } else {
        let cs = decode_custom_section(w, sec.id);
        proof {
            lemma_views_push(m.customs@, cs);
        }
        m.customs.push(cs);
    }
    Ok(())
}

/// Assembles a module from the section table of `data`, in table order.
/// Each standard section's records are added after those of any earlier
/// section of the same kind; the first section that does not decode gives
/// the error.
pub fn build_module(data: &[u8], secs: &Vec<Section>) -> (r: Result<Module, ReadError>)
    ensures
        match build(data@, secs@) {
            Ok(m) => r matches Ok(v) && v@ == m,
            Err(e) => r == Err::<Module, ReadError>(e),
        },
{
    let mut m = Module {
        types: Vec::new(),
        functions: Vec::new(),
        exports: Vec::new(),
        code: Vec::new(),
        customs: Vec::new(),
    };
    proof {
        assert(m@.types =~= empty_module().types);
        assert(m@.exports =~= empty_module().exports);
        assert(m@.code =~= empty_module().code);
        assert(m@.customs =~= empty_module().customs);
        assert(secs@.take(0) =~= Seq::<Section>::empty());
    }
    let mut i: usize = 0;
    while i < secs.len()
        invariant
            i <= secs@.len(),
            build(data@, secs@.take(i as int)) == Ok::<crate::types::ModuleView, ReadError>(m@),
        decreases secs@.len() - i,
    {
        proof {
            assert(secs@.take(i + 1).drop_last() =~= secs@.take(i as int));
        }
        match add_one_section(data, &mut m, secs[i]) {
            Ok(()) => {},
            Err(e) => {
                proof {
                    lemma_build_prefix_err(data@, secs@, i + 1, e);
                }
                return Err(e);
            },
        }
        i = i + 1;
    }
    proof {
        assert(secs@.take(i as int) =~= secs@);
    }
    Ok(m)
}

} // verus!
