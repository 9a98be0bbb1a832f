//! The in-memory module model and its mathematical views.
use vstd::prelude::*;

verus! {

/// The kind of a parameter or result value.
#[derive(Clone, Copy, Debug, PartialEq, Eq, Structural)]
pub enum ValueKind {
    I32,
    I64,
    F32,
    F64,
    V128,
    FuncRef,
    ExternRef,
}

/// A function signature: parameter kinds, then result kinds.
#[derive(Clone, Debug, PartialEq, Eq)]
pub struct FuncType {
    pub params: Vec<ValueKind>,
    pub results: Vec<ValueKind>,
}

/// The view of a [`FuncType`].
pub ghost struct FuncTypeView {
    pub params: Seq<ValueKind>,
    pub results: Seq<ValueKind>,
}

impl View for FuncType {
    type V = FuncTypeView;

    open spec fn view(&self) -> FuncTypeView {
        FuncTypeView { params: self.params@, results: self.results@ }
    }
}

/// A declared function: the index of its signature in the type list.
#[derive(Clone, Copy, Debug, PartialEq, Eq, Structural)]
pub struct Function {
    pub type_index: u32,
}

/// What an export refers to, by kind and index.
#[derive(Clone, Copy, Debug, PartialEq, Eq, Structural)]
pub enum ExportTarget {
    Function(u32),
    Table(u32),
    Memory(u32),
    Global(u32),
}

/// A named export.
#[derive(Clone, Debug, PartialEq, Eq)]
pub struct Export {
    /// The name's bytes, which are well-formed UTF-8.
    pub name: Vec<u8>,
    pub target: ExportTarget,
}

/// The view of an [`Export`].
pub ghost struct ExportView {
    pub name: Seq<u8>,
    pub target: ExportTarget,
}

impl View for Export {
    type V = ExportView;

    open spec fn view(&self) -> ExportView {
        ExportView { name: self.name@, target: self.target }
    }
}

/// The raw locals and instruction bytes of one function, kept verbatim.
#[derive(Clone, Debug, PartialEq, Eq)]
pub struct CodeBody {
    pub bytes: Vec<u8>,
}

impl View for CodeBody {
    type V = Seq<u8>;

    open spec fn view(&self) -> Seq<u8> {
        self.bytes@
    }
}

/// A section that is not one of the decoded standard kinds, kept as data.
#[derive(Clone, Debug, PartialEq, Eq)]
pub struct CustomSection {
    /// The section's kind byte.
    pub id: u8,
    /// For a custom section (kind 0) whose name reads, that name; else empty.
    pub name: Vec<u8>,
    /// The bytes after the name, or the whole section where no name was read.
    pub payload: Vec<u8>,
}

/// The view of a [`CustomSection`].
pub ghost struct CustomView {
    pub id: u8,
    pub name: Seq<u8>,
    pub payload: Seq<u8>,
}

impl View for CustomSection {
    type V = CustomView;

    open spec fn view(&self) -> CustomView {
        CustomView { id: self.id, name: self.name@, payload: self.payload@ }
    }
}

/// A decoded module.
#[derive(Clone, Debug, PartialEq, Eq)]
pub struct Module {
    pub types: Vec<FuncType>,
    pub functions: Vec<Function>,
    pub exports: Vec<Export>,
    pub code: Vec<CodeBody>,
    pub customs: Vec<CustomSection>,
}

/// The view of a [`Module`]: every part as a sequence of views.
pub ghost struct ModuleView {
    pub types: Seq<FuncTypeView>,
    pub functions: Seq<Function>,
    pub exports: Seq<ExportView>,
    pub code: Seq<Seq<u8>>,
    pub customs: Seq<CustomView>,
}

/// The views of the items of a sequence.
pub open spec fn views<T: View>(s: Seq<T>) -> Seq<T::V> {
    s.map_values(|x: T| x@)
}

/// The view of a result's value.
pub open spec fn view_res<T: View, E>(r: Result<T, E>) -> Result<T::V, E> {
    match r {
        Ok(v) => Ok(v@),
        Err(e) => Err(e),
    }
}

/// Appending an item appends its view.
pub proof fn lemma_views_push<T: View>(s: Seq<T>, x: T)
    ensures
        views(s.push(x)) == views(s).push(x@),
{
    assert(views(s.push(x)) =~= views(s).push(x@));
}

/// The views of two sequences joined are the two views joined.
pub proof fn lemma_views_concat<T: View>(a: Seq<T>, b: Seq<T>)
    ensures
        views(a + b) == views(a) + views(b),
{
    assert(views(a + b) =~= views(a) + views(b));
}

impl View for Module {
    type V = ModuleView;

    open spec fn view(&self) -> ModuleView {
        ModuleView {
            types: views(self.types@),
            functions: self.functions@,
            exports: views(self.exports@),
            code: views(self.code@),
            customs: views(self.customs@),
        }
    }
}

/// The empty module: no section seen yet.
pub open spec fn empty_module() -> ModuleView {
    ModuleView {
        types: Seq::empty(),
        functions: Seq::empty(),
        exports: Seq::empty(),
        code: Seq::empty(),
        customs: Seq::empty(),
    }
}

} // verus!
