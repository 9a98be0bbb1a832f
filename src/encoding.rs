//! The byte form of a minimal module, as spec functions, and the lemmas that
//! read each piece back.
use vstd::prelude::*;
use crate::error::ReadError;
use crate::grammar::{
    code_body_item, export_item, func_type_item, function_item, leb, p_code_body, p_export,
    p_func_type, p_function, p_many, p_name, p_section, p_u32, p_u8, p_value_kind, p_vec, pow128,
    value_kind_item, FUNC_TYPE_MARKER,
};
use crate::structure::{scan, Section};
use crate::structure::{add_section, build, magic, p_header, version_one};
use crate::types::{empty_module, ExportTarget, ExportView, FuncTypeView, Function, ModuleView, ValueKind};

verus! {

/// The shortest base-128 encoding of `v`, low group first.
pub open spec fn enc_u32(v: nat) -> Seq<u8>
    decreases v,
{
    if v < 128 {
        seq![v as u8]
    } else {
        seq![(v % 128 + 128) as u8] + enc_u32(v / 128)
    }
}

/// The byte that names a value kind.
pub open spec fn kind_tag(k: ValueKind) -> u8 {
    match k {
        ValueKind::I32 => 0x7f,
        ValueKind::I64 => 0x7e,
        ValueKind::F32 => 0x7d,
        ValueKind::F64 => 0x7c,
        ValueKind::V128 => 0x7b,
        ValueKind::FuncRef => 0x70,
        ValueKind::ExternRef => 0x6f,
    }
}

/// Value kinds, one byte each.
pub open spec fn enc_kinds(ks: Seq<ValueKind>) -> Seq<u8>
    decreases ks.len(),
{
    if ks.len() == 0 {
        Seq::empty()
    } else {
        seq![kind_tag(ks[0])] + enc_kinds(ks.drop_first())
    }
}

/// A signature: the marker, then each kind list with its count.
pub open spec fn enc_func_type(t: FuncTypeView) -> Seq<u8> {
    seq![FUNC_TYPE_MARKER] + (enc_u32(t.params.len()) + enc_kinds(t.params)) + (enc_u32(t.results.len())
        + enc_kinds(t.results))
}

/// A section: kind byte, payload length, payload.
pub open spec fn enc_section(id: u8, payload: Seq<u8>) -> Seq<u8> {
    seq![id] + enc_u32(payload.len()) + payload
}

/// The encoding is at most `limit` bytes where the value is below
/// `128^limit`, and the group reading gives the value back.
pub proof fn lemma_leb_enc(v: nat, limit: nat, rest: Seq<u8>)
    requires
        limit >= 1,
        v < pow128(limit),
    ensures
        1 <= enc_u32(v).len() <= limit,
        leb(enc_u32(v) + rest, limit) == Some((v, enc_u32(v).len())),
    decreases v,
{
    let s = enc_u32(v) + rest;
    if v < 128 {
        assert(s[0] == v as u8);
    } else {
        assert(pow128(limit) == 128 * pow128((limit - 1) as nat));
        if limit == 1 {
            assert(pow128(0) == 1);
        }
        let q = v / 128;
        assert(q < pow128((limit - 1) as nat)) by (nonlinear_arith)
            requires
                v < 128 * pow128((limit - 1) as nat),
                q == v / 128,
        ;
        lemma_leb_enc(q, (limit - 1) as nat, rest);
        assert(s.drop_first() =~= enc_u32(q) + rest);
        assert(s[0] == (v % 128 + 128) as u8);
        assert(v % 128 + 128 * q == v);
    }
}

/// A 32-bit value reads back from its encoding, whatever follows.
pub proof fn lemma_u32_enc(v: nat, rest: Seq<u8>)
    requires
        v < 0x1_0000_0000,
    ensures
        1 <= enc_u32(v).len() <= 5,
        p_u32(enc_u32(v) + rest) == Ok::<(nat, int), ReadError>((v, enc_u32(v).len() as int)),
{
    reveal_with_fuel(pow128, 6);
    lemma_leb_enc(v, 5, rest);
}

/// Value kinds read back from their bytes, whatever follows.
pub proof fn lemma_kinds_enc(ks: Seq<ValueKind>, rest: Seq<u8>)
    ensures
        enc_kinds(ks).len() == ks.len(),
        p_many(enc_kinds(ks) + rest, ks.len(), value_kind_item()) == Ok::<(Seq<ValueKind>, int), ReadError>(
            (ks, ks.len() as int),
        ),
    decreases ks.len(),
{
    let s = enc_kinds(ks) + rest;
    if ks.len() > 0 {
        let t = ks.drop_first();
        lemma_kinds_enc(t, rest);
        assert(s[0] == kind_tag(ks[0]));
        assert(p_value_kind(s) == Ok::<(ValueKind, int), ReadError>((ks[0], 1)));
        assert(s.skip(1) =~= enc_kinds(t) + rest);
        assert(seq![ks[0]] + t =~= ks);
        assert((value_kind_item())(s) == p_value_kind(s));
    } else {
        assert(ks =~= Seq::<ValueKind>::empty());
    }
}

/// A counted kind list reads back, whatever follows.
pub proof fn lemma_kind_vec_enc(ks: Seq<ValueKind>, rest: Seq<u8>)
    requires
        ks.len() < 0x1_0000_0000,
    ensures
        p_vec((enc_u32(ks.len()) + enc_kinds(ks)) + rest, value_kind_item()) == Ok::<
            (Seq<ValueKind>, int),
            ReadError,
        >((ks, (enc_u32(ks.len()) + enc_kinds(ks)).len() as int)),
{
    let e = enc_u32(ks.len());
    let s = (e + enc_kinds(ks)) + rest;
    assert(s =~= e + (enc_kinds(ks) + rest));
    lemma_u32_enc(ks.len(), enc_kinds(ks) + rest);
    assert(s.skip(e.len() as int) =~= enc_kinds(ks) + rest);
    lemma_kinds_enc(ks, rest);
}

/// A signature reads back from its encoding, whatever follows.
pub proof fn lemma_func_type_enc(t: FuncTypeView, rest: Seq<u8>)
    requires
        t.params.len() < 0x1_0000_0000,
        t.results.len() < 0x1_0000_0000,
    ensures
        p_func_type(enc_func_type(t) + rest) == Ok::<(FuncTypeView, int), ReadError>(
            (t, enc_func_type(t).len() as int),
        ),
{
    let a = enc_u32(t.params.len()) + enc_kinds(t.params);
    let b = enc_u32(t.results.len()) + enc_kinds(t.results);
    let s = enc_func_type(t) + rest;
    assert(s[0] == FUNC_TYPE_MARKER);
    assert(s.skip(1) =~= a + (b + rest));
    lemma_kind_vec_enc(t.params, b + rest);
    assert(s.skip(1 + a.len() as int) =~= b + rest);
    lemma_kind_vec_enc(t.results, rest);
    assert(t == FuncTypeView { params: t.params, results: t.results });
}

/// A section with a payload that fits a 32-bit length opens the table read
/// from it, whatever follows.
pub proof fn lemma_scan_section(id: u8, payload: Seq<u8>, rest: Seq<u8>, base: int)
    requires
        payload.len() < 0x1_0000_0000,
    ensures
        ({
            let k = enc_u32(payload.len()).len() as int;
            let sec = Section { id, offset: (base + 1 + k) as usize, len: payload.len() as usize };
            scan(enc_section(id, payload) + rest, base) == match scan(rest, base + 1 + k + payload.len()) {
                Ok(xs) => Ok(seq![sec] + xs),
                Err(e) => Err::<Seq<Section>, ReadError>(e),
            }
        }),
{
    let e = enc_u32(payload.len());
    let s = enc_section(id, payload) + rest;
    assert(s[0] == id);
    assert(s.skip(1) =~= e + (payload + rest));
    lemma_u32_enc(payload.len(), payload + rest);
    assert(s.skip(1 + e.len() as int + payload.len() as int) =~= rest);
}

/// The type section of the minimal module: one signature.
pub open spec fn type_payload(t: FuncTypeView) -> Seq<u8> {
    seq![1u8] + enc_func_type(t)
}

/// The function section of the minimal module: one function of signature 0.
pub open spec fn function_payload() -> Seq<u8> {
    seq![1u8, 0u8]
}

/// The export section of the minimal module: `name` exports function 0.
pub open spec fn export_payload(name: Seq<u8>) -> Seq<u8> {
    seq![1u8] + (enc_u32(name.len()) + name) + seq![0u8, 0u8]
}

/// The code section of the minimal module: one body with no locals that
/// only ends.
pub open spec fn code_payload() -> Seq<u8> {
    seq![1u8, 2u8, 0u8, 0x0bu8]
}

/// A module of one signature `t`, one function of it, that function
/// exported as `name`, and its body.
pub open spec fn minimal_module(t: FuncTypeView, name: Seq<u8>) -> Seq<u8> {
    (magic() + version_one()) + (enc_section(1, type_payload(t)) + (enc_section(3, function_payload()) + (
    enc_section(7, export_payload(name)) + enc_section(10, code_payload()))))
}

/// The count byte of a one-item vector reads as one.
proof fn lemma_one(rest: Seq<u8>)
    ensures
        p_u32(seq![1u8] + rest) == Ok::<(nat, int), ReadError>((1, 1)),
{
    lemma_u32_enc(1, rest);
    assert(enc_u32(1) =~= seq![1u8]);
}

/// A payload of a one-item vector whose item reads as `x` from all of
/// the bytes after the count decodes to that item.
proof fn lemma_single_item<T>(s: Seq<u8>, id: u8, p: spec_fn(Seq<u8>) -> Result<(T, int), ReadError>, x: T)
    requires
        s.len() >= 1,
        s[0] == 1,
        p(s.skip(1)) == Ok::<(T, int), ReadError>((x, s.len() - 1)),
    ensures
        p_section(s, id, p) == Ok::<Seq<T>, ReadError>(seq![x]),
{
    let r = s.skip(1);
    assert(s =~= seq![1u8] + r);
    lemma_one(r);
    assert(r.skip(r.len() as int) =~= Seq::<u8>::empty());
    assert(seq![x] + Seq::<T>::empty() =~= seq![x]);
    assert(p_many(r.skip(r.len() as int), 0, p) == Ok::<(Seq<T>, int), ReadError>((Seq::empty(), 0)));
    assert(p_many(r, 1, p) == Ok::<(Seq<T>, int), ReadError>((seq![x], r.len() as int)));
    assert(p_vec(s, p) == Ok::<(Seq<T>, int), ReadError>((seq![x], s.len() as int)));
}

/// The type payload decodes to the one signature.
pub proof fn lemma_type_payload(t: FuncTypeView)
    requires
        t.params.len() < 0x1_0000_0000,
        t.results.len() < 0x1_0000_0000,
    ensures
        p_section(type_payload(t), 1, func_type_item()) == Ok::<Seq<FuncTypeView>, ReadError>(seq![t]),
{
    let f = enc_func_type(t);
    let s = type_payload(t);
    lemma_func_type_enc(t, Seq::empty());
    assert(f + Seq::<u8>::empty() =~= f);
    assert(s.skip(1) =~= f);
    assert((func_type_item())(f) == p_func_type(f));
    lemma_single_item(s, 1, func_type_item(), t);
}

/// The function payload decodes to one function of signature 0.
pub proof fn lemma_function_payload()
    ensures
        p_section(function_payload(), 3, function_item()) == Ok::<Seq<Function>, ReadError>(
            seq![Function { type_index: 0 }],
        ),
{
    let s = function_payload();
    assert(s.skip(1) =~= enc_u32(0) + Seq::<u8>::empty());
    lemma_u32_enc(0, Seq::empty());
    assert(enc_u32(0) =~= seq![0u8]);
    assert((function_item())(s.skip(1)) == p_function(s.skip(1)));
    lemma_single_item(s, 3, function_item(), Function { type_index: 0 });
}

/// The bytes of the one export read back as that export.
proof fn lemma_export_item(name: Seq<u8>)
    requires
        name.len() < 0x1_0000_0000,
        vstd::utf8::valid_utf8(name),
    ensures
        p_export((enc_u32(name.len()) + name) + seq![0u8, 0u8]) == Ok::<(ExportView, int), ReadError>(
            (ExportView { name, target: ExportTarget::Function(0) }, (enc_u32(name.len()).len() + name.len() + 2) as int),
        ),
{
    let e = enc_u32(name.len());
    let x = (e + name) + seq![0u8, 0u8];
    assert(x =~= e + (name + seq![0u8, 0u8]));
    lemma_u32_enc(name.len(), name + seq![0u8, 0u8]);
    let k = e.len() as int;
    assert(x.skip(k) =~= name + seq![0u8, 0u8]);
    assert(x.skip(k).take(name.len() as int) =~= name);
    assert(p_name(x) == Ok::<(Seq<u8>, int), ReadError>((name, k + name.len())));
    let y = x.skip(k + name.len());
    assert(y =~= seq![0u8, 0u8]);
    assert(p_u8(y) == Ok::<(u8, int), ReadError>((0u8, 1)));
    assert(x.skip(k + name.len() + 1) =~= enc_u32(0) + Seq::<u8>::empty());
    lemma_u32_enc(0, Seq::empty());
    assert(enc_u32(0) =~= seq![0u8]);
}

/// The export payload decodes to one export of function 0 named `name`.
pub proof fn lemma_export_payload(name: Seq<u8>)
    requires
        name.len() < 0x1_0000_0000,
        vstd::utf8::valid_utf8(name),
    ensures
        p_section(export_payload(name), 7, export_item()) == Ok::<Seq<ExportView>, ReadError>(
            seq![ExportView { name, target: ExportTarget::Function(0) }],
        ),
{
    let x = (enc_u32(name.len()) + name) + seq![0u8, 0u8];
    let s = export_payload(name);
    assert(s.skip(1) =~= x);
    lemma_export_item(name);
    assert((export_item())(x) == p_export(x));
    lemma_single_item(s, 7, export_item(), ExportView { name, target: ExportTarget::Function(0) });
}

/// The code payload decodes to one body: no locals, then `end`.
pub proof fn lemma_code_payload()
    ensures
        p_section(code_payload(), 10, code_body_item()) == Ok::<Seq<Seq<u8>>, ReadError>(
            seq![seq![0u8, 0x0bu8]],
        ),
{
    let s = code_payload();
    let x = seq![2u8, 0u8, 0x0bu8];
    assert(s.skip(1) =~= x);
    assert(x =~= enc_u32(2) + seq![0u8, 0x0bu8]);
    lemma_u32_enc(2, seq![0u8, 0x0bu8]);
    assert(enc_u32(2) =~= seq![2u8]);
    let b = seq![0u8, 0x0bu8];
    assert(x.skip(1) =~= b);
    assert(b.take(2) =~= b);
    assert(p_code_body(x) == Ok::<(Seq<u8>, int), ReadError>((b, 3)));
    assert((code_body_item())(x) == p_code_body(x));
    lemma_single_item(s, 10, code_body_item(), b);
}

/// The sections of the minimal module after the header.
pub open spec fn minimal_body(t: FuncTypeView, name: Seq<u8>) -> Seq<u8> {
    enc_section(1, type_payload(t)) + (enc_section(3, function_payload()) + (enc_section(7, export_payload(name))
        + enc_section(10, code_payload())))
}

/// Where a section of payload `p` starts when its header is at `base`.
pub open spec fn payload_start(p: Seq<u8>, base: int) -> int {
    base + 1 + enc_u32(p.len()).len()
}

/// The section table of the minimal module.
pub open spec fn minimal_sections(t: FuncTypeView, name: Seq<u8>) -> Seq<Section> {
    let (tp, fp, ep, cp) = (type_payload(t), function_payload(), export_payload(name), code_payload());
    let b2 = 8 + enc_section(1, tp).len() as int;
    let b3 = b2 + enc_section(3, fp).len() as int;
    let b4 = b3 + enc_section(7, ep).len() as int;
    seq![
        Section { id: 1, offset: payload_start(tp, 8) as usize, len: tp.len() as usize },
        Section { id: 3, offset: payload_start(fp, b2) as usize, len: fp.len() as usize },
        Section { id: 7, offset: payload_start(ep, b3) as usize, len: ep.len() as usize },
        Section { id: 10, offset: payload_start(cp, b4) as usize, len: cp.len() as usize },
    ]
}

/// What the minimal module reads as.
pub open spec fn minimal_view(t: FuncTypeView, name: Seq<u8>) -> ModuleView {
    ModuleView {
        types: seq![t],
        functions: seq![Function { type_index: 0 }],
        exports: seq![ExportView { name, target: ExportTarget::Function(0) }],
        code: seq![seq![0u8, 0x0bu8]],
        customs: Seq::empty(),
    }
}

/// The minimal module's header reads.
pub proof fn lemma_minimal_header(t: FuncTypeView, name: Seq<u8>)
    ensures
        p_header(minimal_module(t, name)) == Ok::<int, ReadError>(8),
        minimal_module(t, name).skip(8) == minimal_body(t, name),
{
    let m = minimal_module(t, name);
    assert(m =~= (magic() + version_one()) + minimal_body(t, name));
    assert(m.take(4) =~= magic());
    assert(m.subrange(4, 8) =~= version_one());
    assert(m.skip(8) =~= minimal_body(t, name));
}

/// The minimal module's section table is the four sections.
pub proof fn lemma_minimal_scan(t: FuncTypeView, name: Seq<u8>)
    requires
        t.params.len() + t.results.len() + 12 < 0x1_0000_0000,
        name.len() + 8 < 0x1_0000_0000,
    ensures
        scan(minimal_body(t, name), 8) == Ok::<Seq<Section>, ReadError>(minimal_sections(t, name)),
{
    let (tp, fp, ep, cp) = (type_payload(t), function_payload(), export_payload(name), code_payload());
    lemma_u32_enc(t.params.len(), Seq::empty());
    lemma_u32_enc(t.results.len(), Seq::empty());
    lemma_u32_enc(name.len(), Seq::empty());
    lemma_kinds_enc(t.params, Seq::empty());
    lemma_kinds_enc(t.results, Seq::empty());
    let (s1, s2, s3, s4) = (enc_section(1, tp), enc_section(3, fp), enc_section(7, ep), enc_section(10, cp));
    let b2 = 8 + s1.len() as int;
    let b3 = b2 + s2.len() as int;
    let b4 = b3 + s3.len() as int;
    lemma_scan_section(10, cp, Seq::empty(), b4);
    assert(s4 + Seq::<u8>::empty() =~= s4);
    lemma_scan_section(7, ep, s4, b3);
    lemma_scan_section(3, fp, s3 + s4, b2);
    lemma_scan_section(1, tp, s2 + (s3 + s4), 8);
    let secs = minimal_sections(t, name);
    assert(seq![secs[3]] + Seq::<Section>::empty() =~= seq![secs[3]]);
    assert(seq![secs[2]] + seq![secs[3]] =~= seq![secs[2], secs[3]]);
    assert(seq![secs[1]] + seq![secs[2], secs[3]] =~= seq![secs[1], secs[2], secs[3]]);
    assert(seq![secs[0]] + seq![secs[1], secs[2], secs[3]] =~= secs);
}

/// The payload at `offset` of a section header that sits at `base`.
proof fn lemma_payload_at(data: Seq<u8>, before: Seq<u8>, id: u8, p: Seq<u8>, after: Seq<u8>)
    requires
        data == before + (enc_section(id, p) + after),
    ensures
        data.subrange(payload_start(p, before.len() as int), payload_start(p, before.len() as int) + p.len())
            == p,
{
    let k = enc_u32(p.len()).len();
    assert(data.subrange(payload_start(p, before.len() as int), payload_start(p, before.len() as int) + p.len())
        =~= p);
}

/// The payloads of the minimal module, in table order.
pub open spec fn minimal_payloads(t: FuncTypeView, name: Seq<u8>) -> Seq<Seq<u8>> {
    seq![type_payload(t), function_payload(), export_payload(name), code_payload()]
}

/// Each payload of the minimal module lies where its table entry says.
#[verifier::rlimit(40)]
pub proof fn lemma_minimal_payloads(t: FuncTypeView, name: Seq<u8>)
    requires
        t.params.len() + t.results.len() + 12 < 0x1_0000_0000,
        name.len() + 8 < 0x1_0000_0000,
        minimal_module(t, name).len() <= usize::MAX,
    ensures
        forall|i: int|
            0 <= i < 4 ==> {
                let m = minimal_module(t, name);
                let sec = #[trigger] minimal_sections(t, name)[i];
                &&& sec.offset + sec.len <= m.len()
                &&& m.subrange(sec.offset as int, sec.offset + sec.len) == minimal_payloads(t, name)[i]
            },
{
    let m = minimal_module(t, name);
    let (tp, fp, ep, cp) = (type_payload(t), function_payload(), export_payload(name), code_payload());
    let (s1, s2, s3, s4) = (enc_section(1, tp), enc_section(3, fp), enc_section(7, ep), enc_section(10, cp));
    let h = magic() + version_one();
    assert(m =~= h + (s1 + (s2 + (s3 + s4))));
    lemma_payload_at(m, h, 1, tp, s2 + (s3 + s4));
    assert(m =~= (h + s1) + (s2 + (s3 + s4)));
    lemma_payload_at(m, h + s1, 3, fp, s3 + s4);
    assert(m =~= ((h + s1) + s2) + (s3 + s4));
    lemma_payload_at(m, (h + s1) + s2, 7, ep, s4);
    assert(m =~= (((h + s1) + s2) + s3) + (s4 + Seq::<u8>::empty()));
    lemma_payload_at(m, ((h + s1) + s2) + s3, 10, cp, Seq::empty());
    let secs = minimal_sections(t, name);
    let ps = minimal_payloads(t, name);
    assert(ps[0] == tp && ps[1] == fp && ps[2] == ep && ps[3] == cp);
}

/// Four sections whose payloads decode to one signature, one function, one
/// export and one body assemble to the minimal module's view.
#[verifier::rlimit(40)]
proof fn lemma_build_four(
    data: Seq<u8>,
    secs: Seq<Section>,
    payloads: Seq<Seq<u8>>,
    t: FuncTypeView,
    name: Seq<u8>,
)
    requires
        secs.len() == 4,
        payloads.len() == 4,
        secs[0].id == 1,
        secs[1].id == 3,
        secs[2].id == 7,
        secs[3].id == 10,
        forall|i: int|
            0 <= i < 4 ==> secs[i].offset + secs[i].len <= data.len() && #[trigger] data.subrange(
                secs[i].offset as int,
                secs[i].offset + secs[i].len,
            ) == payloads[i],
        p_section(payloads[0], 1, func_type_item()) == Ok::<Seq<FuncTypeView>, ReadError>(seq![t]),
        p_section(payloads[1], 3, function_item()) == Ok::<Seq<Function>, ReadError>(
            seq![Function { type_index: 0 }],
        ),
        p_section(payloads[2], 7, export_item()) == Ok::<Seq<ExportView>, ReadError>(
            seq![ExportView { name, target: ExportTarget::Function(0) }],
        ),
        p_section(payloads[3], 10, code_body_item()) == Ok::<Seq<Seq<u8>>, ReadError>(
            seq![seq![0u8, 0x0bu8]],
        ),
    ensures
        build(data, secs) == Ok::<ModuleView, ReadError>(minimal_view(t, name)),
{
    let ex = ExportView { name, target: ExportTarget::Function(0) };
    let body = seq![0u8, 0x0bu8];
    let m0 = empty_module();
    let m1 = ModuleView { types: seq![t], ..m0 };
    let m2 = ModuleView { functions: seq![Function { type_index: 0 }], ..m1 };
    let m3 = ModuleView { exports: seq![ex], ..m2 };
    assert(m0.types + seq![t] =~= seq![t]);
    assert(m1.functions + seq![Function { type_index: 0 }] =~= seq![Function { type_index: 0 }]);
    assert(m2.exports + seq![ex] =~= seq![ex]);
    assert(m3.code + seq![body] =~= seq![body]);
    assert(data.subrange(secs[0].offset as int, secs[0].offset + secs[0].len) == payloads[0]);
    assert(data.subrange(secs[1].offset as int, secs[1].offset + secs[1].len) == payloads[1]);
    assert(data.subrange(secs[2].offset as int, secs[2].offset + secs[2].len) == payloads[2]);
    assert(data.subrange(secs[3].offset as int, secs[3].offset + secs[3].len) == payloads[3]);
    assert(secs.take(1).drop_last() =~= Seq::<Section>::empty());
    assert(secs.take(2).drop_last() =~= secs.take(1));
    assert(secs.take(3).drop_last() =~= secs.take(2));
    assert(secs.drop_last() =~= secs.take(3));
    assert(build(data, Seq::<Section>::empty()) == Ok::<ModuleView, ReadError>(m0));
    assert(secs.take(1).last() == secs[0]);
    assert(secs.take(2).last() == secs[1]);
    assert(secs.take(3).last() == secs[2]);
    assert(add_section(data, m0, secs[0]) == Ok::<ModuleView, ReadError>(m1));
    assert(build(data, secs.take(1)) == Ok::<ModuleView, ReadError>(m1));
    assert(add_section(data, m1, secs[1]) == Ok::<ModuleView, ReadError>(m2));
    assert(build(data, secs.take(2)) == Ok::<ModuleView, ReadError>(m2));
    assert(add_section(data, m2, secs[2]) == Ok::<ModuleView, ReadError>(m3));
    assert(build(data, secs.take(3)) == Ok::<ModuleView, ReadError>(m3));
    assert(add_section(data, m3, secs[3]) == Ok::<ModuleView, ReadError>(minimal_view(t, name)));
}

/// The minimal module assembles to its view.
pub proof fn lemma_minimal_build(t: FuncTypeView, name: Seq<u8>)
    requires
        t.params.len() + t.results.len() + 12 < 0x1_0000_0000,
        name.len() + 8 < 0x1_0000_0000,
        vstd::utf8::valid_utf8(name),
        minimal_module(t, name).len() <= usize::MAX,
    ensures
        build(minimal_module(t, name), minimal_sections(t, name)) == Ok::<ModuleView, ReadError>(
            minimal_view(t, name),
        ),
{
    lemma_minimal_payloads(t, name);
    lemma_type_payload(t);
    lemma_function_payload();
    lemma_export_payload(name);
    lemma_code_payload();
    let ps = minimal_payloads(t, name);
    assert(ps[0] == type_payload(t) && ps[1] == function_payload() && ps[2] == export_payload(name) && ps[3]
        == code_payload());
    lemma_build_four(minimal_module(t, name), minimal_sections(t, name), ps, t, name);
}

} // verus!
