//! The value grammar of the wire format, as specification functions.
//!
//! Given a descriptor and a type dictionary, these functions say which value
//! a byte sequence holds at a position, or with which error it is rejected.
//! The executable decoder in [`crate::de`] is proved to return exactly what
//! they describe.

use vstd::prelude::*;
use crate::errors::Error;
use crate::format::{spec_uvarint, spec_varint, spec_uvarint_word, spec_bytes, swap8, Parsed};
use crate::types::{
    TypeId, TypeDefV, WireTypeEnumV, spec_from_id, INTERFACE_ID,
};
use crate::value::{ValueV, FieldValueV, MapEntryV};

verus! {

// ------------------------------------------------------------------
// The field tables of the struct-like descriptors.
// ------------------------------------------------------------------

/// Whether a value of this descriptor is a field-delta struct on the wire.
pub open spec fn spec_is_struct(t: TypeDefV) -> bool {
    match t {
        TypeDefV::WireType => true,
        TypeDefV::CommonType => true,
        TypeDefV::FieldType => true,
        TypeDefV::StructType => true,
        TypeDefV::ArrayType => true,
        TypeDefV::SliceType => true,
        TypeDefV::MapType => true,
        TypeDefV::Custom(WireTypeEnumV::Struct(_)) => true,
        _ => false,
    }
}

/// How many fields a struct-like descriptor has.
pub open spec fn spec_nfields(t: TypeDefV) -> int {
    match t {
        TypeDefV::WireType => 4,
        TypeDefV::CommonType => 2,
        TypeDefV::FieldType => 2,
        TypeDefV::StructType => 2,
        TypeDefV::ArrayType => 3,
        TypeDefV::SliceType => 2,
        TypeDefV::MapType => 3,
        TypeDefV::Custom(WireTypeEnumV::Struct(st)) => st.fields.len() as int,
        _ => 0,
    }
}

/// The descriptor of field `i` of a struct-like descriptor.  The schema
/// structs have their layouts hard-coded; a user-defined struct names its
/// field types by id, resolved against the dictionary.
pub open spec fn spec_field_type(t: TypeDefV, i: int, types: Map<TypeId, TypeDefV>) -> Result<
    TypeDefV,
    Error,
> {
    match t {
        TypeDefV::WireType => if i == 0 {
            Ok(TypeDefV::ArrayType)
        } else if i == 1 {
            Ok(TypeDefV::SliceType)
        } else if i == 2 {
            Ok(TypeDefV::StructType)
        } else {
            Ok(TypeDefV::MapType)
        },
        TypeDefV::CommonType => if i == 0 {
            Ok(TypeDefV::ByteSlice)
        } else {
            Ok(TypeDefV::Int)
        },
        TypeDefV::FieldType => if i == 0 {
            Ok(TypeDefV::ByteSlice)
        } else {
            Ok(TypeDefV::Int)
        },
        TypeDefV::StructType => if i == 0 {
            Ok(TypeDefV::CommonType)
        } else {
            Ok(TypeDefV::FieldTypeSlice)
        },
        TypeDefV::ArrayType => if i == 0 {
            Ok(TypeDefV::CommonType)
        } else {
            Ok(TypeDefV::Int)
        },
        TypeDefV::SliceType => if i == 0 {
            Ok(TypeDefV::CommonType)
        } else {
            Ok(TypeDefV::Int)
        },
        TypeDefV::MapType => if i == 0 {
            Ok(TypeDefV::CommonType)
        } else {
            Ok(TypeDefV::Int)
        },
        TypeDefV::Custom(WireTypeEnumV::Struct(st)) => if 0 <= i < st.fields.len() {
            match spec_from_id(st.fields[i].id, types) {
                Some(ft) => Ok(ft),
                None => Err(Error::UndefinedType(st.fields[i].id)),
            }
        } else {
            Err(Error::InvalidField)
        },
        _ => Err(Error::InvalidField),
    }
}

pub open spec fn name_array_t() -> Seq<u8> {
    seq![0x41u8, 0x72, 0x72, 0x61, 0x79, 0x54]
}

pub open spec fn name_slice_t() -> Seq<u8> {
    seq![0x53u8, 0x6c, 0x69, 0x63, 0x65, 0x54]
}

pub open spec fn name_struct_t() -> Seq<u8> {
    seq![0x53u8, 0x74, 0x72, 0x75, 0x63, 0x74, 0x54]
}

pub open spec fn name_map_t() -> Seq<u8> {
    seq![0x4du8, 0x61, 0x70, 0x54]
}

pub open spec fn name_name() -> Seq<u8> {
    seq![0x4eu8, 0x61, 0x6d, 0x65]
}

pub open spec fn name_id() -> Seq<u8> {
    seq![0x49u8, 0x64]
}

pub open spec fn name_common_type() -> Seq<u8> {
    seq![0x43u8, 0x6f, 0x6d, 0x6d, 0x6f, 0x6e, 0x54, 0x79, 0x70, 0x65]
}

pub open spec fn name_field() -> Seq<u8> {
    seq![0x46u8, 0x69, 0x65, 0x6c, 0x64]
}

pub open spec fn name_elem() -> Seq<u8> {
    seq![0x45u8, 0x6c, 0x65, 0x6d]
}

pub open spec fn name_len() -> Seq<u8> {
    seq![0x4cu8, 0x65, 0x6e]
}

pub open spec fn name_key() -> Seq<u8> {
    seq![0x4bu8, 0x65, 0x79]
}

/// The name of field `i` of a struct-like descriptor, as the schema or the
/// user-supplied definition spells it.
pub open spec fn spec_field_name(t: TypeDefV, i: int) -> Seq<u8> {
    match t {
        TypeDefV::WireType => if i == 0 {
            name_array_t()
        } else if i == 1 {
            name_slice_t()
        } else if i == 2 {
            name_struct_t()
        } else {
            name_map_t()
        },
        TypeDefV::CommonType => if i == 0 {
            name_name()
        } else {
            name_id()
        },
        TypeDefV::FieldType => if i == 0 {
            name_name()
        } else {
            name_id()
        },
        TypeDefV::StructType => if i == 0 {
            name_common_type()
        } else {
            name_field()
        },
        TypeDefV::ArrayType => if i == 0 {
            name_common_type()
        } else if i == 1 {
            name_elem()
        } else {
            name_len()
        },
        TypeDefV::SliceType => if i == 0 {
            name_common_type()
        } else {
            name_elem()
        },
        TypeDefV::MapType => if i == 0 {
            name_common_type()
        } else if i == 1 {
            name_key()
        } else {
            name_elem()
        },
        TypeDefV::Custom(WireTypeEnumV::Struct(st)) => if 0 <= i < st.fields.len() {
            st.fields[i].name
        } else {
            Seq::empty()
        },
        _ => Seq::empty(),
    }
}

// ------------------------------------------------------------------
// The grammar itself.
// ------------------------------------------------------------------

/// Keeps a continuation position inside `[pos + 1, s.len()]` so that the
/// termination measures of the grammar are visibly well founded.  The
/// position lemmas below show that every position a parser returns already
/// lies in that range, so this function never alters one.
pub open spec fn adv_pos(s: Seq<u8>, pos: int, p: int) -> int {
    if p <= pos {
        pos + 1
    } else if p > s.len() {
        s.len() as int
    } else {
        p
    }
}

/// As `adv_pos`, but only keeps the position inside `[pos, s.len()]`.
pub open spec fn step_pos(s: Seq<u8>, pos: int, p: int) -> int {
    if p < pos {
        pos
    } else if p > s.len() {
        s.len() as int
    } else {
        p
    }
}

/// One value of descriptor `t` at `pos`.
pub open spec fn spec_value(
    s: Seq<u8>,
    pos: int,
    t: TypeDefV,
    types: Map<TypeId, TypeDefV>,
) -> Parsed<ValueV>
    decreases s.len() - pos, 1int, 0int,
{
    if pos < 0 || pos > s.len() {
        Parsed::Fail(Error::UnexpectedEof)
    } else {
        match t {
            TypeDefV::Bool => match spec_uvarint(s, pos) {
                Parsed::Val(u, p) => Parsed::Val(ValueV::Bool(u != 0), p),
                Parsed::Fail(e) => Parsed::Fail(e),
            },
            TypeDefV::Uint => match spec_uvarint(s, pos) {
                Parsed::Val(u, p) => Parsed::Val(ValueV::Uint(u), p),
                Parsed::Fail(e) => Parsed::Fail(e),
            },
            TypeDefV::Int => match spec_varint(s, pos) {
                Parsed::Val(i, p) => Parsed::Val(ValueV::Int(i), p),
                Parsed::Fail(e) => Parsed::Fail(e),
            },
            TypeDefV::Float => match spec_uvarint(s, pos) {
                Parsed::Val(u, p) => Parsed::Val(ValueV::Float(swap8(u)), p),
                Parsed::Fail(e) => Parsed::Fail(e),
            },
            TypeDefV::ByteSlice => match spec_bytes(s, pos) {
                Parsed::Val(b, p) => Parsed::Val(ValueV::Bytes(b), p),
                Parsed::Fail(e) => Parsed::Fail(e),
            },
            TypeDefV::String => match spec_bytes(s, pos) {
                Parsed::Val(b, p) => Parsed::Val(ValueV::Bytes(b), p),
                Parsed::Fail(e) => Parsed::Fail(e),
            },
            TypeDefV::Complex => match spec_uvarint(s, pos) {
                Parsed::Val(re, p1) => match spec_uvarint(s, p1) {
                    Parsed::Val(im, p2) => Parsed::Val(ValueV::Complex(swap8(re), swap8(im)), p2),
                    Parsed::Fail(e) => Parsed::Fail(e),
                },
                Parsed::Fail(e) => Parsed::Fail(e),
            },
            TypeDefV::Interface => Parsed::Fail(Error::DecodingUnsupported(INTERFACE_ID)),
            TypeDefV::FieldTypeSlice => match spec_uvarint_word(s, pos) {
                Parsed::Val(n, p) => match spec_elems(
                    s,
                    adv_pos(s, pos, p),
                    TypeDefV::FieldType,
                    types,
                    n as nat,
                ) {
                    Parsed::Val(vs, q) => Parsed::Val(ValueV::Slice(vs), q),
                    Parsed::Fail(e) => Parsed::Fail(e),
                },
                Parsed::Fail(e) => Parsed::Fail(e),
            },
            TypeDefV::WireType => spec_struct_value(s, pos, t, types),
            TypeDefV::CommonType => spec_struct_value(s, pos, t, types),
            TypeDefV::FieldType => spec_struct_value(s, pos, t, types),
            TypeDefV::StructType => spec_struct_value(s, pos, t, types),
            TypeDefV::ArrayType => spec_struct_value(s, pos, t, types),
            TypeDefV::SliceType => spec_struct_value(s, pos, t, types),
            TypeDefV::MapType => spec_struct_value(s, pos, t, types),
            TypeDefV::Custom(w) => match w {
                WireTypeEnumV::Struct(_) => spec_struct_value(s, pos, t, types),
                WireTypeEnumV::Slice(st) => match spec_from_id(st.elem, types) {
                    None => Parsed::Fail(Error::UndefinedType(st.elem)),
                    Some(et) => match spec_uvarint_word(s, pos) {
                        Parsed::Val(n, p) => match spec_elems(
                            s,
                            adv_pos(s, pos, p),
                            et,
                            types,
                            n as nat,
                        ) {
                            Parsed::Val(vs, q) => Parsed::Val(ValueV::Slice(vs), q),
                            Parsed::Fail(e) => Parsed::Fail(e),
                        },
                        Parsed::Fail(e) => Parsed::Fail(e),
                    },
                },
                WireTypeEnumV::Array(at) => match spec_from_id(at.elem, types) {
                    None => Parsed::Fail(Error::UndefinedType(at.elem)),
                    Some(et) => match spec_uvarint_word(s, pos) {
                        Parsed::Val(n, p) => match spec_elems(
                            s,
                            adv_pos(s, pos, p),
                            et,
                            types,
                            n as nat,
                        ) {
                            Parsed::Val(vs, q) => Parsed::Val(ValueV::Slice(vs), q),
                            Parsed::Fail(e) => Parsed::Fail(e),
                        },
                        Parsed::Fail(e) => Parsed::Fail(e),
                    },
                },
                WireTypeEnumV::MapT(mt) => match spec_from_id(mt.key, types) {
                    None => Parsed::Fail(Error::UndefinedType(mt.key)),
                    Some(kt) => match spec_from_id(mt.elem, types) {
                        None => Parsed::Fail(Error::UndefinedType(mt.elem)),
                        Some(et) => match spec_uvarint_word(s, pos) {
                            Parsed::Val(n, p) => match spec_map_entries(
                                s,
                                adv_pos(s, pos, p),
                                kt,
                                et,
                                types,
                                n as nat,
                            ) {
                                Parsed::Val(es, q) => Parsed::Val(ValueV::Mapping(es), q),
                                Parsed::Fail(e) => Parsed::Fail(e),
                            },
                            Parsed::Fail(e) => Parsed::Fail(e),
                        },
                    },
                },
            },
        }
    }
}

/// A struct-like value at `pos`: its field-delta sequence, started at the
/// imaginary field index `-1`.
pub open spec fn spec_struct_value(
    s: Seq<u8>,
    pos: int,
    t: TypeDefV,
    types: Map<TypeId, TypeDefV>,
) -> Parsed<ValueV>
    decreases s.len() - pos, 0int, 1int,
{
    match spec_fields(s, pos, t, types, -1) {
        Parsed::Val(fs, p) => Parsed::Val(ValueV::Struct(fs), p),
        Parsed::Fail(e) => Parsed::Fail(e),
    }
}

/// The field-delta protocol: read a delta; zero ends the struct; otherwise
/// advance the running field index by the delta, check it against the
/// descriptor, and read the field's value.
pub open spec fn spec_fields(
    s: Seq<u8>,
    pos: int,
    t: TypeDefV,
    types: Map<TypeId, TypeDefV>,
    cur: int,
) -> Parsed<Seq<FieldValueV>>
    decreases s.len() - pos, 0int, 0int,
{
    if pos < 0 || pos > s.len() {
        Parsed::Fail(Error::UnexpectedEof)
    } else {
        match spec_uvarint_word(s, pos) {
            Parsed::Fail(e) => Parsed::Fail(e),
            Parsed::Val(delta, p1) => if delta == 0 {
                Parsed::Val(Seq::empty(), p1)
            } else {
                let fid = cur + delta;
                if !(fid < spec_nfields(t)) {
                    Parsed::Fail(Error::InvalidField)
                } else {
                    match spec_field_type(t, fid, types) {
                        Err(e) => Parsed::Fail(e),
                        Ok(ft) => match spec_value(s, adv_pos(s, pos, p1), ft, types) {
                            Parsed::Fail(e) => Parsed::Fail(e),
                            Parsed::Val(v, p2) => match spec_fields(
                                s,
                                adv_pos(s, pos, p2),
                                t,
                                types,
                                fid,
                            ) {
                                Parsed::Fail(e) => Parsed::Fail(e),
                                Parsed::Val(rest, p3) => Parsed::Val(
                                    seq![
                                        FieldValueV {
                                            field_id: fid,
                                            name: spec_field_name(t, fid),
                                            value: v,
                                        },
                                    ].add(rest),
                                    p3,
                                ),
                            },
                        },
                    }
                }
            },
        }
    }
}

/// `n` consecutive values of one element descriptor.
pub open spec fn spec_elems(
    s: Seq<u8>,
    pos: int,
    et: TypeDefV,
    types: Map<TypeId, TypeDefV>,
    n: nat,
) -> Parsed<Seq<ValueV>>
    decreases s.len() - pos, 3int, n,
{
    if n == 0 {
        Parsed::Val(Seq::empty(), pos)
    } else if pos < 0 || pos > s.len() {
        Parsed::Fail(Error::UnexpectedEof)
    } else {
        match spec_value(s, pos, et, types) {
            Parsed::Fail(e) => Parsed::Fail(e),
            Parsed::Val(v, p) => match spec_elems(
                s,
                step_pos(s, pos, p),
                et,
                types,
                (n - 1) as nat,
            ) {
                Parsed::Fail(e) => Parsed::Fail(e),
                Parsed::Val(vs, q) => Parsed::Val(seq![v].add(vs), q),
            },
        }
    }
}

/// `n` consecutive key-value pairs of one pair of descriptors.
pub open spec fn spec_map_entries(
    s: Seq<u8>,
    pos: int,
    kt: TypeDefV,
    et: TypeDefV,
    types: Map<TypeId, TypeDefV>,
    n: nat,
) -> Parsed<Seq<MapEntryV>>
    decreases s.len() - pos, 3int, n,
{
    if n == 0 {
        Parsed::Val(Seq::empty(), pos)
    } else if pos < 0 || pos > s.len() {
        Parsed::Fail(Error::UnexpectedEof)
    } else {
        match spec_value(s, pos, kt, types) {
            Parsed::Fail(e) => Parsed::Fail(e),
            Parsed::Val(k, p1) => match spec_value(s, step_pos(s, pos, p1), et, types) {
                Parsed::Fail(e) => Parsed::Fail(e),
                Parsed::Val(v, p2) => match spec_map_entries(
                    s,
                    step_pos(s, pos, p2),
                    kt,
                    et,
                    types,
                    (n - 1) as nat,
                ) {
                    Parsed::Fail(e) => Parsed::Fail(e),
                    Parsed::Val(es, q) => Parsed::Val(
                        seq![MapEntryV { key: k, value: v }].add(es),
                        q,
                    ),
                },
            },
        }
    }
}

// ------------------------------------------------------------------
// Position lemmas: every position a parser returns lies past its start
// and inside the input, so the clamps above never alter one.
// ------------------------------------------------------------------

pub proof fn lemma_value_pos(s: Seq<u8>, pos: int, t: TypeDefV, types: Map<TypeId, TypeDefV>)
    ensures
        match spec_value(s, pos, t, types) {
            Parsed::Val(_, p) => pos < p <= s.len(),
            Parsed::Fail(_) => true,
        },
    decreases s.len() - pos, 1int, 0int,
{
    if 0 <= pos <= s.len() {
        match t {
            TypeDefV::WireType => lemma_fields_pos(s, pos, t, types, -1),
            TypeDefV::CommonType => lemma_fields_pos(s, pos, t, types, -1),
            TypeDefV::FieldType => lemma_fields_pos(s, pos, t, types, -1),
            TypeDefV::StructType => lemma_fields_pos(s, pos, t, types, -1),
            TypeDefV::ArrayType => lemma_fields_pos(s, pos, t, types, -1),
            TypeDefV::SliceType => lemma_fields_pos(s, pos, t, types, -1),
            TypeDefV::MapType => lemma_fields_pos(s, pos, t, types, -1),
            TypeDefV::FieldTypeSlice => {
                if let Parsed::Val(n, p) = spec_uvarint_word(s, pos) {
                    lemma_elems_pos(s, adv_pos(s, pos, p), TypeDefV::FieldType, types, n as nat);
                }
            },
            TypeDefV::Custom(w) => match w {
                WireTypeEnumV::Struct(_) => lemma_fields_pos(s, pos, t, types, -1),
                WireTypeEnumV::Slice(st) => {
                    if let Some(et) = spec_from_id(st.elem, types) {
                        if let Parsed::Val(n, p) = spec_uvarint_word(s, pos) {
                            lemma_elems_pos(s, adv_pos(s, pos, p), et, types, n as nat);
                        }
                    }
                },
                WireTypeEnumV::Array(at) => {
                    if let Some(et) = spec_from_id(at.elem, types) {
                        if let Parsed::Val(n, p) = spec_uvarint_word(s, pos) {
                            lemma_elems_pos(s, adv_pos(s, pos, p), et, types, n as nat);
                        }
                    }
                },
                WireTypeEnumV::MapT(mt) => {
                    if let Some(kt) = spec_from_id(mt.key, types) {
                        if let Some(et) = spec_from_id(mt.elem, types) {
                            if let Parsed::Val(n, p) = spec_uvarint_word(s, pos) {
                                lemma_entries_pos(s, adv_pos(s, pos, p), kt, et, types, n as nat);
                            }
                        }
                    }
                },
            },
            _ => {},
        }
    }
}

pub proof fn lemma_fields_pos(
    s: Seq<u8>,
    pos: int,
    t: TypeDefV,
    types: Map<TypeId, TypeDefV>,
    cur: int,
)
    ensures
        match spec_fields(s, pos, t, types, cur) {
            Parsed::Val(_, p) => pos < p <= s.len(),
            Parsed::Fail(_) => true,
        },
    decreases s.len() - pos, 0int, 0int,
{
    if 0 <= pos <= s.len() {
        if let Parsed::Val(delta, p1) = spec_uvarint_word(s, pos) {
            if delta != 0 {
                let fid = cur + delta;
                if fid < spec_nfields(t) {
                    if let Ok(ft) = spec_field_type(t, fid, types) {
                        lemma_value_pos(s, adv_pos(s, pos, p1), ft, types);
                        if let Parsed::Val(_, p2) = spec_value(s, adv_pos(s, pos, p1), ft, types) {
                            lemma_fields_pos(s, adv_pos(s, pos, p2), t, types, fid);
                        }
                    }
                }
            }
        }
    }
}

/// Law: within one struct value, the decoded field ids are strictly
/// increasing, and each lies above the index the protocol started from.
pub proof fn lemma_fields_increasing(
    s: Seq<u8>,
    pos: int,
    t: TypeDefV,
    types: Map<TypeId, TypeDefV>,
    cur: int,
)
    ensures
        match spec_fields(s, pos, t, types, cur) {
            Parsed::Val(fs, _) => (forall|j: int|
                0 <= j < fs.len() ==> cur < #[trigger] fs[j].field_id) && (forall|
                j: int,
                k: int,
            |
                0 <= j < k < fs.len() ==> #[trigger] fs[j].field_id < #[trigger] fs[k].field_id),
            Parsed::Fail(_) => true,
        },
    decreases s.len() - pos, 0int, 0int,
{
    if 0 <= pos <= s.len() {
        if let Parsed::Val(delta, p1) = spec_uvarint_word(s, pos) {
            if delta != 0 {
                let fid = cur + delta;
                if fid < spec_nfields(t) {
                    if let Ok(ft) = spec_field_type(t, fid, types) {
                        if let Parsed::Val(v, p2) = spec_value(s, adv_pos(s, pos, p1), ft, types) {
                            lemma_fields_increasing(s, adv_pos(s, pos, p2), t, types, fid);
                            if let Parsed::Val(rest, _) = spec_fields(
                                s,
                                adv_pos(s, pos, p2),
                                t,
                                types,
                                fid,
                            ) {
                                let fs = seq![
                                    FieldValueV {
                                        field_id: fid,
                                        name: spec_field_name(t, fid),
                                        value: v,
                                    },
                                ].add(rest);
                                assert forall|j: int| 0 <= j < fs.len() implies cur
                                    < #[trigger] fs[j].field_id by {
                                    if j > 0 {
                                        assert(fs[j] == rest[j - 1]);
                                    }
                                }
                                assert forall|j: int, k: int| 0 <= j < k < fs.len() implies #[trigger] fs[j].field_id
                                    < #[trigger] fs[k].field_id by {
                                    assert(fs[k] == rest[k - 1]);
                                    if j > 0 {
                                        assert(fs[j] == rest[j - 1]);
                                    }
                                }
                            }
                        }
                    }
                }
            }
        }
    }
}

/// Law: any decoded struct value carries its fields in strictly
/// increasing field-id order.
pub proof fn lemma_struct_field_order(s: Seq<u8>, pos: int, t: TypeDefV, types: Map<TypeId, TypeDefV>)
    ensures
        match spec_value(s, pos, t, types) {
            Parsed::Val(v, _) => v is Struct ==> forall|j: int, k: int|
                0 <= j < k < v->Struct_0.len() ==> #[trigger] v->Struct_0[j].field_id
                    < #[trigger] v->Struct_0[k].field_id,
            Parsed::Fail(_) => true,
        },
{
    if 0 <= pos <= s.len() {
        lemma_fields_increasing(s, pos, t, types, -1);
    }
}

pub proof fn lemma_elems_pos(
    s: Seq<u8>,
    pos: int,
    et: TypeDefV,
    types: Map<TypeId, TypeDefV>,
    n: nat,
)
    ensures
        match spec_elems(s, pos, et, types, n) {
            Parsed::Val(_, p) => pos <= p <= s.len() || n == 0,
            Parsed::Fail(_) => true,
        },
        n == 0 ==> spec_elems(s, pos, et, types, n) == Parsed::Val(Seq::<ValueV>::empty(), pos),
    decreases s.len() - pos, 3int, n,
{
    if n > 0 && 0 <= pos <= s.len() {
        lemma_value_pos(s, pos, et, types);
        if let Parsed::Val(_, p) = spec_value(s, pos, et, types) {
            lemma_elems_pos(s, step_pos(s, pos, p), et, types, (n - 1) as nat);
        }
    }
}

pub proof fn lemma_entries_pos(
    s: Seq<u8>,
    pos: int,
    kt: TypeDefV,
    et: TypeDefV,
    types: Map<TypeId, TypeDefV>,
    n: nat,
)
    ensures
        match spec_map_entries(s, pos, kt, et, types, n) {
            Parsed::Val(_, p) => pos <= p <= s.len() || n == 0,
            Parsed::Fail(_) => true,
        },
        n == 0 ==> spec_map_entries(s, pos, kt, et, types, n) == Parsed::Val(
            Seq::<MapEntryV>::empty(),
            pos,
        ),
    decreases s.len() - pos, 3int, n,
{
    if n > 0 && 0 <= pos <= s.len() {
        lemma_value_pos(s, pos, kt, types);
        if let Parsed::Val(_, p1) = spec_value(s, pos, kt, types) {
            lemma_value_pos(s, step_pos(s, pos, p1), et, types);
            if let Parsed::Val(_, p2) = spec_value(s, step_pos(s, pos, p1), et, types) {
                lemma_entries_pos(s, step_pos(s, pos, p2), kt, et, types, (n - 1) as nat);
            }
        }
    }
}

} // verus!
