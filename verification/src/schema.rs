//! Reading the schema structs back out of decoded values, and the
//! top-level stream: type definitions followed by a value.
//!
//! A type definition arrives as a `WireType` value in the format itself.
//! The decoder first parses it generically into a [`crate::value::Value`]
//! tree; the functions here interpret that tree as the schema structs,
//! giving every omitted field its zero value.

use vstd::prelude::*;
use crate::errors::Error;
use crate::format::{spec_uvarint_word, spec_varint_word, Parsed};
use crate::grammar::{spec_value, adv_pos};
use crate::types::{
    TypeId, TypeDef, TypeDefV, CommonType, CommonTypeV, FieldType, FieldTypeV, StructType,
    StructTypeV, ArrayType, ArrayTypeV, SliceType, SliceTypeV, MapType, MapTypeV, WireType,
    WireTypeV, spec_from_id, spec_is_builtin,
};
use crate::value::{Value, FieldValue, FieldValueV, ValueV};

verus! {

/// The largest `Int` values that fit the machine word; anything else in an
/// id or length position is out of range.
pub open spec fn fits_isize(i: i64) -> bool {
    isize::MIN as i64 <= i && i <= isize::MAX as i64
}

/// Folds decoded `CommonType` fields over the zero value.
pub open spec fn spec_common_fields(fs: Seq<FieldValueV>, acc: CommonTypeV) -> Result<
    CommonTypeV,
    Error,
>
    decreases fs.len(),
{
    if fs.len() == 0 {
        Ok(acc)
    } else {
        let f = fs[0];
        if f.field_id == 0 {
            match f.value {
                ValueV::Bytes(b) => spec_common_fields(
                    fs.drop_first(),
                    CommonTypeV { name: b, ..acc },
                ),
                _ => Err(Error::InvalidField),
            }
        } else if f.field_id == 1 {
            match f.value {
                ValueV::Int(i) => if fits_isize(i) {
                    spec_common_fields(fs.drop_first(), CommonTypeV { id: i as isize, ..acc })
                } else {
                    Err(Error::NumOutOfRange)
                },
                _ => Err(Error::InvalidField),
            }
        } else {
            Err(Error::InvalidField)
        }
    }
}

/// A decoded `CommonType` value as the schema struct.
pub open spec fn spec_common_type_of(v: ValueV) -> Result<CommonTypeV, Error> {
    match v {
        ValueV::Struct(fs) => spec_common_fields(
            fs,
            CommonTypeV { name: Seq::empty(), id: 0isize },
        ),
        _ => Err(Error::InvalidField),
    }
}

/// Folds decoded `FieldType` fields over the zero value.
pub open spec fn spec_field_type_fields(fs: Seq<FieldValueV>, acc: FieldTypeV) -> Result<
    FieldTypeV,
    Error,
>
    decreases fs.len(),
{
    if fs.len() == 0 {
        Ok(acc)
    } else {
        let f = fs[0];
        if f.field_id == 0 {
            match f.value {
                ValueV::Bytes(b) => spec_field_type_fields(
                    fs.drop_first(),
                    FieldTypeV { name: b, ..acc },
                ),
                _ => Err(Error::InvalidField),
            }
        } else if f.field_id == 1 {
            match f.value {
                ValueV::Int(i) => if fits_isize(i) {
                    spec_field_type_fields(fs.drop_first(), FieldTypeV { id: i as isize, ..acc })
                } else {
                    Err(Error::NumOutOfRange)
                },
                _ => Err(Error::InvalidField),
            }
        } else {
            Err(Error::InvalidField)
        }
    }
}

/// A decoded `FieldType` value as the schema struct.
pub open spec fn spec_field_type_of(v: ValueV) -> Result<FieldTypeV, Error> {
    match v {
        ValueV::Struct(fs) => spec_field_type_fields(
            fs,
            FieldTypeV { name: Seq::empty(), id: 0isize },
        ),
        _ => Err(Error::InvalidField),
    }
}

/// Decoded `FieldType` elements of a `FieldTypeSlice`, in order.
pub open spec fn spec_field_types_of(vs: Seq<ValueV>) -> Result<Seq<FieldTypeV>, Error>
    decreases vs.len(),
{
    if vs.len() == 0 {
        Ok(Seq::empty())
    } else {
        match spec_field_type_of(vs[0]) {
            Err(e) => Err(e),
            Ok(ft) => match spec_field_types_of(vs.drop_first()) {
                Err(e) => Err(e),
                Ok(rest) => Ok(seq![ft].add(rest)),
            },
        }
    }
}

/// Folds decoded `StructType` fields over the zero value.
pub open spec fn spec_struct_type_fields(fs: Seq<FieldValueV>, acc: StructTypeV) -> Result<
    StructTypeV,
    Error,
>
    decreases fs.len(),
{
    if fs.len() == 0 {
        Ok(acc)
    } else {
        let f = fs[0];
        if f.field_id == 0 {
            match spec_common_type_of(f.value) {
                Err(e) => Err(e),
                Ok(c) => spec_struct_type_fields(fs.drop_first(), StructTypeV { common: c, ..acc }),
            }
        } else if f.field_id == 1 {
            match f.value {
                ValueV::Slice(vs) => match spec_field_types_of(vs) {
                    Err(e) => Err(e),
                    Ok(fts) => spec_struct_type_fields(
                        fs.drop_first(),
                        StructTypeV { fields: fts, ..acc },
                    ),
                },
                _ => Err(Error::InvalidField),
            }
        } else {
            Err(Error::InvalidField)
        }
    }
}

/// A decoded `StructType` value as the schema struct.
pub open spec fn spec_struct_type_of(v: ValueV) -> Result<StructTypeV, Error> {
    match v {
        ValueV::Struct(fs) => spec_struct_type_fields(
            fs,
            StructTypeV {
                common: CommonTypeV { name: Seq::empty(), id: 0isize },
                fields: Seq::empty(),
            },
        ),
        _ => Err(Error::InvalidField),
    }
}

/// Folds decoded `ArrayType` fields over the zero value.
pub open spec fn spec_array_type_fields(fs: Seq<FieldValueV>, acc: ArrayTypeV) -> Result<
    ArrayTypeV,
    Error,
>
    decreases fs.len(),
{
    if fs.len() == 0 {
        Ok(acc)
    } else {
        let f = fs[0];
        if f.field_id == 0 {
            match spec_common_type_of(f.value) {
                Err(e) => Err(e),
                Ok(c) => spec_array_type_fields(fs.drop_first(), ArrayTypeV { common: c, ..acc }),
            }
        } else if f.field_id == 1 {
            match f.value {
                ValueV::Int(i) => if fits_isize(i) {
                    spec_array_type_fields(fs.drop_first(), ArrayTypeV { elem: i as isize, ..acc })
                } else {
                    Err(Error::NumOutOfRange)
                },
                _ => Err(Error::InvalidField),
            }
        } else if f.field_id == 2 {
            match f.value {
                ValueV::Int(i) => if fits_isize(i) {
                    spec_array_type_fields(fs.drop_first(), ArrayTypeV { len: i as isize, ..acc })
                } else {
                    Err(Error::NumOutOfRange)
                },
                _ => Err(Error::InvalidField),
            }
        } else {
            Err(Error::InvalidField)
        }
    }
}

/// A decoded `ArrayType` value as the schema struct.
pub open spec fn spec_array_type_of(v: ValueV) -> Result<ArrayTypeV, Error> {
    match v {
        ValueV::Struct(fs) => spec_array_type_fields(
            fs,
            ArrayTypeV {
                common: CommonTypeV { name: Seq::empty(), id: 0isize },
                elem: 0isize,
                len: 0isize,
            },
        ),
        _ => Err(Error::InvalidField),
    }
}

/// Folds decoded `SliceType` fields over the zero value.
pub open spec fn spec_slice_type_fields(fs: Seq<FieldValueV>, acc: SliceTypeV) -> Result<
    SliceTypeV,
    Error,
>
    decreases fs.len(),
{
    if fs.len() == 0 {
        Ok(acc)
    } else {
        let f = fs[0];
        if f.field_id == 0 {
            match spec_common_type_of(f.value) {
                Err(e) => Err(e),
                Ok(c) => spec_slice_type_fields(fs.drop_first(), SliceTypeV { common: c, ..acc }),
            }
        } else if f.field_id == 1 {
            match f.value {
                ValueV::Int(i) => if fits_isize(i) {
                    spec_slice_type_fields(fs.drop_first(), SliceTypeV { elem: i as isize, ..acc })
                } else {
                    Err(Error::NumOutOfRange)
                },
                _ => Err(Error::InvalidField),
            }
        } else {
            Err(Error::InvalidField)
        }
    }
}

/// A decoded `SliceType` value as the schema struct.
pub open spec fn spec_slice_type_of(v: ValueV) -> Result<SliceTypeV, Error> {
    match v {
        ValueV::Struct(fs) => spec_slice_type_fields(
            fs,
            SliceTypeV { common: CommonTypeV { name: Seq::empty(), id: 0isize }, elem: 0isize },
        ),
        _ => Err(Error::InvalidField),
    }
}

/// Folds decoded `MapType` fields over the zero value.
pub open spec fn spec_map_type_fields(fs: Seq<FieldValueV>, acc: MapTypeV) -> Result<
    MapTypeV,
    Error,
>
    decreases fs.len(),
{
    if fs.len() == 0 {
        Ok(acc)
    } else {
        let f = fs[0];
        if f.field_id == 0 {
            match spec_common_type_of(f.value) {
                Err(e) => Err(e),
                Ok(c) => spec_map_type_fields(fs.drop_first(), MapTypeV { common: c, ..acc }),
            }
        } else if f.field_id == 1 {
            match f.value {
                ValueV::Int(i) => if fits_isize(i) {
                    spec_map_type_fields(fs.drop_first(), MapTypeV { key: i as isize, ..acc })
                } else {
                    Err(Error::NumOutOfRange)
                },
                _ => Err(Error::InvalidField),
            }
        } else if f.field_id == 2 {
            match f.value {
                ValueV::Int(i) => if fits_isize(i) {
                    spec_map_type_fields(fs.drop_first(), MapTypeV { elem: i as isize, ..acc })
                } else {
                    Err(Error::NumOutOfRange)
                },
                _ => Err(Error::InvalidField),
            }
        } else {
            Err(Error::InvalidField)
        }
    }
}

/// A decoded `MapType` value as the schema struct.
pub open spec fn spec_map_type_of(v: ValueV) -> Result<MapTypeV, Error> {
    match v {
        ValueV::Struct(fs) => spec_map_type_fields(
            fs,
            MapTypeV {
                common: CommonTypeV { name: Seq::empty(), id: 0isize },
                key: 0isize,
                elem: 0isize,
            },
        ),
        _ => Err(Error::InvalidField),
    }
}

/// Folds decoded `WireType` fields over the all-absent value.
pub open spec fn spec_wire_type_fields(fs: Seq<FieldValueV>, acc: WireTypeV) -> Result<
    WireTypeV,
    Error,
>
    decreases fs.len(),
{
    if fs.len() == 0 {
        Ok(acc)
    } else {
        let f = fs[0];
        if f.field_id == 0 {
            match spec_array_type_of(f.value) {
                Err(e) => Err(e),
                Ok(t) => spec_wire_type_fields(
                    fs.drop_first(),
                    WireTypeV { array_type: Some(t), ..acc },
                ),
            }
        } else if f.field_id == 1 {
            match spec_slice_type_of(f.value) {
                Err(e) => Err(e),
                Ok(t) => spec_wire_type_fields(
                    fs.drop_first(),
                    WireTypeV { slice_type: Some(t), ..acc },
                ),
            }
        } else if f.field_id == 2 {
            match spec_struct_type_of(f.value) {
                Err(e) => Err(e),
                Ok(t) => spec_wire_type_fields(
                    fs.drop_first(),
                    WireTypeV { struct_type: Some(t), ..acc },
                ),
            }
        } else if f.field_id == 3 {
            match spec_map_type_of(f.value) {
                Err(e) => Err(e),
                Ok(t) => spec_wire_type_fields(
                    fs.drop_first(),
                    WireTypeV { map_type: Some(t), ..acc },
                ),
            }
        } else {
            Err(Error::InvalidField)
        }
    }
}

/// A decoded `WireType` value as the schema's one-of record.
pub open spec fn spec_wire_type_of(v: ValueV) -> Result<WireTypeV, Error> {
    match v {
        ValueV::Struct(fs) => spec_wire_type_fields(
            fs,
            WireTypeV { array_type: None, slice_type: None, struct_type: None, map_type: None },
        ),
        _ => Err(Error::InvalidField),
    }
}

// ------------------------------------------------------------------
// The top-level stream.
// ------------------------------------------------------------------

/// The outcome of one successful top-level decode: the value, the position
/// just past it, the dictionary afterwards, the id the value was decoded
/// as, and the ids the stream defined on the way, in order.
pub struct DriveOk {
    pub value: ValueV,
    pub end: int,
    pub types: Map<TypeId, TypeDefV>,
    pub value_id: TypeId,
    pub defined: Seq<TypeId>,
}

pub enum DriveRes {
    Val(DriveOk),
    Fail(Error),
}

/// The top-level protocol: each message is a byte count and a leading type
/// id.  A negative id defines type `-id` through a `WireType` value and the
/// loop continues; a non-negative id is resolved and one value of that
/// type ends the call.
pub open spec fn spec_drive(s: Seq<u8>, pos: int, tm: Map<TypeId, TypeDefV>) -> DriveRes
    decreases s.len() - pos,
{
    if pos < 0 || pos > s.len() {
        DriveRes::Fail(Error::UnexpectedEof)
    } else {
        match spec_uvarint_word(s, pos) {
            Parsed::Fail(e) => DriveRes::Fail(e),
            Parsed::Val(_len, p1) => match spec_varint_word(s, p1) {
                Parsed::Fail(e) => DriveRes::Fail(e),
                Parsed::Val(id, p2) => if id >= 0 {
                    match spec_from_id(id, tm) {
                        None => DriveRes::Fail(Error::UndefinedType(id)),
                        Some(t) => match spec_value(s, p2, t, tm) {
                            Parsed::Fail(e) => DriveRes::Fail(e),
                            Parsed::Val(v, p3) => DriveRes::Val(
                                DriveOk {
                                    value: v,
                                    end: p3,
                                    types: tm,
                                    value_id: id,
                                    defined: Seq::empty(),
                                },
                            ),
                        },
                    }
                } else if id == isize::MIN {
                    // the defined id would not fit the machine word
                    DriveRes::Fail(Error::NumOutOfRange)
                } else {
                    let def_id = (-id) as isize;
                    match spec_value(s, p2, TypeDefV::WireType, tm) {
                        Parsed::Fail(e) => DriveRes::Fail(e),
                        Parsed::Val(wv, p3) => match spec_wire_type_of(wv) {
                            Err(e) => DriveRes::Fail(e),
                            Ok(w) => match w.spec_into_enum() {
                                Err(e) => DriveRes::Fail(e),
                                Ok(wte) => if def_id != wte.spec_id() {
                                    DriveRes::Fail(
                                        Error::DefiningIdMismatch(def_id, wte.spec_id()),
                                    )
                                } else if spec_is_builtin(def_id) {
                                    DriveRes::Fail(Error::DefiningBuiltin(def_id))
                                } else if tm.dom().contains(def_id) {
                                    DriveRes::Fail(Error::TypeAlreadyDefined(def_id))
                                } else {
                                    match spec_drive(
                                        s,
                                        adv_pos(s, pos, p3),
                                        tm.insert(def_id, TypeDefV::Custom(wte)),
                                    ) {
                                        DriveRes::Fail(e) => DriveRes::Fail(e),
                                        DriveRes::Val(ok) => DriveRes::Val(
                                            DriveOk {
                                                defined: seq![def_id].add(ok.defined),
                                                ..ok
                                            },
                                        ),
                                    }
                                },
                            },
                        },
                    }
                },
            },
        }
    }
}

// ------------------------------------------------------------------
// Executable readers for the schema structs.
// ------------------------------------------------------------------

/// Reads a decoded `CommonType` value into the schema struct.
#[verifier::loop_isolation(false)]
fn common_type_from_value(v: &Value) -> (r: Result<CommonType, Error>)
    ensures
        match r {
            Ok(c) => spec_common_type_of(v@) == Ok::<CommonTypeV, Error>(c@),
            Err(e) => spec_common_type_of(v@) == Err::<CommonTypeV, Error>(e),
        },
{
    match v {
        Value::Struct(fs) => {
            proof {
                crate::value::lemma_fields_view(fs@);
            }
            let n = fs.len();
            let mut acc = CommonType { name: Vec::new(), id: 0 };
            let mut j: usize = 0;
            proof {
                assert(crate::value::fields_view(fs@).skip(0) =~= crate::value::fields_view(fs@));
                assert(acc@.name =~= Seq::<u8>::empty());
            }
            while j < n
                invariant
                    0 <= j <= n,
                    spec_common_fields(crate::value::fields_view(fs@).skip(j as int), acc@)
                        == spec_common_type_of(v@),
                decreases n - j,
            {
                let ghost rest = crate::value::fields_view(fs@).skip(j as int);
                proof {
                    assert(rest[0] == crate::value::fields_view(fs@)[j as int]);
                    assert(rest.drop_first() =~= crate::value::fields_view(fs@).skip(j as int + 1));
                }
                let f = &fs[j];
                if f.field_id == 0 {
                    match &f.value {
                        Value::Bytes(b) => {
                            acc.name = clone_bytes(b);
                        },
                        _ => {
                            return Err(Error::InvalidField);
                        },
                    }
                } else if f.field_id == 1 {
                    match &f.value {
                        Value::Int(i) => {
                            let i = *i;
                            if isize::MIN as i64 <= i && i <= isize::MAX as i64 {
                                acc.id = i as isize;
                            } else {
                                return Err(Error::NumOutOfRange);
                            }
                        },
                        _ => {
                            return Err(Error::InvalidField);
                        },
                    }
                } else {
                    return Err(Error::InvalidField);
                }
                j = j + 1;
            }
            proof {
                assert(crate::value::fields_view(fs@).skip(n as int)
                    =~= Seq::<FieldValueV>::empty());
            }
            Ok(acc)
        },
        _ => Err(Error::InvalidField),
    }
}

/// Reads a decoded `FieldType` value into the schema struct.
#[verifier::loop_isolation(false)]
fn field_type_from_value(v: &Value) -> (r: Result<FieldType, Error>)
    ensures
        match r {
            Ok(c) => spec_field_type_of(v@) == Ok::<FieldTypeV, Error>(c@),
            Err(e) => spec_field_type_of(v@) == Err::<FieldTypeV, Error>(e),
        },
{
    match v {
        Value::Struct(fs) => {
            proof {
                crate::value::lemma_fields_view(fs@);
            }
            let n = fs.len();
            let mut acc = FieldType { name: Vec::new(), id: 0 };
            let mut j: usize = 0;
            proof {
                assert(crate::value::fields_view(fs@).skip(0) =~= crate::value::fields_view(fs@));
                assert(acc@.name =~= Seq::<u8>::empty());
            }
            while j < n
                invariant
                    0 <= j <= n,
                    spec_field_type_fields(crate::value::fields_view(fs@).skip(j as int), acc@)
                        == spec_field_type_of(v@),
                decreases n - j,
            {
                let ghost rest = crate::value::fields_view(fs@).skip(j as int);
                proof {
                    assert(rest[0] == crate::value::fields_view(fs@)[j as int]);
                    assert(rest.drop_first() =~= crate::value::fields_view(fs@).skip(j as int + 1));
                }
                let f = &fs[j];
                if f.field_id == 0 {
                    match &f.value {
                        Value::Bytes(b) => {
                            acc.name = clone_bytes(b);
                        },
                        _ => {
                            return Err(Error::InvalidField);
                        },
                    }
                } else if f.field_id == 1 {
                    match &f.value {
                        Value::Int(i) => {
                            let i = *i;
                            if isize::MIN as i64 <= i && i <= isize::MAX as i64 {
                                acc.id = i as isize;
                            } else {
                                return Err(Error::NumOutOfRange);
                            }
                        },
                        _ => {
                            return Err(Error::InvalidField);
                        },
                    }
                } else {
                    return Err(Error::InvalidField);
                }
                j = j + 1;
            }
            proof {
                assert(crate::value::fields_view(fs@).skip(n as int)
                    =~= Seq::<FieldValueV>::empty());
            }
            Ok(acc)
        },
        _ => Err(Error::InvalidField),
    }
}

/// Reads the elements of a decoded `FieldTypeSlice` into schema structs.
#[verifier::loop_isolation(false)]
fn field_types_from_values(vs: &Vec<Value>) -> (r: Result<Vec<FieldType>, Error>)
    ensures
        match r {
            Ok(fts) => spec_field_types_of(crate::value::values_view(vs@)) == Ok::<
                Seq<FieldTypeV>,
                Error,
            >(fts@.map_values(|f: FieldType| f@)),
            Err(e) => spec_field_types_of(crate::value::values_view(vs@)) == Err::<
                Seq<FieldTypeV>,
                Error,
            >(e),
        },
{
    proof {
        crate::value::lemma_values_view(vs@);
    }
    let n = vs.len();
    let mut acc: Vec<FieldType> = Vec::new();
    let mut j: usize = 0;
    proof {
        assert(crate::value::values_view(vs@).skip(0) =~= crate::value::values_view(vs@));
        assert(acc@.map_values(|f: FieldType| f@) =~= Seq::<FieldTypeV>::empty());
        if let Ok(rest0) = spec_field_types_of(crate::value::values_view(vs@)) {
            assert(acc@.map_values(|f: FieldType| f@).add(rest0) =~= rest0);
        }
    }
    while j < n
        invariant
            0 <= j <= n,
            match spec_field_types_of(crate::value::values_view(vs@).skip(j as int)) {
                Ok(rest) => spec_field_types_of(crate::value::values_view(vs@)) == Ok::<
                    Seq<FieldTypeV>,
                    Error,
                >(acc@.map_values(|f: FieldType| f@).add(rest)),
                Err(e) => spec_field_types_of(crate::value::values_view(vs@)) == Err::<
                    Seq<FieldTypeV>,
                    Error,
                >(e),
            },
        decreases n - j,
    {
        let ghost rest = crate::value::values_view(vs@).skip(j as int);
        proof {
            assert(rest[0] == crate::value::values_view(vs@)[j as int]);
            assert(rest.drop_first() =~= crate::value::values_view(vs@).skip(j as int + 1));
        }
        let ft = match field_type_from_value(&vs[j]) {
            Ok(ft) => ft,
            Err(e) => {
                return Err(e);
            },
        };
        let ghost acc0 = acc@;
        let ghost ftv = ft@;
        acc.push(ft);
        proof {
            assert(acc@.map_values(|f: FieldType| f@) =~= acc0.map_values(|f: FieldType| f@).push(
                ftv,
            ));
            if let Ok(rest2) = spec_field_types_of(
                crate::value::values_view(vs@).skip(j as int + 1),
            ) {
                assert(acc0.map_values(|f: FieldType| f@).push(ftv).add(rest2) =~= acc0.map_values(
                    |f: FieldType| f@,
                ).add(seq![ftv].add(rest2)));
            }
        }
        j = j + 1;
    }
    proof {
        assert(crate::value::values_view(vs@).skip(n as int) =~= Seq::<ValueV>::empty());
        assert(acc@.map_values(|f: FieldType| f@).add(Seq::<FieldTypeV>::empty())
            =~= acc@.map_values(|f: FieldType| f@));
    }
    Ok(acc)
}

/// Clones a byte vector.
fn clone_bytes(b: &Vec<u8>) -> (r: Vec<u8>)
    ensures
        r@ == b@,
{
    let mut r: Vec<u8> = Vec::new();
    let mut i: usize = 0;
    while i < b.len()
        invariant
            0 <= i <= b@.len(),
            r@ =~= b@.subrange(0, i as int),
        decreases b@.len() - i,
    {
        r.push(b[i]);
        proof {
            assert(r@ =~= b@.subrange(0, i as int + 1));
        }
        i = i + 1;
    }
    proof {
        assert(b@.subrange(0, b@.len() as int) =~= b@);
    }
    r
}

/// Reads a decoded `StructType` value into the schema struct.
#[verifier::loop_isolation(false)]
fn struct_type_from_value(v: &Value) -> (r: Result<StructType, Error>)
    ensures
        match r {
            Ok(c) => spec_struct_type_of(v@) == Ok::<StructTypeV, Error>(c@),
            Err(e) => spec_struct_type_of(v@) == Err::<StructTypeV, Error>(e),
        },
{
    match v {
        Value::Struct(fs) => {
            proof {
                crate::value::lemma_fields_view(fs@);
            }
            let n = fs.len();
            let mut acc = StructType {
                common: CommonType { name: Vec::new(), id: 0 },
                fields: Vec::new(),
            };
            let mut j: usize = 0;
            proof {
                assert(crate::value::fields_view(fs@).skip(0) =~= crate::value::fields_view(fs@));
                assert(acc@.common.name =~= Seq::<u8>::empty());
                assert(acc@.fields =~= Seq::<FieldTypeV>::empty());
            }
            while j < n
                invariant
                    0 <= j <= n,
                    spec_struct_type_fields(crate::value::fields_view(fs@).skip(j as int), acc@)
                        == spec_struct_type_of(v@),
                decreases n - j,
            {
                let ghost rest = crate::value::fields_view(fs@).skip(j as int);
                proof {
                    assert(rest[0] == crate::value::fields_view(fs@)[j as int]);
                    assert(rest.drop_first() =~= crate::value::fields_view(fs@).skip(j as int + 1));
                }
                let f = &fs[j];
                if f.field_id == 0 {
                    match common_type_from_value(&f.value) {
                        Ok(c) => {
                            acc.common = c;
                        },
                        Err(e) => {
                            return Err(e);
                        },
                    }
                } else if f.field_id == 1 {
                    match &f.value {
                        Value::Slice(vs) => {
                            match field_types_from_values(vs) {
                                Ok(fts) => {
                                    acc.fields = fts;
                                },
                                Err(e) => {
                                    return Err(e);
                                },
                            }
                        },
                        _ => {
                            return Err(Error::InvalidField);
                        },
                    }
                } else {
                    return Err(Error::InvalidField);
                }
                j = j + 1;
            }
            proof {
                assert(crate::value::fields_view(fs@).skip(n as int)
                    =~= Seq::<FieldValueV>::empty());
            }
            Ok(acc)
        },
        _ => Err(Error::InvalidField),
    }
}

/// Reads a decoded `ArrayType` value into the schema struct.
#[verifier::loop_isolation(false)]
fn array_type_from_value(v: &Value) -> (r: Result<ArrayType, Error>)
    ensures
        match r {
            Ok(c) => spec_array_type_of(v@) == Ok::<ArrayTypeV, Error>(c@),
            Err(e) => spec_array_type_of(v@) == Err::<ArrayTypeV, Error>(e),
        },
{
    match v {
        Value::Struct(fs) => {
            proof {
                crate::value::lemma_fields_view(fs@);
            }
            let n = fs.len();
            let mut acc = ArrayType { common: CommonType { name: Vec::new(), id: 0 }, elem: 0, len: 0 };
            let mut j: usize = 0;
            proof {
                assert(crate::value::fields_view(fs@).skip(0) =~= crate::value::fields_view(fs@));
                assert(acc@.common.name =~= Seq::<u8>::empty());
            }
            while j < n
                invariant
                    0 <= j <= n,
                    spec_array_type_fields(crate::value::fields_view(fs@).skip(j as int), acc@)
                        == spec_array_type_of(v@),
                decreases n - j,
            {
                let ghost rest = crate::value::fields_view(fs@).skip(j as int);
                proof {
                    assert(rest[0] == crate::value::fields_view(fs@)[j as int]);
                    assert(rest.drop_first() =~= crate::value::fields_view(fs@).skip(j as int + 1));
                }
                let f = &fs[j];
                if f.field_id == 0 {
                    match common_type_from_value(&f.value) {
                        Ok(c) => {
                            acc.common = c;
                        },
                        Err(e) => {
                            return Err(e);
                        },
                    }
                } else if f.field_id == 1 {
                    match &f.value {
                        Value::Int(i) => {
                            let i = *i;
                            if isize::MIN as i64 <= i && i <= isize::MAX as i64 {
                                acc.elem = i as isize;
                            } else {
                                return Err(Error::NumOutOfRange);
                            }
                        },
                        _ => {
                            return Err(Error::InvalidField);
                        },
                    }
                } else if f.field_id == 2 {
                    match &f.value {
                        Value::Int(i) => {
                            let i = *i;
                            if isize::MIN as i64 <= i && i <= isize::MAX as i64 {
                                acc.len = i as isize;
                            } else {
                                return Err(Error::NumOutOfRange);
                            }
                        },
                        _ => {
                            return Err(Error::InvalidField);
                        },
                    }
                } else {
                    return Err(Error::InvalidField);
                }
                j = j + 1;
            }
            proof {
                assert(crate::value::fields_view(fs@).skip(n as int)
                    =~= Seq::<FieldValueV>::empty());
            }
            Ok(acc)
        },
        _ => Err(Error::InvalidField),
    }
}

/// Reads a decoded `SliceType` value into the schema struct.
#[verifier::loop_isolation(false)]
fn slice_type_from_value(v: &Value) -> (r: Result<SliceType, Error>)
    ensures
        match r {
            Ok(c) => spec_slice_type_of(v@) == Ok::<SliceTypeV, Error>(c@),
            Err(e) => spec_slice_type_of(v@) == Err::<SliceTypeV, Error>(e),
        },
{
    match v {
        Value::Struct(fs) => {
            proof {
                crate::value::lemma_fields_view(fs@);
            }
            let n = fs.len();
            let mut acc = SliceType { common: CommonType { name: Vec::new(), id: 0 }, elem: 0 };
            let mut j: usize = 0;
            proof {
                assert(crate::value::fields_view(fs@).skip(0) =~= crate::value::fields_view(fs@));
                assert(acc@.common.name =~= Seq::<u8>::empty());
            }
            while j < n
                invariant
                    0 <= j <= n,
                    spec_slice_type_fields(crate::value::fields_view(fs@).skip(j as int), acc@)
                        == spec_slice_type_of(v@),
                decreases n - j,
            {
                let ghost rest = crate::value::fields_view(fs@).skip(j as int);
                proof {
                    assert(rest[0] == crate::value::fields_view(fs@)[j as int]);
                    assert(rest.drop_first() =~= crate::value::fields_view(fs@).skip(j as int + 1));
                }
                let f = &fs[j];
                if f.field_id == 0 {
                    match common_type_from_value(&f.value) {
                        Ok(c) => {
                            acc.common = c;
                        },
                        Err(e) => {
                            return Err(e);
                        },
                    }
                } else if f.field_id == 1 {
                    match &f.value {
                        Value::Int(i) => {
                            let i = *i;
                            if isize::MIN as i64 <= i && i <= isize::MAX as i64 {
                                acc.elem = i as isize;
                            } else {
                                return Err(Error::NumOutOfRange);
                            }
                        },
                        _ => {
                            return Err(Error::InvalidField);
                        },
                    }
                } else {
                    return Err(Error::InvalidField);
                }
                j = j + 1;
            }
            proof {
                assert(crate::value::fields_view(fs@).skip(n as int)
                    =~= Seq::<FieldValueV>::empty());
            }
            Ok(acc)
        },
        _ => Err(Error::InvalidField),
    }
}

/// Reads a decoded `MapType` value into the schema struct.
#[verifier::loop_isolation(false)]
fn map_type_from_value(v: &Value) -> (r: Result<MapType, Error>)
    ensures
        match r {
            Ok(c) => spec_map_type_of(v@) == Ok::<MapTypeV, Error>(c@),
            Err(e) => spec_map_type_of(v@) == Err::<MapTypeV, Error>(e),
        },
{
    match v {
        Value::Struct(fs) => {
            proof {
                crate::value::lemma_fields_view(fs@);
            }
            let n = fs.len();
            let mut acc = MapType { common: CommonType { name: Vec::new(), id: 0 }, key: 0, elem: 0 };
            let mut j: usize = 0;
            proof {
                assert(crate::value::fields_view(fs@).skip(0) =~= crate::value::fields_view(fs@));
                assert(acc@.common.name =~= Seq::<u8>::empty());
            }
            while j < n
                invariant
                    0 <= j <= n,
                    spec_map_type_fields(crate::value::fields_view(fs@).skip(j as int), acc@)
                        == spec_map_type_of(v@),
                decreases n - j,
            {
                let ghost rest = crate::value::fields_view(fs@).skip(j as int);
                proof {
                    assert(rest[0] == crate::value::fields_view(fs@)[j as int]);
                    assert(rest.drop_first() =~= crate::value::fields_view(fs@).skip(j as int + 1));
                }
                let f = &fs[j];
                if f.field_id == 0 {
                    match common_type_from_value(&f.value) {
                        Ok(c) => {
                            acc.common = c;
                        },
                        Err(e) => {
                            return Err(e);
                        },
                    }
                } else if f.field_id == 1 {
                    match &f.value {
                        Value::Int(i) => {
                            let i = *i;
                            if isize::MIN as i64 <= i && i <= isize::MAX as i64 {
                                acc.key = i as isize;
                            } else {
                                return Err(Error::NumOutOfRange);
                            }
                        },
                        _ => {
                            return Err(Error::InvalidField);
                        },
                    }
                } else if f.field_id == 2 {
                    match &f.value {
                        Value::Int(i) => {
                            let i = *i;
                            if isize::MIN as i64 <= i && i <= isize::MAX as i64 {
                                acc.elem = i as isize;
                            } else {
                                return Err(Error::NumOutOfRange);
                            }
                        },
                        _ => {
                            return Err(Error::InvalidField);
                        },
                    }
                } else {
                    return Err(Error::InvalidField);
                }
                j = j + 1;
            }
            proof {
                assert(crate::value::fields_view(fs@).skip(n as int)
                    =~= Seq::<FieldValueV>::empty());
            }
            Ok(acc)
        },
        _ => Err(Error::InvalidField),
    }
}

impl WireType {
    /// Reads a decoded `WireType` value into the schema's one-of record,
    /// leaving every field the stream omitted absent.
    #[verifier::loop_isolation(false)]
    pub fn from_value(v: &Value) -> (r: Result<WireType, Error>)
        ensures
            match r {
                Ok(w) => spec_wire_type_of(v@) == Ok::<WireTypeV, Error>(w@),
                Err(e) => spec_wire_type_of(v@) == Err::<WireTypeV, Error>(e),
            },
    {
        match v {
            Value::Struct(fs) => {
                proof {
                    crate::value::lemma_fields_view(fs@);
                }
                let n = fs.len();
                let mut acc = WireType {
                    array_type: None,
                    slice_type: None,
                    struct_type: None,
                    map_type: None,
                };
                let mut j: usize = 0;
                proof {
                    assert(crate::value::fields_view(fs@).skip(0) =~= crate::value::fields_view(
                        fs@,
                    ));
                }
                while j < n
                    invariant
                        0 <= j <= n,
                        spec_wire_type_fields(crate::value::fields_view(fs@).skip(j as int), acc@)
                            == spec_wire_type_of(v@),
                    decreases n - j,
                {
                    let ghost rest = crate::value::fields_view(fs@).skip(j as int);
                    proof {
                        assert(rest[0] == crate::value::fields_view(fs@)[j as int]);
                        assert(rest.drop_first() =~= crate::value::fields_view(fs@).skip(
                            j as int + 1,
                        ));
                    }
                    let f = &fs[j];
                    if f.field_id == 0 {
                        match array_type_from_value(&f.value) {
                            Ok(t) => {
                                acc.array_type = Some(t);
                            },
                            Err(e) => {
                                return Err(e);
                            },
                        }
                    } else if f.field_id == 1 {
                        match slice_type_from_value(&f.value) {
                            Ok(t) => {
                                acc.slice_type = Some(t);
                            },
                            Err(e) => {
                                return Err(e);
                            },
                        }
                    } else if f.field_id == 2 {
                        match struct_type_from_value(&f.value) {
                            Ok(t) => {
                                acc.struct_type = Some(t);
                            },
                            Err(e) => {
                                return Err(e);
                            },
                        }
                    } else if f.field_id == 3 {
                        match map_type_from_value(&f.value) {
                            Ok(t) => {
                                acc.map_type = Some(t);
                            },
                            Err(e) => {
                                return Err(e);
                            },
                        }
                    } else {
                        return Err(Error::InvalidField);
                    }
                    j = j + 1;
                }
                proof {
                    assert(crate::value::fields_view(fs@).skip(n as int)
                        =~= Seq::<FieldValueV>::empty());
                }
                Ok(acc)
            },
            _ => Err(Error::InvalidField),
        }
    }
}

// ------------------------------------------------------------------
// Laws of the top-level protocol.
// ------------------------------------------------------------------

/// Law: a stream decodes a value only under an id that is built-in, was
/// the subject of an earlier definition in the same stream, or was already
/// in the dictionary the call began with; and no definition the stream
/// makes touches a reserved id.
pub proof fn lemma_definition_before_use(s: Seq<u8>, pos: int, tm: Map<TypeId, TypeDefV>)
    ensures
        match spec_drive(s, pos, tm) {
            DriveRes::Val(ok) => (spec_is_builtin(ok.value_id) || ok.defined.contains(ok.value_id)
                || tm.dom().contains(ok.value_id)) && (forall|i: int|
                0 <= i < ok.defined.len() ==> !spec_is_builtin(#[trigger] ok.defined[i])),
            DriveRes::Fail(_) => true,
        },
    decreases s.len() - pos,
{
    if 0 <= pos <= s.len() {
        if let Parsed::Val(_len, p1) = spec_uvarint_word(s, pos) {
            if let Parsed::Val(id, p2) = spec_varint_word(s, p1) {
                if id < 0 && id != isize::MIN {
                    let def_id = (-id) as isize;
                    if let Parsed::Val(wv, p3) = spec_value(s, p2, TypeDefV::WireType, tm) {
                        if let Ok(w) = spec_wire_type_of(wv) {
                            if let Ok(wte) = w.spec_into_enum() {
                                if def_id == wte.spec_id() && !spec_is_builtin(def_id)
                                    && !tm.dom().contains(def_id) {
                                    let tm2 = tm.insert(def_id, TypeDefV::Custom(wte));
                                    lemma_definition_before_use(s, adv_pos(s, pos, p3), tm2);
                                    if let DriveRes::Val(ok2) = spec_drive(
                                        s,
                                        adv_pos(s, pos, p3),
                                        tm2,
                                    ) {
                                        let defined = seq![def_id].add(ok2.defined);
                                        assert forall|i: int|
                                            0 <= i < defined.len() implies !spec_is_builtin(
                                            #[trigger] defined[i],
                                        ) by {
                                            if i > 0 {
                                                assert(defined[i] == ok2.defined[i - 1]);
                                            }
                                        }
                                        if ok2.defined.contains(ok2.value_id) {
                                            let w = choose|i: int|
                                                0 <= i < ok2.defined.len() && ok2.defined[i]
                                                    == ok2.value_id;
                                            assert(defined[w + 1] == ok2.value_id);
                                        }
                                        if ok2.value_id == def_id {
                                            assert(defined[0] == def_id);
                                        }
                                    }
                                }
                            }
                        }
                    }
                }
            }
        }
    }
}

// ------------------------------------------------------------------
// Laws of zero-value defaulting.
// ------------------------------------------------------------------

/// Law: a `CommonType` read from a struct value keeps the zero value of
/// every field the stream omitted: an unmentioned name stays empty and an
/// unmentioned id stays zero.
pub proof fn lemma_common_type_defaults(fs: Seq<FieldValueV>, acc: CommonTypeV)
    ensures
        match spec_common_fields(fs, acc) {
            Ok(c) => ((forall|j: int| 0 <= j < fs.len() ==> #[trigger] fs[j].field_id != 0)
                ==> c.name == acc.name) && ((forall|j: int|
                0 <= j < fs.len() ==> #[trigger] fs[j].field_id != 1) ==> c.id == acc.id),
            Err(_) => true,
        },
    decreases fs.len(),
{
    if fs.len() > 0 {
        let f = fs[0];
        if f.field_id == 0 {
            if let ValueV::Bytes(b) = f.value {
                lemma_common_type_defaults(fs.drop_first(), CommonTypeV { name: b, ..acc });
            }
        } else if f.field_id == 1 {
            if let ValueV::Int(i) = f.value {
                if fits_isize(i) {
                    lemma_common_type_defaults(
                        fs.drop_first(),
                        CommonTypeV { id: i as isize, ..acc },
                    );
                }
            }
        }
    }
}

/// Law: a `WireType` read from a struct value keeps every variant the
/// stream omitted absent, so a definition mentions exactly the variants
/// the wire carried.
pub proof fn lemma_wire_type_defaults(fs: Seq<FieldValueV>, acc: WireTypeV)
    ensures
        match spec_wire_type_fields(fs, acc) {
            Ok(w) => ((forall|j: int| 0 <= j < fs.len() ==> #[trigger] fs[j].field_id != 0)
                ==> w.array_type == acc.array_type) && ((forall|j: int|
                0 <= j < fs.len() ==> #[trigger] fs[j].field_id != 1) ==> w.slice_type
                == acc.slice_type) && ((forall|j: int|
                0 <= j < fs.len() ==> #[trigger] fs[j].field_id != 2) ==> w.struct_type
                == acc.struct_type) && ((forall|j: int|
                0 <= j < fs.len() ==> #[trigger] fs[j].field_id != 3) ==> w.map_type
                == acc.map_type),
            Err(_) => true,
        },
    decreases fs.len(),
{
    if fs.len() > 0 {
        let f = fs[0];
        if f.field_id == 0 {
            if let Ok(t) = spec_array_type_of(f.value) {
                lemma_wire_type_defaults(fs.drop_first(), WireTypeV { array_type: Some(t), ..acc });
            }
        } else if f.field_id == 1 {
            if let Ok(t) = spec_slice_type_of(f.value) {
                lemma_wire_type_defaults(fs.drop_first(), WireTypeV { slice_type: Some(t), ..acc });
            }
        } else if f.field_id == 2 {
            if let Ok(t) = spec_struct_type_of(f.value) {
                lemma_wire_type_defaults(
                    fs.drop_first(),
                    WireTypeV { struct_type: Some(t), ..acc },
                );
            }
        } else if f.field_id == 3 {
            if let Ok(t) = spec_map_type_of(f.value) {
                lemma_wire_type_defaults(fs.drop_first(), WireTypeV { map_type: Some(t), ..acc });
            }
        }
    }
}

} // verus!
