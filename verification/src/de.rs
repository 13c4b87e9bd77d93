//! The decoder: a cursor over an in-memory byte stream, a type dictionary,
//! and the reading functions, each proved to return exactly what the
//! specification functions of [`crate::format`] and [`crate::grammar`]
//! describe.

use vstd::prelude::*;
use std::collections::HashMap;
use crate::errors::Error;
use crate::format::{
    be_val, pow256, spec_uvarint, spec_varint, spec_uvarint_word, spec_varint_word, spec_bool,
    spec_bytes, spec_f64_bits, zigzag, Parsed, lemma_be_val_bound, lemma_pow256_mono,
    lemma_uvarint_word_pos, lemma_varint_word_pos,
};
use crate::types::{TypeId, TypeDef, TypeDefV, WireType, type_map_view, is_type_builtin};
use crate::grammar::{
    spec_nfields, spec_field_type, spec_field_name, spec_value, spec_fields, spec_elems,
    spec_map_entries, adv_pos, step_pos, name_array_t, name_slice_t, name_struct_t, name_map_t,
    name_name, name_id, name_common_type, name_field, name_elem, name_len, name_key,
};
use crate::value::{Value, FieldValue, MapEntry, values_view, fields_view, entries_view};
use crate::schema::{spec_drive, DriveRes, DriveOk};

verus! {

/// A decoder owns its input bytes, a cursor into them, and the dictionary
/// of the user-defined types the stream has declared so far.
pub struct Deserializer {
    input: Vec<u8>,
    pos: usize,
    types: HashMap<TypeId, TypeDef>,
}

impl Deserializer {
    /// The input byte stream.
    pub closed spec fn bytes(self) -> Seq<u8> {
        self.input@
    }

    /// The cursor: how many bytes have been consumed.
    pub closed spec fn spec_pos(self) -> int {
        self.pos as int
    }

    /// The ghost image of the type dictionary's mutable part.
    pub closed spec fn spec_types(self) -> Map<TypeId, TypeDefV> {
        type_map_view(self.types@)
    }

    /// Well-formedness: the cursor never passes the end of the input.
    pub closed spec fn wf(self) -> bool {
        self.pos <= self.input@.len()
    }

    /// Starts a decoder on a byte stream, with an empty dictionary.
    pub fn new(input: Vec<u8>) -> (r: Self)
        ensures
            r.wf(),
            r.bytes() == input@,
            r.spec_pos() == 0,
            r.spec_types() == Map::<TypeId, TypeDefV>::empty(),
    {
        let r = Deserializer { input, pos: 0, types: HashMap::new() };
        proof {
            assert(r.spec_types() =~= Map::<TypeId, TypeDefV>::empty());
        }
        r
    }

    /// Reads an unsigned variable-length integer.
    pub fn read_u64(&mut self) -> (r: Result<u64, Error>)
        requires
            old(self).wf(),
        ensures
            final(self).wf(),
            final(self).bytes() == old(self).bytes(),
            final(self).spec_types() == old(self).spec_types(),
            match spec_uvarint(old(self).bytes(), old(self).spec_pos()) {
                Parsed::Val(v, p) => r == Ok::<u64, Error>(v) && final(self).spec_pos() == p,
                Parsed::Fail(e) => r == Err::<u64, Error>(e) && final(self).spec_pos() == old(
                    self,
                ).spec_pos(),
            },
    {
        if self.pos >= self.input.len() {
            return Err(Error::UnexpectedEof);
        }
        let lead = self.input[self.pos];
        if lead < 128 {
            self.pos = self.pos + 1;
            return Ok(lead as u64);
        }
        let n: usize = 256 - (lead as usize);
        if n > 8 {
            return Err(Error::NumOutOfRange);
        }
        if n > self.input.len() - self.pos - 1 {
            return Err(Error::UnexpectedEof);
        }
        let start = self.pos + 1;
        let end = start + n;
        let ghost s = self.input@;
        let mut acc: u64 = 0;
        let mut i: usize = 0;
        while i < n
            invariant
                self.wf(),
                end == start + n,
                start + n <= self.input@.len(),
                0 <= i <= n <= 8,
                s == self.input@,
                acc == be_val(s.subrange(start as int, start + i)),
                0 <= acc < pow256(i as nat),
            decreases n - i,
        {
            proof {
                assert(pow256(8) == 0x1_0000_0000_0000_0000) by {
                    reveal_with_fuel(pow256, 9);
                };
                lemma_pow256_mono(i as nat, 7);
                assert(pow256(7) * 256 == pow256(8)) by {
                    reveal_with_fuel(pow256, 9);
                };
                assert(acc * 256 <= (pow256(7) - 1) * 256) by (nonlinear_arith)
                    requires
                        0 <= acc <= pow256(7) - 1,
                ;
            }
            let b = self.input[start + i];
            let next: u64 = acc * 256 + (b as u64);
            proof {
                let prefix = s.subrange(start as int, start + i);
                let prefix1 = s.subrange(start as int, start + i + 1);
                assert(prefix1.drop_last() =~= prefix);
                assert(prefix1.last() == s[start + i]);
                assert(pow256((i + 1) as nat) == 256 * pow256(i as nat));
                assert(acc * 256 + b < 256 * pow256(i as nat)) by (nonlinear_arith)
                    requires
                        0 <= acc < pow256(i as nat),
                        0 <= b < 256,
                ;
            }
            acc = next;
            i = i + 1;
        }
        self.pos = start + n;
        proof {
            lemma_be_val_bound(s.subrange(start as int, start + n));
            assert(pow256(8) == 0x1_0000_0000_0000_0000) by {
                reveal_with_fuel(pow256, 9);
            };
            lemma_pow256_mono(n as nat, 8);
        }
        Ok(acc)
    }

    /// Reads an unsigned variable-length integer demanded as a machine
    /// word.
    pub fn read_usize(&mut self) -> (r: Result<usize, Error>)
        requires
            old(self).wf(),
        ensures
            final(self).wf(),
            final(self).bytes() == old(self).bytes(),
            final(self).spec_types() == old(self).spec_types(),
            match spec_uvarint_word(old(self).bytes(), old(self).spec_pos()) {
                Parsed::Val(v, p) => r == Ok::<usize, Error>(v) && final(self).spec_pos() == p,
                Parsed::Fail(e) => r == Err::<usize, Error>(e) && final(self).spec_pos() == old(
                    self,
                ).spec_pos(),
            },
    {
        let entry_pos = self.pos;
        match self.read_u64() {
            Ok(v) => {
                if v <= usize::MAX as u64 {
                    Ok(v as usize)
                } else {
                    self.pos = entry_pos;
                    Err(Error::NumOutOfRange)
                }
            },
            Err(e) => Err(e),
        }
    }

    /// Reads a signed variable-length integer.
    pub fn read_i64(&mut self) -> (r: Result<i64, Error>)
        requires
            old(self).wf(),
        ensures
            final(self).wf(),
            final(self).bytes() == old(self).bytes(),
            final(self).spec_types() == old(self).spec_types(),
            match spec_varint(old(self).bytes(), old(self).spec_pos()) {
                Parsed::Val(v, p) => r == Ok::<i64, Error>(v) && final(self).spec_pos() == p,
                Parsed::Fail(e) => r == Err::<i64, Error>(e) && final(self).spec_pos() == old(
                    self,
                ).spec_pos(),
            },
    {
        match self.read_u64() {
            Ok(u) => {
                let m = u >> 1;
                proof {
                    assert(u >> 1 < 0x8000_0000_0000_0000u64) by (bit_vector);
                }
                if u & 1 == 1 {
                    Ok(!(m as i64))
                } else {
                    Ok(m as i64)
                }
            },
            Err(e) => Err(e),
        }
    }

    /// Reads a signed variable-length integer demanded as a machine word.
    pub fn read_isize(&mut self) -> (r: Result<isize, Error>)
        requires
            old(self).wf(),
        ensures
            final(self).wf(),
            final(self).bytes() == old(self).bytes(),
            final(self).spec_types() == old(self).spec_types(),
            match spec_varint_word(old(self).bytes(), old(self).spec_pos()) {
                Parsed::Val(v, p) => r == Ok::<isize, Error>(v) && final(self).spec_pos() == p,
                Parsed::Fail(e) => r == Err::<isize, Error>(e) && final(self).spec_pos() == old(
                    self,
                ).spec_pos(),
            },
    {
        let entry_pos = self.pos;
        match self.read_i64() {
            Ok(v) => {
                if isize::MIN as i64 <= v && v <= isize::MAX as i64 {
                    Ok(v as isize)
                } else {
                    self.pos = entry_pos;
                    Err(Error::NumOutOfRange)
                }
            },
            Err(e) => Err(e),
        }
    }

    /// Reads a boolean: an unsigned carrier, zero or non-zero.
    pub fn read_bool(&mut self) -> (r: Result<bool, Error>)
        requires
            old(self).wf(),
        ensures
            final(self).wf(),
            final(self).bytes() == old(self).bytes(),
            final(self).spec_types() == old(self).spec_types(),
            match spec_bool(old(self).bytes(), old(self).spec_pos()) {
                Parsed::Val(v, p) => r == Ok::<bool, Error>(v) && final(self).spec_pos() == p,
                Parsed::Fail(e) => r == Err::<bool, Error>(e) && final(self).spec_pos() == old(
                    self,
                ).spec_pos(),
            },
    {
        match self.read_u64() {
            Ok(u) => Ok(u != 0),
            Err(e) => Err(e),
        }
    }

    /// Reads a 64-bit float and returns its bit pattern: the wire carries
    /// the bits byte-reversed inside an unsigned carrier.
    pub fn read_f64_bits(&mut self) -> (r: Result<u64, Error>)
        requires
            old(self).wf(),
        ensures
            final(self).wf(),
            final(self).bytes() == old(self).bytes(),
            final(self).spec_types() == old(self).spec_types(),
            match spec_f64_bits(old(self).bytes(), old(self).spec_pos()) {
                Parsed::Val(v, p) => r == Ok::<u64, Error>(v) && final(self).spec_pos() == p,
                Parsed::Fail(e) => r == Err::<u64, Error>(e) && final(self).spec_pos() == old(
                    self,
                ).spec_pos(),
            },
    {
        match self.read_u64() {
            Ok(u) => Ok(
                ((u & 0xff) << 56) | ((u & 0xff00) << 40) | ((u & 0xff_0000) << 24) | ((u
                    & 0xff00_0000) << 8) | ((u >> 8) & 0xff00_0000) | ((u >> 24) & 0xff_0000) | ((u
                    >> 40) & 0xff00) | (u >> 56),
            ),
            Err(e) => Err(e),
        }
    }

    /// Reads a length-prefixed byte string.
    pub fn read_bytes(&mut self) -> (r: Result<Vec<u8>, Error>)
        requires
            old(self).wf(),
        ensures
            final(self).wf(),
            final(self).bytes() == old(self).bytes(),
            final(self).spec_types() == old(self).spec_types(),
            old(self).spec_pos() <= final(self).spec_pos(),
            match spec_bytes(old(self).bytes(), old(self).spec_pos()) {
                Parsed::Val(v, p) => r is Ok && r->Ok_0@ == v && final(self).spec_pos() == p,
                Parsed::Fail(e) => r == Err::<Vec<u8>, Error>(e),
            },
    {
        let len = match self.read_usize() {
            Ok(len) => len,
            Err(e) => {
                return Err(e);
            },
        };
        if len > self.input.len() - self.pos {
            return Err(Error::UnexpectedEof);
        }
        let start = self.pos;
        let end = start + len;
        let ghost s = self.input@;
        let mut data: Vec<u8> = Vec::new();
        let mut i: usize = 0;
        while i < len
            invariant
                self.wf(),
                end == start + len,
                start + len <= self.input@.len(),
                0 <= i <= len,
                s == self.input@,
                start == self.spec_pos(),
                data@ =~= s.subrange(start as int, start + i),
            decreases len - i,
        {
            let b = self.input[start + i];
            data.push(b);
            proof {
                assert(data@ =~= s.subrange(start as int, start + i + 1));
            }
            i = i + 1;
        }
        self.pos = start + len;
        Ok(data)
    }

    /// Reads a type id: a signed variable-length integer.
    pub fn read_type_id(&mut self) -> (r: Result<TypeId, Error>)
        requires
            old(self).wf(),
        ensures
            final(self).wf(),
            final(self).bytes() == old(self).bytes(),
            final(self).spec_types() == old(self).spec_types(),
            match spec_varint_word(old(self).bytes(), old(self).spec_pos()) {
                Parsed::Val(v, p) => r == Ok::<TypeId, Error>(v) && final(self).spec_pos() == p,
                Parsed::Fail(e) => r == Err::<TypeId, Error>(e) && final(self).spec_pos() == old(
                    self,
                ).spec_pos(),
            },
    {
        self.read_isize()
    }
}

/// The bytes of the schema field name `ArrayT`.
fn bname_array_t() -> (r: Vec<u8>)
    ensures
        r@ == name_array_t(),
{
    let mut v: Vec<u8> = Vec::new();
    v.push(0x41);
    v.push(0x72);
    v.push(0x72);
    v.push(0x61);
    v.push(0x79);
    v.push(0x54);
    proof {
        assert(v@ =~= name_array_t());
    }
    v
}

/// The bytes of the schema field name `SliceT`.
fn bname_slice_t() -> (r: Vec<u8>)
    ensures
        r@ == name_slice_t(),
{
    let mut v: Vec<u8> = Vec::new();
    v.push(0x53);
    v.push(0x6c);
    v.push(0x69);
    v.push(0x63);
    v.push(0x65);
    v.push(0x54);
    proof {
        assert(v@ =~= name_slice_t());
    }
    v
}

/// The bytes of the schema field name `StructT`.
fn bname_struct_t() -> (r: Vec<u8>)
    ensures
        r@ == name_struct_t(),
{
    let mut v: Vec<u8> = Vec::new();
    v.push(0x53);
    v.push(0x74);
    v.push(0x72);
    v.push(0x75);
    v.push(0x63);
    v.push(0x74);
    v.push(0x54);
    proof {
        assert(v@ =~= name_struct_t());
    }
    v
}

/// The bytes of the schema field name `MapT`.
fn bname_map_t() -> (r: Vec<u8>)
    ensures
        r@ == name_map_t(),
{
    let mut v: Vec<u8> = Vec::new();
    v.push(0x4d);
    v.push(0x61);
    v.push(0x70);
    v.push(0x54);
    proof {
        assert(v@ =~= name_map_t());
    }
    v
}

/// The bytes of the schema field name `Name`.
fn bname_name() -> (r: Vec<u8>)
    ensures
        r@ == name_name(),
{
    let mut v: Vec<u8> = Vec::new();
    v.push(0x4e);
    v.push(0x61);
    v.push(0x6d);
    v.push(0x65);
    proof {
        assert(v@ =~= name_name());
    }
    v
}

/// The bytes of the schema field name `Id`.
fn bname_id() -> (r: Vec<u8>)
    ensures
        r@ == name_id(),
{
    let mut v: Vec<u8> = Vec::new();
    v.push(0x49);
    v.push(0x64);
    proof {
        assert(v@ =~= name_id());
    }
    v
}

/// The bytes of the schema field name `CommonType`.
fn bname_common_type() -> (r: Vec<u8>)
    ensures
        r@ == name_common_type(),
{
    let mut v: Vec<u8> = Vec::new();
    v.push(0x43);
    v.push(0x6f);
    v.push(0x6d);
    v.push(0x6d);
    v.push(0x6f);
    v.push(0x6e);
    v.push(0x54);
    v.push(0x79);
    v.push(0x70);
    v.push(0x65);
    proof {
        assert(v@ =~= name_common_type());
    }
    v
}

/// The bytes of the schema field name `Field`.
fn bname_field() -> (r: Vec<u8>)
    ensures
        r@ == name_field(),
{
    let mut v: Vec<u8> = Vec::new();
    v.push(0x46);
    v.push(0x69);
    v.push(0x65);
    v.push(0x6c);
    v.push(0x64);
    proof {
        assert(v@ =~= name_field());
    }
    v
}

/// The bytes of the schema field name `Elem`.
fn bname_elem() -> (r: Vec<u8>)
    ensures
        r@ == name_elem(),
{
    let mut v: Vec<u8> = Vec::new();
    v.push(0x45);
    v.push(0x6c);
    v.push(0x65);
    v.push(0x6d);
    proof {
        assert(v@ =~= name_elem());
    }
    v
}

/// The bytes of the schema field name `Len`.
fn bname_len() -> (r: Vec<u8>)
    ensures
        r@ == name_len(),
{
    let mut v: Vec<u8> = Vec::new();
    v.push(0x4c);
    v.push(0x65);
    v.push(0x6e);
    proof {
        assert(v@ =~= name_len());
    }
    v
}

/// The bytes of the schema field name `Key`.
fn bname_key() -> (r: Vec<u8>)
    ensures
        r@ == name_key(),
{
    let mut v: Vec<u8> = Vec::new();
    v.push(0x4b);
    v.push(0x65);
    v.push(0x79);
    proof {
        assert(v@ =~= name_key());
    }
    v
}

/// How many fields a struct-like descriptor has.
fn nfields_of(t: &TypeDef) -> (r: usize)
    ensures
        r as int == spec_nfields(t@),
{
    match t {
        TypeDef::WireType => 4,
        TypeDef::CommonType => 2,
        TypeDef::FieldType => 2,
        TypeDef::StructType => 2,
        TypeDef::ArrayType => 3,
        TypeDef::SliceType => 2,
        TypeDef::MapType => 3,
        TypeDef::Custom(crate::types::WireTypeEnum::Struct(st)) => st.fields.len(),
        _ => 0,
    }
}

impl Deserializer {
    /// Resolves field `fid` of a struct-like descriptor to the field's own
    /// descriptor and its name.  The schema structs are hard-coded; a
    /// user-defined struct names its field types by id, resolved against
    /// the dictionary.
    fn field_info(&self, t: &TypeDef, fid: usize) -> (r: Result<(TypeDef, Vec<u8>), Error>)
        ensures
            match r {
                Ok(pair) => fid < spec_nfields(t@) && spec_field_type(
                    t@,
                    fid as int,
                    self.spec_types(),
                ) == Ok::<TypeDefV, Error>(pair.0@) && pair.1@ == spec_field_name(t@, fid as int),
                Err(e) => (fid >= spec_nfields(t@) && e == Error::InvalidField) || (fid
                    < spec_nfields(t@) && spec_field_type(t@, fid as int, self.spec_types())
                    == Err::<TypeDefV, Error>(e)),
            },
    {
        match t {
            TypeDef::WireType => match fid {
                0 => Ok((TypeDef::ArrayType, bname_array_t())),
                1 => Ok((TypeDef::SliceType, bname_slice_t())),
                2 => Ok((TypeDef::StructType, bname_struct_t())),
                3 => Ok((TypeDef::MapType, bname_map_t())),
                _ => Err(Error::InvalidField),
            },
            TypeDef::CommonType => match fid {
                0 => Ok((TypeDef::ByteSlice, bname_name())),
                1 => Ok((TypeDef::Int, bname_id())),
                _ => Err(Error::InvalidField),
            },
            TypeDef::FieldType => match fid {
                0 => Ok((TypeDef::ByteSlice, bname_name())),
                1 => Ok((TypeDef::Int, bname_id())),
                _ => Err(Error::InvalidField),
            },
            TypeDef::StructType => match fid {
                0 => Ok((TypeDef::CommonType, bname_common_type())),
                1 => Ok((TypeDef::FieldTypeSlice, bname_field())),
                _ => Err(Error::InvalidField),
            },
            TypeDef::ArrayType => match fid {
                0 => Ok((TypeDef::CommonType, bname_common_type())),
                1 => Ok((TypeDef::Int, bname_elem())),
                2 => Ok((TypeDef::Int, bname_len())),
                _ => Err(Error::InvalidField),
            },
            TypeDef::SliceType => match fid {
                0 => Ok((TypeDef::CommonType, bname_common_type())),
                1 => Ok((TypeDef::Int, bname_elem())),
                _ => Err(Error::InvalidField),
            },
            TypeDef::MapType => match fid {
                0 => Ok((TypeDef::CommonType, bname_common_type())),
                1 => Ok((TypeDef::Int, bname_key())),
                2 => Ok((TypeDef::Int, bname_elem())),
                _ => Err(Error::InvalidField),
            },
            TypeDef::Custom(w) => match w {
                crate::types::WireTypeEnum::Struct(st) => {
                    if fid < st.fields.len() {
                        let ft_id = st.fields[fid].id;
                        match TypeDef::from_id(ft_id, &self.types) {
                            Some(ft) => Ok((ft, st.fields[fid].name.clone())),
                            None => Err(Error::UndefinedType(ft_id)),
                        }
                    } else {
                        Err(Error::InvalidField)
                    }
                },
                _ => Err(Error::InvalidField),
            },
            _ => Err(Error::InvalidField),
        }
    }

    /// Reads one value of descriptor `type_def` and returns its tree.
    pub fn deserialize_value(&mut self, type_def: &TypeDef) -> (r: Result<Value, Error>)
        requires
            old(self).wf(),
        ensures
            final(self).wf(),
            final(self).bytes() == old(self).bytes(),
            final(self).spec_types() == old(self).spec_types(),
            old(self).spec_pos() <= final(self).spec_pos(),
            match spec_value(
                old(self).bytes(),
                old(self).spec_pos(),
                type_def@,
                old(self).spec_types(),
            ) {
                Parsed::Val(v, p) => r is Ok && r->Ok_0@ == v && final(self).spec_pos() == p,
                Parsed::Fail(e) => r == Err::<Value, Error>(e),
            },
        decreases old(self).bytes().len() - old(self).spec_pos(), 1int, 0int,
    {
        let ghost s = old(self).bytes();
        let ghost pos0 = old(self).spec_pos();
        let ghost tm = old(self).spec_types();
        match type_def {
            TypeDef::Bool => match self.read_u64() {
                Ok(u) => Ok(Value::Bool(u != 0)),
                Err(e) => Err(e),
            },
            TypeDef::Uint => match self.read_u64() {
                Ok(u) => Ok(Value::Uint(u)),
                Err(e) => Err(e),
            },
            TypeDef::Int => match self.read_i64() {
                Ok(i) => Ok(Value::Int(i)),
                Err(e) => Err(e),
            },
            TypeDef::Float => match self.read_f64_bits() {
                Ok(b) => Ok(Value::Float(b)),
                Err(e) => Err(e),
            },
            TypeDef::ByteSlice => match self.read_bytes() {
                Ok(b) => Ok(Value::Bytes(b)),
                Err(e) => Err(e),
            },
            TypeDef::String => match self.read_bytes() {
                Ok(b) => Ok(Value::Bytes(b)),
                Err(e) => Err(e),
            },
            TypeDef::Complex => {
                let re = match self.read_f64_bits() {
                    Ok(b) => b,
                    Err(e) => {
                        return Err(e);
                    },
                };
                let im = match self.read_f64_bits() {
                    Ok(b) => b,
                    Err(e) => {
                        return Err(e);
                    },
                };
                Ok(Value::Complex(re, im))
            },
            TypeDef::Interface => Err(Error::DecodingUnsupported(crate::types::INTERFACE_ID)),
            TypeDef::FieldTypeSlice => {
                let n = match self.read_usize() {
                    Ok(n) => n,
                    Err(e) => {
                        return Err(e);
                    },
                };
                proof {
                    lemma_uvarint_word_pos(s, pos0);
                    assert(adv_pos(s, pos0, self.spec_pos()) == self.spec_pos());
                }
                match self.decode_seq_elements(&TypeDef::FieldType, n) {
                    Ok(vs) => Ok(Value::Slice(vs)),
                    Err(e) => Err(e),
                }
            },
            TypeDef::WireType => self.decode_struct_value(type_def),
            TypeDef::CommonType => self.decode_struct_value(type_def),
            TypeDef::StructType => self.decode_struct_value(type_def),
            TypeDef::FieldType => self.decode_struct_value(type_def),
            TypeDef::ArrayType => self.decode_struct_value(type_def),
            TypeDef::SliceType => self.decode_struct_value(type_def),
            TypeDef::MapType => self.decode_struct_value(type_def),
            TypeDef::Custom(w) => match w {
                crate::types::WireTypeEnum::Struct(_) => self.decode_struct_value(type_def),
                crate::types::WireTypeEnum::Slice(st) => {
                    let et = match TypeDef::from_id(st.elem, &self.types) {
                        Some(et) => et,
                        None => {
                            return Err(Error::UndefinedType(st.elem));
                        },
                    };
                    let n = match self.read_usize() {
                        Ok(n) => n,
                        Err(e) => {
                            return Err(e);
                        },
                    };
                    proof {
                        lemma_uvarint_word_pos(s, pos0);
                        assert(adv_pos(s, pos0, self.spec_pos()) == self.spec_pos());
                    }
                    match self.decode_seq_elements(&et, n) {
                        Ok(vs) => Ok(Value::Slice(vs)),
                        Err(e) => Err(e),
                    }
                },
                crate::types::WireTypeEnum::Array(at) => {
                    let et = match TypeDef::from_id(at.elem, &self.types) {
                        Some(et) => et,
                        None => {
                            return Err(Error::UndefinedType(at.elem));
                        },
                    };
                    let n = match self.read_usize() {
                        Ok(n) => n,
                        Err(e) => {
                            return Err(e);
                        },
                    };
                    proof {
                        lemma_uvarint_word_pos(s, pos0);
                        assert(adv_pos(s, pos0, self.spec_pos()) == self.spec_pos());
                    }
                    match self.decode_seq_elements(&et, n) {
                        Ok(vs) => Ok(Value::Slice(vs)),
                        Err(e) => Err(e),
                    }
                },
                crate::types::WireTypeEnum::MapT(mt) => {
                    let kt = match TypeDef::from_id(mt.key, &self.types) {
                        Some(kt) => kt,
                        None => {
                            return Err(Error::UndefinedType(mt.key));
                        },
                    };
                    let et = match TypeDef::from_id(mt.elem, &self.types) {
                        Some(et) => et,
                        None => {
                            return Err(Error::UndefinedType(mt.elem));
                        },
                    };
                    let n = match self.read_usize() {
                        Ok(n) => n,
                        Err(e) => {
                            return Err(e);
                        },
                    };
                    proof {
                        lemma_uvarint_word_pos(s, pos0);
                        assert(adv_pos(s, pos0, self.spec_pos()) == self.spec_pos());
                    }
                    match self.decode_map_entries(&kt, &et, n) {
                        Ok(es) => Ok(Value::Mapping(es)),
                        Err(e) => Err(e),
                    }
                },
            },
        }
    }

    /// Reads a struct-like value: the field-delta sequence.
    fn decode_struct_value(&mut self, t: &TypeDef) -> (r: Result<Value, Error>)
        requires
            old(self).wf(),
            spec_value(
                old(self).bytes(),
                old(self).spec_pos(),
                t@,
                old(self).spec_types(),
            ) == crate::grammar::spec_struct_value(
                old(self).bytes(),
                old(self).spec_pos(),
                t@,
                old(self).spec_types(),
            ),
        ensures
            final(self).wf(),
            final(self).bytes() == old(self).bytes(),
            final(self).spec_types() == old(self).spec_types(),
            old(self).spec_pos() <= final(self).spec_pos(),
            match spec_value(
                old(self).bytes(),
                old(self).spec_pos(),
                t@,
                old(self).spec_types(),
            ) {
                Parsed::Val(v, p) => r is Ok && r->Ok_0@ == v && final(self).spec_pos() == p,
                Parsed::Fail(e) => r == Err::<Value, Error>(e),
            },
        decreases old(self).bytes().len() - old(self).spec_pos(), 0int, 1int,
    {
        match self.decode_struct_fields(t) {
            Ok(fs) => Ok(Value::Struct(fs)),
            Err(e) => Err(e),
        }
    }

    /// The field-delta protocol: deltas advance a running field index that
    /// starts below the first field; a zero delta ends the struct.
    #[verifier::loop_isolation(false)]
    fn decode_struct_fields(&mut self, t: &TypeDef) -> (r: Result<Vec<FieldValue>, Error>)
        requires
            old(self).wf(),
        ensures
            final(self).wf(),
            final(self).bytes() == old(self).bytes(),
            final(self).spec_types() == old(self).spec_types(),
            old(self).spec_pos() <= final(self).spec_pos(),
            match spec_fields(
                old(self).bytes(),
                old(self).spec_pos(),
                t@,
                old(self).spec_types(),
                -1,
            ) {
                Parsed::Val(fs, p) => r is Ok && fields_view(r->Ok_0@) == fs && final(self).spec_pos() == p,
                Parsed::Fail(e) => r == Err::<Vec<FieldValue>, Error>(e),
            },
        decreases old(self).bytes().len() - old(self).spec_pos(), 0int, 0int,
    {
        let ghost s = old(self).bytes();
        let ghost pos0 = old(self).spec_pos();
        let ghost tm = old(self).spec_types();
        let nf = nfields_of(t);
        let mut acc: Vec<FieldValue> = Vec::new();
        let mut cur1: usize = 0;
        proof {
            if let Parsed::Val(fs, p) = spec_fields(s, pos0, t@, tm, -1) {
                assert(fields_view(acc@) =~= Seq::<crate::value::FieldValueV>::empty());
                assert(fields_view(acc@).add(fs) =~= fs);
            }
        }
        loop
            invariant
                self.wf(),
                self.bytes() == s,
                self.spec_types() == tm,
                pos0 <= self.spec_pos() <= s.len(),
                nf as int == spec_nfields(t@),
                cur1 <= nf,
                match spec_fields(s, self.spec_pos(), t@, tm, cur1 - 1) {
                    Parsed::Val(fs, p) => spec_fields(s, pos0, t@, tm, -1) == Parsed::Val(
                        fields_view(acc@).add(fs),
                        p,
                    ),
                    Parsed::Fail(e) => spec_fields(s, pos0, t@, tm, -1) == Parsed::<Seq<crate::value::FieldValueV>>::Fail(e),
                },
            decreases s.len() - self.spec_pos(),
        {
            let ghost cur_pos = self.spec_pos();
            let ghost cur = cur1 - 1int;
            let delta = match self.read_usize() {
                Ok(d) => d,
                Err(e) => {
                    return Err(e);
                },
            };
            proof {
                lemma_uvarint_word_pos(s, cur_pos);
            }
            if delta == 0 {
                proof {
                    assert(fields_view(acc@).add(Seq::<crate::value::FieldValueV>::empty())
                        =~= fields_view(acc@));
                }
                return Ok(acc);
            }
            if delta > nf - cur1 {
                return Err(Error::InvalidField);
            }
            let fid = cur1 + (delta - 1);
            let (ft, fname) = match self.field_info(t, fid) {
                Ok(x) => x,
                Err(e) => {
                    return Err(e);
                },
            };
            let ghost p1 = self.spec_pos();
            proof {
                assert(adv_pos(s, cur_pos, p1) == p1);
            }
            let v = match self.deserialize_value(&ft) {
                Ok(v) => v,
                Err(e) => {
                    return Err(e);
                },
            };
            let ghost p2 = self.spec_pos();
            proof {
                assert(adv_pos(s, cur_pos, p2) == p2);
            }
            let ghost fv = crate::value::FieldValueV {
                field_id: fid as int,
                name: spec_field_name(t@, fid as int),
                value: v@,
            };
            let ghost acc0 = acc@;
            acc.push(FieldValue { field_id: fid, name: fname, value: v });
            cur1 = fid + 1;
            proof {
                assert(acc@.drop_last() =~= acc0);
                assert(fields_view(acc@) == fields_view(acc0).push(fv));
                if let Parsed::Val(rest, p3) = spec_fields(s, self.spec_pos(), t@, tm, fid as int) {
                    assert(fields_view(acc0).push(fv).add(rest) =~= fields_view(acc0).add(
                        seq![fv].add(rest),
                    ));
                }
            }
        }
    }

    /// `n` consecutive values of one element descriptor.
    #[verifier::loop_isolation(false)]
    fn decode_seq_elements(&mut self, et: &TypeDef, n: usize) -> (r: Result<Vec<Value>, Error>)
        requires
            old(self).wf(),
        ensures
            final(self).wf(),
            final(self).bytes() == old(self).bytes(),
            final(self).spec_types() == old(self).spec_types(),
            old(self).spec_pos() <= final(self).spec_pos(),
            match spec_elems(
                old(self).bytes(),
                old(self).spec_pos(),
                et@,
                old(self).spec_types(),
                n as nat,
            ) {
                Parsed::Val(vs, p) => r is Ok && values_view(r->Ok_0@) == vs && final(self).spec_pos() == p,
                Parsed::Fail(e) => r == Err::<Vec<Value>, Error>(e),
            },
        decreases old(self).bytes().len() - old(self).spec_pos(), 2int, 0int,
    {
        let ghost s = old(self).bytes();
        let ghost pos0 = old(self).spec_pos();
        let ghost tm = old(self).spec_types();
        let mut acc: Vec<Value> = Vec::new();
        let mut i: usize = 0;
        proof {
            if let Parsed::Val(vs, p) = spec_elems(s, pos0, et@, tm, n as nat) {
                assert(values_view(acc@) =~= Seq::<crate::value::ValueV>::empty());
                assert(values_view(acc@).add(vs) =~= vs);
            }
        }
        while i < n
            invariant
                self.wf(),
                self.bytes() == s,
                self.spec_types() == tm,
                pos0 <= self.spec_pos() <= s.len(),
                0 <= i <= n,
                match spec_elems(s, self.spec_pos(), et@, tm, (n - i) as nat) {
                    Parsed::Val(vs, p) => spec_elems(s, pos0, et@, tm, n as nat) == Parsed::Val(
                        values_view(acc@).add(vs),
                        p,
                    ),
                    Parsed::Fail(e) => spec_elems(s, pos0, et@, tm, n as nat) == Parsed::<Seq<crate::value::ValueV>>::Fail(e),
                },
            decreases n - i,
        {
            let ghost cur_pos = self.spec_pos();
            let v = match self.deserialize_value(et) {
                Ok(v) => v,
                Err(e) => {
                    return Err(e);
                },
            };
            proof {
                assert(step_pos(s, cur_pos, self.spec_pos()) == self.spec_pos());
            }
            let ghost acc0 = acc@;
            acc.push(v);
            proof {
                assert(acc@.drop_last() =~= acc0);
                assert(values_view(acc@) == values_view(acc0).push(v@));
                if let Parsed::Val(vs2, q2) = spec_elems(
                    s,
                    self.spec_pos(),
                    et@,
                    tm,
                    (n - i - 1) as nat,
                ) {
                    assert(values_view(acc0).push(v@).add(vs2) =~= values_view(acc0).add(
                        seq![v@].add(vs2),
                    ));
                }
            }
            i = i + 1;
        }
        proof {
            assert(values_view(acc@).add(Seq::<crate::value::ValueV>::empty()) =~= values_view(
                acc@,
            ));
        }
        Ok(acc)
    }

    /// `n` consecutive key-value pairs of one pair of descriptors.
    #[verifier::loop_isolation(false)]
    fn decode_map_entries(&mut self, kt: &TypeDef, et: &TypeDef, n: usize) -> (r: Result<
        Vec<MapEntry>,
        Error,
    >)
        requires
            old(self).wf(),
        ensures
            final(self).wf(),
            final(self).bytes() == old(self).bytes(),
            final(self).spec_types() == old(self).spec_types(),
            old(self).spec_pos() <= final(self).spec_pos(),
            match spec_map_entries(
                old(self).bytes(),
                old(self).spec_pos(),
                kt@,
                et@,
                old(self).spec_types(),
                n as nat,
            ) {
                Parsed::Val(es, p) => r is Ok && entries_view(r->Ok_0@) == es && final(self).spec_pos() == p,
                Parsed::Fail(e) => r == Err::<Vec<MapEntry>, Error>(e),
            },
        decreases old(self).bytes().len() - old(self).spec_pos(), 2int, 0int,
    {
        let ghost s = old(self).bytes();
        let ghost pos0 = old(self).spec_pos();
        let ghost tm = old(self).spec_types();
        let mut acc: Vec<MapEntry> = Vec::new();
        let mut i: usize = 0;
        proof {
            if let Parsed::Val(es, p) = spec_map_entries(s, pos0, kt@, et@, tm, n as nat) {
                assert(entries_view(acc@) =~= Seq::<crate::value::MapEntryV>::empty());
                assert(entries_view(acc@).add(es) =~= es);
            }
        }
        while i < n
            invariant
                self.wf(),
                self.bytes() == s,
                self.spec_types() == tm,
                pos0 <= self.spec_pos() <= s.len(),
                0 <= i <= n,
                match spec_map_entries(s, self.spec_pos(), kt@, et@, tm, (n - i) as nat) {
                    Parsed::Val(es, p) => spec_map_entries(s, pos0, kt@, et@, tm, n as nat)
                        == Parsed::Val(entries_view(acc@).add(es), p),
                    Parsed::Fail(e) => spec_map_entries(s, pos0, kt@, et@, tm, n as nat)
                        == Parsed::<Seq<crate::value::MapEntryV>>::Fail(e),
                },
            decreases n - i,
        {
            let ghost cur_pos = self.spec_pos();
            let k = match self.deserialize_value(kt) {
                Ok(k) => k,
                Err(e) => {
                    return Err(e);
                },
            };
            proof {
                assert(step_pos(s, cur_pos, self.spec_pos()) == self.spec_pos());
            }
            let v = match self.deserialize_value(et) {
                Ok(v) => v,
                Err(e) => {
                    return Err(e);
                },
            };
            proof {
                assert(step_pos(s, cur_pos, self.spec_pos()) == self.spec_pos());
            }
            let ghost acc0 = acc@;
            acc.push(MapEntry { key: k, value: v });
            proof {
                let ev = crate::value::MapEntryV { key: k@, value: v@ };
                assert(acc@.drop_last() =~= acc0);
                assert(entries_view(acc@) == entries_view(acc0).push(ev));
                if let Parsed::Val(es2, q2) = spec_map_entries(
                    s,
                    self.spec_pos(),
                    kt@,
                    et@,
                    tm,
                    (n - i - 1) as nat,
                ) {
                    assert(entries_view(acc0).push(ev).add(es2) =~= entries_view(acc0).add(
                        seq![ev].add(es2),
                    ));
                }
            }
            i = i + 1;
        }
        proof {
            assert(entries_view(acc@).add(Seq::<crate::value::MapEntryV>::empty()) =~= entries_view(
                acc@,
            ));
        }
        Ok(acc)
    }
}

impl Deserializer {
    /// Decodes the next top-level value: consumes any type definition
    /// messages first, then one value message.  The dictionary persists,
    /// so the call can be repeated on one stream.
    #[verifier::loop_isolation(false)]
    pub fn decode(&mut self) -> (r: Result<Value, Error>)
        requires
            old(self).wf(),
        ensures
            final(self).wf(),
            final(self).bytes() == old(self).bytes(),
            old(self).spec_pos() <= final(self).spec_pos(),
            match spec_drive(old(self).bytes(), old(self).spec_pos(), old(self).spec_types()) {
                DriveRes::Val(ok) => r is Ok && r->Ok_0@ == ok.value && final(self).spec_pos()
                    == ok.end && final(self).spec_types() == ok.types,
                DriveRes::Fail(e) => r == Err::<Value, Error>(e),
            },
    {
        let ghost s = old(self).bytes();
        let ghost pos0 = old(self).spec_pos();
        let ghost tm0 = old(self).spec_types();
        let ghost mut defs: Seq<TypeId> = Seq::empty();
        proof {
            if let DriveRes::Val(ok) = spec_drive(s, pos0, tm0) {
                assert(defs.add(ok.defined) =~= ok.defined);
            }
        }
        loop
            invariant
                self.wf(),
                self.bytes() == s,
                pos0 <= self.spec_pos() <= s.len(),
                match spec_drive(s, self.spec_pos(), self.spec_types()) {
                    DriveRes::Val(ok) => spec_drive(s, pos0, tm0) == DriveRes::Val(
                        DriveOk {
                            value: ok.value,
                            end: ok.end,
                            types: ok.types,
                            value_id: ok.value_id,
                            defined: defs.add(ok.defined),
                        },
                    ),
                    DriveRes::Fail(e) => spec_drive(s, pos0, tm0) == DriveRes::Fail(e),
                },
            decreases s.len() - self.spec_pos(),
        {
            let ghost cur_pos = self.spec_pos();
            let ghost cur_tm = self.spec_types();
            let _len = match self.read_usize() {
                Ok(l) => l,
                Err(e) => {
                    return Err(e);
                },
            };
            proof {
                lemma_uvarint_word_pos(s, cur_pos);
            }
            let ghost p1 = self.spec_pos();
            let id = match self.read_type_id() {
                Ok(id) => id,
                Err(e) => {
                    return Err(e);
                },
            };
            proof {
                lemma_varint_word_pos(s, p1);
            }
            let ghost p2 = self.spec_pos();
            if id >= 0 {
                let t = match TypeDef::from_id(id, &self.types) {
                    Some(t) => t,
                    None => {
                        return Err(Error::UndefinedType(id));
                    },
                };
                match self.deserialize_value(&t) {
                    Ok(v) => {
                        return Ok(v);
                    },
                    Err(e) => {
                        return Err(e);
                    },
                }
            }
            if id == isize::MIN {
                return Err(Error::NumOutOfRange);
            }
            let def_id = -id;
            let wt_def = TypeDef::WireType;
            let wv = match self.deserialize_value(&wt_def) {
                Ok(v) => v,
                Err(e) => {
                    return Err(e);
                },
            };
            proof {
                crate::grammar::lemma_value_pos(s, p2, TypeDefV::WireType, cur_tm);
                assert(adv_pos(s, cur_pos, self.spec_pos()) == self.spec_pos());
            }
            let w = match WireType::from_value(&wv) {
                Ok(w) => w,
                Err(e) => {
                    return Err(e);
                },
            };
            let wte = match w.try_into_enum() {
                Ok(x) => x,
                Err(e) => {
                    return Err(e);
                },
            };
            let wte_id = wte.id();
            if def_id != wte_id {
                return Err(Error::DefiningIdMismatch(def_id, wte_id));
            }
            if is_type_builtin(def_id) {
                return Err(Error::DefiningBuiltin(def_id));
            }
            if self.types.contains_key(&def_id) {
                return Err(Error::TypeAlreadyDefined(def_id));
            }
            let td = TypeDef::Custom(wte);
            let ghost tdv = td@;
            let ghost m_pre = self.types@;
            self.types.insert(def_id, td);
            proof {
                assert(cur_tm.dom() =~= m_pre.dom());
                assert(self.spec_types() =~= cur_tm.insert(def_id, tdv));
                let defs_old = defs;
                defs = defs.add(seq![def_id]);
                if let DriveRes::Val(ok2) = spec_drive(s, self.spec_pos(), self.spec_types()) {
                    assert(defs_old.add(seq![def_id].add(ok2.defined)) =~= defs.add(ok2.defined));
                }
            }
        }
    }
}

} // verus!
