//! Type descriptors: the reserved ids, the hard-coded shapes of the
//! format's own schema structs, and the descriptors of user-defined types.
//!
//! The first thing on any stream that involves user types is a `WireType`
//! value encoded in the format itself, so the decoder hard-codes the layout
//! of `WireType` and of the structs it is built from.

use vstd::prelude::*;
use std::collections::HashMap;
use crate::errors::Error;

verus! {

/// A signed integer identifying a type within one stream.
pub type TypeId = isize;

pub const BOOL_ID: TypeId = 1;

pub const INT_ID: TypeId = 2;

pub const UINT_ID: TypeId = 3;

pub const FLOAT_ID: TypeId = 4;

pub const BYTE_SLICE_ID: TypeId = 5;

pub const STRING_ID: TypeId = 6;

pub const COMPLEX_ID: TypeId = 7;

pub const INTERFACE_ID: TypeId = 8;

pub const WIRE_TYPE_ID: TypeId = 16;

pub const ARRAY_TYPE_ID: TypeId = 17;

pub const COMMON_TYPE_ID: TypeId = 18;

pub const SLICE_TYPE_ID: TypeId = 19;

pub const STRUCT_TYPE_ID: TypeId = 20;

pub const FIELD_TYPE_ID: TypeId = 21;

pub const FIELD_TYPE_SLICE_ID: TypeId = 22;

pub const MAP_TYPE_ID: TypeId = 23;

/// Whether `id` is reserved by the format: the built-in atomic types and
/// the schema types may not be defined on the wire.
pub open spec fn spec_is_builtin(id: TypeId) -> bool {
    1 <= id <= 8 || 16 <= id <= 23
}

pub fn is_type_builtin(id: TypeId) -> (r: bool)
    ensures
        r == spec_is_builtin(id),
{
    (1 <= id && id <= 8) || (16 <= id && id <= 23)
}

// ------------------------------------------------------------------
// The schema structs and their ghost views.
// ------------------------------------------------------------------

/// The name and id shared by every user-defined type.  The name is kept as
/// the raw bytes from the wire; binding names to text is the caller's
/// business.
#[derive(Debug)]
pub struct CommonType {
    pub name: Vec<u8>,
    pub id: TypeId,
}

pub struct CommonTypeV {
    pub name: Seq<u8>,
    pub id: TypeId,
}

impl View for CommonType {
    type V = CommonTypeV;

    open spec fn view(&self) -> CommonTypeV {
        CommonTypeV { name: self.name@, id: self.id }
    }
}

impl Clone for CommonType {
    fn clone(&self) -> (r: Self)
        ensures
            r@ == self@,
    {
        CommonType { name: self.name.clone(), id: self.id }
    }
}

/// One field of a user-defined struct: its name and the id of its type.
#[derive(Debug)]
pub struct FieldType {
    pub name: Vec<u8>,
    pub id: TypeId,
}

pub struct FieldTypeV {
    pub name: Seq<u8>,
    pub id: TypeId,
}

impl View for FieldType {
    type V = FieldTypeV;

    open spec fn view(&self) -> FieldTypeV {
        FieldTypeV { name: self.name@, id: self.id }
    }
}

impl Clone for FieldType {
    fn clone(&self) -> (r: Self)
        ensures
            r@ == self@,
    {
        FieldType { name: self.name.clone(), id: self.id }
    }
}

/// A user-defined struct: its common part and its fields in wire order.
/// A field's position in the sequence is the integer field id used on the
/// wire.
#[derive(Debug)]
pub struct StructType {
    pub common: CommonType,
    pub fields: Vec<FieldType>,
}

pub struct StructTypeV {
    pub common: CommonTypeV,
    pub fields: Seq<FieldTypeV>,
}

impl View for StructType {
    type V = StructTypeV;

    open spec fn view(&self) -> StructTypeV {
        StructTypeV {
            common: self.common@,
            fields: self.fields@.map_values(|f: FieldType| f@),
        }
    }
}

impl Clone for StructType {
    fn clone(&self) -> (r: Self)
        ensures
            r@ == self@,
    {
        let fields = self.fields.clone();
        proof {
            assert(fields@.map_values(|f: FieldType| f@) =~= self.fields@.map_values(
                |f: FieldType| f@,
            ));
        }
        StructType { common: self.common.clone(), fields }
    }
}

/// A user-defined fixed-length array: element type and length.
#[derive(Debug)]
pub struct ArrayType {
    pub common: CommonType,
    pub elem: TypeId,
    pub len: isize,
}

pub struct ArrayTypeV {
    pub common: CommonTypeV,
    pub elem: TypeId,
    pub len: isize,
}

impl View for ArrayType {
    type V = ArrayTypeV;

    open spec fn view(&self) -> ArrayTypeV {
        ArrayTypeV { common: self.common@, elem: self.elem, len: self.len }
    }
}

impl Clone for ArrayType {
    fn clone(&self) -> (r: Self)
        ensures
            r@ == self@,
    {
        ArrayType { common: self.common.clone(), elem: self.elem, len: self.len }
    }
}

/// A user-defined slice: its element type.
#[derive(Debug)]
pub struct SliceType {
    pub common: CommonType,
    pub elem: TypeId,
}

pub struct SliceTypeV {
    pub common: CommonTypeV,
    pub elem: TypeId,
}

impl View for SliceType {
    type V = SliceTypeV;

    open spec fn view(&self) -> SliceTypeV {
        SliceTypeV { common: self.common@, elem: self.elem }
    }
}

impl Clone for SliceType {
    fn clone(&self) -> (r: Self)
        ensures
            r@ == self@,
    {
        SliceType { common: self.common.clone(), elem: self.elem }
    }
}

/// A user-defined map: its key and element types.
#[derive(Debug)]
pub struct MapType {
    pub common: CommonType,
    pub key: TypeId,
    pub elem: TypeId,
}

pub struct MapTypeV {
    pub common: CommonTypeV,
    pub key: TypeId,
    pub elem: TypeId,
}

impl View for MapType {
    type V = MapTypeV;

    open spec fn view(&self) -> MapTypeV {
        MapTypeV { common: self.common@, key: self.key, elem: self.elem }
    }
}

impl Clone for MapType {
    fn clone(&self) -> (r: Self)
        ensures
            r@ == self@,
    {
        MapType { common: self.common.clone(), key: self.key, elem: self.elem }
    }
}

/// The format's one-of record for type definitions: exactly one of the four
/// variants must be present in a valid definition.
#[derive(Debug)]
pub struct WireType {
    pub array_type: Option<ArrayType>,
    pub slice_type: Option<SliceType>,
    pub struct_type: Option<StructType>,
    pub map_type: Option<MapType>,
}

pub struct WireTypeV {
    pub array_type: Option<ArrayTypeV>,
    pub slice_type: Option<SliceTypeV>,
    pub struct_type: Option<StructTypeV>,
    pub map_type: Option<MapTypeV>,
}

impl View for WireType {
    type V = WireTypeV;

    open spec fn view(&self) -> WireTypeV {
        WireTypeV {
            array_type: match self.array_type {
                Some(t) => Some(t@),
                None => None,
            },
            slice_type: match self.slice_type {
                Some(t) => Some(t@),
                None => None,
            },
            struct_type: match self.struct_type {
                Some(t) => Some(t@),
                None => None,
            },
            map_type: match self.map_type {
                Some(t) => Some(t@),
                None => None,
            },
        }
    }
}

/// A validated definition: exactly one of the four kinds.
#[derive(Debug)]
pub enum WireTypeEnum {
    Array(ArrayType),
    Slice(SliceType),
    Struct(StructType),
    MapT(MapType),
}

pub enum WireTypeEnumV {
    Array(ArrayTypeV),
    Slice(SliceTypeV),
    Struct(StructTypeV),
    MapT(MapTypeV),
}

impl View for WireTypeEnum {
    type V = WireTypeEnumV;

    open spec fn view(&self) -> WireTypeEnumV {
        match self {
            WireTypeEnum::Array(t) => WireTypeEnumV::Array(t@),
            WireTypeEnum::Slice(t) => WireTypeEnumV::Slice(t@),
            WireTypeEnum::Struct(t) => WireTypeEnumV::Struct(t@),
            WireTypeEnum::MapT(t) => WireTypeEnumV::MapT(t@),
        }
    }
}

impl Clone for WireTypeEnum {
    fn clone(&self) -> (r: Self)
        ensures
            r@ == self@,
    {
        match self {
            WireTypeEnum::Array(t) => WireTypeEnum::Array(t.clone()),
            WireTypeEnum::Slice(t) => WireTypeEnum::Slice(t.clone()),
            WireTypeEnum::Struct(t) => WireTypeEnum::Struct(t.clone()),
            WireTypeEnum::MapT(t) => WireTypeEnum::MapT(t.clone()),
        }
    }
}

impl WireTypeEnumV {
    /// The id the definition claims for itself.
    pub open spec fn spec_id(self) -> TypeId {
        match self {
            WireTypeEnumV::Array(t) => t.common.id,
            WireTypeEnumV::Slice(t) => t.common.id,
            WireTypeEnumV::Struct(t) => t.common.id,
            WireTypeEnumV::MapT(t) => t.common.id,
        }
    }
}

impl WireTypeEnum {
    pub fn id(&self) -> (r: TypeId)
        ensures
            r == self@.spec_id(),
    {
        match self {
            WireTypeEnum::Array(t) => t.common.id,
            WireTypeEnum::Slice(t) => t.common.id,
            WireTypeEnum::Struct(t) => t.common.id,
            WireTypeEnum::MapT(t) => t.common.id,
        }
    }
}

impl WireTypeV {
    /// How many of the four variants are present.
    pub open spec fn spec_n_some(self) -> int {
        (if self.array_type is Some {
            1int
        } else {
            0int
        }) + (if self.slice_type is Some {
            1int
        } else {
            0int
        }) + (if self.struct_type is Some {
            1int
        } else {
            0int
        }) + (if self.map_type is Some {
            1int
        } else {
            0int
        })
    }

    /// The validation of a decoded definition: exactly one variant present,
    /// or the definition is ambiguous.
    pub open spec fn spec_into_enum(self) -> Result<WireTypeEnumV, Error> {
        if self.spec_n_some() != 1 {
            Err(Error::AmbiguousWireType)
        } else if self.array_type is Some {
            Ok(WireTypeEnumV::Array(self.array_type->0))
        } else if self.slice_type is Some {
            Ok(WireTypeEnumV::Slice(self.slice_type->0))
        } else if self.struct_type is Some {
            Ok(WireTypeEnumV::Struct(self.struct_type->0))
        } else {
            Ok(WireTypeEnumV::MapT(self.map_type->0))
        }
    }
}

impl WireType {
    /// Checks that exactly one of the four variants is present and unwraps
    /// it; anything else is an ambiguous definition.
    pub fn try_into_enum(self) -> (r: Result<WireTypeEnum, Error>)
        ensures
            match r {
                Ok(w) => self@.spec_into_enum() == Ok::<WireTypeEnumV, Error>(w@),
                Err(e) => self@.spec_into_enum() == Err::<WireTypeEnumV, Error>(e),
            },
    {
        let WireType { array_type, slice_type, struct_type, map_type } = self;
        let mut n_some: u64 = 0;
        if array_type.is_some() {
            n_some = n_some + 1;
        }
        if slice_type.is_some() {
            n_some = n_some + 1;
        }
        if struct_type.is_some() {
            n_some = n_some + 1;
        }
        if map_type.is_some() {
            n_some = n_some + 1;
        }
        if n_some != 1 {
            return Err(Error::AmbiguousWireType);
        }
        if let Some(t) = array_type {
            return Ok(WireTypeEnum::Array(t));
        }
        if let Some(t) = slice_type {
            return Ok(WireTypeEnum::Slice(t));
        }
        if let Some(t) = struct_type {
            return Ok(WireTypeEnum::Struct(t));
        }
        if let Some(t) = map_type {
            return Ok(WireTypeEnum::MapT(t));
        }
        proof {
            assert(false);
        }
        Err(Error::AmbiguousWireType)
    }
}

// ------------------------------------------------------------------
// Descriptors.
// ------------------------------------------------------------------

/// The decoder's in-memory representation of a type: the built-in atomic
/// types, the format's own schema types, or a user-defined type captured by
/// its validated definition.
#[derive(Debug)]
pub enum TypeDef {
    Bool,
    Int,
    Uint,
    Float,
    ByteSlice,
    String,
    Complex,
    Interface,
    WireType,
    ArrayType,
    CommonType,
    SliceType,
    StructType,
    FieldType,
    FieldTypeSlice,
    MapType,
    Custom(WireTypeEnum),
}

pub enum TypeDefV {
    Bool,
    Int,
    Uint,
    Float,
    ByteSlice,
    String,
    Complex,
    Interface,
    WireType,
    ArrayType,
    CommonType,
    SliceType,
    StructType,
    FieldType,
    FieldTypeSlice,
    MapType,
    Custom(WireTypeEnumV),
}

impl View for TypeDef {
    type V = TypeDefV;

    open spec fn view(&self) -> TypeDefV {
        match self {
            TypeDef::Bool => TypeDefV::Bool,
            TypeDef::Int => TypeDefV::Int,
            TypeDef::Uint => TypeDefV::Uint,
            TypeDef::Float => TypeDefV::Float,
            TypeDef::ByteSlice => TypeDefV::ByteSlice,
            TypeDef::String => TypeDefV::String,
            TypeDef::Complex => TypeDefV::Complex,
            TypeDef::Interface => TypeDefV::Interface,
            TypeDef::WireType => TypeDefV::WireType,
            TypeDef::ArrayType => TypeDefV::ArrayType,
            TypeDef::CommonType => TypeDefV::CommonType,
            TypeDef::SliceType => TypeDefV::SliceType,
            TypeDef::StructType => TypeDefV::StructType,
            TypeDef::FieldType => TypeDefV::FieldType,
            TypeDef::FieldTypeSlice => TypeDefV::FieldTypeSlice,
            TypeDef::MapType => TypeDefV::MapType,
            TypeDef::Custom(w) => TypeDefV::Custom(w@),
        }
    }
}

impl Clone for TypeDef {
    fn clone(&self) -> (r: Self)
        ensures
            r@ == self@,
    {
        match self {
            TypeDef::Bool => TypeDef::Bool,
            TypeDef::Int => TypeDef::Int,
            TypeDef::Uint => TypeDef::Uint,
            TypeDef::Float => TypeDef::Float,
            TypeDef::ByteSlice => TypeDef::ByteSlice,
            TypeDef::String => TypeDef::String,
            TypeDef::Complex => TypeDef::Complex,
            TypeDef::Interface => TypeDef::Interface,
            TypeDef::WireType => TypeDef::WireType,
            TypeDef::ArrayType => TypeDef::ArrayType,
            TypeDef::CommonType => TypeDef::CommonType,
            TypeDef::SliceType => TypeDef::SliceType,
            TypeDef::StructType => TypeDef::StructType,
            TypeDef::FieldType => TypeDef::FieldType,
            TypeDef::FieldTypeSlice => TypeDef::FieldTypeSlice,
            TypeDef::MapType => TypeDef::MapType,
            TypeDef::Custom(w) => TypeDef::Custom(w.clone()),
        }
    }
}

impl TypeDefV {
    pub open spec fn spec_id(self) -> TypeId {
        match self {
            TypeDefV::Bool => BOOL_ID,
            TypeDefV::Int => INT_ID,
            TypeDefV::Uint => UINT_ID,
            TypeDefV::Float => FLOAT_ID,
            TypeDefV::ByteSlice => BYTE_SLICE_ID,
            TypeDefV::String => STRING_ID,
            TypeDefV::Complex => COMPLEX_ID,
            TypeDefV::Interface => INTERFACE_ID,
            TypeDefV::WireType => WIRE_TYPE_ID,
            TypeDefV::ArrayType => ARRAY_TYPE_ID,
            TypeDefV::CommonType => COMMON_TYPE_ID,
            TypeDefV::SliceType => SLICE_TYPE_ID,
            TypeDefV::StructType => STRUCT_TYPE_ID,
            TypeDefV::FieldType => FIELD_TYPE_ID,
            TypeDefV::FieldTypeSlice => FIELD_TYPE_SLICE_ID,
            TypeDefV::MapType => MAP_TYPE_ID,
            TypeDefV::Custom(w) => w.spec_id(),
        }
    }
}

/// The ghost image of the mutable part of the type dictionary.
pub open spec fn type_map_view(m: Map<TypeId, TypeDef>) -> Map<TypeId, TypeDefV> {
    m.map_values(|t: TypeDef| t@)
}

/// Resolution of a type id: the built-in descriptors are implicitly
/// present; anything else comes from the mutable table.
pub open spec fn spec_from_id(type_id: TypeId, types: Map<TypeId, TypeDefV>) -> Option<TypeDefV> {
    if type_id == BOOL_ID {
        Some(TypeDefV::Bool)
    } else if type_id == INT_ID {
        Some(TypeDefV::Int)
    } else if type_id == UINT_ID {
        Some(TypeDefV::Uint)
    } else if type_id == FLOAT_ID {
        Some(TypeDefV::Float)
    } else if type_id == BYTE_SLICE_ID {
        Some(TypeDefV::ByteSlice)
    } else if type_id == STRING_ID {
        Some(TypeDefV::String)
    } else if type_id == COMPLEX_ID {
        Some(TypeDefV::Complex)
    } else if type_id == INTERFACE_ID {
        Some(TypeDefV::Interface)
    } else if type_id == WIRE_TYPE_ID {
        Some(TypeDefV::WireType)
    } else if type_id == ARRAY_TYPE_ID {
        Some(TypeDefV::ArrayType)
    } else if type_id == COMMON_TYPE_ID {
        Some(TypeDefV::CommonType)
    } else if type_id == SLICE_TYPE_ID {
        Some(TypeDefV::SliceType)
    } else if type_id == STRUCT_TYPE_ID {
        Some(TypeDefV::StructType)
    } else if type_id == FIELD_TYPE_ID {
        Some(TypeDefV::FieldType)
    } else if type_id == FIELD_TYPE_SLICE_ID {
        Some(TypeDefV::FieldTypeSlice)
    } else if type_id == MAP_TYPE_ID {
        Some(TypeDefV::MapType)
    } else if types.dom().contains(type_id) {
        Some(types[type_id])
    } else {
        None
    }
}

impl TypeDef {
    pub fn id(&self) -> (r: TypeId)
        ensures
            r == self@.spec_id(),
    {
        match self {
            TypeDef::Bool => BOOL_ID,
            TypeDef::Int => INT_ID,
            TypeDef::Uint => UINT_ID,
            TypeDef::Float => FLOAT_ID,
            TypeDef::ByteSlice => BYTE_SLICE_ID,
            TypeDef::String => STRING_ID,
            TypeDef::Complex => COMPLEX_ID,
            TypeDef::Interface => INTERFACE_ID,
            TypeDef::WireType => WIRE_TYPE_ID,
            TypeDef::ArrayType => ARRAY_TYPE_ID,
            TypeDef::CommonType => COMMON_TYPE_ID,
            TypeDef::SliceType => SLICE_TYPE_ID,
            TypeDef::StructType => STRUCT_TYPE_ID,
            TypeDef::FieldType => FIELD_TYPE_ID,
            TypeDef::FieldTypeSlice => FIELD_TYPE_SLICE_ID,
            TypeDef::MapType => MAP_TYPE_ID,
            TypeDef::Custom(w) => w.id(),
        }
    }

    /// Looks a type id up: first among the built-ins, then in the mutable
    /// table.
    pub fn from_id(type_id: TypeId, types: &HashMap<TypeId, TypeDef>) -> (r: Option<TypeDef>)
        ensures
            match r {
                Some(t) => spec_from_id(type_id, type_map_view(types@)) == Some(t@),
                None => spec_from_id(type_id, type_map_view(types@)) is None,
            },
    {
        if type_id == BOOL_ID {
            Some(TypeDef::Bool)
        } else if type_id == INT_ID {
            Some(TypeDef::Int)
        } else if type_id == UINT_ID {
            Some(TypeDef::Uint)
        } else if type_id == FLOAT_ID {
            Some(TypeDef::Float)
        } else if type_id == BYTE_SLICE_ID {
            Some(TypeDef::ByteSlice)
        } else if type_id == STRING_ID {
            Some(TypeDef::String)
        } else if type_id == COMPLEX_ID {
            Some(TypeDef::Complex)
        } else if type_id == INTERFACE_ID {
            Some(TypeDef::Interface)
        } else if type_id == WIRE_TYPE_ID {
            Some(TypeDef::WireType)
        } else if type_id == ARRAY_TYPE_ID {
            Some(TypeDef::ArrayType)
        } else if type_id == COMMON_TYPE_ID {
            Some(TypeDef::CommonType)
        } else if type_id == SLICE_TYPE_ID {
            Some(TypeDef::SliceType)
        } else if type_id == STRUCT_TYPE_ID {
            Some(TypeDef::StructType)
        } else if type_id == FIELD_TYPE_ID {
            Some(TypeDef::FieldType)
        } else if type_id == FIELD_TYPE_SLICE_ID {
            Some(TypeDef::FieldTypeSlice)
        } else if type_id == MAP_TYPE_ID {
            Some(TypeDef::MapType)
        } else {
            match types.get(&type_id) {
                Some(t) => Some(t.clone()),
                None => None,
            }
        }
    }
}

} // verus!
