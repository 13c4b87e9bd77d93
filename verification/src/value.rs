//! The decoded value tree and its ghost image.
//!
//! The decoder projects every wire value into this self-describing tree;
//! binding the tree to user data structures (names to fields, defaults for
//! omitted fields) is the caller's business.

use vstd::prelude::*;

verus! {

/// One decoded struct field: the field's integer id on the wire, its name
/// as the descriptor spells it, and its value.
#[derive(Debug)]
pub struct FieldValue {
    pub field_id: usize,
    pub name: Vec<u8>,
    pub value: Value,
}

/// One decoded map entry.
#[derive(Debug)]
pub struct MapEntry {
    pub key: Value,
    pub value: Value,
}

/// A decoded value.  Floats are kept as their IEEE-754 bit patterns;
/// strings and byte slices are kept as raw bytes.
#[derive(Debug)]
pub enum Value {
    Bool(bool),
    Int(i64),
    Uint(u64),
    Float(u64),
    Bytes(Vec<u8>),
    Complex(u64, u64),
    Slice(Vec<Value>),
    Struct(Vec<FieldValue>),
    Mapping(Vec<MapEntry>),
}

pub struct FieldValueV {
    pub field_id: int,
    pub name: Seq<u8>,
    pub value: ValueV,
}

pub struct MapEntryV {
    pub key: ValueV,
    pub value: ValueV,
}

pub enum ValueV {
    Bool(bool),
    Int(i64),
    Uint(u64),
    Float(u64),
    Bytes(Seq<u8>),
    Complex(u64, u64),
    Slice(Seq<ValueV>),
    Struct(Seq<FieldValueV>),
    Mapping(Seq<MapEntryV>),
}

pub open spec fn value_view(v: Value) -> ValueV
    decreases v,
    via value_view_decreases
{
    match v {
        Value::Bool(b) => ValueV::Bool(b),
        Value::Int(i) => ValueV::Int(i),
        Value::Uint(u) => ValueV::Uint(u),
        Value::Float(f) => ValueV::Float(f),
        Value::Bytes(b) => ValueV::Bytes(b@),
        Value::Complex(re, im) => ValueV::Complex(re, im),
        Value::Slice(vs) => ValueV::Slice(values_view(vs@)),
        Value::Struct(fs) => ValueV::Struct(fields_view(fs@)),
        Value::Mapping(es) => ValueV::Mapping(entries_view(es@)),
    }
}

pub open spec fn values_view(s: Seq<Value>) -> Seq<ValueV>
    decreases s,
    via values_view_decreases
{
    if s.len() == 0 {
        Seq::empty()
    } else {
        values_view(s.drop_last()).push(value_view(s.last()))
    }
}

pub open spec fn fields_view(s: Seq<FieldValue>) -> Seq<FieldValueV>
    decreases s,
    via fields_view_decreases
{
    if s.len() == 0 {
        Seq::empty()
    } else {
        fields_view(s.drop_last()).push(
            FieldValueV {
                field_id: s.last().field_id as int,
                name: s.last().name@,
                value: value_view(s.last().value),
            },
        )
    }
}

pub open spec fn entries_view(s: Seq<MapEntry>) -> Seq<MapEntryV>
    decreases s,
    via entries_view_decreases
{
    if s.len() == 0 {
        Seq::empty()
    } else {
        entries_view(s.drop_last()).push(
            MapEntryV { key: value_view(s.last().key), value: value_view(s.last().value) },
        )
    }
}

#[via_fn]
proof fn value_view_decreases(v: Value) {
    match v {
        Value::Slice(vs) => {
            assert(decreases_to!(v => vs));
            assert(decreases_to!(vs => vs@));
        },
        Value::Struct(fs) => {
            assert(decreases_to!(v => fs));
            assert(decreases_to!(fs => fs@));
        },
        Value::Mapping(es) => {
            assert(decreases_to!(v => es));
            assert(decreases_to!(es => es@));
        },
        _ => {},
    }
}

#[via_fn]
proof fn values_view_decreases(s: Seq<Value>) {
    if s.len() > 0 {
        lemma_seq_parts_decrease::<Value>(s);
    }
}

#[via_fn]
proof fn fields_view_decreases(s: Seq<FieldValue>) {
    if s.len() > 0 {
        lemma_seq_parts_decrease::<FieldValue>(s);
        assert(decreases_to!(s.last() => s.last().value));
    }
}

#[via_fn]
proof fn entries_view_decreases(s: Seq<MapEntry>) {
    if s.len() > 0 {
        lemma_seq_parts_decrease::<MapEntry>(s);
        assert(decreases_to!(s.last() => s.last().key));
        assert(decreases_to!(s.last() => s.last().value));
    }
}

/// A non-empty sequence sits above both its last element and the rest.
proof fn lemma_seq_parts_decrease<A>(s: Seq<A>)
    requires
        s.len() > 0,
    ensures
        decreases_to!(s => s.last()),
        decreases_to!(s => s.drop_last()),
{
    assert(decreases_to!(s => s[s.len() - 1]));
    assert(decreases_to!(s => s.subrange(0, s.len() - 1)));
    assert(s.subrange(0, s.len() - 1) =~= s.drop_last());
}

/// The view of a sequence of values, element by element.
pub proof fn lemma_values_view(s: Seq<Value>)
    ensures
        values_view(s).len() == s.len(),
        forall|i: int| 0 <= i < s.len() ==> #[trigger] values_view(s)[i] == value_view(s[i]),
    decreases s.len(),
{
    if s.len() > 0 {
        lemma_values_view(s.drop_last());
    }
}

/// The view of a sequence of struct fields, element by element.
pub proof fn lemma_fields_view(s: Seq<FieldValue>)
    ensures
        fields_view(s).len() == s.len(),
        forall|i: int| 0 <= i < s.len() ==> #[trigger] fields_view(s)[i] == (FieldValueV {
            field_id: s[i].field_id as int,
            name: s[i].name@,
            value: value_view(s[i].value),
        }),
    decreases s.len(),
{
    if s.len() > 0 {
        lemma_fields_view(s.drop_last());
    }
}

/// The view of a sequence of map entries, element by element.
pub proof fn lemma_entries_view(s: Seq<MapEntry>)
    ensures
        entries_view(s).len() == s.len(),
        forall|i: int| 0 <= i < s.len() ==> #[trigger] entries_view(s)[i] == (MapEntryV {
            key: value_view(s[i].key),
            value: value_view(s[i].value),
        }),
    decreases s.len(),
{
    if s.len() > 0 {
        lemma_entries_view(s.drop_last());
    }
}

impl View for Value {
    type V = ValueV;

    open spec fn view(&self) -> ValueV {
        value_view(*self)
    }
}

impl View for FieldValue {
    type V = FieldValueV;

    open spec fn view(&self) -> FieldValueV {
        FieldValueV { field_id: self.field_id as int, name: self.name@, value: self.value@ }
    }
}

impl View for MapEntry {
    type V = MapEntryV;

    open spec fn view(&self) -> MapEntryV {
        MapEntryV { key: self.key@, value: self.value@ }
    }
}

impl Value {
    /// Looks a field of a decoded struct up by its wire field id.  A field
    /// that the stream omitted is absent, and the caller supplies its own
    /// default — the zero-value convention.
    pub fn struct_field(&self, field_id: usize) -> (r: Option<&Value>)
        ensures
            match r {
                Some(v) => self@ is Struct && exists|i: int|
                    0 <= i < self@->Struct_0.len() && #[trigger] self@->Struct_0[i]
                        == (FieldValueV {
                        field_id: field_id as int,
                        name: self@->Struct_0[i].name,
                        value: v@,
                    }),
                None => self@ is Struct ==> forall|i: int|
                    0 <= i < self@->Struct_0.len()
                        ==> #[trigger] self@->Struct_0[i].field_id != field_id as int,
            },
    {
        match self {
            Value::Struct(fs) => {
                proof {
                    lemma_fields_view(fs@);
                }
                let n = fs.len();
                let mut j: usize = 0;
                while j < n
                    invariant
                        n == fs@.len(),
                        0 <= j <= n,
                        self@ is Struct,
                        self@->Struct_0 == fields_view(fs@),
                        fields_view(fs@).len() == n,
                        forall|i: int|
                            0 <= i < n ==> #[trigger] fields_view(fs@)[i] == (FieldValueV {
                                field_id: fs@[i].field_id as int,
                                name: fs@[i].name@,
                                value: value_view(fs@[i].value),
                            }),
                        forall|i: int|
                            0 <= i < j ==> #[trigger] fields_view(fs@)[i].field_id != field_id as int,
                    decreases n - j,
                {
                    if fs[j].field_id == field_id {
                        proof {
                            let k = j as int;
                            assert(self@->Struct_0[k] == (FieldValueV {
                                field_id: field_id as int,
                                name: self@->Struct_0[k].name,
                                value: value_view(fs@[k].value),
                            }));
                        }
                        return Some(&fs[j].value);
                    }
                    j = j + 1;
                }
                None
            },
            _ => None,
        }
    }
}

} // verus!
