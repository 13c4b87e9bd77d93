//! Whole streams: type definitions followed by values, against
//! hand-assembled wire bytes.

use gob::errors::Error;
use gob::value::Value;
use gob::Deserializer;

/// Encodes an unsigned variable-length integer the canonical way.
fn uv(u: u64) -> Vec<u8> {
    if u < 128 {
        return vec![u as u8];
    }
    let mut b: Vec<u8> = u.to_be_bytes().to_vec();
    while b.len() > 1 && b[0] == 0 {
        b.remove(0);
    }
    let mut out = vec![(256 - b.len()) as u8];
    out.extend_from_slice(&b);
    out
}

/// Encodes a signed variable-length integer the canonical way.
fn vi(i: i64) -> Vec<u8> {
    let x = if i < 0 { (((!i) as u64) << 1) | 1 } else { (i as u64) << 1 };
    uv(x)
}

/// Encodes a length-prefixed byte string.
fn bstr(s: &[u8]) -> Vec<u8> {
    let mut v = uv(s.len() as u64);
    v.extend_from_slice(s);
    v
}

/// Encodes a struct value as its field-delta sequence.
fn fdelta(fields: &[(u64, Vec<u8>)]) -> Vec<u8> {
    let mut out = Vec::new();
    let mut cur: i64 = -1;
    for (fid, payload) in fields {
        out.extend(uv((*fid as i64 - cur) as u64));
        cur = *fid as i64;
        out.extend_from_slice(payload);
    }
    out.extend(uv(0));
    out
}

/// Frames one message: byte count, then the leading type id and payload.
fn msg(type_id: i64, payload: &[u8]) -> Vec<u8> {
    let mut body = vi(type_id);
    body.extend_from_slice(payload);
    let mut out = uv(body.len() as u64);
    out.extend(body);
    out
}

/// Encodes a `CommonType` value.
fn common(name: &[u8], id: i64) -> Vec<u8> {
    fdelta(&[(0, bstr(name)), (1, vi(id))])
}

/// Encodes the definition message of a struct type.
fn struct_def(id: i64, name: &[u8], fields: &[(&[u8], i64)]) -> Vec<u8> {
    let mut slice = uv(fields.len() as u64);
    for (fname, ftype) in fields {
        slice.extend(fdelta(&[(0, bstr(fname)), (1, vi(*ftype))]));
    }
    let struct_type = fdelta(&[(0, common(name, id)), (1, slice)]);
    let wire_type = fdelta(&[(2, struct_type)]);
    msg(-id, &wire_type)
}

/// Encodes the definition message of a slice type.
fn slice_def(id: i64, name: &[u8], elem: i64) -> Vec<u8> {
    let slice_type = fdelta(&[(0, common(name, id)), (1, vi(elem))]);
    let wire_type = fdelta(&[(1, slice_type)]);
    msg(-id, &wire_type)
}

/// Encodes the definition message of an array type.
fn array_def(id: i64, name: &[u8], elem: i64, len: i64) -> Vec<u8> {
    let array_type = fdelta(&[(0, common(name, id)), (1, vi(elem)), (2, vi(len))]);
    let wire_type = fdelta(&[(0, array_type)]);
    msg(-id, &wire_type)
}

/// Encodes the definition message of a map type.
fn map_def(id: i64, name: &[u8], key: i64, elem: i64) -> Vec<u8> {
    let map_type = fdelta(&[(0, common(name, id)), (1, vi(key)), (2, vi(elem))]);
    let wire_type = fdelta(&[(3, map_type)]);
    msg(-id, &wire_type)
}

fn expect_struct(v: &Value) -> &Vec<gob::value::FieldValue> {
    match v {
        Value::Struct(fs) => fs,
        other => panic!("expected a struct value, got {:?}", other),
    }
}

#[test]
fn bool_field_in_one_field_struct() {
    // a definition for {V: bool} under id 65, then the value {V: true}
    let mut input = struct_def(65, b"Value", &[(b"V", 1)]);
    input.extend(msg(65, &fdelta(&[(0, uv(1))])));
    let mut de = Deserializer::new(input);
    let v = de.decode().unwrap();
    let fs = expect_struct(&v);
    assert_eq!(fs.len(), 1);
    assert_eq!(fs[0].field_id, 0);
    assert_eq!(fs[0].name, b"V".to_vec());
    assert!(matches!(fs[0].value, Value::Bool(true)));
}

#[test]
fn uint64_max_field() {
    let mut input = struct_def(65, b"Value", &[(b"V", 3)]);
    input.extend(msg(65, &fdelta(&[(0, uv(u64::MAX))])));
    let mut de = Deserializer::new(input);
    let v = de.decode().unwrap();
    let fs = expect_struct(&v);
    assert!(matches!(fs[0].value, Value::Uint(18446744073709551615)));
}

#[test]
fn string_field() {
    let mut input = struct_def(65, b"Value", &[(b"V", 6)]);
    input.extend(msg(65, &fdelta(&[(0, bstr(b"hello world"))])));
    let mut de = Deserializer::new(input);
    let v = de.decode().unwrap();
    let fs = expect_struct(&v);
    match &fs[0].value {
        Value::Bytes(b) => {
            assert_eq!(b.len(), 11);
            assert_eq!(b, &b"hello world".to_vec());
        },
        other => panic!("expected bytes, got {:?}", other),
    }
}

#[test]
fn float_field_is_bit_exact() {
    let bits: u64 = 0x400921FB54442D18;
    let mut input = struct_def(65, b"Value", &[(b"V", 4)]);
    input.extend(msg(65, &fdelta(&[(0, uv(bits.swap_bytes()))])));
    let mut de = Deserializer::new(input);
    let v = de.decode().unwrap();
    let fs = expect_struct(&v);
    match fs[0].value {
        Value::Float(b) => assert_eq!(b, bits),
        ref other => panic!("expected a float, got {:?}", other),
    }
}

#[test]
fn nested_struct() {
    // Point = {X int, Y int} under id 66; outer = {Inner: Point} under 65
    let mut input = struct_def(66, b"Point", &[(b"X", 2), (b"Y", 2)]);
    input.extend(struct_def(65, b"Outer", &[(b"Inner", 66)]));
    input.extend(msg(65, &fdelta(&[(0, fdelta(&[(0, vi(3)), (1, vi(4))]))])));
    let mut de = Deserializer::new(input);
    let v = de.decode().unwrap();
    let outer = expect_struct(&v);
    assert_eq!(outer[0].name, b"Inner".to_vec());
    let inner = expect_struct(&outer[0].value);
    assert_eq!(inner.len(), 2);
    assert_eq!(inner[0].name, b"X".to_vec());
    assert!(matches!(inner[0].value, Value::Int(3)));
    assert_eq!(inner[1].name, b"Y".to_vec());
    assert!(matches!(inner[1].value, Value::Int(4)));
}

#[test]
fn redefinition_is_rejected() {
    let mut input = struct_def(65, b"Value", &[(b"V", 1)]);
    input.extend(struct_def(65, b"Value", &[(b"V", 1)]));
    input.extend(msg(65, &fdelta(&[(0, uv(1))])));
    let mut de = Deserializer::new(input);
    assert!(matches!(de.decode(), Err(Error::TypeAlreadyDefined(65))));
}

#[test]
fn ambiguous_definition_is_rejected() {
    // both ArrayT and SliceT present in one definition
    let array_type = fdelta(&[(0, common(b"Bad", 65)), (1, vi(1)), (2, vi(2))]);
    let slice_type = fdelta(&[(0, common(b"Bad", 65)), (1, vi(1))]);
    let wire_type = fdelta(&[(0, array_type), (1, slice_type)]);
    let input = msg(-65, &wire_type);
    let mut de = Deserializer::new(input);
    assert!(matches!(de.decode(), Err(Error::AmbiguousWireType)));
}

#[test]
fn undefined_type_is_rejected() {
    let input = msg(65, &fdelta(&[(0, uv(1))]));
    let mut de = Deserializer::new(input);
    assert!(matches!(de.decode(), Err(Error::UndefinedType(65))));
}

#[test]
fn defining_a_builtin_is_rejected() {
    let struct_type = fdelta(&[(0, common(b"Bad", 5)), (1, uv(0))]);
    let wire_type = fdelta(&[(2, struct_type)]);
    let input = msg(-5, &wire_type);
    let mut de = Deserializer::new(input);
    assert!(matches!(de.decode(), Err(Error::DefiningBuiltin(5))));
}

#[test]
fn definition_id_mismatch_is_rejected() {
    // the message announces 65, the descriptor carries 66
    let struct_type = fdelta(&[(0, common(b"Bad", 66)), (1, uv(0))]);
    let wire_type = fdelta(&[(2, struct_type)]);
    let input = msg(-65, &wire_type);
    let mut de = Deserializer::new(input);
    assert!(matches!(de.decode(), Err(Error::DefiningIdMismatch(65, 66))));
}

#[test]
fn field_id_out_of_range_is_rejected() {
    let mut input = struct_def(65, b"Value", &[(b"V", 1)]);
    // delta 3 from the start index names field 2 of a one-field struct
    input.extend(msg(65, &{
        let mut p = uv(3);
        p.extend(uv(1));
        p.extend(uv(0));
        p
    }));
    let mut de = Deserializer::new(input);
    assert!(matches!(de.decode(), Err(Error::InvalidField)));
}

#[test]
fn interface_value_is_unsupported() {
    let input = msg(8, &uv(0));
    let mut de = Deserializer::new(input);
    assert!(matches!(de.decode(), Err(Error::DecodingUnsupported(8))));
}

#[test]
fn top_level_byte_slice() {
    let input = msg(5, &bstr(b"abc"));
    let mut de = Deserializer::new(input);
    match de.decode().unwrap() {
        Value::Bytes(b) => assert_eq!(b, b"abc".to_vec()),
        other => panic!("expected bytes, got {:?}", other),
    }
}

#[test]
fn top_level_complex() {
    let re = 1.0f64.to_bits();
    let im = 2.0f64.to_bits();
    let mut payload = uv(re.swap_bytes());
    payload.extend(uv(im.swap_bytes()));
    let input = msg(7, &payload);
    let mut de = Deserializer::new(input);
    match de.decode().unwrap() {
        Value::Complex(a, b) => {
            assert_eq!(f64::from_bits(a), 1.0);
            assert_eq!(f64::from_bits(b), 2.0);
        },
        other => panic!("expected a complex value, got {:?}", other),
    }
}

#[test]
fn slice_of_uints() {
    let mut input = slice_def(65, b"Uints", 3);
    let mut payload = uv(3);
    payload.extend(uv(1));
    payload.extend(uv(2));
    payload.extend(uv(3));
    input.extend(msg(65, &payload));
    let mut de = Deserializer::new(input);
    match de.decode().unwrap() {
        Value::Slice(vs) => {
            assert_eq!(vs.len(), 3);
            assert!(matches!(vs[0], Value::Uint(1)));
            assert!(matches!(vs[1], Value::Uint(2)));
            assert!(matches!(vs[2], Value::Uint(3)));
        },
        other => panic!("expected a slice, got {:?}", other),
    }
}

#[test]
fn array_of_uints() {
    let mut input = array_def(65, b"Pair", 3, 2);
    let mut payload = uv(2);
    payload.extend(uv(7));
    payload.extend(uv(9));
    input.extend(msg(65, &payload));
    let mut de = Deserializer::new(input);
    match de.decode().unwrap() {
        Value::Slice(vs) => {
            assert_eq!(vs.len(), 2);
            assert!(matches!(vs[0], Value::Uint(7)));
            assert!(matches!(vs[1], Value::Uint(9)));
        },
        other => panic!("expected a sequence, got {:?}", other),
    }
}

#[test]
fn map_of_int_to_string() {
    let mut input = map_def(65, b"Names", 2, 6);
    let mut payload = uv(1);
    payload.extend(vi(5));
    payload.extend(bstr(b"five"));
    input.extend(msg(65, &payload));
    let mut de = Deserializer::new(input);
    match de.decode().unwrap() {
        Value::Mapping(es) => {
            assert_eq!(es.len(), 1);
            assert!(matches!(es[0].key, Value::Int(5)));
            match &es[0].value {
                Value::Bytes(b) => assert_eq!(b, &b"five".to_vec()),
                other => panic!("expected bytes, got {:?}", other),
            }
        },
        other => panic!("expected a map, got {:?}", other),
    }
}

#[test]
fn omitted_field_stays_absent() {
    // the value message mentions no field, so the decoded struct is empty
    // and the binding layer falls back to its zero value
    let mut input = struct_def(65, b"Value", &[(b"V", 1)]);
    input.extend(msg(65, &uv(0)));
    let mut de = Deserializer::new(input);
    let v = de.decode().unwrap();
    let fs = expect_struct(&v);
    assert_eq!(fs.len(), 0);
    let default_v = match v.struct_field(0) {
        Some(inner) => matches!(inner, Value::Bool(true)),
        None => false,
    };
    assert_eq!(default_v, false);
}

#[test]
fn struct_field_finds_present_fields() {
    let mut input = struct_def(65, b"Point", &[(b"X", 2), (b"Y", 2)]);
    input.extend(msg(65, &fdelta(&[(0, vi(3)), (1, vi(4))])));
    let mut de = Deserializer::new(input);
    let v = de.decode().unwrap();
    assert!(matches!(v.struct_field(0), Some(Value::Int(3))));
    assert!(matches!(v.struct_field(1), Some(Value::Int(4))));
    assert!(v.struct_field(2).is_none());
}

#[test]
fn field_ids_strictly_increase() {
    let mut input = struct_def(65, b"Triple", &[(b"A", 2), (b"B", 2), (b"C", 2)]);
    // fields 0 and 2, skipping 1
    input.extend(msg(65, &fdelta(&[(0, vi(10)), (2, vi(30))])));
    let mut de = Deserializer::new(input);
    let v = de.decode().unwrap();
    let fs = expect_struct(&v);
    assert_eq!(fs.len(), 2);
    assert!(fs[0].field_id < fs[1].field_id);
    assert_eq!(fs[0].field_id, 0);
    assert_eq!(fs[1].field_id, 2);
    assert_eq!(fs[1].name, b"C".to_vec());
}

#[test]
fn dictionary_persists_across_values() {
    let mut input = struct_def(65, b"Value", &[(b"V", 1)]);
    input.extend(msg(65, &fdelta(&[(0, uv(1))])));
    input.extend(msg(65, &fdelta(&[(0, uv(0))])));
    let mut de = Deserializer::new(input);
    let first = de.decode().unwrap();
    assert!(matches!(expect_struct(&first)[0].value, Value::Bool(true)));
    let second = de.decode().unwrap();
    assert!(matches!(expect_struct(&second)[0].value, Value::Bool(false)));
}

#[test]
fn message_byte_count_is_not_used_for_framing() {
    // a wrong byte count does not disturb the decode
    let mut body = vi(5);
    body.extend(bstr(b"xy"));
    let mut input = uv(99);
    input.extend(body);
    let mut de = Deserializer::new(input);
    match de.decode().unwrap() {
        Value::Bytes(b) => assert_eq!(b, b"xy".to_vec()),
        other => panic!("expected bytes, got {:?}", other),
    }
}

#[test]
fn truncated_struct_is_eof() {
    let mut input = struct_def(65, b"Value", &[(b"V", 6)]);
    // delta announces field 0, then the stream ends
    input.extend(msg(65, &uv(1)));
    let mut de = Deserializer::new(input);
    assert!(matches!(de.decode(), Err(Error::UnexpectedEof)));
}

#[test]
fn field_of_undefined_type_is_rejected() {
    // the field names type 77, which the stream never defines
    let mut input = struct_def(65, b"Value", &[(b"V", 77)]);
    input.extend(msg(65, &fdelta(&[(0, uv(1))])));
    let mut de = Deserializer::new(input);
    assert!(matches!(de.decode(), Err(Error::UndefinedType(77))));
}

#[test]
fn slice_of_structs() {
    // Point = {X int, Y int} under 66; Points = []Point under 65
    let mut input = struct_def(66, b"Point", &[(b"X", 2), (b"Y", 2)]);
    input.extend(slice_def(65, b"Points", 66));
    let mut payload = uv(2);
    payload.extend(fdelta(&[(0, vi(1)), (1, vi(2))]));
    payload.extend(fdelta(&[(0, vi(3)), (1, vi(4))]));
    input.extend(msg(65, &payload));
    let mut de = Deserializer::new(input);
    match de.decode().unwrap() {
        Value::Slice(vs) => {
            assert_eq!(vs.len(), 2);
            let p0 = expect_struct(&vs[0]);
            assert!(matches!(p0[0].value, Value::Int(1)));
            assert!(matches!(p0[1].value, Value::Int(2)));
            let p1 = expect_struct(&vs[1]);
            assert!(matches!(p1[0].value, Value::Int(3)));
            assert!(matches!(p1[1].value, Value::Int(4)));
        },
        other => panic!("expected a slice, got {:?}", other),
    }
}

#[test]
fn struct_with_mixed_fields() {
    let mut input = struct_def(
        65,
        b"Mixed",
        &[(b"B", 1), (b"I", 2), (b"U", 3), (b"F", 4), (b"S", 6)],
    );
    let bits = (-2.5f64).to_bits();
    input.extend(msg(
        65,
        &fdelta(&[
            (0, uv(1)),
            (1, vi(-7)),
            (2, uv(7)),
            (3, uv(bits.swap_bytes())),
            (4, bstr(b"mixed")),
        ]),
    ));
    let mut de = Deserializer::new(input);
    let v = de.decode().unwrap();
    let fs = expect_struct(&v);
    assert_eq!(fs.len(), 5);
    assert!(matches!(fs[0].value, Value::Bool(true)));
    assert!(matches!(fs[1].value, Value::Int(-7)));
    assert!(matches!(fs[2].value, Value::Uint(7)));
    match fs[3].value {
        Value::Float(b) => assert_eq!(f64::from_bits(b), -2.5),
        ref other => panic!("expected a float, got {:?}", other),
    }
    match &fs[4].value {
        Value::Bytes(b) => assert_eq!(b, &b"mixed".to_vec()),
        other => panic!("expected bytes, got {:?}", other),
    }
}
