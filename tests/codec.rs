use akasha::value::{DataType, Date, DateTime, Tuple, Value};

fn round_trip(values: Vec<Value>) -> Vec<Value> {
    let t = Tuple(values);
    let bytes = t.to_bytes();
    Tuple::from_bytes(&bytes).expect("decodes").0
}

fn same(a: &Value, b: &Value) -> bool {
    a.compare(b) == 0 && a.id() == b.id()
}

#[test]
fn every_kind_round_trips() {
    let date = Date::new(2024, 2, 29).expect("leap day exists");
    let instant = DateTime::new(1_700_000_000, 123_456_789).expect("valid instant");
    let values = vec![
        Value::Null,
        Value::Int(-42),
        Value::Long(i64::MIN + 7),
        Value::Float(1.5f32.to_bits()),
        Value::Double((-2.25f64).to_bits()),
        Value::Text("héllo wörld".to_string()),
        Value::Boolean(true),
        Value::Boolean(false),
        Value::Date(date),
        Value::DateTime(instant),
        Value::Blob(vec![0, 1, 2, 255]),
        Value::Byte(0xAB),
    ];
    let back = round_trip(values.clone());
    assert_eq!(back.len(), values.len());
    for (a, b) in values.iter().zip(back.iter()) {
        assert!(same(a, b), "{:?} != {:?}", a, b);
    }
}

#[test]
fn mixed_tuple_round_trips_in_order() {
    let values = vec![Value::Text("Alice".to_string()), Value::Int(30), Value::Null, Value::Byte(5)];
    let back = round_trip(values.clone());
    assert_eq!(back.len(), 4);
    assert!(matches!(&back[0], Value::Text(s) if s == "Alice"));
    assert!(matches!(back[1], Value::Int(30)));
    assert!(matches!(back[2], Value::Null));
    assert!(matches!(back[3], Value::Byte(5)));
}

#[test]
fn empty_tuple_encodes_to_nothing() {
    let t = Tuple(vec![]);
    assert!(t.to_bytes().is_empty());
    assert_eq!(Tuple::from_bytes(&vec![]).expect("empty decodes").0.len(), 0);
}

#[test]
fn encodings_are_tag_prefixed_little_endian() {
    assert_eq!(Tuple(vec![Value::Null]).to_bytes(), vec![0x00]);
    assert_eq!(Tuple(vec![Value::Int(0x0102_0304)]).to_bytes(), vec![0x01, 0x04, 0x03, 0x02, 0x01]);
    assert_eq!(
        Tuple(vec![Value::Long(-2)]).to_bytes(),
        vec![0x02, 0xFE, 0xFF, 0xFF, 0xFF, 0xFF, 0xFF, 0xFF, 0xFF]
    );
    assert_eq!(Tuple(vec![Value::Text("ab".to_string())]).to_bytes(), vec![0x05, 2, 0, b'a', b'b']);
    assert_eq!(Tuple(vec![Value::Boolean(true)]).to_bytes(), vec![0x06, 1]);
    let d = Date::new(2000, 12, 31).unwrap();
    assert_eq!(Tuple(vec![Value::Date(d)]).to_bytes(), vec![0x07, 0xD0, 0x07, 0, 0, 12, 0, 31, 0]);
    let t = DateTime::new(1, 2).unwrap();
    assert_eq!(Tuple(vec![Value::DateTime(t)]).to_bytes(), vec![0x08, 1, 0, 0, 0, 0, 0, 0, 0, 2, 0, 0, 0]);
    assert_eq!(Tuple(vec![Value::Blob(vec![9, 8])]).to_bytes(), vec![0x09, 2, 0, 9, 8]);
    assert_eq!(Tuple(vec![Value::Byte(7)]).to_bytes(), vec![0x0A, 7]);
}

#[test]
fn sizes_match_encodings() {
    let values = vec![
        Value::Null,
        Value::Int(1),
        Value::Long(1),
        Value::Float(0),
        Value::Double(0),
        Value::Text("xyz".to_string()),
        Value::Boolean(true),
        Value::Blob(vec![1, 2, 3, 4]),
        Value::Byte(1),
    ];
    let expected = [1usize, 5, 9, 5, 9, 6, 2, 7, 2];
    for (v, n) in values.iter().zip(expected.iter()) {
        assert_eq!(v.get_size(), *n);
        assert_eq!(Tuple(vec![v.clone()]).to_bytes().len(), *n);
    }
}

#[test]
fn malformed_bytes_do_not_decode() {
    assert!(Tuple::from_bytes(&vec![0x0B]).is_none());
    assert!(Tuple::from_bytes(&vec![0x01, 1, 2]).is_none());
    assert!(Tuple::from_bytes(&vec![0x05, 5, 0, b'a']).is_none());
    assert!(Tuple::from_bytes(&vec![0x07, 0xD0, 0x07, 0, 0, 2, 0, 30, 0]).is_none());
}

#[test]
fn invalid_utf8_text_decodes_lossily() {
    let t = Tuple::from_bytes(&vec![0x05, 1, 0, 0xFF]).expect("decodes");
    assert_eq!(t.0.len(), 1);
    assert!(matches!(&t.0[0], Value::Text(s) if s == "\u{FFFD}"));
    let (v, size) = Value::read_from_bytes(&vec![0x05, 2, 0, b'o', 0xFE, 0x00], 0, 6).unwrap();
    assert_eq!(size, 5);
    assert!(matches!(v, Value::Text(s) if s == "o\u{FFFD}"));
}

#[test]
fn chrono_decides_dates_and_instants() {
    assert!(Date::new(2015, 3, 14).is_some());
    assert!(Date::new(2015, 2, 29).is_none());
    assert!(Date::new(2015, 0, 14).is_none());
    assert!(Date::new(-4, 2, 29).is_some());
    assert!(DateTime::new(0, 0).is_some());
    assert!(DateTime::new(i64::MAX, 0).is_none());
    assert!(DateTime::new(0, 2_000_000_000).is_none());
}

#[test]
fn data_type_ids_round_trip() {
    for id in 0u8..=10 {
        assert_eq!(DataType::from_id(id).expect("known id").id(), id);
    }
    assert!(DataType::from_id(11).is_none());
    assert_eq!(DataType::Text.id(), 0x05);
}

#[test]
fn values_are_totally_ordered() {
    assert_eq!(Value::Int(1).compare(&Value::Int(2)), -1);
    assert_eq!(Value::Int(2).compare(&Value::Int(2)), 0);
    assert_eq!(Value::Null.compare(&Value::Int(-5)), -1);
    assert_eq!(Value::Int(5).compare(&Value::Long(1)), -1);
    assert_eq!(Value::Text("abc".into()).compare(&Value::Text("abd".into())), -1);
    assert_eq!(Value::Text("ab".into()).compare(&Value::Text("a".into())), 1);
    assert_eq!(Value::Double((-1.0f64).to_bits()).compare(&Value::Double(0.5f64.to_bits())), -1);
    assert_eq!(Value::Float(2.0f32.to_bits()).compare(&Value::Float(1.0f32.to_bits())), 1);
    let d1 = Date::new(2020, 1, 31).unwrap();
    let d2 = Date::new(2020, 2, 1).unwrap();
    assert_eq!(Value::Date(d1).compare(&Value::Date(d2)), -1);
}

#[test]
fn accessors_pick_their_kind() {
    assert_eq!(Value::Text("x".into()).as_string(), Some("x".to_string()));
    assert_eq!(Value::Int(3).as_string(), None);
    assert_eq!(Value::Int(3).as_int(), Some(3));
    assert_eq!(Value::Boolean(true).as_boolean(), Some(true));
    assert_eq!(Value::Byte(9).as_byte(), Some(9));
    assert_eq!(Value::Null.as_byte(), None);
}
