use asez2_shared_db::date_time::{AsezDate, AsezTimestamp};
use asez2_shared_db::value::{quoted, single_value, two_values, AggrValue, AsezArray, IntWithOriginal, Value};

#[test]
fn value_texts() {
    assert_eq!(Value::Int(-42).to_text(), "-42");
    assert_eq!(Value::Bool(true).to_text(), "true");
    assert_eq!(Value::Null.to_text(), "null");
    assert_eq!(Value::Vec64(AsezArray(vec![1, 2, 3])).to_text(), "1,2,3");
    assert_eq!(Value::Vec16(AsezArray(vec![1, 2])).display_text(), "AsezArray([1, 2])");
    let d = AsezDate::try_from_db_format("2024-03-05").unwrap();
    assert_eq!(Value::Date(d).to_text(), "05.03.2024");
    assert_eq!(Value::Date(d).display_text(), "2024-03-05");
    let iwo = IntWithOriginal { int: 12345, original: "123.45".to_string(), precision: 2 };
    assert_eq!(Value::IntWithOriginal(iwo.clone()).to_text(), "12345");
    assert_eq!(
        Value::IntWithOriginal(iwo).debug_text(),
        "IntWithOriginal(IntWithOriginal { int: 12345, original: 123.45, precision: 2 })"
    );
}

#[test]
fn value_debug_matches_derive_for_plain_variants() {
    for v in [
        Value::Int(7),
        Value::String("a\"b\\c\n".to_string()),
        Value::Bool(false),
        Value::Null,
        Value::Vec64(AsezArray(vec![1, -2])),
    ] {
        assert_eq!(v.debug_text(), format!("{:?}", v));
    }
    assert_eq!(quoted("a\"b"), "a\\\"b");
}

#[test]
fn value_from_text() {
    let t = Value::from_text("08.08.2025 11:14:02");
    assert_eq!(t, Value::Timestamp(AsezTimestamp::try_from_api_format("08.08.2025 11:14:02").unwrap()));
    let d = Value::from_text("05.03.2024");
    assert_eq!(d, Value::Date(AsezDate::try_from_api_format("05.03.2024").unwrap()));
    let u = Value::from_text("12345678-1234-1234-1234-123412341234");
    assert_eq!(u, Value::Uuid(0x12345678_1234_1234_1234_123412341234));
    assert_eq!(Value::Uuid(0x12345678_1234_1234_1234_123412341234).to_text(), "12345678-1234-1234-1234-123412341234");
    assert_eq!(
        Value::Uuid(0x12345678_1234_1234_1234_123412341234).debug_text(),
        "Uuid(12345678-1234-1234-1234-123412341234)"
    );
    assert_eq!(Value::from_text("plain"), Value::String("plain".to_string()));
}

#[test]
fn aggregated_values() {
    let vals = vec![Value::Null, Value::Int(1), Value::String("x".to_string()), Value::Int(3)];
    match AggrValue::build(&vals) {
        AggrValue::Int(v) => assert_eq!(v, vec![1, 3]),
        other => panic!("unexpected {:?}", other),
    }
    match AggrValue::build(&[Value::Null]) {
        AggrValue::Null => {},
        other => panic!("unexpected {:?}", other),
    }
    let arrays = vec![Value::Vec64(AsezArray(vec![1, 2])), Value::Vec64(AsezArray(vec![3]))];
    match AggrValue::build(&arrays) {
        AggrValue::Vec64(v) => assert_eq!(v, vec![1, 2, 3]),
        other => panic!("unexpected {:?}", other),
    }
}

#[test]
fn one_and_two_values() {
    assert_eq!(single_value(&[5]).unwrap(), &5);
    assert!(single_value::<i32>(&[]).is_err());
    assert!(single_value(&[1, 2]).is_err());
    assert_eq!(two_values(&[1, 2]).unwrap(), (&1, &2));
    assert!(two_values(&[1]).is_err());
    assert!(two_values(&[1, 2, 3]).is_err());
}

#[test]
fn uuid_from_value() {
    assert_eq!(Value::Uuid(7).try_uuid().unwrap(), 7);
    let err = Value::Int(7).try_uuid().unwrap_err();
    assert_eq!(err.message(), "Int(7) is not a valid Uuid");
}
