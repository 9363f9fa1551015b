use prisma_value::value::{CanonicalValue, ConvertError, DateTimeValue, PrismaValue};

#[test]
fn string_round_trips() {
    let v = PrismaValue::String("hello".to_string());
    let c = v.into_canonical().unwrap();
    assert_eq!(c, CanonicalValue::String("hello".to_string()));
    let v2 = PrismaValue::from_canonical(&c).unwrap();
    assert_eq!(v2, PrismaValue::String("hello".to_string()));
}

#[test]
fn boolean_and_null_round_trip() {
    let c = PrismaValue::Boolean(true).into_canonical().unwrap();
    assert_eq!(c, CanonicalValue::Boolean(true));
    assert_eq!(
        PrismaValue::from_canonical(&c).unwrap(),
        PrismaValue::Boolean(true)
    );

    let c = PrismaValue::Null.into_canonical().unwrap();
    assert_eq!(c, CanonicalValue::Null);
    assert_eq!(PrismaValue::from_canonical(&c).unwrap(), PrismaValue::Null);
}

#[test]
fn enum_and_xml_round_trip() {
    let c = PrismaValue::Enum("Red".to_string()).into_canonical().unwrap();
    assert_eq!(c, CanonicalValue::Enum("Red".to_string()));
    assert_eq!(
        PrismaValue::from_canonical(&c).unwrap(),
        PrismaValue::Enum("Red".to_string())
    );

    let c = PrismaValue::Xml("<a/>".to_string()).into_canonical().unwrap();
    assert_eq!(c, CanonicalValue::Xml("<a/>".to_string()));
    assert_eq!(
        PrismaValue::from_canonical(&c).unwrap(),
        PrismaValue::Xml("<a/>".to_string())
    );
}

#[test]
fn int_widens_losslessly_and_round_trips() {
    let c = PrismaValue::Int(-42).into_canonical().unwrap();
    assert_eq!(c, CanonicalValue::Int(-42));
    assert_eq!(PrismaValue::from_canonical(&c).unwrap(), PrismaValue::Int(-42));

    let c = PrismaValue::Int(i32::MIN).into_canonical().unwrap();
    assert_eq!(c, CanonicalValue::Int(-2_147_483_648));
    assert_eq!(
        PrismaValue::from_canonical(&c).unwrap(),
        PrismaValue::Int(i32::MIN)
    );
}

#[test]
fn int_narrowing_truncates() {
    // 9_000_000_000_000 mod 2^32 = 2_043_514_880, which fits in 31 bits, so
    // two's-complement truncation keeps exactly that value.
    let c = CanonicalValue::Int(9_000_000_000_000);
    assert_eq!(
        PrismaValue::from_canonical(&c).unwrap(),
        PrismaValue::Int(2_043_514_880)
    );
}

#[test]
fn uuid_bigint_bytes_round_trip() {
    let id: u128 = 0x0123_4567_89ab_cdef_0123_4567_89ab_cdef;
    let c = PrismaValue::Uuid(id).into_canonical().unwrap();
    assert_eq!(c, CanonicalValue::Uuid(id));
    assert_eq!(PrismaValue::from_canonical(&c).unwrap(), PrismaValue::Uuid(id));

    let c = PrismaValue::BigInt(-9_000_000_000_000).into_canonical().unwrap();
    assert_eq!(c, CanonicalValue::BigInt(-9_000_000_000_000));
    assert_eq!(
        PrismaValue::from_canonical(&c).unwrap(),
        PrismaValue::BigInt(-9_000_000_000_000)
    );

    let c = PrismaValue::Bytes(vec![0, 255, 7]).into_canonical().unwrap();
    assert_eq!(c, CanonicalValue::Bytes(vec![0, 255, 7]));
    assert_eq!(
        PrismaValue::from_canonical(&c).unwrap(),
        PrismaValue::Bytes(vec![0, 255, 7])
    );
}

#[test]
fn datetime_round_trips() {
    let dt = DateTimeValue {
        secs: 1_700_000_000,
        nanos: 123_456_789,
        offset_secs: 3_600,
    };
    let c = PrismaValue::DateTime(dt).into_canonical().unwrap();
    assert_eq!(c, CanonicalValue::DateTime(dt));
    assert_eq!(
        PrismaValue::from_canonical(&c).unwrap(),
        PrismaValue::DateTime(dt)
    );
}

#[test]
fn list_round_trips_recursively() {
    let v = PrismaValue::List(vec![
        PrismaValue::Int(1),
        PrismaValue::List(vec![PrismaValue::String("deep".to_string())]),
    ]);
    let c = v.into_canonical().unwrap();
    assert_eq!(
        c,
        CanonicalValue::List(vec![
            CanonicalValue::Int(1),
            CanonicalValue::List(vec![CanonicalValue::String("deep".to_string())]),
        ])
    );
    assert_eq!(
        PrismaValue::from_canonical(&c).unwrap(),
        PrismaValue::List(vec![
            PrismaValue::Int(1),
            PrismaValue::List(vec![PrismaValue::String("deep".to_string())]),
        ])
    );
}

#[test]
fn object_keeps_order_and_duplicates() {
    let v = PrismaValue::Object(vec![
        ("a".to_string(), PrismaValue::Int(1)),
        ("a".to_string(), PrismaValue::Int(2)),
    ]);
    let c = v.into_canonical().unwrap();
    assert_eq!(
        c,
        CanonicalValue::Object(vec![
            ("a".to_string(), CanonicalValue::Int(1)),
            ("a".to_string(), CanonicalValue::Int(2)),
        ])
    );
    assert_eq!(
        PrismaValue::from_canonical(&c).unwrap(),
        PrismaValue::Object(vec![
            ("a".to_string(), PrismaValue::Int(1)),
            ("a".to_string(), PrismaValue::Int(2)),
        ])
    );
}

#[test]
fn finite_float_round_trips_exactly() {
    for d in [1.5f64, 0.0f64, -2.0f64] {
        let v = PrismaValue::Float(d.to_bits());
        let c = v.into_canonical().unwrap();
        assert_eq!(c, CanonicalValue::Float(d.to_bits()));
        let v2 = PrismaValue::from_canonical(&c).unwrap();
        assert_eq!(v2, PrismaValue::Float(d.to_bits()));
        match v2 {
            PrismaValue::Float(bits) => assert_eq!(f64::from_bits(bits), d),
            other => panic!("expected a float, got {:?}", other),
        }
    }
}

#[test]
fn non_finite_float_is_rejected() {
    for d in [f64::NAN, f64::INFINITY, f64::NEG_INFINITY] {
        let v = PrismaValue::Float(d.to_bits());
        assert_eq!(v.into_canonical(), Err(ConvertError::NonFiniteFloat));
    }
}

#[test]
fn non_finite_float_inside_object_is_rejected() {
    let v = PrismaValue::Object(vec![(
        "x".to_string(),
        PrismaValue::Float(f64::NAN.to_bits()),
    )]);
    assert_eq!(v.into_canonical(), Err(ConvertError::NonFiniteFloat));
}

#[test]
fn malformed_json_is_a_fault() {
    let c = CanonicalValue::Json("{invalid".to_string());
    assert_eq!(
        PrismaValue::from_canonical(&c),
        Err(ConvertError::InvalidJsonText)
    );
}

#[test]
fn malformed_json_inside_list_is_a_fault() {
    let c = CanonicalValue::List(vec![
        CanonicalValue::Int(1),
        CanonicalValue::Json("{nope".to_string()),
    ]);
    assert_eq!(
        PrismaValue::from_canonical(&c),
        Err(ConvertError::InvalidJsonText)
    );
}

#[test]
fn json_text_parses_into_the_document() {
    let c = CanonicalValue::Json("{\"a\": 1}".to_string());
    let v = PrismaValue::from_canonical(&c).unwrap();
    let expected: serde_json::Value = serde_json::from_str("{\"a\": 1}").unwrap();
    assert_eq!(v, PrismaValue::Json(expected));
}

#[test]
fn json_round_trips_through_canonical() {
    let doc: serde_json::Value = serde_json::from_str("{\"a\": [1, 2], \"b\": null}").unwrap();
    let c = PrismaValue::Json(doc.clone()).into_canonical().unwrap();
    let v2 = PrismaValue::from_canonical(&c).unwrap();
    assert_eq!(v2, PrismaValue::Json(doc));
}

#[test]
fn json_document_serializes_to_equivalent_text() {
    let doc: serde_json::Value = serde_json::from_str("[1, {\"b\": null}, 3]").unwrap();
    let c = PrismaValue::Json(doc.clone()).into_canonical().unwrap();
    match c {
        CanonicalValue::Json(text) => {
            let back: serde_json::Value = serde_json::from_str(&text).unwrap();
            assert_eq!(back, doc);
        }
        other => panic!("expected canonical Json, got {:?}", other),
    }
}
