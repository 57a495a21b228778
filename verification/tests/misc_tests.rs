use rust_in_action::float_bits::to_parts;
use rust_in_action::simple_hash::{initialise_simple_hash, JsonValue};

#[test]
fn parts_of_42_42() {
    let bits = 42.42_f32.to_bits();
    let (sign, exponent, fraction) = to_parts(bits);
    assert_eq!(sign, 0);
    assert_eq!(exponent, 132);
    assert_eq!(fraction, 0x29AE14);
    assert_eq!((sign << 31) | (exponent << 23) | fraction, bits);
}

#[test]
fn parts_of_negative_one() {
    assert_eq!(to_parts((-1.0_f32).to_bits()), (1, 127, 0));
}

#[test]
fn flattens_string_object() {
    let json = JsonValue::Object(vec![
        ("beep".to_string(), JsonValue::String("boop".to_string())),
        ("fleep".to_string(), JsonValue::String("floop".to_string())),
        ("foo".to_string(), JsonValue::String("bar".to_string())),
    ]);
    let pairs = initialise_simple_hash(json).unwrap();
    assert_eq!(
        pairs,
        vec![
            ("beep".to_string(), "boop".to_string()),
            ("fleep".to_string(), "floop".to_string()),
            ("foo".to_string(), "bar".to_string()),
        ]
    );
}

#[test]
fn non_object_flattens_to_nothing() {
    assert!(initialise_simple_hash(JsonValue::Null).unwrap().is_empty());
    assert!(initialise_simple_hash(JsonValue::Array(vec![JsonValue::Bool(true)])).unwrap().is_empty());
}
