use witnet_rad::codec::{decode, encode};
use witnet_rad::types::RadonTypes;

#[test]
fn integers_use_the_shortest_head() {
    assert_eq!(encode(&RadonTypes::Integer(0)), Some(vec![0x00]));
    assert_eq!(encode(&RadonTypes::Integer(23)), Some(vec![0x17]));
    assert_eq!(encode(&RadonTypes::Integer(24)), Some(vec![0x18, 0x18]));
    assert_eq!(encode(&RadonTypes::Integer(500)), Some(vec![0x19, 0x01, 0xF4]));
    assert_eq!(encode(&RadonTypes::Integer(-1)), Some(vec![0x20]));
    assert_eq!(encode(&RadonTypes::Integer(-500)), Some(vec![0x39, 0x01, 0xF3]));
    assert_eq!(
        encode(&RadonTypes::Integer(1 << 40)),
        Some(vec![0x1B, 0, 0, 1, 0, 0, 0, 0, 0])
    );
    assert_eq!(encode(&RadonTypes::Integer(1 << 64)), None);
    assert_eq!(
        encode(&RadonTypes::Integer(-(1 << 64))),
        Some(vec![0x3B, 0xFF, 0xFF, 0xFF, 0xFF, 0xFF, 0xFF, 0xFF, 0xFF])
    );
}

#[test]
fn booleans_doubles_and_bytes() {
    assert_eq!(encode(&RadonTypes::Boolean(true)), Some(vec![0xF5]));
    assert_eq!(encode(&RadonTypes::Boolean(false)), Some(vec![0xF4]));
    assert_eq!(
        encode(&RadonTypes::Float(1.5f64.to_bits())),
        Some(vec![0xFB, 0x3F, 0xF8, 0, 0, 0, 0, 0, 0])
    );
    assert_eq!(encode(&RadonTypes::Bytes(vec![1, 2])), Some(vec![0x42, 1, 2]));
    assert_eq!(encode(&RadonTypes::String("é".to_string())), Some(vec![0x62, 0xC3, 0xA9]));
    assert_eq!(encode(&RadonTypes::Array(vec![])), Some(vec![0x80]));
    assert_eq!(
        encode(&RadonTypes::Array(vec![
            RadonTypes::Integer(1),
            RadonTypes::Array(vec![RadonTypes::Boolean(true)]),
            RadonTypes::String("a".to_string()),
        ])),
        Some(vec![0x83, 0x01, 0x81, 0xF5, 0x61, 0x61])
    );
    assert_eq!(encode(&RadonTypes::Array(vec![RadonTypes::Mapping(vec![])])), None);
    assert_eq!(encode(&RadonTypes::Mapping(vec![])), None);
}

#[test]
fn decoding_gives_back_the_encoded_value() {
    let values = vec![
        RadonTypes::Boolean(true),
        RadonTypes::Integer(0),
        RadonTypes::Integer(255),
        RadonTypes::Integer(65536),
        RadonTypes::Integer(-(1 << 64)),
        RadonTypes::Integer((1 << 64) - 1),
        RadonTypes::Float((-2.25f64).to_bits()),
        RadonTypes::Bytes(vec![]),
        RadonTypes::Bytes((0..40).collect()),
        RadonTypes::String(String::new()),
        RadonTypes::String("Hello world! ✓".repeat(3)),
        RadonTypes::Array(vec![]),
        RadonTypes::Array(vec![
            RadonTypes::Float(0.5f64.to_bits()),
            RadonTypes::Array(vec![RadonTypes::Bytes(vec![9; 30]), RadonTypes::Integer(-70000)]),
            RadonTypes::String("é".to_string()),
        ]),
    ];
    for v in values {
        let bytes = encode(&v).unwrap();
        assert_eq!(decode(&bytes), Some(v));
    }
}

#[test]
fn non_canonical_or_malformed_bytes_are_refused() {
    assert_eq!(decode(&vec![]), None);
    assert_eq!(decode(&vec![0x18, 0x05]), None);
    assert_eq!(decode(&vec![0x19, 0x00, 0x20]), None);
    assert_eq!(decode(&vec![0x00, 0x00]), None);
    assert_eq!(decode(&vec![0x43, 1, 2]), None);
    assert_eq!(decode(&vec![0xFB, 0, 0]), None);
    assert_eq!(decode(&vec![0x1C]), None);
    assert_eq!(encode(&RadonTypes::Float(f64::NAN.to_bits())), None);
    assert_eq!(decode(&vec![0xFB, 0x7F, 0xF8, 0, 0, 0, 0, 0, 0]), None);
    assert_eq!(decode(&vec![0xFB, 0x7F, 0xF0, 0, 0, 0, 0, 0, 0]), None);
    assert_eq!(decode(&vec![0x60]), Some(RadonTypes::String(String::new())));
    assert_eq!(decode(&vec![0x62, 0x61, 0xFF]), None);
    assert_eq!(decode(&vec![0x80]), Some(RadonTypes::Array(vec![])));
    assert_eq!(decode(&vec![0x82, 0x01]), None);
    assert_eq!(decode(&vec![0x81, 0x01, 0x02]), None);
    assert_eq!(decode(&vec![0xA0]), None);
}
