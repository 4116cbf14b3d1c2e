use simple_messaging::field_literal::bytes_to_field_decimal_literal;
use simple_messaging::message::bytes_to_3_field_literals;
use simple_messaging::message::string_to_3_field_literals;

#[test]
fn encode_empty_message() {
    let (f0, f1, f2) = string_to_3_field_literals("");
    assert_eq!(f0, "0field");
    assert_eq!(f1, "0field");
    assert_eq!(f2, "0field");
}

#[test]
fn encode_single_byte() {
    assert_eq!(bytes_to_field_decimal_literal(&[0x41]), "65field");
}

#[test]
fn encode_two_bytes_little_endian() {
    assert_eq!(bytes_to_field_decimal_literal(&[0x00, 0x01]), "256field");
}

#[test]
fn encode_empty_chunk() {
    assert_eq!(bytes_to_field_decimal_literal(&[]), "0field");
}

#[test]
fn encode_all_zero_chunk() {
    assert_eq!(bytes_to_field_decimal_literal(&[0x00, 0x00, 0x00]), "0field");
}

#[test]
fn chunk_truncates_to_31_bytes() {
    let long = vec![0x07u8; 40];
    let prefix = vec![0x07u8; 31];
    assert_eq!(
        bytes_to_field_decimal_literal(&long),
        bytes_to_field_decimal_literal(&prefix)
    );
}

#[test]
fn encode_all_ones_full_message() {
    let text = String::from_utf8(vec![0x01u8; 93]).unwrap();
    let (f0, f1, f2) = string_to_3_field_literals(&text);
    let expected =
        "1773775876797123091660094745843871137458179912157484130506396813846708481field";
    assert_eq!(f0, expected);
    assert_eq!(f1, expected);
    assert_eq!(f2, expected);
}

#[test]
fn short_message_uses_only_its_bytes() {
    let (f0, f1, f2) = string_to_3_field_literals("hello");
    assert_eq!(f0, "478560413032field");
    assert_eq!(f1, "0field");
    assert_eq!(f2, "0field");
}

#[test]
fn multi_chunk_message() {
    let (f0, f1, f2) =
        string_to_3_field_literals("The quick brown fox jumps over the lazy dog.");
    assert_eq!(
        f0,
        "57328640583621120029295763847239700394047764668332841871130683017487804500field"
    );
    assert_eq!(f1, "3676507095269432808486069430388field");
    assert_eq!(f2, "0field");
}

#[test]
fn encode_ignores_bytes_past_limit() {
    let mut long: Vec<u8> = Vec::new();
    for i in 1u8..=100 {
        long.push(i);
    }
    let first_93: Vec<u8> = long[..93].to_vec();
    assert_eq!(
        bytes_to_3_field_literals(&long),
        bytes_to_3_field_literals(&first_93)
    );

    let mut changed_tail = long.clone();
    changed_tail[93] = 0xFF;
    assert_eq!(
        bytes_to_3_field_literals(&long),
        bytes_to_3_field_literals(&changed_tail)
    );
}

#[test]
fn truncation_idempotent_appending() {
    let base = String::from_utf8(vec![0x41u8; 93]).unwrap();
    let mut extended = base.clone();
    extended.push_str(" and some more text past the limit");
    assert_eq!(
        string_to_3_field_literals(&base),
        string_to_3_field_literals(&extended)
    );
}

#[test]
fn chunk_injective_distinct_inputs() {
    let a = bytes_to_field_decimal_literal(&[1, 2, 3]);
    let b = bytes_to_field_decimal_literal(&[3, 2, 1]);
    assert_ne!(a, b);
}
