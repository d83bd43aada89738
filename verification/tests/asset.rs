use manta_wallet::{
    decimal_string, field_from_id_string, id_string_from_field, parse_amount, AssetId,
    BalanceState,
};

/// An identifier whose low half is `low` and whose high half is zero.
fn standard(low: &[u8; 16]) -> [u8; 32] {
    let mut field = [0u8; 32];
    field[..16].copy_from_slice(low);
    field
}

#[test]
fn standard_identifier_has_its_bytes_as_name() {
    let field = standard(b"0123456789abcdef");
    let name = id_string_from_field(field).unwrap();
    assert_eq!(name.len(), 32);
    assert_eq!(name, format!("0123456789abcdef{}", "\0".repeat(16)));
}

#[test]
fn zero_identifier_is_named_by_zero_characters() {
    assert_eq!(id_string_from_field([0u8; 32]), Some("\0".repeat(32)));
}

#[test]
fn high_half_must_be_zero() {
    for i in 16..32 {
        let mut field = standard(b"0123456789abcdef");
        field[i] = 1;
        assert_eq!(id_string_from_field(field), None);
    }
    let mut field = standard(b"0123456789abcdef");
    field[15] = 1;
    assert!(id_string_from_field(field).is_some());
}

#[test]
fn low_half_must_be_utf8() {
    let mut field = [0u8; 32];
    field[0] = 0xff;
    assert_eq!(id_string_from_field(field), None);
    // An overlong encoding of the slash.
    field[0] = 0xc0;
    field[1] = 0xaf;
    assert_eq!(id_string_from_field(field), None);
    // A character of two bytes.
    field[0] = 0xc3;
    field[1] = 0xa9;
    assert_eq!(id_string_from_field(field), Some(format!("\u{e9}{}", "\0".repeat(30))));
}

#[test]
fn name_gives_back_the_identifier() {
    let field = standard(b"manta-pay-asset!");
    let name = id_string_from_field(field).unwrap();
    assert_eq!(field_from_id_string(name), field);
}

#[test]
fn identifier_gives_back_the_name_where_it_is_standard() {
    let name = format!("asset{}", "\0".repeat(27));
    assert_eq!(id_string_from_field(field_from_id_string(name.clone())), Some(name));
    let long = String::from("01234567890123456789012345678901");
    let field = field_from_id_string(long.clone());
    assert_eq!(&field[..], long.as_bytes());
    assert_eq!(id_string_from_field(field), None);
}

#[test]
fn identifier_with_a_number_has_its_low_byte_first() {
    let mut field = [0u8; 32];
    field[0] = 0x04;
    field[1] = 0x03;
    field[2] = 0x02;
    field[3] = 0x01;
    assert_eq!(AssetId::from_u32(0x0102_0304), AssetId(field));
    assert_eq!(AssetId::from_u32(0), AssetId([0u8; 32]));
    assert!(id_string_from_field(AssetId::from_u32(65).0).is_some());
}

#[test]
fn identifiers_are_compared_by_all_bytes() {
    let a = AssetId::from_u32(7);
    let mut b = a;
    assert!(a.same(&b));
    b.0[31] = 1;
    assert!(!a.same(&b));
}

#[test]
fn amounts_are_written_without_leading_zeros() {
    assert_eq!(decimal_string(0), "0");
    assert_eq!(decimal_string(9), "9");
    assert_eq!(decimal_string(10), "10");
    assert_eq!(decimal_string(1_000_000), "1000000");
    assert_eq!(decimal_string(u128::MAX), "340282366920938463463374607431768211455");
    for value in [1u128, 99, 100, 12345678901234567890, u128::MAX - 1] {
        assert_eq!(decimal_string(value), value.to_string());
    }
}

#[test]
fn amounts_are_read_back() {
    for value in [0u128, 7, 10, 12345678901234567890, u128::MAX - 1, u128::MAX] {
        assert_eq!(parse_amount(&decimal_string(value)), Some(value));
    }
}

#[test]
fn leading_zeros_are_read() {
    assert_eq!(parse_amount("000120"), Some(120));
    assert_eq!(parse_amount("0"), Some(0));
}

#[test]
fn what_is_no_amount_is_not_read() {
    assert_eq!(parse_amount(""), None);
    assert_eq!(parse_amount("-1"), None);
    assert_eq!(parse_amount("+1"), None);
    assert_eq!(parse_amount("1.5"), None);
    assert_eq!(parse_amount("12x"), None);
    assert_eq!(parse_amount("/"), None);
    assert_eq!(parse_amount(":"), None);
    assert_eq!(parse_amount("\u{661}"), None);
    assert_eq!(parse_amount("340282366920938463463374607431768211456"), None);
    assert_eq!(parse_amount("3402823669209384634633746074317682114550"), None);
}

#[test]
fn balances_are_set_and_replaced() {
    let a = AssetId::from_u32(1);
    let b = AssetId::from_u32(2);
    let mut balances = BalanceState::new();
    assert_eq!(balances.get(&a), None);
    balances.set(a, 5);
    balances.set(b, 6);
    assert_eq!(balances.get(&a), Some(5));
    assert_eq!(balances.get(&b), Some(6));
    balances.set(a, 0);
    assert_eq!(balances.get(&a), Some(0));
    assert_eq!(balances.get(&b), Some(6));
    assert_eq!(balances.get(&AssetId::from_u32(3)), None);
}
