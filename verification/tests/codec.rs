use appshell::codec::{decode, encode};
use appshell::product::Product;

fn widget() -> Product {
    // The catalogue example: id 1, description "widget", price 9.99, kept
    // as 999 minor units.
    Product { id: 1, description: String::from("widget"), price_cents: 999 }
}

#[test]
fn round_trip_widget() {
    let p = widget();
    let wire = encode(&p);
    let q = decode(wire.as_str()).expect("the wire form of a record decodes");
    assert_eq!(q.id, 1);
    assert_eq!(q.description, "widget");
    assert_eq!(q.price_cents, 999);
}

#[test]
fn widget_wire_form_is_exact() {
    let wire = encode(&widget());
    assert_eq!(
        wire,
        "000000000100000000000000000999000000000000000000\
         06widget"
    );
}

#[test]
fn round_trip_empty_description() {
    let p = Product { id: 0, description: String::new(), price_cents: 0 };
    let wire = encode(&p);
    assert_eq!(wire.len(), 50);
    let q = decode(wire.as_str()).expect("an empty description round trips");
    assert_eq!(q.id, 0);
    assert_eq!(q.description, "");
    assert_eq!(q.price_cents, 0);
}

#[test]
fn round_trip_description_with_digits_and_separators() {
    let p = Product {
        id: 7,
        description: String::from("12,34 widgets -- 0099"),
        price_cents: 12_34,
    };
    let wire = encode(&p);
    let q = decode(wire.as_str()).expect("digits inside a description round trip");
    assert_eq!(q.description, "12,34 widgets -- 0099");
    assert_eq!(q.id, 7);
    assert_eq!(q.price_cents, 1234);
}

#[test]
fn round_trip_unicode_description() {
    let p = Product { id: 42, description: String::from("ein Stück für 2€"), price_cents: 200 };
    let wire = encode(&p);
    let q = decode(wire.as_str()).expect("a non-ascii description round trips");
    assert_eq!(q.description, "ein Stück für 2€");
}

#[test]
fn round_trip_largest_values() {
    let p = Product {
        id: u32::MAX,
        description: String::from("x"),
        price_cents: u64::MAX,
    };
    let wire = encode(&p);
    let q = decode(wire.as_str()).expect("the largest id and price round trip");
    assert_eq!(q.id, u32::MAX);
    assert_eq!(q.price_cents, u64::MAX);
    assert_eq!(q.description, "x");
}

#[test]
fn decode_rejects_short_text() {
    assert!(decode("").is_none());
    assert!(decode("0000000001").is_none());
    let header_minus_one = "0".repeat(49);
    assert!(decode(header_minus_one.as_str()).is_none());
}

#[test]
fn decode_rejects_non_digit_header() {
    // A well-formed wire text, then one header digit replaced by a letter.
    let wire = encode(&widget());
    let mut bad: Vec<char> = wire.chars().collect();
    bad[3] = 'x';
    let bad: String = bad.into_iter().collect();
    assert!(decode(bad.as_str()).is_none());
}

#[test]
fn decode_rejects_wrong_recorded_length() {
    // Claims seven description characters but carries six.
    let wire = "00000000010000000000000000099900000000000000000007widget";
    assert!(decode(wire).is_none());
}

#[test]
fn decode_rejects_id_above_u32() {
    // 4294967296 is one past the largest identifier.
    let wire = format!("4294967296{}{}", "0".repeat(20), "0".repeat(20));
    assert!(decode(wire.as_str()).is_none());
}

#[test]
fn decode_rejects_price_above_u64() {
    // Twenty nines overflow the minor-unit amount.
    let wire = format!("0000000001{}{}", "9".repeat(20), "0".repeat(20));
    assert!(decode(wire.as_str()).is_none());
}

#[test]
fn decode_accepts_handwritten_wire_text() {
    let wire = format!("0000000123{}{}abc", "00000000000000004550", "00000000000000000003");
    let q = decode(wire.as_str()).expect("a well-formed wire text decodes");
    assert_eq!(q.id, 123);
    assert_eq!(q.price_cents, 4550);
    assert_eq!(q.description, "abc");
}
