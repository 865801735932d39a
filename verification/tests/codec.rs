use rstream::codec::{decode_base, decode_cell, CellFault, DecodeError, Record, Value};
use rstream::row::RawRow;
use rstream::schema::{BaseType, Descriptor, Field, IntWidth, SemanticType};

const WIDTHS: [IntWidth; 5] = [IntWidth::W8, IntWidth::W16, IntWidth::W32, IntWidth::W64, IntWidth::W128];

fn text(value: &Value) -> Option<&str> {
    match value {
        Value::Text(t) => Some(t.as_str()),
        _ => None,
    }
}

fn signed(value: &Value) -> Option<i128> {
    match value {
        Value::Signed(i) => Some(*i),
        _ => None,
    }
}

fn unsigned(value: &Value) -> Option<u128> {
    match value {
        Value::Unsigned(u) => Some(*u),
        _ => None,
    }
}

fn absent(value: &Value) -> bool {
    matches!(value, Value::Absent)
}

#[test]
fn integers_encode_as_bare_decimal() {
    assert_eq!(Value::Signed(-12).encode(), "-12");
    assert_eq!(Value::Signed(0).encode(), "0");
    assert_eq!(Value::Unsigned(4294967295).encode(), "4294967295");
    assert_eq!(Value::Signed(i128::MIN).encode(), "-170141183460469231731687303715884105728");
    assert_eq!(Value::Unsigned(u128::MAX).encode(), "340282366920938463463374607431768211455");
}

#[test]
fn text_encodes_between_double_quotes() {
    assert_eq!(Value::Text("abc".to_string()).encode(), "\"abc\"");
    assert_eq!(Value::Text("".to_string()).encode(), "\"\"");
    assert_eq!(Value::Text("a\"b'c".to_string()).encode(), "\"a\"\"b''c\"");
    assert_eq!(Value::Text("a\0b\x1f".to_string()).encode(), "\"ab\"");
    assert_eq!(Value::Text("NULL".to_string()).encode(), "\"NULL\"");
}

#[test]
fn absent_encodes_as_bare_null() {
    assert_eq!(Value::Absent.encode(), "NULL");
}

#[test]
fn required_field_needs_its_column() {
    let ty = SemanticType::Required(BaseType::Text);
    assert_eq!(decode_cell(ty, None).unwrap_err(), CellFault::Missing);
    let ty = SemanticType::Required(BaseType::SignedInt(IntWidth::W32));
    assert_eq!(decode_cell(ty, None).unwrap_err(), CellFault::Missing);
}

#[test]
fn optional_field_without_column_is_absent() {
    let ty = SemanticType::Optional(BaseType::Text);
    assert!(absent(&decode_cell(ty, None).unwrap()));
    let ty = SemanticType::Optional(BaseType::UnsignedInt(IntWidth::W8));
    assert!(absent(&decode_cell(ty, None).unwrap()));
}

#[test]
fn optional_field_reads_null_as_absent() {
    let ty = SemanticType::Optional(BaseType::Text);
    assert!(absent(&decode_cell(ty, Some("NULL")).unwrap()));
    assert_eq!(text(&decode_cell(ty, Some("null")).unwrap()), Some("null"));
    assert_eq!(text(&decode_cell(ty, Some("NULL ")).unwrap()), Some("NULL "));
    let ty = SemanticType::Optional(BaseType::SignedInt(IntWidth::W32));
    assert!(absent(&decode_cell(ty, Some("NULL")).unwrap()));
}

#[test]
fn required_text_keeps_null_as_text() {
    let ty = SemanticType::Required(BaseType::Text);
    assert_eq!(text(&decode_cell(ty, Some("NULL")).unwrap()), Some("NULL"));
}

#[test]
fn required_integer_rejects_null() {
    let ty = SemanticType::Required(BaseType::SignedInt(IntWidth::W32));
    assert_eq!(decode_cell(ty, Some("NULL")).unwrap_err(), CellFault::Malformed);
}

#[test]
fn malformed_integers_are_parse_errors() {
    let ty = SemanticType::Required(BaseType::UnsignedInt(IntWidth::W8));
    for bad in ["", "-1", "256", "1.5", "x", " 1", "1 "] {
        assert_eq!(decode_cell(ty, Some(bad)).unwrap_err(), CellFault::Malformed, "{:?}", bad);
    }
    let ty = SemanticType::Optional(BaseType::SignedInt(IntWidth::W16));
    for bad in ["", "32768", "-32769", "1e3", "null"] {
        assert_eq!(decode_cell(ty, Some(bad)).unwrap_err(), CellFault::Malformed, "{:?}", bad);
    }
}

#[test]
fn integers_decode_within_their_width() {
    let limits: [(i128, i128, u128); 5] = [
        (i8::MIN as i128, i8::MAX as i128, u8::MAX as u128),
        (i16::MIN as i128, i16::MAX as i128, u16::MAX as u128),
        (i32::MIN as i128, i32::MAX as i128, u32::MAX as u128),
        (i64::MIN as i128, i64::MAX as i128, u64::MAX as u128),
        (i128::MIN, i128::MAX, u128::MAX),
    ];
    for (width, (low, high, top)) in WIDTHS.iter().zip(limits.iter()) {
        let s = BaseType::SignedInt(*width);
        let u = BaseType::UnsignedInt(*width);
        assert_eq!(signed(&decode_base(s, &low.to_string()).unwrap()), Some(*low));
        assert_eq!(signed(&decode_base(s, &high.to_string()).unwrap()), Some(*high));
        assert_eq!(unsigned(&decode_base(u, &top.to_string()).unwrap()), Some(*top));
        assert_eq!(unsigned(&decode_base(u, "0").unwrap()), Some(0));
        assert!(decode_base(u, "-1").is_none());
        if *width != IntWidth::W128 {
            assert!(decode_base(s, &(low - 1).to_string()).is_none());
            assert!(decode_base(s, &(high + 1).to_string()).is_none());
            assert!(decode_base(u, &(top + 1).to_string()).is_none());
        }
    }
    assert!(decode_base(BaseType::SignedInt(IntWidth::W128), "170141183460469231731687303715884105728").is_none());
    assert!(decode_base(BaseType::SignedInt(IntWidth::W128), "-170141183460469231731687303715884105729").is_none());
    assert!(decode_base(BaseType::UnsignedInt(IntWidth::W128), "340282366920938463463374607431768211456").is_none());
}

fn unquoted(literal: &str) -> Option<&str> {
    // What a store keeps of a literal that holds no doubled quote.
    if literal == "NULL" {
        None
    } else if literal.starts_with('"') {
        Some(&literal[1..literal.len() - 1])
    } else {
        Some(literal)
    }
}

#[test]
fn decoding_an_encoded_value_gives_it_back() {
    for width in WIDTHS {
        for ty in [
            SemanticType::Required(BaseType::SignedInt(width)),
            SemanticType::Optional(BaseType::SignedInt(width)),
        ] {
            for v in [-128i128, -1, 0, 1, 42, 127] {
                let literal = Value::Signed(v).encode();
                assert_eq!(signed(&decode_cell(ty, unquoted(&literal)).unwrap()), Some(v));
            }
        }
        for ty in [
            SemanticType::Required(BaseType::UnsignedInt(width)),
            SemanticType::Optional(BaseType::UnsignedInt(width)),
        ] {
            for v in [0u128, 1, 9, 10, 255] {
                let literal = Value::Unsigned(v).encode();
                assert_eq!(unsigned(&decode_cell(ty, unquoted(&literal)).unwrap()), Some(v));
            }
        }
        let literal = Value::Absent.encode();
        assert!(absent(&decode_cell(SemanticType::Optional(BaseType::SignedInt(width)), unquoted(&literal)).unwrap()));
        assert!(absent(&decode_cell(SemanticType::Optional(BaseType::UnsignedInt(width)), Some(&literal)).unwrap()));
    }
    for ty in [SemanticType::Required(BaseType::Text), SemanticType::Optional(BaseType::Text)] {
        for v in ["", "abc", "null", "Song A", "caf\u{e9}", "12"] {
            let literal = Value::Text(v.to_string()).encode();
            assert_eq!(text(&decode_cell(ty, unquoted(&literal)).unwrap()), Some(v));
        }
    }
    let literal = Value::Absent.encode();
    assert!(absent(&decode_cell(SemanticType::Optional(BaseType::Text), unquoted(&literal)).unwrap()));
    assert!(absent(&decode_cell(SemanticType::Optional(BaseType::Text), Some(&literal)).unwrap()));
}

#[test]
fn optional_text_null_decodes_as_absent() {
    let literal = Value::Text("NULL".to_string()).encode();
    assert_eq!(literal, "\"NULL\"");
    let kept = &literal[1..literal.len() - 1];
    assert!(absent(&decode_cell(SemanticType::Optional(BaseType::Text), Some(kept)).unwrap()));
    assert_eq!(text(&decode_cell(SemanticType::Required(BaseType::Text), Some(kept)).unwrap()), Some("NULL"));
}

fn descriptor() -> Descriptor {
    Descriptor::new(vec![
        Field { name: "id".to_string(), ty: SemanticType::Required(BaseType::Text) },
        Field { name: "count".to_string(), ty: SemanticType::Required(BaseType::UnsignedInt(IntWidth::W16)) },
        Field { name: "note".to_string(), ty: SemanticType::Optional(BaseType::Text) },
        Field { name: "delta".to_string(), ty: SemanticType::Optional(BaseType::SignedInt(IntWidth::W8)) },
    ])
    .unwrap()
}

fn row(cells: &[(&str, &str)]) -> RawRow {
    let mut row = RawRow::new();
    for (name, value) in cells {
        row.insert(name.to_string(), value.to_string());
    }
    row
}

#[test]
fn a_row_decodes_field_by_field() {
    let record = Record::decode(&row(&[("delta", "-3"), ("id", "k"), ("count", "7"), ("extra", "x")]), &descriptor()).unwrap();
    assert_eq!(record.values.len(), 4);
    assert_eq!(text(&record.values[0]), Some("k"));
    assert_eq!(unsigned(&record.values[1]), Some(7));
    assert!(absent(&record.values[2]));
    assert_eq!(signed(&record.values[3]), Some(-3));
    assert!(record.fits(&descriptor()));
}

#[test]
fn the_first_unreadable_field_fails_the_row() {
    let d = descriptor();
    assert_eq!(Record::decode(&row(&[]), &d).unwrap_err(), DecodeError::MissingColumn { field: 0 });
    assert_eq!(Record::decode(&row(&[("id", "k")]), &d).unwrap_err(), DecodeError::MissingColumn { field: 1 });
    assert_eq!(
        Record::decode(&row(&[("id", "k"), ("count", "many"), ("delta", "x")]), &d).unwrap_err(),
        DecodeError::ParseError { field: 1 }
    );
    assert_eq!(
        Record::decode(&row(&[("id", "k"), ("count", "1"), ("delta", "128")]), &d).unwrap_err(),
        DecodeError::ParseError { field: 3 }
    );
    assert_eq!(
        Record::decode(&row(&[("count", "x"), ("delta", "x")]), &d).unwrap_err(),
        DecodeError::MissingColumn { field: 0 }
    );
}

#[test]
fn value_list_holds_each_literal() {
    let record = Record {
        values: vec![Value::Text("k".to_string()), Value::Unsigned(7), Value::Absent, Value::Signed(-3)],
    };
    assert_eq!(record.value_list(), vec!["\"k\"", "7", "NULL", "-3"]);
    assert_eq!(Record { values: vec![] }.value_list(), Vec::<String>::new());
}

#[test]
fn fits_checks_each_value_against_its_field() {
    let d = descriptor();
    let good = Record {
        values: vec![Value::Text("k".to_string()), Value::Unsigned(65535), Value::Absent, Value::Signed(-128)],
    };
    assert!(good.fits(&d));
    let short = Record { values: vec![Value::Text("k".to_string())] };
    assert!(!short.fits(&d));
    let big = Record {
        values: vec![Value::Text("k".to_string()), Value::Unsigned(65536), Value::Absent, Value::Absent],
    };
    assert!(!big.fits(&d));
    let low = Record {
        values: vec![Value::Text("k".to_string()), Value::Unsigned(0), Value::Absent, Value::Signed(-129)],
    };
    assert!(!low.fits(&d));
    let absent_id = Record {
        values: vec![Value::Absent, Value::Unsigned(0), Value::Absent, Value::Absent],
    };
    assert!(!absent_id.fits(&d));
    let wrong_kind = Record {
        values: vec![Value::Text("k".to_string()), Value::Signed(1), Value::Absent, Value::Absent],
    };
    assert!(!wrong_kind.fits(&d));
    assert!(Value::Signed(i128::MIN).fits(SemanticType::Required(BaseType::SignedInt(IntWidth::W128))));
    assert!(!Value::Signed(i128::MIN).fits(SemanticType::Required(BaseType::SignedInt(IntWidth::W64))));
    assert!(Value::Signed(127).fits(SemanticType::Optional(BaseType::SignedInt(IntWidth::W8))));
    assert!(!Value::Signed(128).fits(SemanticType::Optional(BaseType::SignedInt(IntWidth::W8))));
}
