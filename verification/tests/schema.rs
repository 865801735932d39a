use rstream::schema::{BaseType, Descriptor, Field, IntWidth, SchemaError, SemanticType};

fn field(name: &str, ty: SemanticType) -> Field {
    Field { name: name.to_string(), ty }
}

const TEXT: SemanticType = SemanticType::Required(BaseType::Text);

#[test]
fn type_names_of_the_closed_set() {
    let bases = [
        ("i8", BaseType::SignedInt(IntWidth::W8)),
        ("i16", BaseType::SignedInt(IntWidth::W16)),
        ("i32", BaseType::SignedInt(IntWidth::W32)),
        ("i64", BaseType::SignedInt(IntWidth::W64)),
        ("i128", BaseType::SignedInt(IntWidth::W128)),
        ("u8", BaseType::UnsignedInt(IntWidth::W8)),
        ("u16", BaseType::UnsignedInt(IntWidth::W16)),
        ("u32", BaseType::UnsignedInt(IntWidth::W32)),
        ("u64", BaseType::UnsignedInt(IntWidth::W64)),
        ("u128", BaseType::UnsignedInt(IntWidth::W128)),
        ("String", BaseType::Text),
    ];
    for (name, base) in bases {
        assert_eq!(SemanticType::from_type_name(name), Some(SemanticType::Required(base)));
        assert_eq!(
            SemanticType::from_type_name(&format!("Option<{}>", name)),
            Some(SemanticType::Optional(base))
        );
        assert_eq!(BaseType::from_type_name(name), Some(base));
    }
}

#[test]
fn type_names_outside_the_closed_set() {
    for name in [
        "", "f64", "bool", "Vec<u8>", "Option<f32>", "Option<Option<u8>>", "Option<>", "Option<u8",
        "option<u8>", "string", "usize", "Option", "Option<u8> ", "&str", "I32",
    ] {
        assert_eq!(SemanticType::from_type_name(name), None, "{:?}", name);
    }
}

#[test]
fn sql_types_follow_kind_and_optionality() {
    assert_eq!(SemanticType::Required(BaseType::SignedInt(IntWidth::W8)).to_sql_type(), "INTEGER NON NULL");
    assert_eq!(SemanticType::Required(BaseType::UnsignedInt(IntWidth::W128)).to_sql_type(), "INTEGER NON NULL");
    assert_eq!(SemanticType::Optional(BaseType::SignedInt(IntWidth::W64)).to_sql_type(), "INTEGER");
    assert_eq!(SemanticType::Optional(BaseType::UnsignedInt(IntWidth::W16)).to_sql_type(), "INTEGER");
    assert_eq!(SemanticType::Required(BaseType::Text).to_sql_type(), "TEXT NON NULL");
    assert_eq!(SemanticType::Optional(BaseType::Text).to_sql_type(), "TEXT");
}

#[test]
fn widths_have_their_ranges() {
    assert_eq!(IntWidth::W8.low_magnitude(), 128);
    assert_eq!(IntWidth::W8.high_signed(), 127);
    assert_eq!(IntWidth::W8.high_unsigned(), 255);
    assert_eq!(IntWidth::W32.high_signed(), i32::MAX as u128);
    assert_eq!(IntWidth::W32.high_unsigned(), u32::MAX as u128);
    assert_eq!(IntWidth::W64.low_magnitude(), 1u128 << 63);
    assert_eq!(IntWidth::W128.low_magnitude(), 1u128 << 127);
    assert_eq!(IntWidth::W128.high_signed(), i128::MAX as u128);
    assert_eq!(IntWidth::W128.high_unsigned(), u128::MAX);
}

#[test]
fn a_descriptor_needs_exactly_one_text_identity() {
    assert_eq!(Descriptor::new(vec![]).unwrap_err(), SchemaError::MissingIdentity);
    assert_eq!(Descriptor::new(vec![field("path", TEXT)]).unwrap_err(), SchemaError::MissingIdentity);
    assert_eq!(Descriptor::new(vec![field("ID", TEXT)]).unwrap_err(), SchemaError::MissingIdentity);
    assert_eq!(
        Descriptor::new(vec![field("id", TEXT), field("a", TEXT), field("id", TEXT)]).unwrap_err(),
        SchemaError::RepeatedIdentity
    );
    assert_eq!(
        Descriptor::new(vec![field("id", SemanticType::Optional(BaseType::Text))]).unwrap_err(),
        SchemaError::IdentityNotText
    );
    assert_eq!(
        Descriptor::new(vec![field("a", TEXT), field("id", SemanticType::Required(BaseType::UnsignedInt(IntWidth::W64)))])
            .unwrap_err(),
        SchemaError::IdentityNotText
    );
    let d = Descriptor::new(vec![field("a", TEXT), field("id", TEXT)]).unwrap();
    assert_eq!(d.len(), 2);
    assert_eq!(d.id_index(), 1);
    assert_eq!(d.field(0).name, "a");
    assert_eq!(d.field(1).ty, TEXT);
}

fn list(fields: &[(&str, &str)]) -> Vec<(String, String)> {
    fields.iter().map(|(n, t)| (n.to_string(), t.to_string())).collect()
}

#[test]
fn an_unsupported_field_type_fails_the_definition() {
    let r = Descriptor::from_field_list(&list(&[("id", "String"), ("ratio", "f64")]));
    assert_eq!(r.unwrap_err(), SchemaError::UnsupportedType);
    let r = Descriptor::from_field_list(&list(&[("ratio", "Option<bool>")]));
    assert_eq!(r.unwrap_err(), SchemaError::UnsupportedType);
    let r = Descriptor::from_field_list(&list(&[("id", "u32"), ("cover", "Vec<u8>")]));
    assert_eq!(r.unwrap_err(), SchemaError::UnsupportedType);
}

#[test]
fn a_field_list_defines_a_descriptor() {
    let d = Descriptor::from_field_list(&list(&[("id", "String"), ("year", "Option<i32>"), ("plays", "u64")])).unwrap();
    assert_eq!(d.len(), 3);
    assert_eq!(d.field(1).name, "year");
    assert_eq!(d.field(1).ty, SemanticType::Optional(BaseType::SignedInt(IntWidth::W32)));
    assert_eq!(d.field(2).ty, SemanticType::Required(BaseType::UnsignedInt(IntWidth::W64)));
    assert_eq!(Descriptor::from_field_list(&list(&[("year", "i32")])).unwrap_err(), SchemaError::MissingIdentity);
    assert_eq!(Descriptor::from_field_list(&list(&[("id", "i32")])).unwrap_err(), SchemaError::IdentityNotText);
    assert_eq!(
        Descriptor::from_field_list(&list(&[("id", "String"), ("id", "String")])).unwrap_err(),
        SchemaError::RepeatedIdentity
    );
}

#[test]
fn columns_follow_the_fields() {
    let d = Descriptor::from_field_list(&list(&[
        ("path", "String"),
        ("id", "String"),
        ("year", "Option<i32>"),
        ("plays", "u64"),
        ("note", "Option<String>"),
    ]))
    .unwrap();
    let expected: Vec<(String, String)> = list(&[
        ("path", "TEXT NON NULL"),
        ("id", "TEXT NON NULL PRIMARY KEY"),
        ("year", "INTEGER"),
        ("plays", "INTEGER NON NULL"),
        ("note", "TEXT"),
    ]);
    assert_eq!(d.column_definitions(), expected);
    assert_eq!(
        d.create_table_sql("things"),
        "CREATE TABLE IF NOT EXISTS things (path TEXT NON NULL,id TEXT NON NULL PRIMARY KEY,year INTEGER,plays INTEGER NON NULL,note TEXT);"
    );
}

#[test]
fn the_identity_is_the_primary_key_whatever_its_type() {
    assert_eq!(field("id", SemanticType::Optional(BaseType::SignedInt(IntWidth::W8))).column_type(), "INTEGER PRIMARY KEY");
    assert_eq!(field("id", TEXT).column_type(), "TEXT NON NULL PRIMARY KEY");
    assert_eq!(field("idx", TEXT).column_type(), "TEXT NON NULL");
}
