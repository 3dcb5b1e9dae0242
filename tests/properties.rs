use std::cmp::Ordering;

use str_enum::{
    compare_text, hash_str, text_eq, Capabilities, ReprType, SchemaError, SchemaSpec, StrEnum,
    Utf8EnumError, Variant, VariantSpec,
};

fn var(name: &str, canonical: &str, aliases: &[&str], discriminant: Option<i128>) -> VariantSpec {
    VariantSpec {
        name: name.to_string(),
        discriminant,
        canonical: canonical.to_string(),
        aliases: aliases.iter().map(|a| a.to_string()).collect(),
    }
}

fn caps() -> Capabilities {
    Capabilities { equality: true, ordering: true, duplication: false, debug_text: true }
}

fn schema(variants: Vec<VariantSpec>, repr_type: Option<ReprType>, error: bool) -> SchemaSpec {
    SchemaSpec {
        variants,
        repr_type,
        error_type_name: if error { Some("Error".to_string()) } else { None },
        capabilities: caps(),
    }
}

fn build(variants: Vec<VariantSpec>) -> StrEnum {
    StrEnum::new(schema(variants, None, true)).ok().unwrap()
}

fn refusal(s: SchemaSpec) -> SchemaError {
    match StrEnum::new(s) {
        Ok(_) => panic!("schema accepted"),
        Err(e) => e,
    }
}

fn colors() -> StrEnum {
    build(vec![
        var("Red", "red", &["r", "RED"], None),
        var("Green", "green", &["g"], None),
        var("Blue", "blue", &[], None),
    ])
}

#[test]
fn no_variants_is_refused() {
    assert_eq!(refusal(schema(vec![], None, true)), SchemaError::NoVariants);
}

#[test]
fn empty_canonical_is_refused() {
    let s = schema(vec![var("A", "a", &[], None), var("B", "", &[], None), var("C", "", &[], None)], None, true);
    assert_eq!(refusal(s), SchemaError::EmptyCanonical(1));
}

#[test]
fn duplicate_canonical_is_refused() {
    let s = schema(
        vec![var("A", "a", &[], None), var("B", "b", &[], None), var("C", "a", &[], None), var("D", "b", &[], None)],
        None,
        true,
    );
    assert_eq!(refusal(s), SchemaError::DuplicateCanonical(0, 2));
}

#[test]
fn empty_canonical_is_reported_before_duplicates() {
    let s = schema(vec![var("A", "a", &[], None), var("B", "a", &[], None), var("C", "", &[], None)], None, true);
    assert_eq!(refusal(s), SchemaError::EmptyCanonical(2));
}

#[test]
fn discriminant_without_repr_is_refused() {
    let s = schema(vec![var("A", "a", &[], None), var("B", "b", &[], Some(3))], None, true);
    assert_eq!(refusal(s), SchemaError::DiscriminantWithoutRepr(1));
}

#[test]
fn discriminant_out_of_range_is_refused() {
    let s = schema(vec![var("A", "a", &[], Some(256))], Some(ReprType::U8), true);
    assert_eq!(refusal(s), SchemaError::DiscriminantOutOfRange(0));
    let s = schema(vec![var("A", "a", &[], Some(255)), var("B", "b", &[], None)], Some(ReprType::U8), true);
    assert_eq!(refusal(s), SchemaError::DiscriminantOutOfRange(1));
    let s = schema(vec![var("A", "a", &[], Some(-1))], Some(ReprType::U64), true);
    assert_eq!(refusal(s), SchemaError::DiscriminantOutOfRange(0));
}

#[test]
fn duplicate_discriminant_is_refused() {
    let s = schema(
        vec![var("A", "a", &[], Some(1)), var("B", "b", &[], None), var("C", "c", &[], Some(1))],
        Some(ReprType::I32),
        true,
    );
    assert_eq!(refusal(s), SchemaError::DuplicateDiscriminant(0, 2));
}

#[test]
fn discriminants_count_up_from_the_last_explicit_one() {
    let s = schema(
        vec![var("A", "a", &[], None), var("B", "b", &[], Some(-5)), var("C", "c", &[], None)],
        Some(ReprType::I8),
        true,
    );
    let e = StrEnum::new(s).ok().unwrap();
    let got: Vec<Option<i128>> = e.all_variants().into_iter().map(|v| e.discriminant(v)).collect();
    assert_eq!(got, vec![Some(0), Some(-5), Some(-4)]);
}

#[test]
fn no_discriminant_without_repr() {
    let e = colors();
    assert_eq!(e.discriminant(Variant { index: 0 }), None);
}

#[test]
fn round_trip_every_variant() {
    let e = colors();
    for v in e.all_variants() {
        assert_eq!(e.try_from_str(e.as_str(v)), Some(v));
    }
}

#[test]
fn hash_matches_canonical_string() {
    let e = colors();
    for v in e.all_variants() {
        assert_eq!(e.hash_variant(v), hash_str(e.as_str(v)));
    }
    assert_eq!(e.hash_variant(Variant { index: 1 }), hash_str("green"));
}

#[test]
fn values_are_the_table_split_on_commas() {
    let e = colors();
    let split: Vec<&str> = e.all_values_str().split(',').collect();
    assert_eq!(split, e.all_values());
    assert_eq!(e.all_values(), vec!["red", "green", "blue"]);
    assert_eq!(e.all_values_str(), "red,green,blue");
}

#[test]
fn comma_in_a_canonical_string_is_kept_in_the_table() {
    let e = build(vec![var("A", "a,b", &[], None), var("C", "c", &[], None)]);
    assert_eq!(e.all_values_str(), "a,b,c");
    assert_eq!(e.all_values(), vec!["a,b", "c"]);
}

#[test]
fn single_variant_table_has_no_separator() {
    let e = build(vec![var("Only", "only", &[], None)]);
    assert_eq!(e.all_values_str(), "only");
    assert_eq!(e.expected_str(), Some("expected one of [only]"));
    assert_eq!(e.decode_expected_str(), "one of [only]");
}

#[test]
fn declaration_order_is_kept() {
    let e = colors();
    let vs = e.all_variants();
    assert_eq!(vs, vec![Variant { index: 0 }, Variant { index: 1 }, Variant { index: 2 }]);
    assert_eq!(e.variant_names(), vec!["Red", "Green", "Blue"]);
    assert_eq!(e.num_variants(), 3);
    assert_eq!(e.variant(2), Some(Variant { index: 2 }));
    assert_eq!(e.variant(3), None);
}

#[test]
fn text_order_follows_declaration_when_sorted() {
    let e = build(vec![var("A", "alpha", &[], None), var("B", "beta", &[], None), var("C", "gamma", &[], None)]);
    let vs = e.all_variants();
    for a in &vs {
        for b in &vs {
            assert_eq!(e.cmp_variants(*a, *b), a.cmp(b));
        }
    }
}

#[test]
fn text_order_may_differ_from_declaration() {
    let e = build(vec![var("Z", "zeta", &[], None), var("A", "alpha", &[], None)]);
    let (z, a) = (Variant { index: 0 }, Variant { index: 1 });
    assert!(z < a);
    assert_eq!(e.cmp_variants(z, a), Ordering::Greater);
}

#[test]
fn lookup_is_case_sensitive() {
    let e = colors();
    assert_eq!(e.try_from_str("Green"), None);
    assert_eq!(e.try_from_str("GREEN"), None);
    assert_eq!(e.try_from_str("RED"), Some(Variant { index: 0 }));
    assert_eq!(e.try_from_str("Red"), None);
}

#[test]
fn first_declared_alias_wins() {
    let e = build(vec![var("A", "a", &["x"], None), var("B", "b", &["x"], None)]);
    assert_eq!(e.try_from_str("x"), Some(Variant { index: 0 }));
}

#[test]
fn alias_before_canonical_wins() {
    let e = build(vec![var("A", "a", &["b"], None), var("B", "b", &[], None)]);
    assert_eq!(e.try_from_str("b"), Some(Variant { index: 0 }));
}

#[test]
fn decode_failure_carries_the_decode_diagnostic() {
    let e = colors();
    let err = e.decode("purple").err().unwrap();
    assert_eq!(err.unexpected, "purple");
    assert_eq!(err.expected, "one of [red,green,blue]");
    assert_ne!(err.expected, e.expected_str().unwrap());
}

#[test]
fn decode_of_encode_is_identity() {
    let e = colors();
    for v in e.all_variants() {
        assert_eq!(e.decode(e.encode(v)).ok(), Some(v));
    }
}

#[test]
fn bytes_that_are_not_utf8() {
    let e = colors();
    match e.parse_bytes(&[0x72, 0xff]) {
        Err(Utf8EnumError::Utf8(err)) => {
            let whole: Utf8EnumError<str_enum::ParseError> = Utf8EnumError::Utf8(err);
            assert!(!whole.message().is_empty());
        }
        other => panic!("unexpected {:?}", other),
    }
}

#[test]
fn bytes_that_name_no_variant() {
    let e = colors();
    match e.parse_bytes(b"teal") {
        Err(err @ Utf8EnumError::InvalidVariant(_)) => {
            assert_eq!(err.message(), "expected one of [red,green,blue]");
        }
        other => panic!("unexpected {:?}", other),
    }
}

#[test]
fn bytes_that_name_a_variant() {
    let e = colors();
    assert_eq!(e.parse_bytes(b"g"), Ok(Variant { index: 1 }));
}

#[test]
fn expected_str_needs_an_error_type() {
    let e = StrEnum::new(schema(vec![var("A", "a", &[], None)], None, false)).ok().unwrap();
    assert_eq!(e.expected_str(), None);
}

#[test]
fn text_equality_and_order() {
    let e = colors();
    let red = Variant { index: 0 };
    assert!(e.eq_text(red, "red"));
    assert!(!e.eq_text(red, "r"));
    assert_eq!(e.cmp_text(red, "red"), Ordering::Equal);
    assert_eq!(e.cmp_text(red, "reda"), Ordering::Less);
    assert_eq!(e.cmp_text(red, "re"), Ordering::Greater);
    assert!(text_eq("é", "é"));
    assert!(!text_eq("é", "e"));
    assert_eq!(compare_text("é", "z"), Ordering::Greater);
    assert_eq!(compare_text("", "a"), Ordering::Less);
}

#[test]
fn byte_length_of_canonical_string() {
    let e = build(vec![var("A", "héllo", &[], None), var("B", "b", &[], None)]);
    assert_eq!(e.len(Variant { index: 0 }), 6);
    assert_eq!(e.len(Variant { index: 1 }), 1);
}

#[test]
fn appending_variants_appends_their_strings() {
    let e = colors();
    let mut buf = String::from("<");
    e.append_to(&mut buf, Variant { index: 2 });
    assert_eq!(buf, "<blue");
    let vs = vec![Variant { index: 0 }, Variant { index: 1 }];
    e.extend(&mut buf, &vs);
    assert_eq!(buf, "<blueredgreen");
    assert_eq!(e.concat(&vs), "redgreen");
    assert_eq!(e.concat(&vec![]), "");
}
