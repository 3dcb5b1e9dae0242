use std::collections::HashMap;

use str_enum::{hash_str, Capabilities, SchemaSpec, StrEnum, Variant, VariantSpec};

const VARIANT1: Variant = Variant { index: 0 };
const VARIANT2: Variant = Variant { index: 1 };

fn spec(name: &str, canonical: &str, aliases: &[&str]) -> VariantSpec {
    VariantSpec {
        name: name.to_string(),
        discriminant: None,
        canonical: canonical.to_string(),
        aliases: aliases.iter().map(|a| a.to_string()).collect(),
    }
}

fn my_enum() -> StrEnum {
    let schema = SchemaSpec {
        variants: vec![spec("Variant1", "Variant1", &["variant1"]), spec("Variant2", "Variant2", &[])],
        repr_type: None,
        error_type_name: Some("MyError".to_string()),
        capabilities: Capabilities { equality: true, ordering: true, duplication: true, debug_text: true },
    };
    match StrEnum::new(schema) {
        Ok(e) => e,
        Err(err) => panic!("schema refused: {:?}", err),
    }
}

#[test]
fn test_from_str_primary() {
    let e = my_enum();
    let v1 = e.parse("Variant1").unwrap();
    let v2 = e.parse("Variant2").unwrap();
    assert_eq!(v1, VARIANT1);
    assert_eq!(v2, VARIANT2);
}

#[test]
fn test_from_str_alternate() {
    let e = my_enum();
    let v1 = e.parse("variant1").unwrap();
    assert_eq!(v1, VARIANT1);
}

#[test]
fn test_from_str_invalid() {
    let e = my_enum();
    let result = e.parse("nonexistent");
    assert!(result.is_err());
}

#[test]
fn test_debug() {
    let e = my_enum();
    assert_eq!(e.name(VARIANT1), "Variant1");
    assert_eq!(e.name(VARIANT2), "Variant2");
}

#[test]
fn test_clone() {
    let v1 = VARIANT1;
    let v1_clone = v1.clone();
    assert_eq!(v1, v1_clone);
}

#[test]
fn test_ordering() {
    assert!(VARIANT1 < VARIANT2);
    let mut variants = vec![VARIANT2, VARIANT1];
    variants.sort();
    assert_eq!(variants, vec![VARIANT1, VARIANT2]);
}

#[test]
fn test_all_values_str() {
    let e = my_enum();
    assert_eq!(e.all_values_str(), "Variant1,Variant2");
}

#[test]
fn test_error_expected_str() {
    let e = my_enum();
    assert_eq!(e.expected_str(), Some("expected one of [Variant1,Variant2]"));
}

#[test]
fn test_display() {
    let e = my_enum();
    assert_eq!(format!("{}", e.as_str(VARIANT1)), "Variant1");
    assert_eq!(format!("{}", e.as_str(VARIANT2)), "Variant2");
}

#[test]
fn test_error_display() {
    let e = my_enum();
    let err = e.parse("nonexistent").unwrap_err();
    assert_eq!(format!("{}", err.message()), "expected one of [Variant1,Variant2]");
}

#[test]
fn test_hashmap_str_lookup() {
    let e = my_enum();
    let mut map = HashMap::<&str, u32>::new();
    map.insert(e.as_str(VARIANT1), 1);
    map.insert(e.as_str(VARIANT2), 2);

    assert_eq!(map.get("Variant1"), Some(&1));
    assert_eq!(map.get("Variant2"), Some(&2));
    assert_eq!(map.get(e.as_str(VARIANT1)), Some(&1));
    assert_eq!(map.get(e.as_str(VARIANT2)), Some(&2));
    assert_eq!(map.get("variant1"), None);
}

#[test]
fn test_hash_different_variants_differ() {
    let e = my_enum();
    assert_ne!(e.hash_variant(VARIANT1), e.hash_variant(VARIANT2));
}

#[test]
fn test_serialize() {
    let e = my_enum();
    assert_eq!(e.encode(VARIANT1), "Variant1");
    assert_eq!(e.encode(VARIANT2), "Variant2");
}

#[test]
fn test_deserialize_primary() {
    let e = my_enum();
    let v1 = e.decode("Variant1").ok().unwrap();
    let v2 = e.decode("Variant2").ok().unwrap();
    assert_eq!(v1, VARIANT1);
    assert_eq!(v2, VARIANT2);
}

#[test]
fn test_deserialize_alternate() {
    let e = my_enum();
    let v1 = e.decode("variant1").ok().unwrap();
    assert_eq!(v1, VARIANT1);
}

#[test]
fn test_deserialize_invalid() {
    let e = my_enum();
    let result = e.decode("nonexistent");
    assert!(result.is_err());
}

#[test]
fn test_serde_roundtrip() {
    let e = my_enum();
    for variant in e.all_variants() {
        let serialized = e.encode(variant).to_string();
        let deserialized = e.decode(&serialized).ok().unwrap();
        assert_eq!(variant, deserialized);
    }
}

#[test]
fn test_serde_expected_str() {
    let e = my_enum();
    assert_eq!(e.decode_expected_str(), "one of [Variant1,Variant2]");
}
