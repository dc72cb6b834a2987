use serde_schema_derive::names::to_decimal;
use serde_schema_derive::plan::TypeVar;
use serde_schema_derive::variant_field_type_variable;

#[test]
fn numbers_in_decimal() {
    assert_eq!(to_decimal(0), "0");
    assert_eq!(to_decimal(7), "7");
    assert_eq!(to_decimal(9), "9");
    assert_eq!(to_decimal(10), "10");
    assert_eq!(to_decimal(42), "42");
    assert_eq!(to_decimal(100), "100");
    assert_eq!(to_decimal(1234567890), "1234567890");
    assert_eq!(to_decimal(usize::MAX), usize::MAX.to_string());
}

#[test]
fn names_of_type_variables() {
    assert_eq!(variant_field_type_variable(0, 0).name(), "type_id_0_0");
    assert_eq!(variant_field_type_variable(3, 12).name(), "type_id_3_12");
    assert_eq!(TypeVar { variant_idx: 31, field_idx: 2 }.name(), "type_id_31_2");
}

#[test]
fn names_of_different_variables_differ() {
    let mut names = Vec::new();
    for variant_idx in [0usize, 1, 2, 11, 12, 111] {
        for field_idx in [0usize, 1, 2, 11, 12, 111] {
            names.push(TypeVar { variant_idx, field_idx }.name());
        }
    }
    for i in 0..names.len() {
        for j in 0..i {
            assert_ne!(names[i], names[j]);
        }
    }
}

#[test]
fn identifiers_of_type_variables() {
    assert_eq!(variant_field_type_variable(0, 0).ident().to_string(), "type_id_0_0");
    assert_eq!(variant_field_type_variable(10, 203).ident().to_string(), "type_id_10_203");
    let max = TypeVar { variant_idx: usize::MAX, field_idx: usize::MAX };
    assert_eq!(max.ident().to_string(), format!("type_id_{}_{}", usize::MAX, usize::MAX));
    assert_eq!(
        variant_field_type_variable(1, 2).ident(),
        proc_macro2::Ident::new("type_id_1_2", proc_macro2::Span::call_site())
    );
}
