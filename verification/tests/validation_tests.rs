use lattice::validation::{validation_kind, ValidationKind};

fn items(v: &[&str]) -> Option<Vec<String>> {
    Some(v.iter().map(|s| s.to_string()).collect())
}

#[test]
fn list_rules_need_items() {
    assert!(matches!(validation_kind("list", items(&["Yes", "No"]), None), Ok(ValidationKind::List(v)) if v == vec!["Yes", "No"]));
    assert_eq!(validation_kind("list", None, None).err(), Some("list_items is required for rule_type 'list'".to_string()));
    assert_eq!(validation_kind("list", items(&[]), None).err(), Some("list_items must not be empty".to_string()));
}

#[test]
fn range_and_length_rules() {
    assert!(matches!(validation_kind("number_range", None, None), Ok(ValidationKind::NumberRange)));
    assert!(matches!(validation_kind("date_range", None, None), Ok(ValidationKind::DateRange)));
    assert!(matches!(validation_kind("text_length", items(&["x"]), None), Ok(ValidationKind::TextLength)));
}

#[test]
fn custom_rules_need_a_formula() {
    assert!(matches!(validation_kind("custom", None, Some("=A1>0".to_string())), Ok(ValidationKind::Custom(f)) if f == "=A1>0"));
    assert_eq!(validation_kind("custom", None, None).err(), Some("formula is required for rule_type 'custom'".to_string()));
}

#[test]
fn unknown_rule_types() {
    assert_eq!(
        validation_kind("regex", None, None).err(),
        Some("Unknown rule_type 'regex'. Must be one of: list, number_range, date_range, text_length, custom".to_string())
    );
    assert!(validation_kind("List", items(&["a"]), None).is_err());
}
