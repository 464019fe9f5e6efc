use clap_config_file::parse_attrs::{FieldAvailability, MultiValueBehavior};
use clap_config_file::resolve::{config_value_of, default_of, resolve_field, zero_of};
use clap_config_file::schema::{FieldSchema, ValueKind};
use clap_config_file::value::StructuredValue;

fn r_text(s: &str) -> StructuredValue {
    StructuredValue::Text(s.to_string())
}

fn r_list(items: &[&str]) -> StructuredValue {
    StructuredValue::List(items.iter().map(|s| r_text(s)).collect())
}

fn r_field(
    key: &str,
    kind: ValueKind,
    availability: FieldAvailability,
    behavior: MultiValueBehavior,
    default_value: Option<StructuredValue>,
) -> FieldSchema {
    FieldSchema {
        key: key.to_string(),
        long: key.to_string(),
        short: None,
        value_kind: kind,
        availability,
        multi_value_behavior: behavior,
        is_positional: false,
        default_value,
    }
}

fn r_doc() -> StructuredValue {
    StructuredValue::Object(vec![
        ("tags".to_string(), r_list(&["x", "y"])),
        ("port".to_string(), StructuredValue::Number("3000".to_string())),
        ("debug".to_string(), StructuredValue::Bool(true)),
        ("void".to_string(), StructuredValue::Null),
    ])
}

#[test]
fn extend_appends_cli_items_to_config_items() {
    let f = r_field("tags", ValueKind::List, FieldAvailability::CliAndConfig, MultiValueBehavior::Extend, None);
    let cli = r_list(&["z"]);
    assert_eq!(resolve_field(&f, Some(&cli), &r_doc()), r_list(&["x", "y", "z"]));
    assert_eq!(resolve_field(&f, None, &r_doc()), r_list(&["x", "y"]));
    let two = r_list(&["z", "w"]);
    assert_eq!(resolve_field(&f, Some(&two), &r_doc()), r_list(&["x", "y", "z", "w"]));
}

#[test]
fn overwrite_replaces_config_items() {
    let f = r_field("tags", ValueKind::List, FieldAvailability::CliAndConfig, MultiValueBehavior::Overwrite, None);
    let cli = r_list(&["z"]);
    assert_eq!(resolve_field(&f, Some(&cli), &r_doc()), r_list(&["z"]));
    assert_eq!(resolve_field(&f, None, &r_doc()), r_list(&["x", "y"]));
}

#[test]
fn empty_cli_list_counts_as_not_supplied() {
    let empty = r_list(&[]);
    for behavior in [MultiValueBehavior::Extend, MultiValueBehavior::Overwrite] {
        let f = r_field("tags", ValueKind::List, FieldAvailability::CliAndConfig, behavior, None);
        assert_eq!(resolve_field(&f, Some(&empty), &r_doc()), r_list(&["x", "y"]));
    }
}

#[test]
fn extend_without_config_list_is_the_cli_list() {
    let f = r_field("absent", ValueKind::List, FieldAvailability::CliAndConfig, MultiValueBehavior::Extend, None);
    let cli = r_list(&["z"]);
    assert_eq!(resolve_field(&f, Some(&cli), &r_doc()), r_list(&["z"]));
    assert_eq!(resolve_field(&f, None, &r_doc()), r_list(&[]));
}

#[test]
fn cli_scalar_wins_over_config() {
    let f = r_field(
        "port",
        ValueKind::Scalar,
        FieldAvailability::CliAndConfig,
        MultiValueBehavior::Extend,
        Some(StructuredValue::Number("8080".to_string())),
    );
    let cli = StructuredValue::Number("5555".to_string());
    assert_eq!(resolve_field(&f, Some(&cli), &r_doc()), StructuredValue::Number("5555".to_string()));
    assert_eq!(resolve_field(&f, None, &r_doc()), StructuredValue::Number("3000".to_string()));
    assert_eq!(
        resolve_field(&f, None, &StructuredValue::Object(vec![])),
        StructuredValue::Number("8080".to_string())
    );
}

#[test]
fn config_true_wins_when_flag_was_not_passed() {
    let f = r_field("debug", ValueKind::Boolean, FieldAvailability::CliAndConfig, MultiValueBehavior::Extend, None);
    assert_eq!(resolve_field(&f, None, &r_doc()), StructuredValue::Bool(true));
    let negated = StructuredValue::Bool(false);
    assert_eq!(resolve_field(&f, Some(&negated), &r_doc()), StructuredValue::Bool(false));
    assert_eq!(resolve_field(&f, None, &StructuredValue::Object(vec![])), StructuredValue::Bool(false));
}

#[test]
fn cli_only_ignores_config() {
    let f = r_field("port", ValueKind::Scalar, FieldAvailability::CliOnly, MultiValueBehavior::Extend, None);
    assert_eq!(resolve_field(&f, None, &r_doc()), StructuredValue::Null);
    let cli = r_text("v");
    assert_eq!(resolve_field(&f, Some(&cli), &r_doc()), r_text("v"));
    let with_default = r_field(
        "port",
        ValueKind::Scalar,
        FieldAvailability::CliOnly,
        MultiValueBehavior::Extend,
        Some(r_text("d")),
    );
    assert_eq!(resolve_field(&with_default, None, &r_doc()), r_text("d"));
}

#[test]
fn config_only_ignores_cli() {
    let f = r_field("port", ValueKind::Scalar, FieldAvailability::ConfigOnly, MultiValueBehavior::Extend, None);
    let cli = r_text("from_cli");
    assert_eq!(resolve_field(&f, Some(&cli), &r_doc()), StructuredValue::Number("3000".to_string()));
    let void = r_field("void", ValueKind::Scalar, FieldAvailability::ConfigOnly, MultiValueBehavior::Extend, Some(r_text("d")));
    assert_eq!(resolve_field(&void, None, &r_doc()), StructuredValue::Null);
}

#[test]
fn internal_is_always_zero() {
    let cli = r_text("from_cli");
    let kinds = [
        (ValueKind::Scalar, StructuredValue::Null),
        (ValueKind::Boolean, StructuredValue::Bool(false)),
        (ValueKind::List, StructuredValue::List(vec![])),
        (ValueKind::Struct, StructuredValue::Object(vec![])),
    ];
    for (kind, zero) in kinds {
        let f = r_field("port", kind, FieldAvailability::Internal, MultiValueBehavior::Extend, Some(r_text("d")));
        assert_eq!(resolve_field(&f, Some(&cli), &r_doc()), zero);
        assert_eq!(zero_of(kind), zero);
    }
}

#[test]
fn defaults_and_config_values() {
    let f = r_field("nope", ValueKind::Struct, FieldAvailability::ConfigOnly, MultiValueBehavior::Extend, None);
    assert_eq!(default_of(&f), StructuredValue::Object(vec![]));
    assert_eq!(config_value_of(&f, &r_doc()), StructuredValue::Object(vec![]));
    assert_eq!(config_value_of(&f, &r_text("not an object")), StructuredValue::Object(vec![]));
}
