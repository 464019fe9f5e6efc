use clap_config_file::parse_attrs::{FieldAvailability, MultiValueBehavior};
use clap_config_file::positional::{assign_positionals, supplied_value};
use clap_config_file::schema::{FieldSchema, ValueKind};
use clap_config_file::value::StructuredValue;

fn o_field(key: &str, kind: ValueKind, positional: bool) -> FieldSchema {
    FieldSchema {
        key: key.to_string(),
        long: key.to_string(),
        short: None,
        value_kind: kind,
        availability: FieldAvailability::CliOnly,
        multi_value_behavior: MultiValueBehavior::Extend,
        is_positional: positional,
        default_value: None,
    }
}

fn o_tokens(tokens: &[&str]) -> Vec<String> {
    tokens.iter().map(|s| s.to_string()).collect()
}

fn o_text(s: &str) -> StructuredValue {
    StructuredValue::Text(s.to_string())
}

#[test]
fn scalar_takes_one_and_list_takes_the_rest() {
    let fields = vec![
        o_field("flag", ValueKind::Scalar, false),
        o_field("input", ValueKind::Scalar, true),
        o_field("paths", ValueKind::List, true),
        o_field("late", ValueKind::Scalar, true),
    ];
    let r = assign_positionals(&fields, &o_tokens(&["in.txt", "a", "b"]));
    assert_eq!(
        r,
        vec![
            None,
            Some(o_text("in.txt")),
            Some(StructuredValue::List(vec![o_text("a"), o_text("b")])),
            None,
        ]
    );
}

#[test]
fn nothing_left_gives_nothing() {
    let fields = vec![o_field("input", ValueKind::Scalar, true), o_field("paths", ValueKind::List, true)];
    assert_eq!(assign_positionals(&fields, &o_tokens(&[])), vec![None, None]);
    assert_eq!(assign_positionals(&fields, &o_tokens(&["x"])), vec![Some(o_text("x")), None]);
    assert_eq!(assign_positionals(&vec![], &o_tokens(&["x"])), vec![]);
}

#[test]
fn scalars_take_tokens_in_order() {
    let fields = vec![
        o_field("a", ValueKind::Scalar, true),
        o_field("b", ValueKind::Boolean, true),
        o_field("c", ValueKind::Struct, true),
    ];
    assert_eq!(
        assign_positionals(&fields, &o_tokens(&["1", "2", "3", "4"])),
        vec![Some(o_text("1")), Some(o_text("2")), Some(o_text("3"))]
    );
}

#[test]
fn supplied_value_prefers_positional_then_flag_then_presence() {
    let p = || Some(o_text("positional"));
    let f = || Some(o_text("flag"));
    assert_eq!(supplied_value(true, p(), f()), p());
    assert_eq!(supplied_value(false, p(), None), p());
    assert_eq!(supplied_value(true, None, f()), f());
    assert_eq!(supplied_value(false, None, f()), f());
    assert_eq!(supplied_value(true, None, None), Some(StructuredValue::Bool(true)));
    // a flag that was not passed supplies nothing, not `false`
    assert_eq!(supplied_value(false, None, None), None);
}
