use clap_config_file::parse_attrs::{
    parse_fields, ArgAttributes, ArgItem, AttributeDecl, AttributeShape, FieldAvailability,
    FieldDecl, FieldInfo, Literal, MultiValueBehavior, SchemaError, SchemaErrorKind, TypeDecl,
};
use clap_config_file::schema::{
    build_schema, cli_arguments, cli_value, parse_bool, ArgAction, ArgDefault, CliArgument,
    FieldSchema, Schema, StructDecl, ValueKind,
};
use clap_config_file::value::StructuredValue;

fn s_pair(key: &str, value: &str) -> ArgItem {
    ArgItem::NameValue { key: Some(key.to_string()), value: Literal::Str(value.to_string()) }
}

fn s_config_arg(items: Vec<ArgItem>) -> AttributeDecl {
    AttributeDecl { name: Some("config_arg".to_string()), shape: AttributeShape::List(Ok(items)) }
}

fn s_named(name: &str, value: &str) -> AttributeDecl {
    AttributeDecl {
        name: Some(name.to_string()),
        shape: AttributeShape::NameValue(Literal::Str(value.to_string())),
    }
}

fn s_field(ident: &str, ty: &str, attrs: Vec<AttributeDecl>) -> FieldDecl {
    FieldDecl {
        ident: Some(ident.to_string()),
        attrs,
        ty: TypeDecl { last_segment: Some(ty.to_string()) },
    }
}

fn s_info(ident: &str, ty: &str, attrs: ArgAttributes) -> FieldInfo {
    FieldInfo { ident: ident.to_string(), ty: TypeDecl { last_segment: Some(ty.to_string()) }, arg_attrs: attrs }
}

fn s_attrs(availability: FieldAvailability) -> ArgAttributes {
    ArgAttributes {
        name: None,
        short: None,
        default_value: None,
        positional: false,
        availability,
        multi_value_behavior: MultiValueBehavior::Extend,
    }
}

fn s_advanced() -> StructDecl {
    StructDecl {
        attrs: vec![
            s_named("config_file_name", "advanced-config"),
            s_named("config_file_formats", "yaml,toml,json"),
        ],
        fields: Some(vec![
            s_field("database_url", "String", vec![s_config_arg(vec![])]),
            s_field(
                "server_port",
                "u16",
                vec![
                    s_named("doc", " Port to run the server on"),
                    s_config_arg(vec![
                        s_pair("name", "port"),
                        s_pair("default_value", "8080"),
                        s_pair("accept_from", "cli_and_config"),
                    ]),
                ],
            ),
            s_field("debug", "bool", vec![s_config_arg(vec![])]),
            s_field("special_secret", "String", vec![s_config_arg(vec![s_pair("accept_from", "config_only")])]),
            s_field("extra_settings", "ExtraSettings", vec![s_config_arg(vec![s_pair("accept_from", "config_only")])]),
            s_field("extend_list", "Vec", vec![s_config_arg(vec![s_pair("multi_value_behavior", "extend")])]),
            s_field("overwrite_list", "Vec", vec![s_config_arg(vec![s_pair("multi_value_behavior", "overwrite")])]),
            s_field("paths", "Vec", vec![s_config_arg(vec![ArgItem::Word(Some("positional".to_string()))])]),
            s_field("internal_config", "String", vec![]),
        ]),
    }
}

fn s_leak(s: &str) -> &'static str {
    Box::leak(s.to_string().into_boxed_str())
}

fn s_command(name: &str, arguments: Vec<Option<CliArgument>>) -> clap::Command {
    let mut command = clap::Command::new(s_leak(name))
        .arg(clap::Arg::new("no-config").long("no-config").action(clap::ArgAction::SetTrue))
        .arg(clap::Arg::new("config-file").long("config-file"));
    for a in arguments.into_iter().flatten() {
        let mut arg = clap::Arg::new(s_leak(&a.ident));
        if !a.positional {
            arg = arg.long(s_leak(&a.name));
        }
        if let Some(c) = a.short {
            arg = arg.short(c);
        }
        arg = match a.action {
            ArgAction::Store => arg.action(clap::ArgAction::Set),
            ArgAction::StoreTrue => arg.action(clap::ArgAction::SetTrue),
            ArgAction::Append => arg.action(clap::ArgAction::Append).num_args(1..),
        };
        command = command.arg(arg);
    }
    command
}

#[test]
fn field_names_default_to_kebab_case() {
    let info = s_info("server_port", "u16", s_attrs(FieldAvailability::CliAndConfig));
    assert_eq!(info.cli_name(), "server-port");
    assert_eq!(info.config_key(), "server_port");
    let info = s_info("extendList", "Vec", s_attrs(FieldAvailability::CliAndConfig));
    assert_eq!(info.cli_name(), "extend-list");
    let mut named = s_attrs(FieldAvailability::CliAndConfig);
    named.name = Some("The_Port".to_string());
    let info = s_info("server_port", "u16", named);
    assert_eq!(info.cli_name(), "The_Port");
    assert_eq!(info.config_key(), "The_Port");
}

#[test]
fn surfaces_follow_availability() {
    let on = |a: FieldAvailability| {
        let info = s_info("f", "String", s_attrs(a));
        (info.is_on_cli(), info.is_on_config())
    };
    assert_eq!(on(FieldAvailability::Internal), (false, false));
    assert_eq!(on(FieldAvailability::CliOnly), (true, false));
    assert_eq!(on(FieldAvailability::ConfigOnly), (false, true));
    assert_eq!(on(FieldAvailability::CliAndConfig), (true, true));
}

#[test]
fn parse_bool_accepts_any_case() {
    assert_eq!(parse_bool("true"), Some(true));
    assert_eq!(parse_bool("FALSE"), Some(false));
    assert_eq!(parse_bool("False"), Some(false));
    assert_eq!(parse_bool("yes"), None);
    assert_eq!(parse_bool(""), None);
}

#[test]
fn cli_argument_of_each_kind_of_field() {
    let infos = parse_fields(s_advanced().fields.as_ref().unwrap()).unwrap();
    let arguments = cli_arguments(&infos).unwrap();
    assert_eq!(arguments.len(), 9);
    assert_eq!(
        arguments[0],
        Some(CliArgument {
            ident: "database_url".to_string(),
            name: "database-url".to_string(),
            positional: false,
            short: None,
            action: ArgAction::Store,
            default: ArgDefault::Absent,
        })
    );
    assert_eq!(
        arguments[1],
        Some(CliArgument {
            ident: "server_port".to_string(),
            name: "port".to_string(),
            positional: false,
            short: None,
            action: ArgAction::Store,
            default: ArgDefault::Text("8080".to_string()),
        })
    );
    assert_eq!(arguments[2].as_ref().unwrap().action, ArgAction::StoreTrue);
    assert_eq!(arguments[3], None);
    assert_eq!(arguments[4], None);
    assert_eq!(arguments[5].as_ref().unwrap().action, ArgAction::Append);
    assert_eq!(arguments[5].as_ref().unwrap().name, "extend-list");
    assert_eq!(
        arguments[7],
        Some(CliArgument {
            ident: "paths".to_string(),
            name: "paths".to_string(),
            positional: true,
            short: None,
            action: ArgAction::Append,
            default: ArgDefault::Absent,
        })
    );
    assert_eq!(arguments[8], None);
}

#[test]
fn boolean_default_must_spell_a_boolean() {
    let mut attrs = s_attrs(FieldAvailability::CliAndConfig);
    attrs.default_value = Some("True".to_string());
    attrs.short = Some('d');
    let info = s_info("debug", "bool", attrs);
    let a = info.cli_argument().unwrap();
    assert_eq!(a.default, ArgDefault::Flag(true));
    assert_eq!(a.action, ArgAction::Store);
    assert_eq!(a.short, Some('d'));

    let mut attrs = s_attrs(FieldAvailability::CliAndConfig);
    attrs.default_value = Some("maybe".to_string());
    let info = s_info("debug", "bool", attrs);
    assert_eq!(info.cli_argument(), Err(SchemaErrorKind::InvalidBoolDefault("maybe".to_string())));
    assert_eq!(
        cli_arguments(&vec![s_info("ok", "u8", s_attrs(FieldAvailability::CliOnly)), info]),
        Err(SchemaError { field: 1, attribute: 0, kind: SchemaErrorKind::InvalidBoolDefault("maybe".to_string()) })
    );
}

#[test]
fn positional_argument_has_neither_short_nor_default() {
    let mut attrs = s_attrs(FieldAvailability::CliOnly);
    attrs.positional = true;
    attrs.short = Some('i');
    attrs.default_value = Some("x".to_string());
    let a = s_info("input", "String", attrs).cli_argument().unwrap();
    assert_eq!(a.short, None);
    assert_eq!(a.default, ArgDefault::Absent);
    assert_eq!(a.action, ArgAction::Store);
    assert!(a.positional);
}

#[test]
fn schema_of_the_advanced_declaration() {
    let schema = build_schema(&s_advanced()).unwrap();
    assert_eq!(schema.config.base_name, "advanced-config");
    assert_eq!(schema.config.formats, vec!["yaml", "toml", "json"]);
    assert_eq!(schema.fields.len(), 9);
    let f = &schema.fields[1];
    assert_eq!(f.key, "port");
    assert_eq!(f.long, "port");
    assert_eq!(f.value_kind, ValueKind::Scalar);
    assert_eq!(f.availability, FieldAvailability::CliAndConfig);
    assert_eq!(f.default_value, Some(StructuredValue::Text("8080".to_string())));
    let f = &schema.fields[2];
    assert_eq!(f.value_kind, ValueKind::Boolean);
    assert_eq!(f.default_value, None);
    let f = &schema.fields[5];
    assert_eq!((f.key.as_str(), f.long.as_str()), ("extend_list", "extend-list"));
    assert_eq!(f.value_kind, ValueKind::List);
    assert_eq!(f.multi_value_behavior, MultiValueBehavior::Extend);
    assert_eq!(schema.fields[6].multi_value_behavior, MultiValueBehavior::Overwrite);
    let f = &schema.fields[7];
    assert!(f.is_positional);
    assert_eq!(f.availability, FieldAvailability::CliOnly);
    assert_eq!(schema.fields[8].availability, FieldAvailability::Internal);
    assert_eq!(schema.fields[3].availability, FieldAvailability::ConfigOnly);
}

#[test]
fn declared_defaults_become_values() {
    let mut attrs = s_attrs(FieldAvailability::CliAndConfig);
    attrs.default_value = Some("a".to_string());
    let f = s_info("tags", "Vec", attrs).to_schema().unwrap();
    assert_eq!(f.default_value, Some(StructuredValue::List(vec![StructuredValue::Text("a".to_string())])));
    let mut attrs = s_attrs(FieldAvailability::CliOnly);
    attrs.default_value = Some("false".to_string());
    let f = s_info("debug", "bool", attrs).to_schema().unwrap();
    assert_eq!(f.default_value, Some(StructuredValue::Bool(false)));
    // a field that is not on the command line has no declared default
    let mut attrs = s_attrs(FieldAvailability::ConfigOnly);
    attrs.default_value = Some("nonsense".to_string());
    let f = s_info("debug", "bool", attrs).to_schema().unwrap();
    assert_eq!(f.default_value, None);
}

#[test]
fn positional_field_must_be_cli_only() {
    let mut attrs = s_attrs(FieldAvailability::ConfigOnly);
    attrs.positional = true;
    assert_eq!(s_info("paths", "Vec", attrs).to_schema().err(), Some(SchemaErrorKind::PositionalAcceptFrom));
}

#[test]
fn declaration_errors() {
    let not_named = StructDecl { attrs: vec![], fields: None };
    assert_eq!(
        build_schema(&not_named).err(),
        Some(SchemaError { field: 0, attribute: 0, kind: SchemaErrorKind::NotNamedStruct })
    );
    // the attributes of all fields are read before any default is looked at
    let decl = StructDecl {
        attrs: vec![],
        fields: Some(vec![
            s_field("debug", "bool", vec![s_config_arg(vec![s_pair("default_value", "maybe")])]),
            s_field("x", "u8", vec![s_config_arg(vec![s_pair("accept_from", "nowhere")])]),
        ]),
    };
    assert_eq!(
        build_schema(&decl).err(),
        Some(SchemaError { field: 1, attribute: 0, kind: SchemaErrorKind::InvalidAcceptFrom("nowhere".to_string()) })
    );
    let decl = StructDecl {
        attrs: vec![],
        fields: Some(vec![
            s_field("x", "u8", vec![]),
            s_field("debug", "bool", vec![s_config_arg(vec![s_pair("default_value", "maybe")])]),
        ]),
    };
    assert_eq!(
        build_schema(&decl).err(),
        Some(SchemaError { field: 1, attribute: 0, kind: SchemaErrorKind::InvalidBoolDefault("maybe".to_string()) })
    );
}

#[test]
fn cli_config_only_field_error() {
    let infos = parse_fields(s_advanced().fields.as_ref().unwrap()).unwrap();
    let command = s_command("advanced", cli_arguments(&infos).unwrap());
    let err = command
        .try_get_matches_from(["advanced", "--special-secret", "from_cli"])
        .unwrap_err();
    assert!(err.to_string().contains("unexpected argument '--special-secret'"));
}

#[test]
fn command_line_takes_the_declared_arguments() {
    let infos = parse_fields(s_advanced().fields.as_ref().unwrap()).unwrap();
    let command = s_command("advanced", cli_arguments(&infos).unwrap());
    let m = command
        .try_get_matches_from(["advanced", "--port", "9", "--extend-list", "a", "--extend-list", "b", "--debug", "one.txt", "two.txt"])
        .unwrap();
    assert_eq!(m.get_one::<String>("server_port").map(|s| s.as_str()), Some("9"));
    assert_eq!(
        m.get_many::<String>("extend_list").unwrap().map(|s| s.as_str()).collect::<Vec<_>>(),
        vec!["a", "b"]
    );
    assert!(m.get_flag("debug"));
    assert_eq!(
        m.get_many::<String>("paths").unwrap().map(|s| s.as_str()).collect::<Vec<_>>(),
        vec!["one.txt", "two.txt"]
    );
}

#[test]
fn tokens_become_values_by_the_kind_of_the_field() {
    assert_eq!(cli_value(ValueKind::Boolean, "TRUE"), StructuredValue::Bool(true));
    assert_eq!(cli_value(ValueKind::Boolean, "false"), StructuredValue::Bool(false));
    assert_eq!(cli_value(ValueKind::Boolean, "on"), StructuredValue::Text("on".to_string()));
    assert_eq!(cli_value(ValueKind::Scalar, "true"), StructuredValue::Text("true".to_string()));
    assert_eq!(cli_value(ValueKind::Scalar, "9090"), StructuredValue::Text("9090".to_string()));
    assert_eq!(cli_value(ValueKind::List, ""), StructuredValue::Text("".to_string()));
}

#[test]
fn first_invalid_field_of_a_schema() {
    let field = |positional: bool, availability: FieldAvailability| FieldSchema {
        key: "k".to_string(),
        long: "k".to_string(),
        short: None,
        value_kind: ValueKind::Scalar,
        availability,
        multi_value_behavior: MultiValueBehavior::Extend,
        is_positional: positional,
        default_value: None,
    };
    let schema = |fields: Vec<FieldSchema>| Schema {
        config: clap_config_file::parse_attrs::MacroConfig { base_name: "c".to_string(), formats: vec![] },
        fields,
    };
    assert_eq!(schema(vec![]).first_invalid(), None);
    assert_eq!(
        schema(vec![
            field(false, FieldAvailability::ConfigOnly),
            field(true, FieldAvailability::CliOnly),
        ])
        .first_invalid(),
        None
    );
    assert_eq!(
        schema(vec![
            field(true, FieldAvailability::CliOnly),
            field(true, FieldAvailability::ConfigOnly),
            field(true, FieldAvailability::Internal),
        ])
        .first_invalid(),
        Some(1)
    );
    assert_eq!(build_schema(&s_advanced()).unwrap().first_invalid(), None);
}
