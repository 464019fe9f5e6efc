use clap_config_file::format::Format;
use clap_config_file::loader::{
    first_accepted, load_document, load_from_path, load_from_raw, load_from_source,
    load_from_text, ConfigSource, Loaded, SourceError,
};
use clap_config_file::value::StructuredValue;

fn l_known() -> Vec<String> {
    vec!["yaml".to_string(), "json".to_string(), "toml".to_string()]
}

fn l_text(s: &str) -> StructuredValue {
    StructuredValue::Text(s.to_string())
}

fn l_num(s: &str) -> StructuredValue {
    StructuredValue::Number(s.to_string())
}

fn l_obj(entries: Vec<(&str, StructuredValue)>) -> StructuredValue {
    StructuredValue::Object(entries.into_iter().map(|(k, v)| (k.to_string(), v)).collect())
}

#[test]
fn json_object_decodes_in_document_order() {
    let v = load_from_text(Format::Json, "{\"port\": 3000, \"db\": \"x\"}").unwrap();
    assert_eq!(v, l_obj(vec![("port", l_num("3000")), ("db", l_text("x"))]));
}

#[test]
fn yaml_document_decodes_every_kind() {
    let text = "port: 9999\ndatabase_url: \"postgres://my-host/db\"\ndebug: true\nnothing: ~\nlist: [a, 2]\nnested: { level: 3, allow: false }\n";
    let v = load_from_text(Format::Yaml, text).unwrap();
    assert_eq!(
        v,
        l_obj(vec![
            ("port", l_num("9999")),
            ("database_url", l_text("postgres://my-host/db")),
            ("debug", StructuredValue::Bool(true)),
            ("nothing", StructuredValue::Null),
            ("list", StructuredValue::List(vec![l_text("a"), l_num("2")])),
            ("nested", l_obj(vec![("level", l_num("3")), ("allow", StructuredValue::Bool(false))])),
        ])
    );
}

#[test]
fn toml_document_decodes() {
    let text = "port = 7\nname = \"n\"\n[server]\nhosts = [\"a\", \"b\"]\n";
    let v = load_from_text(Format::Toml, text).unwrap();
    assert_eq!(
        v,
        l_obj(vec![
            ("port", l_num("7")),
            ("name", l_text("n")),
            ("server", l_obj(vec![("hosts", StructuredValue::List(vec![l_text("a"), l_text("b")]))])),
        ])
    );
}

#[test]
fn root_that_is_no_table_is_rejected() {
    assert!(load_from_text(Format::Json, "[1, 2]").is_err());
    assert!(load_from_text(Format::Json, "3").is_err());
    assert!(load_from_text(Format::Yaml, "just a word").is_err());
    assert!(load_from_text(Format::Json, "{\"a\": ").is_err());
}

#[test]
fn raw_text_tries_json_first() {
    let r = load_from_raw("{\"port\": 9000}").unwrap();
    assert_eq!(r, Loaded { format: Format::Json, value: l_obj(vec![("port", l_num("9000"))]) });
}

#[test]
fn raw_text_falls_to_yaml_then_toml() {
    let r = load_from_raw("port: 9000\n").unwrap();
    assert_eq!(r, Loaded { format: Format::Yaml, value: l_obj(vec![("port", l_num("9000"))]) });
    let r = load_from_raw("port = 9000\n").unwrap();
    assert_eq!(r, Loaded { format: Format::Toml, value: l_obj(vec![("port", l_num("9000"))]) });
}

#[test]
fn raw_text_of_no_format_is_unrecognized() {
    match load_from_raw("{ not ] anything = ") {
        Err(SourceError::Unrecognized { messages }) => {
            assert_eq!(messages.len(), 3);
            assert!(messages.iter().all(|m| !m.is_empty()));
        }
        other => panic!("unexpected outcome: {:?}", other),
    }
}

#[test]
fn file_is_decoded_in_the_format_of_its_extension() {
    let contents = Ok("{\"port\": 1}".to_string());
    let r = load_from_path("dir/settings.JSON", &contents, &l_known()).unwrap();
    assert_eq!(r, Loaded { format: Format::Json, value: l_obj(vec![("port", l_num("1"))]) });
    let contents = Ok("port = 1".to_string());
    let r = load_from_path("settings.toml", &contents, &l_known()).unwrap();
    assert_eq!(r.format, Format::Toml);
}

#[test]
fn file_without_known_extension_is_yaml() {
    let contents = Ok("port: 1".to_string());
    let r = load_from_path("settings.conf", &contents, &l_known()).unwrap();
    assert_eq!(r, Loaded { format: Format::Yaml, value: l_obj(vec![("port", l_num("1"))]) });
    let r = load_from_path("settings", &contents, &l_known()).unwrap();
    assert_eq!(r.format, Format::Yaml);
    let r = load_document(None, &contents, &l_known()).unwrap();
    assert_eq!(r.format, Format::Yaml);
    // a tag that the host does not recognize does not count either
    let r = load_from_path("settings.json", &Ok("port: 1".to_string()), &vec!["toml".to_string()]).unwrap();
    assert_eq!(r.format, Format::Yaml);
}

#[test]
fn read_failure_is_a_read_error() {
    let contents: Result<String, String> = Err("permission denied".to_string());
    assert_eq!(
        load_from_path("settings.json", &contents, &l_known()),
        Err(SourceError::Read("permission denied".to_string()))
    );
}

#[test]
fn malformed_file_is_a_parse_error_of_its_format() {
    let contents = Ok("{ \"port\": ".to_string());
    match load_from_path("settings.json", &contents, &l_known()) {
        Err(SourceError::Parse { format, message }) => {
            assert_eq!(format, Format::Json);
            assert!(!message.is_empty());
        }
        other => panic!("unexpected outcome: {:?}", other),
    }
}

#[test]
fn duplicate_keys_leave_one_entry() {
    let v = load_from_text(Format::Json, "{\"a\": 1, \"b\": 2, \"a\": 3}").unwrap();
    assert_eq!(v, l_obj(vec![("a", l_num("3")), ("b", l_num("2"))]));
    assert!(v.is_well_formed());
    let v = load_from_text(Format::Yaml, "a: {x: 1}\nb: [{y: 2}, {y: 3}]\n").unwrap();
    assert!(v.is_well_formed());
}

#[test]
fn numbers_keep_their_decimal_text() {
    let v = load_from_text(Format::Json, "{\"i\": -12, \"big\": 18446744073709551615, \"f\": 1.5}").unwrap();
    assert_eq!(
        v,
        l_obj(vec![("i", l_num("-12")), ("big", l_num("18446744073709551615")), ("f", l_num("1.5"))])
    );
}

#[test]
fn sources_are_loaded_by_their_kind() {
    let file = ConfigSource::FilePath { path: "c.toml".to_string(), contents: Ok("a = 1".to_string()) };
    assert_eq!(
        load_from_source(&file, &l_known()),
        Ok(Loaded { format: Format::Toml, value: l_obj(vec![("a", l_num("1"))]) })
    );
    let raw = ConfigSource::RawText("a: 1".to_string());
    assert_eq!(
        load_from_source(&raw, &l_known()),
        Ok(Loaded { format: Format::Yaml, value: l_obj(vec![("a", l_num("1"))]) })
    );
}

#[test]
fn failures_have_messages() {
    assert_eq!(
        SourceError::Read("denied".to_string()).message(),
        "Failed to read config file: denied"
    );
    assert_eq!(
        SourceError::Parse { format: Format::Json, message: "eof".to_string() }.message(),
        "Failed to build config: eof"
    );
    assert_eq!(
        SourceError::Unrecognized { messages: vec!["a".to_string(), "b".to_string()] }.message(),
        "Failed to parse raw config: b"
    );
    assert_eq!(SourceError::Unrecognized { messages: vec![] }.message(), "Failed to parse raw config: ");
}

#[test]
fn first_document_among_outcomes_wins() {
    let doc = |n: &str| l_obj(vec![("n", l_num(n))]);
    let r = first_accepted(vec![
        (Format::Json, Err("no json".to_string())),
        (Format::Yaml, Ok(doc("1"))),
        (Format::Toml, Ok(doc("2"))),
    ]);
    assert_eq!(r, Ok(Loaded { format: Format::Yaml, value: doc("1") }));
    let r = first_accepted(vec![
        (Format::Json, Err("no json".to_string())),
        (Format::Yaml, Err("no yaml".to_string())),
        (Format::Toml, Err("no toml".to_string())),
    ]);
    assert_eq!(
        r,
        Err(SourceError::Unrecognized {
            messages: vec!["no json".to_string(), "no yaml".to_string(), "no toml".to_string()]
        })
    );
    assert_eq!(first_accepted(vec![]), Err(SourceError::Unrecognized { messages: vec![] }));
}
