use clap_config_file::merge::merge;
use clap_config_file::value::StructuredValue;

fn m_text(s: &str) -> StructuredValue {
    StructuredValue::Text(s.to_string())
}

fn m_num(s: &str) -> StructuredValue {
    StructuredValue::Number(s.to_string())
}

fn m_obj(entries: Vec<(&str, StructuredValue)>) -> StructuredValue {
    StructuredValue::Object(entries.into_iter().map(|(k, v)| (k.to_string(), v)).collect())
}

#[test]
fn raw_overrides_file_key_by_key() {
    let file = m_obj(vec![("port", m_num("3000")), ("db", m_text("x"))]);
    let raw = m_obj(vec![("port", m_num("9000"))]);
    assert_eq!(merge(&file, &raw), m_obj(vec![("port", m_num("9000")), ("db", m_text("x"))]));
}

#[test]
fn null_overlay_keeps_base() {
    let base = m_obj(vec![("a", m_num("1")), ("b", StructuredValue::List(vec![m_text("x")]))]);
    assert_eq!(merge(&base, &StructuredValue::Null), m_obj(vec![
        ("a", m_num("1")),
        ("b", StructuredValue::List(vec![m_text("x")])),
    ]));
    assert_eq!(merge(&m_text("s"), &StructuredValue::Null), m_text("s"));
}

#[test]
fn all_null_object_overlay_keeps_base() {
    let base = m_obj(vec![("a", m_num("1")), ("n", m_obj(vec![("x", m_text("deep"))]))]);
    let overlay = m_obj(vec![
        ("a", StructuredValue::Null),
        ("n", m_obj(vec![("x", StructuredValue::Null)])),
        ("absent", StructuredValue::Null),
    ]);
    assert_eq!(
        merge(&base, &overlay),
        m_obj(vec![("a", m_num("1")), ("n", m_obj(vec![("x", m_text("deep"))]))])
    );
    assert_eq!(merge(&base, &m_obj(vec![])), merge(&base, &StructuredValue::Null));
}

#[test]
fn empty_object_replaces_scalar_base() {
    assert_eq!(merge(&m_num("5"), &m_obj(vec![])), m_obj(vec![]));
}

#[test]
fn scalar_overlay_always_wins() {
    let bases = vec![
        StructuredValue::Null,
        StructuredValue::Bool(false),
        m_num("1"),
        m_text("t"),
        StructuredValue::List(vec![m_num("1")]),
        m_obj(vec![("k", m_num("1"))]),
    ];
    for base in &bases {
        assert_eq!(merge(base, &StructuredValue::Bool(true)), StructuredValue::Bool(true));
        assert_eq!(merge(base, &m_num("7")), m_num("7"));
        assert_eq!(merge(base, &m_text("v")), m_text("v"));
    }
}

#[test]
fn lists_are_replaced_not_merged() {
    let base = m_obj(vec![("l", StructuredValue::List(vec![m_text("x"), m_text("y")]))]);
    let overlay = m_obj(vec![("l", StructuredValue::List(vec![m_text("z")]))]);
    assert_eq!(merge(&base, &overlay), m_obj(vec![("l", StructuredValue::List(vec![m_text("z")]))]));
}

#[test]
fn nested_objects_merge_and_new_keys_follow() {
    let base = m_obj(vec![
        ("server", m_obj(vec![("host", m_text("a")), ("port", m_num("1"))])),
        ("name", m_text("n")),
    ]);
    let overlay = m_obj(vec![
        ("extra", StructuredValue::Bool(true)),
        ("server", m_obj(vec![("port", m_num("2")), ("tls", StructuredValue::Bool(false))])),
        ("skipped", StructuredValue::Null),
        ("more", m_obj(vec![("inner", StructuredValue::Null)])),
    ]);
    assert_eq!(
        merge(&base, &overlay),
        m_obj(vec![
            (
                "server",
                m_obj(vec![
                    ("host", m_text("a")),
                    ("port", m_num("2")),
                    ("tls", StructuredValue::Bool(false)),
                ])
            ),
            ("name", m_text("n")),
            ("extra", StructuredValue::Bool(true)),
            ("more", m_obj(vec![("inner", StructuredValue::Null)])),
        ])
    );
}

#[test]
fn object_overlay_replaces_other_base() {
    let overlay = m_obj(vec![("k", m_num("1"))]);
    assert_eq!(merge(&m_text("s"), &overlay), m_obj(vec![("k", m_num("1"))]));
    assert_eq!(merge(&StructuredValue::Null, &overlay), m_obj(vec![("k", m_num("1"))]));
}
