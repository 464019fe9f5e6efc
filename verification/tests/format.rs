use clap_config_file::format::{
    detect_format, guess_format, match_extension, match_tag, tag_format, Format,
};

fn f_known() -> Vec<String> {
    vec!["yaml".to_string(), "json".to_string(), "toml".to_string()]
}

#[test]
fn extension_is_lower_cased_before_matching() {
    assert_eq!(guess_format("settings/App-Config.YAML", &f_known()), Some("yaml".to_string()));
    assert_eq!(guess_format("a.Json", &f_known()), Some("json".to_string()));
    assert_eq!(match_extension(Some("TOML"), &f_known()), Some("toml".to_string()));
}

#[test]
fn unknown_or_missing_extension_matches_nothing() {
    assert_eq!(guess_format("config.ini", &f_known()), None);
    assert_eq!(guess_format("config", &f_known()), None);
    assert_eq!(guess_format(".yaml", &f_known()), None);
    assert_eq!(guess_format("config.yml", &f_known()), None);
    assert_eq!(guess_format("config.yaml", &vec![]), None);
    assert_eq!(match_extension(None, &f_known()), None);
}

#[test]
fn extension_is_what_follows_the_last_dot_of_the_file_name() {
    assert_eq!(guess_format("dir.json/config.toml", &f_known()), Some("toml".to_string()));
    assert_eq!(guess_format("archive.yaml.json", &f_known()), Some("json".to_string()));
    assert_eq!(guess_format("dir.json/config", &f_known()), None);
}

#[test]
fn tags_stand_for_formats() {
    assert_eq!(tag_format("json"), Format::Json);
    assert_eq!(tag_format("toml"), Format::Toml);
    assert_eq!(tag_format("yaml"), Format::Yaml);
    assert_eq!(tag_format("yml"), Format::Yaml);
    assert_eq!(tag_format("conf"), Format::Yaml);
}

#[test]
fn detect_format_maps_the_matched_tag() {
    assert_eq!(detect_format("x/app.JSON", &f_known()), Some(Format::Json));
    assert_eq!(detect_format("x/app.yml", &vec!["yml".to_string()]), Some(Format::Yaml));
    assert_eq!(detect_format("x/app.txt", &f_known()), None);
}

#[test]
fn match_tag_compares_as_given() {
    assert_eq!(match_tag("json", &f_known()), Some("json".to_string()));
    assert_eq!(match_tag("JSON", &f_known()), None);
    assert_eq!(match_tag("", &f_known()), None);
    assert_eq!(match_tag("", &vec!["".to_string()]), Some("".to_string()));
}

#[test]
fn extension_of_a_bare_file_name() {
    let known = |tag: &str| vec![tag.to_string()];
    assert_eq!(guess_format("config.yaml", &known("yaml")), Some("yaml".to_string()));
    assert_eq!(guess_format("a.b.toml", &known("toml")), Some("toml".to_string()));
    assert_eq!(guess_format(".a.b", &known("b")), Some("b".to_string()));
    // a name that ends in its dot has the empty extension
    assert_eq!(guess_format("config.", &known("")), Some("".to_string()));
    assert_eq!(guess_format("...", &known("")), Some("".to_string()));
    // no dot, the only dot in front, and `..` have none
    assert_eq!(guess_format("config", &known("")), None);
    assert_eq!(guess_format("", &known("")), None);
    assert_eq!(guess_format(".", &known("")), None);
    assert_eq!(guess_format("..", &known("")), None);
    assert_eq!(guess_format(".yaml", &known("yaml")), None);
    assert_eq!(guess_format(".yaml", &known("")), None);
}
