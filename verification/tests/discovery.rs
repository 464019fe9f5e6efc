use clap_config_file::discovery::{
    candidate_name, candidate_names, discover, discovery_step, Candidate, DiscoveryAmbiguity,
    AMBIGUITY_EXIT_CODE,
};

#[test]
fn file_in_ancestor_is_found() {
    // cwd /a/b/c, then /a/b, /a and /; extensions yaml, toml, json; the file is /a/app-config.yaml
    let table = vec![
        vec![false, false, false],
        vec![false, false, false],
        vec![true, false, false],
        vec![false, false, false],
    ];
    let found = discover(&table).unwrap().unwrap();
    assert_eq!(found, Candidate { level: 2, format: 0 });
    assert_eq!(candidate_name("app-config", "yaml"), "app-config.yaml");
    let dirs = ["/a/b/c", "/a/b", "/a", "/"];
    let names = candidate_names("app-config", &vec!["yaml".to_string(), "toml".to_string(), "json".to_string()]);
    assert_eq!(
        std::path::Path::new(dirs[found.level]).join(&names[found.format]),
        std::path::Path::new("/a/app-config.yaml")
    );
}

#[test]
fn two_formats_in_one_directory_are_ambiguous() {
    // app-config.yaml and app-config.json side by side
    let table = vec![vec![true, false, true], vec![false, false, false]];
    assert_eq!(
        discover(&table),
        Err(DiscoveryAmbiguity::SameDirectory { level: 0, first: 0, second: 2 })
    );
    let names = candidate_names("app-config", &vec!["yaml".to_string(), "toml".to_string(), "json".to_string()]);
    assert_eq!(names[0], "app-config.yaml");
    assert_eq!(names[2], "app-config.json");
    let ambiguity = discover(&table).unwrap_err();
    let (first, second) = ambiguity.candidates();
    assert_eq!((first, second), (Candidate { level: 0, format: 0 }, Candidate { level: 0, format: 2 }));
    let diagnostic = ambiguity.message(&names[first.format], &names[second.format]);
    assert_eq!(
        diagnostic,
        "Error: multiple config files in same dir: app-config.yaml and app-config.json"
    );
    assert_eq!(AMBIGUITY_EXIT_CODE, 2);
}

#[test]
fn files_in_two_directories_are_ambiguous() {
    let table = vec![vec![false, true], vec![false, false], vec![true, false]];
    assert_eq!(
        discover(&table),
        Err(DiscoveryAmbiguity::AcrossDirectories {
            lower: Candidate { level: 0, format: 1 },
            upper: Candidate { level: 2, format: 0 },
        })
    );
}

#[test]
fn ambiguity_across_directories_names_both_files() {
    let e = DiscoveryAmbiguity::AcrossDirectories {
        lower: Candidate { level: 0, format: 1 },
        upper: Candidate { level: 2, format: 0 },
    };
    assert_eq!(e.candidates(), (Candidate { level: 0, format: 1 }, Candidate { level: 2, format: 0 }));
    assert_eq!(
        e.message("/a/b/c/app-config.toml", "/a/app-config.yaml"),
        "Error: multiple config files found walking up: /a/b/c/app-config.toml and /a/app-config.yaml"
    );
}

#[test]
fn nothing_found_is_none() {
    assert_eq!(discover(&vec![]), Ok(None));
    assert_eq!(discover(&vec![vec![], vec![false]]), Ok(None));
}

#[test]
fn same_directory_conflict_is_reported_before_the_one_below() {
    let table = vec![vec![true, false], vec![true, true]];
    assert_eq!(
        discover(&table),
        Err(DiscoveryAmbiguity::SameDirectory { level: 1, first: 0, second: 1 })
    );
}

#[test]
fn step_by_step_walk() {
    assert_eq!(discovery_step(None, 0, &vec![false, false]), Ok(None));
    assert_eq!(
        discovery_step(None, 3, &vec![false, true]),
        Ok(Some(Candidate { level: 3, format: 1 }))
    );
    let found = Some(Candidate { level: 3, format: 1 });
    assert_eq!(discovery_step(found, 4, &vec![false, false]), Ok(found));
    assert_eq!(
        discovery_step(found, 5, &vec![true, false]),
        Err(DiscoveryAmbiguity::AcrossDirectories {
            lower: Candidate { level: 3, format: 1 },
            upper: Candidate { level: 5, format: 0 },
        })
    );
    assert_eq!(
        discovery_step(found, 5, &vec![true, true, true]),
        Err(DiscoveryAmbiguity::SameDirectory { level: 5, first: 0, second: 1 })
    );
}

#[test]
fn candidate_names_follow_extensions() {
    let names = candidate_names("config", &vec!["yaml".to_string(), "".to_string()]);
    assert_eq!(names, vec!["config.yaml".to_string(), "config.".to_string()]);
    assert_eq!(candidate_names("config", &vec![]), Vec::<String>::new());
}
