use mental::config::MentalConfig;
use mental::mapping::{targets_contain, ApplyMode, EnvOutput, Mapping, MentalMapping};

fn s(text: &str) -> String {
    text.to_string()
}

fn names(items: &[&str]) -> Vec<String> {
    items.iter().map(|n| n.to_string()).collect()
}

fn pairs(items: &[(&str, &str)]) -> Vec<(String, String)> {
    items.iter().map(|(k, v)| (k.to_string(), v.to_string())).collect()
}

fn config() -> MentalConfig {
    let mut config = MentalConfig::new();
    config
        .create_component_with_prefix(
            s("db"),
            s("pg"),
            pairs(&[("HOST", "localhost"), ("PORT", "5432")]),
        )
        .unwrap();
    config.create_component(s("app"), pairs(&[("MODE", "dev")])).unwrap();
    config
}

fn written(output: &EnvOutput) -> (String, String) {
    match output {
        EnvOutput::Write { file, content } => (file.clone(), content.clone()),
        EnvOutput::Print { .. } => panic!("expected a file to write"),
    }
}

fn printed(output: &EnvOutput) -> Vec<String> {
    match output {
        EnvOutput::Print { lines } => lines.clone(),
        EnvOutput::Write { .. } => panic!("expected lines to print"),
    }
}

#[test]
fn end_to_end_write_file() {
    let mapping = MentalMapping::new(vec![(s("/srv/app"), names(&["db"]))]);
    let plan = mapping.apply(&config(), names(&["/srv/app"]), ApplyMode::WriteFile);
    assert_eq!(plan.len(), 1);
    assert_eq!(
        written(&plan[0]),
        (s("/srv/app/.env"), s("# component db\nPG_HOST=\"localhost\"\nPG_PORT=5432"))
    );
}

#[test]
fn plan_of_two_modes_differs_only_in_kind() {
    let mapping = MentalMapping::new(vec![(s("/srv/app"), names(&["app"]))]);
    assert_eq!(
        mapping.apply(&config(), names(&["/srv/app"]), ApplyMode::WriteFile),
        vec![EnvOutput::Write {
            file: s("/srv/app/.env"),
            content: s("# component app\nMODE=\"dev\""),
        }]
    );
    assert_eq!(
        mapping.apply(&config(), names(&["/srv/app"]), ApplyMode::PrintOnly),
        vec![EnvOutput::Print { lines: names(&["  # component app", "  MODE=\"dev\""]) }]
    );
}

#[test]
fn print_only_indents_each_line() {
    let mapping = MentalMapping::new(vec![(s("/srv/app"), names(&["db"]))]);
    let plan = mapping.apply(&config(), names(&["/srv/app"]), ApplyMode::PrintOnly);
    assert_eq!(plan.len(), 1);
    assert_eq!(
        printed(&plan[0]),
        names(&["  # component db", "  PG_HOST=\"localhost\"", "  PG_PORT=5432"])
    );
}

#[test]
fn apply_without_matching_target_does_nothing() {
    let mapping = MentalMapping::new(vec![
        (s("/srv/app"), names(&["db"])),
        (s("/srv/web"), names(&["app"])),
    ]);
    assert!(mapping.apply(&config(), names(&["/srv/other"]), ApplyMode::WriteFile).is_empty());
    assert!(mapping.apply(&config(), names(&["/srv/other"]), ApplyMode::PrintOnly).is_empty());
    assert!(mapping.apply(&config(), vec![], ApplyMode::WriteFile).is_empty());
}

#[test]
fn apply_of_no_mappings_does_nothing() {
    let mapping = MentalMapping::new(vec![]);
    assert!(mapping.apply(&config(), names(&["/srv/app"]), ApplyMode::WriteFile).is_empty());
}

#[test]
fn apply_keeps_the_order_of_the_mappings() {
    let mapping = MentalMapping::new(vec![
        (s("/b"), names(&["app"])),
        (s("/skipped"), names(&["db"])),
        (s("/a"), names(&["db"])),
    ]);
    let plan = mapping.apply(&config(), names(&["/a", "/b"]), ApplyMode::WriteFile);
    assert_eq!(plan.len(), 2);
    assert_eq!(written(&plan[0]), (s("/b/.env"), s("# component app\nMODE=\"dev\"")));
    assert_eq!(
        written(&plan[1]),
        (s("/a/.env"), s("# component db\nPG_HOST=\"localhost\"\nPG_PORT=5432"))
    );
}

#[test]
fn apply_takes_each_mapping_of_a_repeated_path() {
    let mapping = MentalMapping::new(vec![
        (s("/srv/app"), names(&["db"])),
        (s("/srv/app"), names(&["app"])),
    ]);
    let plan = mapping.apply(&config(), names(&["/srv/app"]), ApplyMode::WriteFile);
    assert_eq!(plan.len(), 2);
    assert_eq!(written(&plan[0]).0, "/srv/app/.env");
    assert_eq!(written(&plan[1]), (s("/srv/app/.env"), s("# component app\nMODE=\"dev\"")));
}

#[test]
fn apply_takes_a_mapping_once_for_a_repeated_target() {
    let mapping = MentalMapping::new(vec![(s("/srv/app"), names(&["app"]))]);
    let plan = mapping.apply(&config(), names(&["/srv/app", "/srv/app"]), ApplyMode::WriteFile);
    assert_eq!(plan.len(), 1);
}

#[test]
fn unknown_component_names_give_no_lines() {
    let mapping = MentalMapping::new(vec![(s("/srv/app"), names(&["gone", "app", "missing"]))]);
    let plan = mapping.apply(&config(), names(&["/srv/app"]), ApplyMode::WriteFile);
    assert_eq!(written(&plan[0]), (s("/srv/app/.env"), s("# component app\nMODE=\"dev\"")));
    let mapping = MentalMapping::new(vec![(s("/srv/app"), names(&["gone"]))]);
    let plan = mapping.apply(&config(), names(&["/srv/app"]), ApplyMode::WriteFile);
    assert_eq!(written(&plan[0]), (s("/srv/app/.env"), s("")));
    let plan = mapping.apply(&config(), names(&["/srv/app"]), ApplyMode::PrintOnly);
    assert!(printed(&plan[0]).is_empty());
}

#[test]
fn lines_follow_the_configuration_not_the_mapping() {
    let mapping = MentalMapping::new(vec![(s("/srv/app"), names(&["app", "db"]))]);
    let plan = mapping.apply(&config(), names(&["/srv/app"]), ApplyMode::WriteFile);
    assert_eq!(
        written(&plan[0]).1,
        "# component db\nPG_HOST=\"localhost\"\nPG_PORT=5432\n# component app\nMODE=\"dev\""
    );
}

#[test]
fn targets_compare_as_paths() {
    assert!(targets_contain(&names(&["/srv/app"]), &s("/srv/app")));
    assert!(targets_contain(&names(&["/srv/app/"]), &s("/srv/app")));
    assert!(targets_contain(&names(&["/srv//app"]), &s("/srv/app")));
    assert!(targets_contain(&names(&["/srv/./app"]), &s("/srv/app")));
    assert!(targets_contain(&names(&["/x", "/srv/app"]), &s("/srv/app")));
    assert!(!targets_contain(&names(&["/srv/App"]), &s("/srv/app")));
    assert!(!targets_contain(&names(&["srv/app"]), &s("/srv/app")));
    assert!(!targets_contain(&names(&["/srv"]), &s("/srv/app")));
    assert!(!targets_contain(&names(&["/srv/app/.."]), &s("/srv")));
    assert!(!targets_contain(&[], &s("/srv/app")));
}

#[test]
fn apply_matches_a_target_with_trailing_separator() {
    let mapping = MentalMapping::new(vec![(s("/srv/app"), names(&["app"]))]);
    let plan = mapping.apply(&config(), names(&["/srv/app/"]), ApplyMode::WriteFile);
    assert_eq!(plan.len(), 1);
    assert_eq!(written(&plan[0]).0, "/srv/app/.env");
}

#[test]
fn env_file_is_named_from_the_path_as_written() {
    let mapping = MentalMapping::new(vec![(s("relative/dir/"), names(&["app"]))]);
    let plan = mapping.apply(&config(), names(&["relative/dir"]), ApplyMode::WriteFile);
    assert_eq!(written(&plan[0]).0, "relative/dir//.env");
}

#[test]
fn new_keeps_selection_order() {
    let mapping = MentalMapping::new(vec![
        (s("/z"), names(&["b", "a"])),
        (s("/a"), names(&[])),
        (s("/z"), names(&["a"])),
    ]);
    assert_eq!(mapping.mappings.len(), 3);
    assert_eq!(mapping.mappings[0], Mapping::new(s("/z"), names(&["b", "a"])));
    assert_eq!(mapping.mappings[0].path(), "/z");
    assert_eq!(mapping.mappings[0].components(), &names(&["b", "a"]));
    assert_eq!(mapping.mappings[1].path(), "/a");
    assert!(mapping.mappings[1].components().is_empty());
    assert_eq!(mapping.mappings[2].path(), "/z");
    assert_eq!(mapping.mappings[2].components(), &names(&["a"]));
}

#[test]
fn list_targets_keeps_order_and_repeats() {
    let mapping = MentalMapping::new(vec![
        (s("/z"), names(&["b"])),
        (s("/a"), names(&[])),
        (s("/z"), names(&["a"])),
    ]);
    assert_eq!(mapping.list_targets(), names(&["/z", "/a", "/z"]));
    assert!(MentalMapping::new(vec![]).list_targets().is_empty());
}

#[test]
fn apply_to_all_listed_targets_reaches_every_mapping() {
    let mapping = MentalMapping::new(vec![
        (s("/z"), names(&["db"])),
        (s("/a"), names(&["app"])),
    ]);
    let plan = mapping.apply(&config(), mapping.list_targets(), ApplyMode::WriteFile);
    assert_eq!(plan.len(), 2);
    assert_eq!(written(&plan[0]).0, "/z/.env");
    assert_eq!(written(&plan[1]).0, "/a/.env");
}

#[test]
fn single_mapping_output() {
    let mapping = Mapping::new(s("/srv/app"), names(&["app"]));
    assert_eq!(
        written(&mapping.output(&config(), ApplyMode::WriteFile)),
        (s("/srv/app/.env"), s("# component app\nMODE=\"dev\""))
    );
    assert_eq!(
        printed(&mapping.output(&config(), ApplyMode::PrintOnly)),
        names(&["  # component app", "  MODE=\"dev\""])
    );
}
