use mental::components::Component;
use mental::config::{ConfigError, MentalConfig};

fn s(text: &str) -> String {
    text.to_string()
}

fn names(items: &[&str]) -> Vec<String> {
    items.iter().map(|n| n.to_string()).collect()
}

fn pairs(items: &[(&str, &str)]) -> Vec<(String, String)> {
    items.iter().map(|(k, v)| (k.to_string(), v.to_string())).collect()
}

fn sample() -> MentalConfig {
    let mut config = MentalConfig::new();
    config
        .create_component_with_prefix(
            s("db"),
            s("pg"),
            pairs(&[("HOST", "localhost"), ("PORT", "5432")]),
        )
        .unwrap();
    config.create_component(s("app"), pairs(&[("MODE", "dev")])).unwrap();
    config.create_component(s("cache"), pairs(&[("TTL", "60")])).unwrap();
    config
}

#[test]
fn new_configuration_is_empty() {
    let config = MentalConfig::new();
    assert!(config.list_components().is_empty());
    assert!(config.components().is_empty());
    assert!(!config.name_exists(&s("db")));
    assert!(config.to_env(&names(&["db"])).is_empty());
}

#[test]
fn create_component_adds_a_free_name() {
    let mut config = MentalConfig::new();
    assert!(!config.name_exists(&s("db")));
    assert_eq!(config.create_component(s("db"), pairs(&[("HOST", "localhost")])), Ok(()));
    assert!(config.name_exists(&s("db")));
    assert_eq!(config.list_components(), names(&["db"]));
    assert_eq!(
        config.components(),
        &vec![Component::new(s("db"), None, pairs(&[("HOST", "localhost")]))]
    );
}

#[test]
fn create_component_refuses_a_taken_name() {
    let mut config = sample();
    let before = config.clone();
    assert_eq!(
        config.create_component(s("db"), pairs(&[("OTHER", "1")])),
        Err(ConfigError::NameConflict)
    );
    assert_eq!(config, before);
    assert_eq!(config.list_components(), names(&["db", "app", "cache"]));
}

#[test]
fn create_component_with_prefix_refuses_a_taken_name() {
    let mut config = sample();
    let before = config.clone();
    assert_eq!(
        config.create_component_with_prefix(s("app"), s("x"), pairs(&[("OTHER", "1")])),
        Err(ConfigError::NameConflict)
    );
    assert_eq!(config, before);
    assert_eq!(config.list_components(), names(&["db", "app", "cache"]));
    assert_eq!(config.to_env(&names(&["app"])), names(&["# component app", "MODE=\"dev\""]));
}

#[test]
fn create_component_appends_at_the_end() {
    let mut config = sample();
    assert_eq!(config.create_component(s("zz"), vec![]), Ok(()));
    assert_eq!(config.create_component(s("aa"), vec![]), Ok(()));
    assert_eq!(config.list_components(), names(&["db", "app", "cache", "zz", "aa"]));
}

#[test]
fn created_component_has_no_prefix() {
    let mut config = MentalConfig::new();
    config.create_component(s("app"), pairs(&[("MODE", "dev")])).unwrap();
    assert_eq!(config.components()[0].prefix(), &None);
    assert_eq!(config.to_env(&names(&["app"])), names(&["# component app", "MODE=\"dev\""]));
}

#[test]
fn created_component_with_prefix_keeps_it() {
    let mut config = MentalConfig::new();
    config.create_component_with_prefix(s("app"), s("my"), pairs(&[("MODE", "dev")])).unwrap();
    assert_eq!(config.components()[0].prefix(), &Some(s("my")));
    assert_eq!(config.to_env(&names(&["app"])), names(&["# component app", "MY_MODE=\"dev\""]));
}

#[test]
fn names_are_compared_exactly() {
    let mut config = sample();
    assert!(!config.name_exists(&s("DB")));
    assert!(!config.name_exists(&s("db ")));
    assert!(!config.name_exists(&s("")));
    assert_eq!(config.create_component(s("DB"), vec![]), Ok(()));
    assert!(config.name_exists(&s("DB")));
}

#[test]
fn end_to_end_database_component() {
    let mut config = MentalConfig::new();
    config
        .create_component_with_prefix(
            s("db"),
            s("pg"),
            pairs(&[("HOST", "localhost"), ("PORT", "5432")]),
        )
        .unwrap();
    assert_eq!(
        config.to_env(&names(&["db"])),
        names(&["# component db", "PG_HOST=\"localhost\"", "PG_PORT=5432"])
    );
}

#[test]
fn to_env_ignores_names_without_component() {
    let mut config = MentalConfig::new();
    config.create_component(s("a"), pairs(&[("K", "v"), ("N", "1")])).unwrap();
    assert_eq!(
        config.to_env(&names(&["a", "missing"])),
        names(&["# component a", "K=\"v\"", "N=1"])
    );
    assert!(config.to_env(&names(&["missing"])).is_empty());
    assert!(config.to_env(&[]).is_empty());
}

#[test]
fn to_env_follows_the_order_of_the_configuration() {
    let config = sample();
    let expected = names(&[
        "# component db",
        "PG_HOST=\"localhost\"",
        "PG_PORT=5432",
        "# component cache",
        "TTL=60",
    ]);
    assert_eq!(config.to_env(&names(&["cache", "db"])), expected);
    assert_eq!(config.to_env(&names(&["db", "cache"])), expected);
}

#[test]
fn to_env_takes_a_repeated_name_once() {
    let config = sample();
    assert_eq!(
        config.to_env(&names(&["app", "app", "app"])),
        names(&["# component app", "MODE=\"dev\""])
    );
}

#[test]
fn to_env_twice_gives_the_same_lines() {
    let config = sample();
    let wanted = names(&["db", "missing", "app"]);
    let first = config.to_env(&wanted);
    let second = config.to_env(&wanted);
    assert_eq!(first, second);
    assert_eq!(config.list_components(), names(&["db", "app", "cache"]));
}

#[test]
fn list_components_keeps_storage_order() {
    let config = sample();
    assert_eq!(config.list_components(), names(&["db", "app", "cache"]));
}

#[test]
fn from_components_takes_distinct_names() {
    let config = MentalConfig::from_components(vec![
        Component::new(s("b"), None, pairs(&[("K", "1")])),
        Component::new(s("a"), Some(s("p")), pairs(&[("K", "2")])),
    ])
    .unwrap();
    assert_eq!(config.list_components(), names(&["b", "a"]));
    assert_eq!(
        config.to_env(&names(&["a", "b"])),
        names(&["# component b", "K=1", "# component a", "P_K=2"])
    );
}

#[test]
fn from_components_takes_none() {
    let config = MentalConfig::from_components(vec![]).unwrap();
    assert!(config.list_components().is_empty());
}

#[test]
fn from_components_refuses_a_repeated_name() {
    let result = MentalConfig::from_components(vec![
        Component::new(s("a"), None, vec![]),
        Component::new(s("b"), None, vec![]),
        Component::new(s("a"), Some(s("p")), vec![]),
    ]);
    assert!(matches!(result, Err(ConfigError::NameConflict)));
}

#[test]
fn configuration_rebuilt_from_its_components_is_the_same() {
    let config = sample();
    let rebuilt = MentalConfig::from_components(config.components().clone()).unwrap();
    assert_eq!(rebuilt, config);
    assert_eq!(rebuilt.list_components(), config.list_components());
}

#[test]
fn error_messages() {
    assert_eq!(ConfigError::NameConflict.message(), "Invalid config option: Name already exists");
    assert_eq!(
        ConfigError::ArityMismatch.message(),
        "Invalid config option: Number of keys and values is not equal"
    );
    assert_eq!(
        ConfigError::EmptyInput.message(),
        "Invalid config option: No keys and values given"
    );
}
