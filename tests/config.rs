use alias_manager::{Report, Table, TomlConfig};

fn table(pairs: &[(&str, &str)]) -> Table<String> {
    Table::from_entries(
        pairs
            .iter()
            .map(|(k, v)| (k.to_string(), v.to_string()))
            .collect(),
    )
}

fn sorted(t: &Table<String>) -> Vec<(String, String)> {
    let mut p = t.pairs();
    p.sort();
    p
}

fn pairs(p: &[(&str, &str)]) -> Vec<(String, String)> {
    let mut v: Vec<(String, String)> = p.iter().map(|(k, v)| (k.to_string(), v.to_string())).collect();
    v.sort();
    v
}

fn lookup(config: &TomlConfig, alias: &str, group: Option<&str>) -> Option<String> {
    config
        .get_group(group)
        .and_then(|t| t.get(&alias.to_string()).cloned())
}

fn mock_toml_config() -> TomlConfig {
    let general = table(&[("ls", "ls -l"), ("ll", "ls -al")]);
    let aws = table(&[("aws_help", "aws --help"), ("aws_version", "aws --version")]);
    TomlConfig::from_parts(general.pairs(), Some(vec![("aws".to_string(), aws)]))
}

#[test]
fn test_toml_config_get_group_with_no_group_name() {
    let toml_config = mock_toml_config();
    assert_eq!(
        sorted(toml_config.get_group(None).unwrap()),
        pairs(&[("ls", "ls -l"), ("ll", "ls -al")])
    );
}

#[test]
fn test_toml_config_get_group_with_group_name() {
    let toml_config = mock_toml_config();
    assert_eq!(
        sorted(toml_config.get_group(Some("aws")).unwrap()),
        pairs(&[("aws_help", "aws --help"), ("aws_version", "aws --version")])
    );
}

#[test]
fn test_toml_config_add() {
    let mut toml_config = mock_toml_config();
    toml_config.add("ls", "ls -l", None);
    assert_eq!(lookup(&toml_config, "ls", None), Some("ls -l".to_string()));
}

#[test]
fn test_toml_config_add_with_group() {
    let mut toml_config = mock_toml_config();
    toml_config.add("ls", "ls -l", Some("aws"));
    assert_eq!(lookup(&toml_config, "ls", Some("aws")), Some("ls -l".to_string()));
}

#[test]
fn test_toml_config_add_exist_command() {
    let mut toml_config = mock_toml_config();
    toml_config.add("ls", "ls -al", Some("aws"));
    assert_eq!(lookup(&toml_config, "ls", Some("aws")), Some("ls -al".to_string()));
}

#[test]
fn test_toml_config_list() {
    let toml_config = mock_toml_config();
    toml_config.list(None);
    assert_eq!(
        sorted(toml_config.general()),
        pairs(&[("ls", "ls -l"), ("ll", "ls -al")])
    );
}

#[test]
fn test_toml_config_list_with_group() {
    let toml_config = mock_toml_config();
    toml_config.list(Some("aws"));
    assert_eq!(
        sorted(toml_config.get_group(Some("aws")).unwrap()),
        pairs(&[("aws_help", "aws --help"), ("aws_version", "aws --version")])
    );
}

#[test]
fn test_toml_config_show() {
    let toml_config = mock_toml_config();
    toml_config.list(None);
    assert_eq!(
        sorted(toml_config.general()),
        pairs(&[("ls", "ls -l"), ("ll", "ls -al")])
    );
}

#[test]
fn test_toml_config_show_with_group() {
    let toml_config = mock_toml_config();
    toml_config.list(Some("aws"));
    assert_eq!(
        sorted(toml_config.get_group(Some("aws")).unwrap()),
        pairs(&[("aws_help", "aws --help"), ("aws_version", "aws --version")])
    );
}

#[test]
fn test_toml_config_remove() {
    let mut toml_config = mock_toml_config();
    toml_config.remove("ls", None);
    assert_eq!(lookup(&toml_config, "ls", None), None);
}

#[test]
fn test_toml_config_remove_with_group() {
    let mut toml_config = mock_toml_config();
    toml_config.remove("ls", Some("aws"));
    assert_eq!(lookup(&toml_config, "ls", Some("aws")), None);
}

#[test]
fn test_toml_config_execute() {
    let toml_config = mock_toml_config();
    toml_config.execute("ls", None);
}

#[test]
fn test_toml_config_execute_with_group() {
    let toml_config = mock_toml_config();
    toml_config.execute("ls", Some("aws"));
}

#[test]
fn add_then_show_reports_the_command() {
    let mut config = mock_toml_config();
    config.add("gs", "git status", Some("dev"));
    match config.show("gs", Some("dev")) {
        Report::Shown(a, c) => {
            assert_eq!(a, "gs");
            assert_eq!(c, "git status");
        }
        _ => panic!("expected the alias to be shown"),
    }
}

#[test]
fn add_twice_keeps_the_second_command() {
    let mut config = mock_toml_config();
    config.add("x", "first", None);
    config.add("x", "second", None);
    assert_eq!(lookup(&config, "x", None), Some("second".to_string()));
    assert_eq!(config.general().len(), 3);
}

#[test]
fn remove_after_add_hides_the_alias() {
    let mut config = mock_toml_config();
    config.add("x", "echo x", Some("aws"));
    assert!(matches!(config.remove("x", Some("aws")), Report::Done));
    assert!(matches!(config.show("x", Some("aws")), Report::AliasNotFound));
    assert!(matches!(config.execute("x", Some("aws")), Report::AliasNotFound));
}

#[test]
fn groups_do_not_leak_into_other_scopes() {
    let mut config = mock_toml_config();
    config.add("a", "echo a", Some("x"));
    assert!(config.contains("a", Some("x")));
    assert!(!config.contains("a", None));
    assert!(!config.contains("a", Some("y")));
    assert!(matches!(config.show("a", Some("y")), Report::GroupNotFound));
}

#[test]
fn missing_group_and_empty_general_are_reported() {
    let config = TomlConfig::from_parts(Vec::new(), None);
    assert!(matches!(config.list(Some("g")), Report::GroupNotFound));
    assert!(matches!(config.list(None), Report::NoAliases));
    assert!(config.groups().is_none());
}

#[test]
fn emptied_group_stays() {
    let mut config = mock_toml_config();
    config.add("only", "echo", Some("solo"));
    assert!(matches!(config.remove("only", Some("solo")), Report::Done));
    assert!(matches!(config.list(Some("solo")), Report::NoAliases));
}

#[test]
fn list_gives_every_pair() {
    let config = mock_toml_config();
    match config.list(None) {
        Report::Listing(mut p) => {
            p.sort();
            assert_eq!(p, pairs(&[("ls", "ls -l"), ("ll", "ls -al")]));
        }
        _ => panic!("expected a listing"),
    }
}

#[test]
fn later_pair_wins_when_building() {
    let t = table(&[("a", "1"), ("b", "2"), ("a", "3")]);
    assert_eq!(t.len(), 2);
    assert_eq!(t.get(&"a".to_string()), Some(&"3".to_string()));
}

#[test]
fn parts_round_trip_keeps_the_configuration() {
    let config = mock_toml_config();
    let (general, group) = config.into_parts();
    let again = TomlConfig::from_parts(general, group);
    assert_eq!(sorted(again.general()), pairs(&[("ls", "ls -l"), ("ll", "ls -al")]));
    assert_eq!(
        sorted(again.get_group(Some("aws")).unwrap()),
        pairs(&[("aws_help", "aws --help"), ("aws_version", "aws --version")])
    );
}
