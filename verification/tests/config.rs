use slurm_profile::config::{
    config_file_name, dotfile_name, get_config_path, Config, ConfigSource, NotFoundError,
    SelectionError,
};
use slurm_profile::profile::{Memory, Profile};

fn profile(cpu: u8) -> Profile {
    Profile {
        cpu: Some(cpu),
        gpu: None,
        mem: Some(Memory::GB(1)),
        partition: None,
        nodes: vec![],
        command: vec!["run".to_string()],
    }
}

fn store(default: Option<&str>) -> Config {
    Config {
        default: default.map(|s| s.to_string()),
        profile: vec![
            ("small".to_string(), profile(1)),
            ("large".to_string(), profile(32)),
            ("gpu".to_string(), profile(8)),
        ],
    }
}

#[test]
fn select_takes_the_requested_profile() {
    let mut config = store(Some("small"));
    let chosen = config.select(Some("large".to_string()));
    assert_eq!(chosen, Ok((profile(32), "large".to_string())));
    assert_eq!(config.profile.len(), 2);
    assert_eq!(config.profile[0], ("small".to_string(), profile(1)));
    assert_eq!(config.profile[1], ("gpu".to_string(), profile(8)));
    assert_eq!(config.default, Some("small".to_string()));
}

#[test]
fn select_falls_back_on_the_default() {
    let mut config = store(Some("gpu"));
    assert_eq!(config.select(None), Ok((profile(8), "gpu".to_string())));
    assert_eq!(config.profile.len(), 2);
}

#[test]
fn select_without_any_name_fails() {
    let mut config = store(None);
    assert_eq!(config.select(None), Err(SelectionError::Undetermined));
    assert_eq!(config, store(None));
    assert_eq!(
        SelectionError::Undetermined.message(),
        "cannot determine which profile to use"
    );
}

#[test]
fn select_of_an_absent_name_names_it() {
    let mut config = store(Some("small"));
    let failed = config.select(Some("huge".to_string()));
    assert_eq!(failed, Err(SelectionError::Missing("huge".to_string())));
    assert_eq!(failed.unwrap_err().message(), "the profile huge does not exist");
    assert_eq!(config, store(Some("small")));
}

#[test]
fn select_of_an_absent_default_names_it() {
    let mut config = store(Some("nowhere"));
    assert_eq!(config.select(None), Err(SelectionError::Missing("nowhere".to_string())));
}

#[test]
fn select_removes_the_entry_for_good() {
    let mut config = store(None);
    assert!(config.select(Some("small".to_string())).is_ok());
    assert_eq!(
        config.select(Some("small".to_string())),
        Err(SelectionError::Missing("small".to_string()))
    );
}

#[test]
fn select_from_an_empty_store_fails() {
    let mut config = Config { default: None, profile: vec![] };
    assert_eq!(
        config.select(Some("any".to_string())),
        Err(SelectionError::Missing("any".to_string()))
    );
}

#[test]
fn explicit_path_that_exists_wins() {
    assert_eq!(
        get_config_path(Some(true), &vec![true, true], Some((true, true))),
        Ok(ConfigSource::Explicit)
    );
}

#[test]
fn missing_explicit_path_falls_through_to_the_ancestors() {
    assert_eq!(
        get_config_path(Some(false), &vec![false, true, true], Some((true, true))),
        Ok(ConfigSource::Ancestor(1))
    );
    assert_eq!(
        get_config_path(Some(false), &vec![false, true, true], Some((true, true))),
        get_config_path(None, &vec![false, true, true], Some((true, true)))
    );
}

#[test]
fn nearest_ancestor_wins() {
    assert_eq!(get_config_path(None, &vec![true, true], None), Ok(ConfigSource::Ancestor(0)));
    assert_eq!(
        get_config_path(None, &vec![false, false, false, true], None),
        Ok(ConfigSource::Ancestor(3))
    );
}

#[test]
fn configuration_directory_comes_before_home() {
    assert_eq!(
        get_config_path(None, &vec![false, false], Some((true, true))),
        Ok(ConfigSource::ConfigDir)
    );
    assert_eq!(get_config_path(None, &vec![], Some((true, false))), Ok(ConfigSource::ConfigDir));
    assert_eq!(
        get_config_path(Some(false), &vec![false], Some((false, true))),
        Ok(ConfigSource::HomeDir)
    );
}

#[test]
fn nothing_found_is_an_error() {
    assert_eq!(get_config_path(None, &vec![], None), Err(NotFoundError));
    assert_eq!(get_config_path(Some(false), &vec![false, false], Some((false, false))), Err(NotFoundError));
    assert_eq!(get_config_path(None, &vec![false], None), Err(NotFoundError));
    assert_eq!(NotFoundError.message(), "config file not found");
}

#[test]
fn file_names_carry_the_program_name() {
    assert_eq!(dotfile_name("prog"), ".prog.toml");
    assert_eq!(config_file_name("prog"), "prog.toml");
    assert_eq!(dotfile_name(""), "..toml");
}

#[test]
fn resolve_lays_the_overrides_over_the_selected_profile() {
    let mut config = store(Some("small"));
    let overrides = Profile {
        cpu: None,
        gpu: Some(2),
        mem: None,
        partition: Some("debug".to_string()),
        nodes: vec!["n7".to_string()],
        command: vec![],
    };
    let expected = Profile {
        cpu: Some(32),
        gpu: Some(2),
        mem: Some(Memory::GB(1)),
        partition: Some("debug".to_string()),
        nodes: vec!["n7".to_string()],
        command: vec!["run".to_string()],
    };
    assert_eq!(
        config.resolve(Some("large".to_string()), overrides),
        Ok((expected, "large".to_string()))
    );
    assert_eq!(config.profile.len(), 2);
}

#[test]
fn resolve_fails_as_select_does() {
    let mut config = store(None);
    assert_eq!(config.resolve(None, profile(1)), Err(SelectionError::Undetermined));
    assert_eq!(
        config.resolve(Some("huge".to_string()), profile(1)),
        Err(SelectionError::Missing("huge".to_string()))
    );
    assert_eq!(config, store(None));
}

#[test]
fn unique_names_tells_a_repeated_name() {
    assert!(store(None).unique_names());
    assert!(Config { default: None, profile: vec![] }.unique_names());
    let mut config = store(None);
    config.profile.push(("small".to_string(), profile(2)));
    assert!(!config.unique_names());
    let twice = Config {
        default: None,
        profile: vec![("a".to_string(), profile(1)), ("a".to_string(), profile(1))],
    };
    assert!(!twice.unique_names());
}
