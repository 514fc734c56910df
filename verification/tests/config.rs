use pwsw::config::{
    config_backup_name, config_write_refused, default_log_level, default_true, numbered_descs,
    overwrite_refused, Config, ConfigError, ConfigFile, Rule,
    RuleConfigFile, Settings, SettingsFile, SinkConfig, SinkConfigFile,
};

fn make_config(sinks: Vec<SinkConfig>, rules: Vec<Rule>) -> Config {
    Config {
        settings: Settings {
            default_on_startup: true,
            set_smart_toggle: true,
            notify_manual: true,
            notify_rules: true,
            match_by_index: false,
            log_level: "info".to_string(),
        },
        sinks,
        rules,
    }
}

fn make_sink(name: &str, desc: &str, default: bool) -> SinkConfig {
    SinkConfig {
        name: name.to_string(),
        desc: desc.to_string(),
        icon: None,
        default,
    }
}

fn make_rule(app_id: &str, title: Option<&str>, sink_ref: &str) -> Rule {
    Rule {
        app_id_pattern: app_id.to_string(),
        title_pattern: title.map(String::from),
        sink_ref: sink_ref.to_string(),
        desc: None,
        notify: None,
    }
}

fn validation_message(config: &Config) -> String {
    match config.validate() {
        Ok(()) => panic!("validation should fail"),
        Err(e) => e.message(),
    }
}

#[test]
fn test_validate_accepts_single_default_sink() {
    let config = make_config(
        vec![
            make_sink("sink1", "Sink 1", true),
            make_sink("sink2", "Sink 2", false),
        ],
        vec![],
    );
    assert!(config.validate().is_ok());
}

#[test]
fn test_validate_rejects_no_default() {
    let config = make_config(
        vec![make_sink("sink1", "Sink 1", false), make_sink("sink2", "Sink 2", false)],
        vec![],
    );
    let msg = validation_message(&config);
    assert!(msg.contains("default sink"));
    assert_eq!(msg, "No default sink. Mark one sink with 'default = true'");
}

#[test]
fn test_validate_rejects_multiple_defaults() {
    let config = make_config(
        vec![make_sink("sink1", "Sink 1", true), make_sink("sink2", "Sink 2", true)],
        vec![],
    );
    let msg = validation_message(&config);
    assert!(msg.contains("default sinks found"));
    assert_eq!(msg, "2 default sinks found. Only one allowed.");
}

#[test]
fn test_validate_rejects_duplicate_names() {
    let config = make_config(
        vec![make_sink("duplicate", "Sink 1", true), make_sink("duplicate", "Sink 2", false)],
        vec![],
    );
    let msg = validation_message(&config);
    assert!(msg.contains("Duplicate"));
    assert_eq!(msg, "Duplicate sink name: 'duplicate'");
}

#[test]
fn test_validate_rejects_duplicate_descs() {
    let config = make_config(
        vec![
            make_sink("sink1", "Duplicate Desc", true),
            make_sink("sink2", "Duplicate Desc", false),
        ],
        vec![],
    );
    let msg = validation_message(&config);
    assert!(msg.contains("Duplicate"));
    assert_eq!(msg, "Duplicate sink description: 'Duplicate Desc'");
}

#[test]
fn test_validate_rejects_unknown_sink_ref() {
    let config = make_config(
        vec![make_sink("sink1", "Sink 1", true)],
        vec![make_rule("firefox", None, "nonexistent")],
    );
    let msg = validation_message(&config);
    assert!(msg.contains("unknown sink"));
    assert_eq!(
        msg,
        "Rule 1 references unknown sink 'nonexistent'. Available: [1. 'Sink 1']"
    );
}

#[test]
fn test_validate_rejects_invalid_log_level() {
    let mut config = make_config(vec![make_sink("sink1", "Sink 1", true)], vec![]);
    config.settings.log_level = "invalid".to_string();
    let msg = validation_message(&config);
    assert!(msg.contains("log_level"));
    assert!(matches!(config.validate(), Err(ConfigError::InvalidLogLevel { .. })));
}

#[test]
fn test_validate_accepts_all_valid_log_levels() {
    for level in &["error", "warn", "info", "debug", "trace"] {
        let mut config = make_config(vec![make_sink("sink1", "Sink 1", true)], vec![]);
        config.settings.log_level = (*level).to_string();
        assert!(config.validate().is_ok(), "Log level '{level}' should be valid");
    }
}

#[test]
fn test_resolve_sink_by_position_one_indexed() {
    let config = make_config(
        vec![
            make_sink("sink1", "First Sink", true),
            make_sink("sink2", "Second Sink", false),
        ],
        vec![],
    );
    let result = config.resolve_sink("1");
    assert!(result.is_some());
    assert_eq!(result.unwrap().name, "sink1");

    let result2 = config.resolve_sink("2");
    assert!(result2.is_some());
    assert_eq!(result2.unwrap().name, "sink2");
}

#[test]
fn test_resolve_sink_by_position_zero_returns_none() {
    let config = make_config(vec![make_sink("sink1", "Sink 1", true)], vec![]);
    assert!(config.resolve_sink("0").is_none());
}

#[test]
fn test_resolve_sink_by_position_out_of_bounds() {
    let config = make_config(vec![make_sink("sink1", "Sink 1", true)], vec![]);
    assert!(config.resolve_sink("99").is_none());
}

#[test]
fn test_resolve_sink_by_description() {
    let config = make_config(
        vec![
            make_sink("sink1", "HDMI Output", true),
            make_sink("sink2", "Speakers", false),
        ],
        vec![],
    );
    let result = config.resolve_sink("HDMI Output");
    assert!(result.is_some());
    assert_eq!(result.unwrap().name, "sink1");
}

#[test]
fn test_resolve_sink_by_name() {
    let config = make_config(
        vec![
            make_sink("alsa_output.test.stereo", "Test", true),
            make_sink("sink2", "Sink 2", false),
        ],
        vec![],
    );
    let result = config.resolve_sink("alsa_output.test.stereo");
    assert!(result.is_some());
    assert_eq!(result.unwrap().desc, "Test");
}

#[test]
fn test_resolve_sink_not_found() {
    let config = make_config(vec![make_sink("sink1", "Sink 1", true)], vec![]);
    assert!(config.resolve_sink("nonexistent").is_none());
}

#[test]
fn test_resolve_sink_plus_sign_is_a_position() {
    let config = make_config(
        vec![make_sink("sink1", "Sink 1", true), make_sink("sink2", "+2", false)],
        vec![],
    );
    assert_eq!(config.resolve_sink("+2").unwrap().name, "sink2");
    assert_eq!(config.resolve_sink("+1").unwrap().name, "sink1");
}

#[test]
fn test_get_default_sink_returns_correct_sink() {
    let config = make_config(
        vec![
            make_sink("sink1", "Sink 1", false),
            make_sink("sink2", "Default Sink", true),
            make_sink("sink3", "Sink 3", false),
        ],
        vec![],
    );
    let result = config.get_default_sink();
    assert!(result.is_some());
    assert_eq!(result.unwrap().desc, "Default Sink");
}

#[test]
fn test_save_and_load_roundtrip() {
    let cfg = make_config(
        vec![
            make_sink("sink1", "Sink 1", true),
            make_sink("sink2", "Sink 2", false),
        ],
        vec![make_rule("firefox", None, "Sink 1")],
    );
    let file = cfg.to_config_file();
    let loaded = Config::from_config_file(file).unwrap();
    assert_eq!(loaded.sinks.len(), 2);
    assert!(loaded.resolve_sink("Sink 1").is_some());
    assert_eq!(loaded.rules.len(), 1);
    assert_eq!(loaded.rules[0].sink_ref, "Sink 1");
}

#[test]
fn test_validate_regex_safe_accepts_normal_patterns() {
    assert!(Config::validate_regex_safe("^firefox$", "app_id", 1).is_ok());
    assert!(Config::validate_regex_safe("(mpv|vlc)", "app_id", 1).is_ok());
    assert!(Config::validate_regex_safe(".*steam.*", "title", 1).is_ok());
}

#[test]
fn test_validate_regex_safe_rejects_catastrophic_backtracking() {
    let dangerous = ["(.*)*", "(.*)+", "(.+)+", "(.+)*", "([^x]*)*", "([^x]+)+"];
    for pattern in &dangerous {
        let result = Config::validate_regex_safe(pattern, "app_id", 1);
        assert!(
            result.is_err(),
            "Pattern '{pattern}' should be rejected as potentially catastrophic"
        );
        let err = result.unwrap_err().message();
        assert!(
            err.contains("dangerous construct"),
            "Error should mention dangerous constructs, got: {err}"
        );
    }
}

#[test]
fn test_validate_regex_safe_embedded_in_larger_pattern() {
    assert!(Config::validate_regex_safe("^firefox(.*)*$", "app_id", 1).is_err());
    assert!(Config::validate_regex_safe("steam|(.+)+|mpv", "app_id", 1).is_err());
}

#[test]
fn test_validate_regex_safe_message() {
    let err = Config::validate_regex_safe("a(.+)+b", "title", 3).unwrap_err().message();
    assert_eq!(
        err,
        "Rule 3: title pattern 'a(.+)+b' contains dangerous construct '(.+)+' (nested quantifiers on wildcard)"
    );
    let err2 = Config::validate_regex_safe("([^x]+)+", "app_id", 2).unwrap_err().message();
    assert!(err2.contains("nested quantifiers on negated character class"));
}

#[test]
fn test_validate_with_catastrophic_regex() {
    let config = make_config(
        vec![make_sink("sink1", "Sink 1", true)],
        vec![make_rule("(.*)*", None, "sink1")],
    );
    let result = config.validate();
    assert!(result.is_err());
    let err = result.unwrap_err().message();
    assert!(err.contains("dangerous"));
}

#[test]
fn test_validate_catastrophic_in_title_pattern() {
    let config = make_config(
        vec![make_sink("sink1", "Sink 1", true)],
        vec![make_rule("firefox", Some("(.+)+"), "sink1")],
    );
    let result = config.validate();
    assert!(result.is_err());
    let err = result.unwrap_err().message();
    assert!(err.contains("dangerous"));
    assert!(err.contains("title"));
}

#[test]
fn test_from_config_file_rejects_empty_sinks() {
    let file = ConfigFile { settings: SettingsFile::default(), sinks: vec![], rules: vec![] };
    let err = Config::from_config_file(file).err().unwrap();
    assert_eq!(
        err.message(),
        "No sinks defined. Add at least one [[sinks]] section to config."
    );
}

#[test]
fn test_from_config_file_rejects_invalid_regex() {
    let file = ConfigFile {
        settings: SettingsFile::default(),
        sinks: vec![SinkConfigFile {
            name: "sink1".to_string(),
            desc: "Sink 1".to_string(),
            icon: None,
            default: true,
        }],
        rules: vec![RuleConfigFile {
            app_id: "(unclosed".to_string(),
            title: None,
            sink: "1".to_string(),
            desc: None,
            notify: None,
        }],
    };
    let err = Config::from_config_file(file).err().unwrap();
    assert!(matches!(err, ConfigError::InvalidRegex { rule: 1, .. }));
    assert!(err.message().starts_with("Rule 1: invalid app_id regex '(unclosed': "));
}

#[test]
fn test_settings_file_defaults() {
    let s = SettingsFile::default();
    assert!(s.default_on_startup);
    assert!(s.set_smart_toggle);
    assert!(s.notify_manual);
    assert!(s.notify_rules);
    assert!(!s.match_by_index);
    assert_eq!(s.log_level, "info");
    assert!(default_true());
    assert_eq!(default_log_level(), "info");
}

#[test]
fn test_numbered_descs_lists_each_sink() {
    let descs = vec!["A".to_string(), "B".to_string(), "C".to_string()];
    assert_eq!(numbered_descs(&descs), "1. 'A', 2. 'B', 3. 'C'");
    assert_eq!(numbered_descs(&vec![]), "");
}

#[test]
fn test_available_sinks_and_desc_lookup() {
    let config = make_config(
        vec![make_sink("n1", "One", true), make_sink("n2", "Two", false)],
        vec![],
    );
    assert_eq!(config.available_sinks(), "1. 'One', 2. 'Two'");
    assert_eq!(config.desc_or_name("n2"), "Two");
    assert_eq!(config.desc_or_name("other"), "other");
    assert_eq!(config.sink_named("n2"), Some(1));
}

#[test]
fn test_refuse_empty_overwrite_rule() {
    assert!(overwrite_refused(0, Some((true, 42))));
    assert!(!overwrite_refused(0, Some((true, 0))));
    assert!(!overwrite_refused(10, Some((true, 42))));
    assert!(!overwrite_refused(0, None));
    assert!(!overwrite_refused(0, Some((false, 42))));
}

#[test]
fn test_user_config_write_opt_in() {
    assert!(config_write_refused(true, true, None));
    assert!(config_write_refused(true, true, Some("0")));
    assert!(!config_write_refused(true, true, Some("1")));
    assert!(!config_write_refused(true, false, None));
    assert!(!config_write_refused(false, true, None));
    assert_eq!(config_backup_name(1700000000), "config.toml.bak.1700000000");
}
