use tempurview::cli::GlobalArgs;
use tempurview::config::{Config, ConfigError, ConfigFile, EnvVars, InsightsSection, ProfileConfig};
use tempurview::insights::InsightsConfig;
use tempurview::logging::{config_dir, current_log_file, error_lines, log_file_name, log_files, log_listing, logs_dir, LogFile};

fn no_env() -> EnvVars {
    EnvVars {
        temporal_address: None,
        temporal_namespace: None,
        temporal_api_key: None,
        refresh_interval: None,
        default_limit: None,
        tick_rate: None,
        insights_concurrency: None,
        profile: None,
    }
}

fn no_flags() -> GlobalArgs {
    GlobalArgs {
        address: None,
        namespace: None,
        mock: false,
        mock_count: 100,
        limit: 0,
        output: None,
        logs: false,
        profile: None,
    }
}

fn file_with_profiles() -> ConfigFile {
    ConfigFile {
        default_profile: Some("local".to_string()),
        profiles: vec![
            (
                "local".to_string(),
                ProfileConfig {
                    address: "localhost:7233".to_string(),
                    namespace: "default".to_string(),
                    api_key: None,
                },
            ),
            (
                "cloud".to_string(),
                ProfileConfig {
                    address: "cloud.temporal.io:7233".to_string(),
                    namespace: "my-ns".to_string(),
                    api_key: Some("tctl_xxx".to_string()),
                },
            ),
        ],
        insights: InsightsSection { allowlist: vec!["expected error".to_string()], concurrency: Some(50) },
    }
}

#[test]
fn test_default_config() {
    let config = Config::default();
    assert_eq!(config.temporal_namespace, "default");
    assert!(!config.use_mock);
    assert!(config.active_profile.is_none());
}

#[test]
fn test_from_args_mock() {
    let args = vec!["--mock".to_string()];
    let config = Config::from_args(&args, &no_env(), InsightsConfig::new()).unwrap();
    assert!(config.use_mock);
}

#[test]
fn test_from_args_address() {
    let args = vec!["--address".to_string(), "custom:7233".to_string()];
    let config = Config::from_args(&args, &no_env(), InsightsConfig::new()).unwrap();
    assert_eq!(config.temporal_address, "custom:7233");
}

#[test]
fn test_from_args_mock_count() {
    let args = vec!["--mock".to_string(), "--mock-count".to_string(), "500".to_string()];
    let config = Config::from_args(&args, &no_env(), InsightsConfig::new()).unwrap();
    assert!(config.use_mock);
    assert_eq!(config.mock_workflow_count, 500);
}

#[test]
fn test_logs_dir() {
    let dir = logs_dir(Some("/home/user"));
    assert!(dir.is_some());
    let dir = dir.unwrap();
    assert!(dir.ends_with("logs"));
}

#[test]
fn test_config_dir() {
    let dir = config_dir(Some("/home/user"));
    assert!(dir.is_some());
    let dir = dir.unwrap();
    assert!(dir.ends_with(".tempurview"));
}

#[test]
fn log_paths_without_home_are_none() {
    assert!(config_dir(None).is_none());
    assert!(logs_dir(None).is_none());
    assert!(current_log_file(None, "2024-01-15T10-00-00").is_none());
    assert_eq!(
        current_log_file(Some("/h"), "2024-01-15T10-00-00"),
        Some("/h/.tempurview/logs/tempurview.2024-01-15T10-00-00.log".to_string())
    );
    assert_eq!(log_file_name("2024-01-15"), "tempurview.2024-01-15.log");
}

#[test]
fn default_config_values() {
    let c = Config::default_config();
    assert_eq!(c.temporal_address, "localhost:7233");
    assert_eq!(c.refresh_interval, 30);
    assert_eq!(c.tick_rate, 250);
    assert_eq!(c.mock_workflow_count, 100);
    assert_eq!(c.default_limit, u32::MAX);
    assert_eq!(c.insights.concurrency, 10);
}

#[test]
fn env_overrides_defaults() {
    let mut env = no_env();
    env.temporal_address = Some("env-host:7233".to_string());
    env.temporal_namespace = Some("env-ns".to_string());
    env.refresh_interval = Some("5".to_string());
    env.default_limit = Some("0".to_string());
    env.insights_concurrency = Some("4".to_string());
    let c = Config::from_env(&env, InsightsConfig::new()).unwrap();
    assert_eq!(c.temporal_address, "env-host:7233");
    assert_eq!(c.temporal_namespace, "env-ns");
    assert_eq!(c.refresh_interval, 5);
    assert_eq!(c.default_limit, u32::MAX);
    assert_eq!(c.insights.concurrency, 4);
}

#[test]
fn env_with_bad_number_is_invalid_value() {
    let mut env = no_env();
    env.tick_rate = Some("fast".to_string());
    match Config::from_env(&env, InsightsConfig::new()) {
        Err(ConfigError::InvalidValue(name, value)) => {
            assert_eq!(name, "TEMPORAL_TUI_TICK_RATE");
            assert_eq!(value, "fast");
        }
        other => panic!("unexpected {:?}", other),
    }
}

#[test]
fn bad_mock_count_flag_is_invalid_value() {
    let args = vec!["--mock-count".to_string(), "many".to_string()];
    match Config::from_args(&args, &no_env(), InsightsConfig::new()) {
        Err(ConfigError::InvalidValue(name, value)) => {
            assert_eq!(name, "--mock-count");
            assert_eq!(value, "many");
        }
        other => panic!("unexpected {:?}", other),
    }
}

#[test]
fn flags_override_profile_and_env() {
    let mut env = no_env();
    env.temporal_address = Some("env-host:7233".to_string());
    let file = file_with_profiles();
    let mut flags = no_flags();
    flags.profile = Some("cloud".to_string());
    let c = Config::from_global_args(&flags, &env, &file).unwrap();
    assert_eq!(c.temporal_address, "cloud.temporal.io:7233");
    assert_eq!(c.temporal_namespace, "my-ns");
    assert_eq!(c.temporal_api_key, Some("tctl_xxx".to_string()));
    assert_eq!(c.active_profile, Some("cloud".to_string()));
    assert_eq!(c.insights.concurrency, 50);
    assert_eq!(c.insights.allowlist, vec!["expected error".to_string()]);

    flags.address = Some("flag-host:1".to_string());
    let c = Config::from_global_args(&flags, &env, &file).unwrap();
    assert_eq!(c.temporal_address, "flag-host:1");
}

#[test]
fn default_profile_is_used_without_flag() {
    let c = Config::from_global_args(&no_flags(), &no_env(), &file_with_profiles()).unwrap();
    assert_eq!(c.active_profile, Some("local".to_string()));
    assert_eq!(c.temporal_address, "localhost:7233");
}

#[test]
fn missing_named_profile_is_an_error() {
    let mut flags = no_flags();
    flags.profile = Some("staging".to_string());
    match Config::from_global_args(&flags, &no_env(), &file_with_profiles()) {
        Err(ConfigError::ProfileNotFound(n)) => assert_eq!(n, "staging"),
        other => panic!("unexpected {:?}", other),
    }
}

#[test]
fn test_log_files_newest_first() {
    let entries = vec![
        LogFile { name: "tempurview.2024-01-01T00-00-00.log".to_string(), modified: Some(100), size: 10 },
        LogFile { name: "other.txt".to_string(), modified: Some(999), size: 1 },
        LogFile { name: "tempurview.2024-01-03T00-00-00.log".to_string(), modified: Some(300), size: 20 },
        LogFile { name: "tempurview.2023-12-31T00-00-00.log".to_string(), modified: None, size: 5 },
        LogFile { name: "tempurview.toml".to_string(), modified: Some(500), size: 5 },
        LogFile { name: "tempurview.2024-01-02T00-00-00.log".to_string(), modified: Some(200), size: 30 },
    ];
    let files = log_files(&entries);
    let names: Vec<&str> = files.iter().map(|f| f.name.as_str()).collect();
    assert_eq!(
        names,
        vec![
            "tempurview.2024-01-03T00-00-00.log",
            "tempurview.2024-01-02T00-00-00.log",
            "tempurview.2024-01-01T00-00-00.log",
            "tempurview.2023-12-31T00-00-00.log",
        ]
    );
}

#[test]
fn test_log_listing_limits_to_five() {
    let files: Vec<LogFile> =
        (0..7).map(|i| LogFile { name: format!("tempurview.log.{}", i), modified: Some(i), size: 100 + i as u64 }).collect();
    let lines = log_listing(&files);
    assert_eq!(lines.len(), 6);
    assert_eq!(lines[0], "  tempurview.log.0 (100 bytes)");
    assert_eq!(lines[5], "  ... and 2 more");
    assert_eq!(log_listing(&vec![]), vec!["  (no log files yet)".to_string()]);
}

#[test]
fn test_error_lines_latest_first() {
    let mut text = String::new();
    for i in 0..12 {
        text.push_str(&format!("ERROR e{}\nINFO fine\n", i));
    }
    let errs = error_lines(&text);
    assert_eq!(errs.len(), 10);
    assert_eq!(errs[0], "ERROR e11");
    assert_eq!(errs[9], "ERROR e2");
    assert!(error_lines("all good\n").is_empty());
}
