use otlp_forwarder::livetrace::config::{
    apply_cli_args_to_effective, apply_profile_to_effective, merge_into_profile_config,
    resolve_config, CliArgs, ConfigFile, EffectiveConfig, ProfileConfig, DEFAULT_COLOR_BY,
    DEFAULT_EVENTS_ONLY, DEFAULT_EVENT_SEVERITY_ATTRIBUTE, DEFAULT_SESSION_TIMEOUT_MS,
    DEFAULT_TRACE_STRAGGLERS_WAIT_MS, DEFAULT_TRACE_TIMEOUT_MS,
};
use otlp_forwarder::livetrace::theme::{ColoringMode, Theme};

fn mock_cli_args() -> CliArgs {
    CliArgs {
        log_group_pattern: Some(vec![
            "test-pattern-1".to_string(),
            "test-pattern-2".to_string(),
        ]),
        stack_name: None,
        otlp_endpoint: Some("http://localhost:4318".to_string()),
        otlp_headers: vec!["Auth=Bearer xyz".to_string()],
        aws_region: Some("us-west-2".to_string()),
        aws_profile: Some("test-profile".to_string()),
        verbose: 1,
        forward_only: true,
        attrs: Some("http.*,db.*".to_string()),
        poll_interval: Some(30 * 1000),
        session_timeout: Some(45 * 60 * 1000),
        event_severity_attribute: Some("custom.severity".to_string()),
        config_profile: None,
        save_profile: None,
        theme: Some(Theme::Solarized),
        list_themes: false,
        color_by: Some(ColoringMode::Service),
        events_only: Some(false),
        trace_timeout: Some(10 * 1000),
        trace_stragglers_wait: Some(500),
        grep: None,
        backtrace: Some(60 * 1000),
    }
}

fn empty_profile() -> ProfileConfig {
    ProfileConfig::empty()
}

#[test]
fn test_from_cli_args() {
    let args = mock_cli_args();
    let profile = ProfileConfig::from_cli_args(&args);

    assert_eq!(
        profile.log_group_pattern,
        Some(vec![
            "test-pattern-1".to_string(),
            "test-pattern-2".to_string()
        ])
    );
    assert_eq!(profile.stack_name, None);
    assert_eq!(
        profile.otlp_endpoint,
        Some("http://localhost:4318".to_string())
    );
    assert_eq!(
        profile.otlp_headers,
        Some(vec!["Auth=Bearer xyz".to_string()])
    );
    assert_eq!(profile.aws_region, Some("us-west-2".to_string()));
    assert_eq!(profile.aws_profile, Some("test-profile".to_string()));
    assert_eq!(profile.forward_only, Some(true));
    assert_eq!(profile.attrs, Some("http.*,db.*".to_string()));
    assert_eq!(profile.poll_interval, Some("30s".to_string()));
    assert_eq!(profile.session_timeout, Some("45m".to_string()));
    assert_eq!(
        profile.event_severity_attribute,
        Some("custom.severity".to_string())
    );
    assert_eq!(profile.theme, Some(Theme::Solarized));
    assert_eq!(profile.color_by, Some(ColoringMode::Service));
    assert_eq!(profile.events_only, Some(false));
    assert_eq!(profile.trace_timeout, Some("10s".to_string()));
    assert_eq!(profile.trace_stragglers_wait, Some("500ms".to_string()));
    assert_eq!(profile.backtrace, Some("1m".to_string()));

    let mut args_with_defaults = mock_cli_args();
    args_with_defaults.session_timeout = Some(DEFAULT_SESSION_TIMEOUT_MS);
    args_with_defaults.trace_timeout = Some(DEFAULT_TRACE_TIMEOUT_MS);
    args_with_defaults.trace_stragglers_wait = Some(DEFAULT_TRACE_STRAGGLERS_WAIT_MS);
    args_with_defaults.theme = Some(Theme::Default);
    args_with_defaults.color_by = Some(DEFAULT_COLOR_BY);
    args_with_defaults.event_severity_attribute = Some(DEFAULT_EVENT_SEVERITY_ATTRIBUTE.to_string());
    args_with_defaults.events_only = Some(DEFAULT_EVENTS_ONLY);

    let profile_with_defaults = ProfileConfig::from_cli_args(&args_with_defaults);
    assert_eq!(profile_with_defaults.session_timeout, None);
    assert_eq!(profile_with_defaults.trace_timeout, None);
    assert_eq!(profile_with_defaults.trace_stragglers_wait, None);
    assert_eq!(profile_with_defaults.theme, None);
    assert_eq!(profile_with_defaults.color_by, None);
    assert_eq!(profile_with_defaults.event_severity_attribute, None);
    assert_eq!(profile_with_defaults.events_only, None);
}

#[test]
fn test_apply_profile_to_effective() {
    let mut effective = EffectiveConfig {
        log_group_pattern: Some(vec!["initial-pattern".to_string()]),
        stack_name: Some("original-stack".to_string()),
        otlp_endpoint: None,
        otlp_headers: Vec::new(),
        aws_region: Some("us-east-1".to_string()),
        aws_profile: None,
        forward_only: false,
        attrs: None,
        event_severity_attribute: "default.severity".to_string(),
        poll_interval_ms: None,
        session_timeout_ms: 30 * 60 * 1000,
        verbose: 0,
        theme: Theme::Default,
        color_by: ColoringMode::Service,
        events_only: false,
        trace_timeout_ms: 5 * 1000,
        trace_stragglers_wait_ms: 0,
        grep: None,
        backtrace_ms: None,
    };
    let profile = ProfileConfig {
        log_group_pattern: Some(vec![
            "profile-pattern-1".to_string(),
            "profile-pattern-2".to_string(),
        ]),
        stack_name: None,
        otlp_endpoint: Some("http://profile-endpoint:4318".to_string()),
        otlp_headers: Some(vec!["Profile-Auth=token123".to_string()]),
        aws_region: None,
        aws_profile: Some("profile-aws-profile".to_string()),
        forward_only: Some(true),
        attrs: Some("profile.*".to_string()),
        event_severity_attribute: Some("profile.severity".to_string()),
        poll_interval: Some("45s".to_string()),
        session_timeout: Some("1h".to_string()),
        theme: Some(Theme::Solarized),
        color_by: None,
        events_only: Some(true),
        trace_timeout: Some("10000ms".to_string()),
        trace_stragglers_wait: Some("2s".to_string()),
        grep: Some("test-grep".to_string()),
        backtrace: Some("60s".to_string()),
    };
    assert!(profile.durations_in_range());
    apply_profile_to_effective(&profile, &mut effective);
    assert_eq!(
        effective.log_group_pattern,
        Some(vec![
            "profile-pattern-1".to_string(),
            "profile-pattern-2".to_string()
        ])
    );
    assert_eq!(effective.stack_name, Some("original-stack".to_string()));
    assert_eq!(
        effective.otlp_endpoint,
        Some("http://profile-endpoint:4318".to_string())
    );
    assert_eq!(effective.otlp_headers, vec!["Profile-Auth=token123"]);
    assert_eq!(effective.aws_region, Some("us-east-1".to_string()));
    assert_eq!(
        effective.aws_profile,
        Some("profile-aws-profile".to_string())
    );
    assert!(effective.forward_only);
    assert_eq!(effective.attrs, Some("profile.*".to_string()));
    assert_eq!(effective.event_severity_attribute, "profile.severity");
    assert_eq!(effective.poll_interval_ms, Some(45 * 1000));
    assert_eq!(effective.session_timeout_ms, 60 * 60 * 1000);
    assert_eq!(effective.theme, Theme::Solarized);
    assert_eq!(effective.color_by, ColoringMode::Service);
    assert!(effective.events_only);
    assert_eq!(effective.trace_timeout_ms, 10_000);
    assert_eq!(effective.trace_stragglers_wait_ms, 2_000);
    assert_eq!(effective.grep, Some("test-grep".to_string()));
    assert_eq!(effective.backtrace_ms, Some(60 * 1000));
}

/// The configuration file of the original test, built value by value:
/// a `global` section and the profiles `default` and `dev`.
fn test_config_file() -> ConfigFile {
    let mut global = empty_profile();
    global.aws_region = Some("us-east-1".to_string());
    global.event_severity_attribute = Some("global.severity".to_string());
    global.trace_timeout = Some("7s".to_string());

    let mut default_profile = empty_profile();
    default_profile.log_group_pattern = Some(vec![
        "default-pattern-a".to_string(),
        "default-pattern-b".to_string(),
    ]);
    default_profile.forward_only = Some(true);
    default_profile.session_timeout = Some("1h".to_string());

    let mut dev = empty_profile();
    dev.log_group_pattern = Some(vec![
        "/aws/lambda/dev-func".to_string(),
        "specific-dev-group".to_string(),
    ]);
    dev.otlp_endpoint = Some("http://dev-collector:4318".to_string());
    dev.aws_region = Some("us-west-1".to_string());
    dev.poll_interval = Some("20s".to_string());
    dev.backtrace = Some("5m".to_string());

    ConfigFile {
        global: Some(global),
        profiles: vec![
            ("default".to_string(), default_profile),
            ("dev".to_string(), dev),
        ]
        .into_iter()
        .collect(),
    }
}

#[test]
fn test_load_and_resolve_config() {
    let config_file = test_config_file();
    let cli_args_mock = mock_cli_args();

    let mut effective = EffectiveConfig {
        log_group_pattern: None,
        stack_name: None,
        otlp_endpoint: None,
        otlp_headers: Vec::new(),
        aws_region: None,
        aws_profile: None,
        forward_only: false,
        attrs: None,
        event_severity_attribute: "event.severity".to_string(),
        poll_interval_ms: None,
        session_timeout_ms: 30 * 60 * 1000,
        verbose: 0,
        theme: Theme::Default,
        color_by: ColoringMode::Service,
        events_only: false,
        trace_timeout_ms: 5 * 1000,
        trace_stragglers_wait_ms: 0,
        grep: None,
        backtrace_ms: None,
    };

    if let Some(global_config) = &config_file.global {
        apply_profile_to_effective(global_config, &mut effective);
    }
    let dev = config_file
        .profiles
        .get("dev")
        .expect("Test: 'dev' profile not found in test config file");
    apply_profile_to_effective(dev, &mut effective);
    apply_cli_args_to_effective(&cli_args_mock, &mut effective);

    assert_eq!(effective.log_group_pattern, cli_args_mock.log_group_pattern);
    assert_eq!(effective.otlp_endpoint, cli_args_mock.otlp_endpoint);
    assert_eq!(effective.aws_region, cli_args_mock.aws_region);
    assert_eq!(
        effective.session_timeout_ms,
        cli_args_mock.session_timeout.unwrap_or(30 * 60 * 1000)
    );
    assert_eq!(
        effective.trace_timeout_ms,
        cli_args_mock.trace_timeout.unwrap_or(5 * 1000)
    );
    assert_eq!(
        effective.trace_stragglers_wait_ms,
        cli_args_mock.trace_stragglers_wait.unwrap_or(0)
    );
    assert_eq!(effective.poll_interval_ms, cli_args_mock.poll_interval);
    assert_eq!(effective.backtrace_ms, cli_args_mock.backtrace);
    assert_eq!(
        effective.event_severity_attribute,
        cli_args_mock
            .event_severity_attribute
            .clone()
            .unwrap_or_else(|| "event.severity".to_string())
    );
    assert_eq!(
        effective.color_by,
        cli_args_mock.color_by.unwrap_or(ColoringMode::Service)
    );
    assert_eq!(
        effective.theme,
        cli_args_mock.theme.unwrap_or(Theme::Default)
    );
}

#[test]
fn test_merge_into_profile_config() {
    let base = ProfileConfig {
        log_group_pattern: Some(vec!["base-pattern".to_string()]),
        stack_name: Some("base-stack".to_string()),
        otlp_endpoint: Some("http://base:4318".to_string()),
        otlp_headers: None,
        aws_region: Some("us-east-1".to_string()),
        aws_profile: None,
        forward_only: Some(false),
        attrs: Some("base.*".to_string()),
        event_severity_attribute: None,
        poll_interval: Some("10s".to_string()),
        session_timeout: None,
        theme: Some(Theme::Material),
        color_by: Some(ColoringMode::Service),
        events_only: Some(false),
        trace_timeout: Some("7000ms".to_string()),
        trace_stragglers_wait: Some("1s".to_string()),
        grep: None,
        backtrace: Some("2m".to_string()),
    };
    let overrides = ProfileConfig {
        log_group_pattern: None,
        stack_name: Some("override-stack".to_string()),
        otlp_endpoint: None,
        otlp_headers: Some(vec!["override-header".to_string()]),
        aws_region: Some("us-west-2".to_string()),
        aws_profile: None,
        forward_only: Some(true),
        attrs: None,
        event_severity_attribute: Some("override.severity".to_string()),
        poll_interval: Some("15s".to_string()),
        session_timeout: Some("90m".to_string()),
        theme: None,
        color_by: Some(ColoringMode::Span),
        events_only: None,
        trace_timeout: Some("20s".to_string()),
        trace_stragglers_wait: Some("0ms".to_string()),
        grep: Some("override-grep".to_string()),
        backtrace: None,
    };
    let merged = merge_into_profile_config(&base, &overrides);

    assert_eq!(merged.log_group_pattern, base.log_group_pattern);
    assert_eq!(merged.stack_name, overrides.stack_name);
    assert_eq!(merged.otlp_endpoint, base.otlp_endpoint);
    assert_eq!(merged.otlp_headers, overrides.otlp_headers);
    assert_eq!(merged.aws_region, overrides.aws_region);
    assert_eq!(merged.aws_profile, base.aws_profile);
    assert_eq!(merged.forward_only, overrides.forward_only);
    assert_eq!(merged.attrs, base.attrs);
    assert_eq!(
        merged.event_severity_attribute,
        overrides.event_severity_attribute
    );
    assert_eq!(merged.poll_interval, overrides.poll_interval);
    assert_eq!(merged.session_timeout, overrides.session_timeout);
    assert_eq!(merged.theme, base.theme);
    assert_eq!(merged.color_by, overrides.color_by);
    assert_eq!(merged.events_only, base.events_only);
    assert_eq!(merged.trace_timeout, overrides.trace_timeout);
    assert_eq!(
        merged.trace_stragglers_wait,
        overrides.trace_stragglers_wait
    );
    assert_eq!(merged.grep, overrides.grep);
    assert_eq!(merged.backtrace, base.backtrace);
}

#[test]
fn resolve_config_applies_global_profile_then_arguments() {
    let file = Some(test_config_file());
    let mut args = mock_cli_args();
    args.aws_region = None;
    args.event_severity_attribute = None;
    let effective = resolve_config(&Some("dev".to_string()), &file, &args)
        .unwrap_or_else(|e| panic!("{}", e.message()));
    // profile over global
    assert_eq!(effective.aws_region, Some("us-west-1".to_string()));
    // global where neither profile nor arguments say anything
    assert_eq!(effective.event_severity_attribute, "global.severity");
    assert_eq!(effective.trace_timeout_ms, 10_000);
    // arguments over profile
    assert_eq!(effective.poll_interval_ms, Some(30_000));
}

#[test]
fn resolve_config_reports_a_missing_profile() {
    let file = Some(test_config_file());
    let args = mock_cli_args();
    match resolve_config(&Some("prod".to_string()), &file, &args) {
        Ok(_) => panic!("expected an error"),
        Err(e) => assert_eq!(
            e.message(),
            "Configuration profile 'prod' not found in config file '.livetrace.toml'"
        ),
    }
}

#[test]
fn merge_with_itself_and_with_empty_changes_nothing() {
    let args = mock_cli_args();
    let p = ProfileConfig::from_cli_args(&args);
    let same = merge_into_profile_config(&p, &p);
    assert_eq!(same.log_group_pattern, p.log_group_pattern);
    assert_eq!(same.poll_interval, p.poll_interval);
    let kept = merge_into_profile_config(&p, &empty_profile());
    assert_eq!(kept.otlp_endpoint, p.otlp_endpoint);
    assert_eq!(kept.theme, p.theme);
}
