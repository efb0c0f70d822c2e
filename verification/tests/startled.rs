use otlp_forwarder::startled::names::{
    contains_substring, directory_group_name, select_stack_functions, validate_fs_safe_name,
};
use otlp_forwarder::startled::report::{
    base_path_for_depth, calculate_base_path, snake_to_kebab, sort_subgroups, subgroup_sort_key,
    IndexItem,
};
use otlp_forwarder::startled::types::{
    architecture_label, benchmark_environment, group_output_dir, join_path, listed_error_count,
    memory_dir_name, memory_note, needs_config_update, original_memory_size, report_file_name,
    telemetry_region, EnvVar, FunctionBenchmarkConfig,
};
use std::path::PathBuf;

fn path_text(p: PathBuf) -> String {
    p.to_string_lossy().into_owned()
}

#[test]
fn test_snake_to_kebab() {
    assert_eq!(snake_to_kebab("hello_world"), "hello-world");
    assert_eq!(snake_to_kebab("another_test_case"), "another-test-case");
    assert_eq!(snake_to_kebab("single"), "single");
    assert_eq!(snake_to_kebab(""), "");
    assert_eq!(snake_to_kebab("_leading_underscore"), "-leading-underscore");
    assert_eq!(snake_to_kebab("trailing_underscore_"), "trailing-underscore-");
}

#[test]
fn test_calculate_base_path_no_base_url() {
    assert_eq!(
        calculate_base_path(&path_text(PathBuf::from("output_dir")), None).unwrap(),
        "../../"
    );
    assert_eq!(
        calculate_base_path(&path_text(PathBuf::from("output_dir/group1")), None).unwrap(),
        "../../../"
    );
    assert_eq!(
        calculate_base_path(&path_text(PathBuf::from("output_dir/group1/subgroupA")), None).unwrap(),
        "../../../"
    );
    assert_eq!(
        calculate_base_path(
            &path_text(PathBuf::from("output_dir/group1/subgroupA/extra")),
            None
        )
        .unwrap(),
        "../../../"
    );
}

#[test]
fn test_calculate_base_path_with_base_url() {
    let current_dir = path_text(PathBuf::from("any/path"));
    assert_eq!(
        calculate_base_path(&current_dir, Some("http://example.com")).unwrap(),
        "http://example.com/"
    );
    assert_eq!(
        calculate_base_path(&current_dir, Some("http://example.com/")).unwrap(),
        "http://example.com/"
    );
    assert_eq!(
        calculate_base_path(&current_dir, Some("https://cdn.test/reports/")).unwrap(),
        "https://cdn.test/reports/"
    );
    assert_eq!(calculate_base_path(&current_dir, Some("")).unwrap(), "/");
}

#[test]
fn base_path_depth_is_one_more_than_the_components_and_at_most_three() {
    assert_eq!(base_path_for_depth(0), "");
    assert_eq!(base_path_for_depth(1), "../../");
    assert_eq!(base_path_for_depth(2), "../../../");
    assert_eq!(base_path_for_depth(7), "../../../");
    assert_eq!(calculate_base_path("", None).unwrap(), "");
}

#[test]
fn test_validate_fs_safe_name_valid() {
    assert!(validate_fs_safe_name("valid-name_123").is_ok());
    assert!(validate_fs_safe_name("another_valid").is_ok());
    assert!(validate_fs_safe_name("simple").is_ok());
}

#[test]
fn test_validate_fs_safe_name_invalid_empty() {
    assert!(validate_fs_safe_name("").is_err());
}

#[test]
fn test_validate_fs_safe_name_invalid_dot() {
    assert!(validate_fs_safe_name(".").is_err());
    assert!(validate_fs_safe_name("..").is_err());
}

#[test]
fn test_validate_fs_safe_name_invalid_chars() {
    assert!(validate_fs_safe_name("invalid/name").is_err());
    assert!(validate_fs_safe_name("invalid*name").is_err());
    assert!(validate_fs_safe_name("invalid:name").is_err());
    assert!(validate_fs_safe_name("invalid name").is_err());
    assert!(validate_fs_safe_name("name!").is_err());
}

#[test]
fn fs_name_errors_say_what_is_wrong() {
    assert_eq!(validate_fs_safe_name("").err().unwrap().message(), "Name cannot be empty.");
    assert_eq!(
        validate_fs_safe_name("..").err().unwrap().message(),
        "Name cannot be '.' or '..'."
    );
    assert_eq!(
        validate_fs_safe_name("a b").err().unwrap().message(),
        "Name 'a b' contains invalid characters. Only alphanumeric characters, underscores, and hyphens are allowed."
    );
}

#[test]
fn group_name_prefers_the_select_name() {
    assert_eq!(directory_group_name("svc", &None).ok().unwrap(), "svc");
    assert_eq!(
        directory_group_name("svc.*", &Some("named".to_string())).ok().unwrap(),
        "named"
    );
    assert!(directory_group_name("svc.*", &None)
        .err()
        .unwrap()
        .message()
        .starts_with("Invalid --select pattern for directory name"));
    assert!(directory_group_name("svc", &Some("bad/name".to_string()))
        .err()
        .unwrap()
        .message()
        .starts_with("Invalid --select-name"));
}

#[test]
fn stack_functions_are_selected_by_substring_or_regex() {
    let s = |x: &str| Some(x.to_string());
    let resources = vec![
        (s("AWS::Lambda::Function"), s("app-service-a-fn")),
        (s("AWS::Lambda::Function"), s("app-service-b-fn")),
        (s("AWS::S3::Bucket"), s("service-a-bucket")),
        (s("AWS::Lambda::Function"), None),
    ];
    assert_eq!(
        select_stack_functions(&resources, "service-a", &None),
        vec!["app-service-a-fn".to_string()]
    );
    assert_eq!(
        select_stack_functions(&resources, "ignored", &s("service-[ab]")),
        vec!["app-service-a-fn".to_string(), "app-service-b-fn".to_string()]
    );
    assert!(select_stack_functions(&resources, "x", &s("(unclosed")).is_empty());
    assert!(contains_substring("abc", ""));
    assert!(contains_substring("abc", "bc"));
    assert!(!contains_substring("abc", "abcd"));
}

#[test]
fn test_function_benchmark_config_new() {
    let function_name = "test_func";
    let memory_size = Some(512);
    let concurrent = 10;
    let rounds = 5;
    let payload = Some("{}".to_string());
    let output_dir = "test_output";
    let environment = vec![("KEY".to_string(), "VALUE".to_string())];
    let proxy_function = Some("proxy_func".to_string());

    let config = FunctionBenchmarkConfig::new(
        function_name.to_string(),
        memory_size,
        concurrent,
        rounds,
        payload.clone(),
        output_dir.to_string(),
        environment.clone(),
        proxy_function.clone(),
    );

    assert_eq!(config.function_name, function_name);
    assert_eq!(config.memory_size, memory_size);
    assert_eq!(config.concurrent, concurrent);
    assert_eq!(config.rounds, rounds);
    assert_eq!(config.payload, payload);
    assert_eq!(config.output_dir, output_dir);
    assert_eq!(config.environment, environment);
    assert_eq!(config.proxy_function, proxy_function);
}

#[test]
fn env_vars_are_read_as_key_equals_value() {
    let v: EnvVar = "MY_KEY=some=value".parse().ok().unwrap();
    assert_eq!(v.key, "MY_KEY");
    assert_eq!(v.value, "some=value");
    let empty_value = EnvVar::parse("K=").ok().unwrap();
    assert_eq!(empty_value.value, "");
    assert_eq!(
        EnvVar::parse("novalue").err().unwrap().message(),
        "Invalid environment variable format. Must be KEY=VALUE"
    );
    assert!(EnvVar::parse("1KEY=x").err().unwrap().message().starts_with("Invalid environment variable name: 1KEY."));
    assert!(EnvVar::parse("=x").is_err());
    assert!(EnvVar::parse("BAD-KEY=x").is_err());
}

#[test]
fn result_names_and_labels() {
    assert_eq!(memory_dir_name(Some(128)), "128mb");
    assert_eq!(memory_dir_name(Some(-5)), "-5mb");
    assert_eq!(memory_dir_name(None), "default");
    assert_eq!(report_file_name("fn-a"), "fn-a.json");
    assert_eq!(memory_note(Some(512)), "(512MB)");
    assert_eq!(memory_note(None), "");
    assert_eq!(architecture_label(&vec![]), Some("x86_64".to_string()));
    assert_eq!(
        architecture_label(&vec!["arm64".to_string(), "x86_64".to_string()]),
        Some("arm64".to_string())
    );
    assert!(needs_config_update(Some(128), 0));
    assert!(needs_config_update(None, 1));
    assert!(!needs_config_update(None, 0));
    assert_eq!(original_memory_size(None), 128);
    assert_eq!(original_memory_size(Some(256)), 256);
    assert_eq!(listed_error_count(3), (3, 0));
    assert_eq!(listed_error_count(14), (10, 4));
}

#[test]
fn paths_are_joined_like_pathbuf() {
    assert_eq!(join_path("out", "function"), "out/function");
    assert_eq!(join_path("out/", "function"), "out/function");
    assert_eq!(join_path("", "function"), "function");
    assert_eq!(join_path("out", "/abs"), "/abs");
    assert_eq!(group_output_dir("base", "grp"), "base/grp");
}

#[test]
fn benchmark_variables_override_current_ones() {
    let current = vec![
        ("A".to_string(), "1".to_string()),
        ("B".to_string(), "2".to_string()),
    ];
    let overrides = vec![("B".to_string(), "3".to_string()), ("C".to_string(), "4".to_string())];
    assert_eq!(
        benchmark_environment(&current, &overrides),
        vec![
            ("A".to_string(), "1".to_string()),
            ("B".to_string(), "3".to_string()),
            ("C".to_string(), "4".to_string()),
        ]
    );
}

#[test]
fn telemetry_region_is_shown_for_aws_endpoints() {
    assert_eq!(telemetry_region("http://localhost:4318", &None), None);
    assert_eq!(
        telemetry_region("https://xray.us-east-1.amazonaws.com", &None),
        Some(("us-east-1".to_string(), true))
    );
    assert_eq!(
        telemetry_region("https://xray.eu-west-1.amazonaws.com", &Some("eu-west-1".to_string())),
        Some(("eu-west-1".to_string(), false))
    );
}

#[test]
fn memory_directories_sort_by_number_stably() {
    assert_eq!(subgroup_sort_key("128mb"), 128);
    assert_eq!(subgroup_sort_key("1024mbmb"), 1024);
    assert_eq!(subgroup_sort_key("+64mb"), 64);
    assert_eq!(subgroup_sort_key("default"), u32::MAX);
    assert_eq!(subgroup_sort_key("99999999999mb"), u32::MAX);
    let names = vec![
        "1024mb".to_string(),
        "default".to_string(),
        "128mb".to_string(),
        "other".to_string(),
        "512mb".to_string(),
    ];
    assert_eq!(
        sort_subgroups(names),
        vec![
            "128mb".to_string(),
            "512mb".to_string(),
            "1024mb".to_string(),
            "default".to_string(),
            "other".to_string(),
        ]
    );
}

#[test]
fn index_items_are_built_step_by_step() {
    let item = IndexItem::new("Title".to_string(), "path/".to_string())
        .with_subtitle("Sub".to_string())
        .with_metadata("Memory".to_string(), "128 MB".to_string())
        .with_metadata("Runtime".to_string(), "rust".to_string());
    assert_eq!(item.title, "Title");
    assert_eq!(item.subtitle, Some("Sub".to_string()));
    assert_eq!(item.path, "path/");
    assert_eq!(
        item.metadata,
        vec![
            ("Memory".to_string(), "128 MB".to_string()),
            ("Runtime".to_string(), "rust".to_string()),
        ]
    );
}
