use otlp_forwarder::benchmark::charts::{extract_function_name, ChartType};
use otlp_forwarder::benchmark::types::{
    default_concurrent, default_memory_sizes, default_rounds, default_stack_name, test_directory,
    BatchTestConfig, GlobalConfig, PayloadConfig, TestIndex,
};
use otlp_forwarder::demo::propagation::OtelPropagationMiddleware;
use otlp_forwarder::demo::router::{default_method, request_path, route_key, route_regex};
use otlp_forwarder::demo::spanevent::{level_text, min_level_from, Level};

fn test_config() -> BatchTestConfig {
    BatchTestConfig {
        title: "Title".to_string(),
        description: "Desc".to_string(),
        name: "variant".to_string(),
        stack_name: None,
        selector: "fn-a".to_string(),
        payload: PayloadConfig::Inline("{}".to_string()),
        environment: vec![("LEVEL".to_string(), "debug".to_string())],
        memory_sizes: Some(vec![256]),
        concurrent: None,
        rounds: Some(3),
        parallel: None,
        proxy_function: None,
    }
}

#[test]
fn global_defaults() {
    let g = GlobalConfig::new();
    assert_eq!(g.memory_sizes, vec![128, 512, 1024]);
    assert_eq!(g.concurrent, 1);
    assert_eq!(g.rounds, 1);
    assert!(!g.parallel);
    assert_eq!(g.stack_name, "benchmark");
    assert!(g.environment.is_empty());
    assert_eq!(default_memory_sizes(), vec![128, 512, 1024]);
    assert_eq!(default_concurrent(), 1);
    assert_eq!(default_rounds(), 1);
    assert_eq!(default_stack_name(), "benchmark");
    let d = GlobalConfig::default();
    assert_eq!(d.memory_sizes, vec![128, 512, 1024]);
    assert_eq!(d.concurrent, 1);
    assert_eq!(d.rounds, 1);
    assert!(!d.parallel);
    assert_eq!(d.stack_name, "benchmark");
    assert!(d.environment.is_empty());
    assert!(d.title.is_none() && d.description.is_none() && d.proxy_function.is_none());
}

#[test]
fn test_settings_override_global_ones() {
    let mut g = GlobalConfig::new();
    g.environment = vec![
        ("LEVEL".to_string(), "info".to_string()),
        ("REGION".to_string(), "eu".to_string()),
    ];
    g.proxy_function = Some("global-proxy".to_string());
    let t = test_config();
    let s = t.resolve_settings(&g);
    assert_eq!(s.memory_sizes, vec![256]);
    assert_eq!(s.concurrent, 1);
    assert_eq!(s.rounds, 3);
    assert_eq!(s.stack_name, "benchmark");
    assert_eq!(
        t.merge_environment(&g.environment),
        vec![
            ("LEVEL".to_string(), "debug".to_string()),
            ("REGION".to_string(), "eu".to_string()),
        ]
    );
    assert_eq!(t.get_proxy_function(&g), Some("global-proxy".to_string()));
    let mut own = test_config();
    own.proxy_function = Some("own".to_string());
    assert_eq!(own.get_proxy_function(&g), Some("own".to_string()));

    let m = t.metadata(&g, "2024-01-01T00:00:00".to_string());
    assert_eq!(m.rounds, 3);
    assert_eq!(m.selector, "fn-a");
    let mut index = TestIndex::new("now".to_string());
    index.record(m);
    assert_eq!(index.tests.len(), 1);
    assert_eq!(
        test_directory("results", "benchmark", "fn-a", "variant"),
        "results/benchmark/fn-a/variant"
    );
}

#[test]
fn charts_have_ids_and_titles() {
    assert_eq!(ChartType::ColdStartInit.base_id(), "cold-start-init-duration");
    assert_eq!(ChartType::WarmStartNetOverTime.base_id(), "net-duration-over-time");
    assert_eq!(ChartType::MemoryUsage.title(), "Memory Usage");
    assert_eq!(ChartType::WarmStartServer.title(), "Server Duration");
    assert_eq!(
        extract_function_name("arn:aws:lambda:us-east-1:123:function:my-fn"),
        "my-fn"
    );
    assert_eq!(extract_function_name("plain-name"), "plain-name");
}

#[test]
fn levels_have_numbers_texts_and_an_order() {
    assert_eq!(Level::Trace.severity_number(), 1);
    assert_eq!(Level::Error.severity_number(), 17);
    assert_eq!(level_text(Level::Warn), "WARN");
    assert!(Level::Error.is_at_least(Level::Info));
    assert!(!Level::Debug.is_at_least(Level::Info));
    assert_eq!(min_level_from(&None), Level::Trace);
    assert_eq!(min_level_from(&Some("warn".to_string())), Level::Warn);
    assert_eq!(min_level_from(&Some("Error".to_string())), Level::Error);
    assert_eq!(min_level_from(&Some("verbose".to_string())), Level::Trace);
}

#[test]
fn route_paths_become_anchored_patterns() {
    assert_eq!(route_regex("/quotes/{id}"), "^/quotes/(?P<id>[^/]+)$");
    assert_eq!(route_regex("/files/{path+}"), "^/files/(?P<path>.*)$");
    assert_eq!(route_regex("/a.b/c-d"), "^/a\\.b/c\\-d$");
    assert_eq!(route_regex(""), "^$");
    assert_eq!(route_key("post", "/quotes"), "POST /quotes");
    assert_eq!(default_method(), "GET");
    assert_eq!(request_path(&None), "/");
    assert_eq!(request_path(&Some("/x".to_string())), "/x");
    let _m = OtelPropagationMiddleware::new();
}

#[test]
fn index_page_metadata_lists_the_settings_the_test_ran_with() {
    let mut g = GlobalConfig::new();
    g.environment = vec![
        ("LEVEL".to_string(), "info".to_string()),
        ("REGION".to_string(), "eu".to_string()),
    ];
    let mut t = test_config();
    t.memory_sizes = Some(vec![128, -1, 1024]);
    let items = t.index_metadata(&g, "stack-x");
    let expected: Vec<(String, String)> = vec![
        ("Stack", "stack-x"),
        ("Function", "fn-a"),
        ("Memory Configurations", "128, -1, 1024 MB"),
        ("Concurrent Invocations", "1"),
        ("Warm Start Rounds", "3"),
        ("Parallel Execution", "no"),
        ("Environment Variables", "REGION=eu\nLEVEL=debug"),
    ]
    .into_iter()
    .map(|(a, b)| (a.to_string(), b.to_string()))
    .collect();
    assert_eq!(items, expected);

    let mut plain = test_config();
    plain.environment = Vec::new();
    plain.memory_sizes = None;
    plain.parallel = Some(true);
    let items = plain.index_metadata(&GlobalConfig::new(), "s");
    assert_eq!(items.len(), 6);
    assert_eq!(items[2].1, "128, 512, 1024 MB");
    assert_eq!(items[5].1, "yes");
}
