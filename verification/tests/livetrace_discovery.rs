use otlp_forwarder::livetrace::discovery::{
    check_discovered, check_group_count, collect_validations, decide_validation,
    lambda_edge_variant, live_tail_filter_pattern, log_group_arn, log_groups_from_stack_resources,
    merge_unique, poll_request_start, stack_resource_log_group, validation_candidates, Lookup,
    PollCursors, PollProgress,
};

fn s(x: &str) -> Option<String> {
    Some(x.to_string())
}

#[test]
fn stack_resources_give_log_groups() {
    assert_eq!(
        stack_resource_log_group(&s("AWS::Logs::LogGroup"), &s("my-group")),
        s("my-group")
    );
    assert_eq!(
        stack_resource_log_group(&s("AWS::Lambda::Function"), &s("my-fn")),
        s("/aws/lambda/my-fn")
    );
    assert_eq!(stack_resource_log_group(&s("AWS::S3::Bucket"), &s("b")), None);
    assert_eq!(stack_resource_log_group(&s("AWS::Logs::LogGroup"), &None), None);
    let resources = vec![
        (s("AWS::Lambda::Function"), s("f1")),
        (s("AWS::S3::Bucket"), s("b")),
        (s("AWS::Logs::LogGroup"), s("g")),
    ];
    assert_eq!(
        log_groups_from_stack_resources(&resources),
        vec!["/aws/lambda/f1".to_string(), "g".to_string()]
    );
}

#[test]
fn lambda_groups_are_checked_as_edge_variants_first() {
    assert_eq!(
        lambda_edge_variant("/aws/lambda/fn", "us-east-1"),
        s("/aws/lambda/us-east-1.fn")
    );
    assert_eq!(lambda_edge_variant("/custom/group", "us-east-1"), None);
    assert_eq!(
        validation_candidates("/aws/lambda/fn", "eu-west-1"),
        vec!["/aws/lambda/eu-west-1.fn".to_string(), "/aws/lambda/fn".to_string()]
    );
    assert_eq!(validation_candidates("/custom", "eu-west-1"), vec!["/custom".to_string()]);
}

#[test]
fn the_first_answer_that_is_not_missing_decides() {
    assert_eq!(decide_validation(&vec![Lookup::Found]), Ok(Some(0)));
    assert_eq!(decide_validation(&vec![Lookup::Missing, Lookup::Found]), Ok(Some(1)));
    assert_eq!(decide_validation(&vec![Lookup::Missing, Lookup::Missing]), Ok(None));
    assert_eq!(decide_validation(&vec![Lookup::Missing, Lookup::Failed]), Err(1));
    assert_eq!(decide_validation(&vec![Lookup::Failed, Lookup::Found]), Err(0));
}

#[test]
fn validations_keep_names_in_order_and_the_first_error_wins() {
    let ok = vec![Ok(s("a")), Ok(None), Ok(s("b"))];
    assert_eq!(collect_validations(ok), Ok(vec!["a".to_string(), "b".to_string()]));
    let bad = vec![Ok(s("a")), Err("first".to_string()), Err("second".to_string())];
    assert_eq!(collect_validations(bad), Err("first".to_string()));
}

#[test]
fn merged_names_have_no_repeats() {
    let lists = vec![
        vec!["a".to_string(), "b".to_string()],
        vec!["b".to_string(), "c".to_string(), "a".to_string()],
    ];
    assert_eq!(
        merge_unique(&lists),
        vec!["a".to_string(), "b".to_string(), "c".to_string()]
    );
}

#[test]
fn group_counts_are_checked() {
    assert!(check_discovered(0, false, false).err().unwrap().message().starts_with("Internal error"));
    assert!(check_discovered(0, true, false).err().unwrap().message().starts_with("No log groups found"));
    assert!(check_discovered(3, true, false).is_ok());
    assert!(check_group_count(0).is_err());
    assert!(check_group_count(1).is_ok());
    assert!(check_group_count(10).is_ok());
    assert_eq!(
        check_group_count(11).err().unwrap().message(),
        "Discovery resulted in 11 valid log groups (max 10 allowed for live tail)"
    );
}

#[test]
fn arns_are_built_from_names() {
    assert_eq!(
        log_group_arn("aws", "us-east-1", "123456789012", "/aws/lambda/fn"),
        "arn:aws:logs:us-east-1:123456789012:log-group:/aws/lambda/fn"
    );
}

#[test]
fn polling_advances_to_the_newest_event() {
    let mut progress = PollProgress::new(1000);
    progress.absorb_page(&vec![Some(1500), None, Some(1200)]);
    progress.absorb_page(&vec![Some(900)]);
    assert_eq!(progress.next_start(), Some(1500));
    let mut idle = PollProgress::new(1000);
    idle.absorb_page(&vec![]);
    assert_eq!(idle.next_start(), None);

    let mut cursors = PollCursors::new(42);
    assert_eq!(cursors.start_time_for("arn:a"), 42);
    cursors.advance("arn:a".to_string(), 1500);
    cursors.advance("arn:b".to_string(), 7);
    cursors.advance("arn:a".to_string(), 1600);
    assert_eq!(cursors.start_time_for("arn:a"), 1600);
    assert_eq!(cursors.start_time_for("arn:b"), 7);
    assert_eq!(cursors.start_time_for("arn:c"), 42);
    assert_eq!(poll_request_start(1600), 1601);
    assert_eq!(live_tail_filter_pattern(), "{ $.__otel_otlp_stdout = * }");
}
