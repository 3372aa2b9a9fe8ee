use fvm_actor_core::resolver::{
    build_fvm_actor_attributes, find_last_value, parse_attributes, parse_macro_args, split_string,
    str_eq, trim_str, unquote_str, AttributeConfig, ConfigError, DispatchMode, KeyValue,
};

#[test]
fn str_eq_decides_equality() {
    assert!(str_eq("abc", "abc"));
    assert!(!str_eq("abc", "abd"));
    assert!(!str_eq("abc", "ab"));
    assert!(str_eq("", ""));
}

#[test]
fn split_string_drops_separators() {
    let parts = split_string("a,b,,c", ',');
    let texts: Vec<&str> = parts.iter().map(|s| s.as_str()).collect();
    assert_eq!(texts, vec!["a", "b", "", "c"]);
}

#[test]
fn split_string_without_separator_is_whole() {
    let parts = split_string("state = S", ',');
    assert_eq!(parts.len(), 1);
    assert_eq!(parts[0].as_str(), "state = S");
}

#[test]
fn trim_removes_surrounding_spaces_only() {
    assert_eq!(trim_str("  a b  ").as_str(), "a b");
    assert_eq!(trim_str("").as_str(), "");
    assert_eq!(trim_str("   ").as_str(), "");
}

#[test]
fn unquote_removes_one_quote_pair() {
    assert_eq!(unquote_str("\"abi_selector\"").as_str(), "abi_selector");
    assert_eq!(unquote_str("plain").as_str(), "plain");
    assert_eq!(unquote_str("\"").as_str(), "\"");
}

#[test]
fn parse_macro_args_single_pair() {
    let kvs = parse_macro_args("state = Counter").unwrap();
    assert_eq!(kvs.len(), 1);
    assert_eq!(kvs[0].key.as_str(), "state");
    assert_eq!(kvs[0].value.as_str(), "Counter");
}

#[test]
fn parse_macro_args_many_pairs() {
    let kvs = parse_macro_args("state = Counter, dispatch = method_num, invoke = false").unwrap();
    assert_eq!(kvs.len(), 3);
    assert_eq!(kvs[1].key.as_str(), "dispatch");
    assert_eq!(kvs[1].value.as_str(), "method_num");
    assert_eq!(kvs[2].key.as_str(), "invoke");
    assert_eq!(kvs[2].value.as_str(), "false");
}

#[test]
fn parse_macro_args_quoted_value() {
    let kvs = parse_macro_args("binding = \"say_hello\"").unwrap();
    assert_eq!(kvs.len(), 1);
    assert_eq!(kvs[0].key.as_str(), "binding");
    assert_eq!(kvs[0].value.as_str(), "say_hello");
}

#[test]
fn parse_macro_args_rejects_missing_equals() {
    assert!(matches!(parse_macro_args("state Counter"), Err(ConfigError::MalformedPair)));
}

#[test]
fn parse_macro_args_rejects_empty_text() {
    assert!(matches!(parse_macro_args(""), Err(ConfigError::MalformedPair)));
}

#[test]
fn parse_macro_args_rejects_trailing_comma() {
    assert!(matches!(parse_macro_args("state = S,"), Err(ConfigError::MalformedPair)));
}

#[test]
fn parse_attributes_applies_defaults() {
    let cfg = parse_attributes("state = Counter").unwrap();
    assert_eq!(cfg.state_type_name.as_str(), "Counter");
    assert_eq!(cfg.dispatch_mode, DispatchMode::SequentialNumber);
    assert!(cfg.invoke_entrypoint);
}

#[test]
fn parse_attributes_reads_explicit_modes() {
    let cfg = parse_attributes("state = S, dispatch = method_num").unwrap();
    assert_eq!(cfg.dispatch_mode, DispatchMode::ExplicitNumber);
    let cfg = parse_attributes("state = S, dispatch = abi_selector, invoke = false").unwrap();
    assert_eq!(cfg.dispatch_mode, DispatchMode::ExplicitSelector);
    assert!(!cfg.invoke_entrypoint);
}

#[test]
fn parse_attributes_requires_state() {
    assert!(matches!(parse_attributes("invoke = true"), Err(ConfigError::MissingStateKey)));
}

#[test]
fn parse_attributes_rejects_unknown_dispatch() {
    assert!(matches!(
        parse_attributes("state = S, dispatch = round_robin"),
        Err(ConfigError::UnknownDispatchValue)
    ));
}

#[test]
fn parse_attributes_rejects_unrecognized_key() {
    assert!(matches!(
        parse_attributes("state = S, flavor = blue"),
        Err(ConfigError::UnrecognizedKey)
    ));
}

#[test]
fn parse_attributes_rejects_bad_invoke_flag() {
    assert!(matches!(
        parse_attributes("state = S, invoke = maybe"),
        Err(ConfigError::InvalidInvokeFlag)
    ));
}

#[test]
fn later_pair_overrides_earlier() {
    let cfg = parse_attributes("state = A, state = B").unwrap();
    assert_eq!(cfg.state_type_name.as_str(), "B");
}

#[test]
fn build_attributes_from_pairs() {
    let kvs = vec![
        KeyValue { key: "state".to_string(), value: "Counter".to_string() },
        KeyValue { key: "dispatch".to_string(), value: "abi_selector".to_string() },
    ];
    let cfg: AttributeConfig = build_fvm_actor_attributes(&kvs).unwrap();
    assert_eq!(cfg.state_type_name.as_str(), "Counter");
    assert_eq!(cfg.dispatch_mode, DispatchMode::ExplicitSelector);
    assert!(cfg.invoke_entrypoint);
}

#[test]
fn find_last_value_picks_last() {
    let kvs = vec![
        KeyValue { key: "state".to_string(), value: "A".to_string() },
        KeyValue { key: "invoke".to_string(), value: "true".to_string() },
        KeyValue { key: "state".to_string(), value: "B".to_string() },
    ];
    assert_eq!(find_last_value(&kvs, "state").unwrap().as_str(), "B");
    assert!(find_last_value(&kvs, "dispatch").is_none());
}
