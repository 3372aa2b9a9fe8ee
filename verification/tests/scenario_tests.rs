//! End-to-end scenario: a counter actor with two exported handlers, driven
//! through configuration resolution, handler collection, table synthesis,
//! and the modeled runtime lifecycle.

use fvm_actor_core::codec::{decode_counter, encode_counter, Counter};
use fvm_actor_core::collector::{impl_block_meta, Tok};
use fvm_actor_core::lifecycle::{
    commit_return_value, dispatch_lookup, AbortCondition, HostState, LoadOutcome,
    NO_DATA_BLOCK_ID,
};
use fvm_actor_core::resolver::{parse_attributes, DispatchMode};
use fvm_actor_core::table::{build_dispatch_table, DispatchKey};

fn ident(s: &str) -> Tok {
    Tok::Ident(s.to_string())
}

/// `#[fvm_export(binding = <b>)] pub fn <name>() {}` as tokens.
fn exported_method(binding: &str, name: &str) -> Vec<Tok> {
    vec![
        Tok::Punct('#'),
        Tok::Group(vec![
            ident("fvm_export"),
            Tok::Group(vec![ident("binding"), Tok::Punct('='), Tok::Literal(binding.to_string())]),
        ]),
        ident("pub"),
        ident("fn"),
        ident(name),
        Tok::Group(Vec::new()),
        Tok::Group(Vec::new()),
    ]
}

/// Loads the counter the way the generated routing code would: default for
/// the constructor selector, the decoded root block otherwise.
fn load_counter(host: &HostState, selector: u64) -> Counter {
    match host.load_state(selector) {
        Ok(LoadOutcome::DefaultState) => Default::default(),
        Ok(LoadOutcome::Stored(bytes)) => decode_counter(&bytes).expect("state block must decode"),
        Err(c) => panic!("load aborted: {}", c.describe()),
    }
}

#[test]
fn counter_actor_end_to_end() {
    // Actor configuration: `state = Counter, dispatch = method_num, invoke = true`.
    let cfg = parse_attributes("state = Counter, dispatch = method_num, invoke = true").unwrap();
    assert_eq!(cfg.state_type_name.as_str(), "Counter");
    assert_eq!(cfg.dispatch_mode, DispatchMode::ExplicitNumber);
    assert!(cfg.invoke_entrypoint);

    // Two exported handlers, bound to the first method numbers after the
    // reserved constructor number 1.
    let mut body = Vec::new();
    body.extend(exported_method("2", "increment"));
    body.extend(exported_method("3", "reset"));
    let stream = vec![ident("impl"), ident("Machine"), Tok::Group(body)];
    let (name, handlers) = impl_block_meta(&stream).unwrap();
    assert_eq!(name.as_str(), "Machine");

    // Expected table: {2: increment, 3: reset}.
    let table = build_dispatch_table(&cfg, &handlers).unwrap();
    assert_eq!(table.len(), 2);
    assert!(matches!(table[0].key, DispatchKey::MethodNumber(2)));
    assert_eq!(table[0].handler.name.as_str(), "increment");
    assert!(matches!(table[1].key, DispatchKey::MethodNumber(3)));
    assert_eq!(table[1].handler.name.as_str(), "reset");

    // A prior call left the state at {count: 5}.
    let mut host = HostState::new();
    host.save_state(encode_counter(&Counter { count: 5 }));

    // A call with the constructor selector 1 yields the default counter,
    // although a state block exists.
    assert_eq!(load_counter(&host, 1), Counter { count: 0 });

    // A call with selector 2 dispatches to `increment`: it loads {count: 5},
    // persists {count: 6}, and returns no payload.
    let selector = DispatchKey::MethodNumber(2);
    let row = dispatch_lookup(&table, &selector).unwrap();
    assert_eq!(table[row].handler.name.as_str(), "increment");
    let state = load_counter(&host, 2);
    assert_eq!(state, Counter { count: 5 });
    let new_state = Counter { count: state.count + 1 };
    host.save_state(encode_counter(&new_state));
    let ret: Option<Vec<u8>> = None;
    let block_id = commit_return_value(&mut host, ret);
    assert_eq!(block_id, NO_DATA_BLOCK_ID);
    assert_eq!(load_counter(&host, 2), Counter { count: 6 });

    // A call with selector 99 aborts with the unhandled-message condition.
    let unknown = DispatchKey::MethodNumber(99);
    match dispatch_lookup(&table, &unknown) {
        Err(AbortCondition::UnhandledMessage) => {}
        _ => panic!("an unknown selector must abort as unhandled"),
    }
}

#[test]
fn sequential_counter_actor_numbers_from_two() {
    // The same actor without an explicit dispatch key falls back to
    // sequential numbering: declaration order, starting after the reserved
    // constructor number.
    let cfg = parse_attributes("state = Counter").unwrap();
    assert_eq!(cfg.dispatch_mode, DispatchMode::SequentialNumber);
    let mut body = Vec::new();
    body.extend(vec![
        ident("pub"),
        ident("fn"),
        ident("increment"),
        Tok::Group(Vec::new()),
        Tok::Group(Vec::new()),
    ]);
    body.extend(vec![
        ident("pub"),
        ident("fn"),
        ident("reset"),
        Tok::Group(Vec::new()),
        Tok::Group(Vec::new()),
    ]);
    let stream = vec![ident("impl"), ident("Machine"), Tok::Group(body)];
    let (_, handlers) = impl_block_meta(&stream).unwrap();
    let table = build_dispatch_table(&cfg, &handlers).unwrap();
    assert_eq!(table.len(), 2);
    assert!(matches!(table[0].key, DispatchKey::MethodNumber(2)));
    assert_eq!(table[0].handler.name.as_str(), "increment");
    assert!(matches!(table[1].key, DispatchKey::MethodNumber(3)));
    assert_eq!(table[1].handler.name.as_str(), "reset");
}
