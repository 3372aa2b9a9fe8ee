use fvm_actor_core::codec::{decode_counter, encode_counter, Counter};
use fvm_actor_core::lifecycle::{
    commit_return_value, dispatch_lookup, AbortCondition, HostState, LoadOutcome,
    NO_DATA_BLOCK_ID,
};
use fvm_actor_core::table::{DispatchEntry, DispatchKey, HandlerDeclaration};

fn entry(n: u64, name: &str) -> DispatchEntry {
    DispatchEntry {
        key: DispatchKey::MethodNumber(n),
        handler: HandlerDeclaration { name: name.to_string(), declared_binding: None },
    }
}

#[test]
fn fresh_host_has_no_root() {
    let host = HostState::new();
    assert!(host.get_root().is_none());
    assert!(matches!(host.load_state(2), Err(AbortCondition::RootUnavailable)));
}

#[test]
fn save_then_load_returns_saved_bytes() {
    let mut host = HostState::new();
    let id = host.save_state(vec![1, 2, 3]);
    assert_eq!(host.get_root(), Some(id));
    match host.load_state(7) {
        Ok(LoadOutcome::Stored(bytes)) => assert_eq!(bytes, vec![1, 2, 3]),
        _ => panic!("expected the stored block back"),
    }
}

#[test]
fn save_advances_root_to_newest_block() {
    let mut host = HostState::new();
    let first = host.save_state(vec![1]);
    let second = host.save_state(vec![2]);
    assert_ne!(first, second);
    assert_eq!(host.get_root(), Some(second));
    match host.load_state(2) {
        Ok(LoadOutcome::Stored(bytes)) => assert_eq!(bytes, vec![2]),
        _ => panic!("expected the newest block"),
    }
}

#[test]
fn constructor_selector_bypasses_store() {
    let mut host = HostState::new();
    host.save_state(vec![9, 9]);
    assert!(matches!(host.load_state(1), Ok(LoadOutcome::DefaultState)));
    let empty = HostState::new();
    assert!(matches!(empty.load_state(1), Ok(LoadOutcome::DefaultState)));
}

#[test]
fn put_block_leaves_root_alone() {
    let mut host = HostState::new();
    let saved = host.save_state(vec![5]);
    let extra = host.put_block(vec![6]);
    assert_ne!(extra, NO_DATA_BLOCK_ID);
    assert_eq!(host.get_root(), Some(saved));
    assert_eq!(host.get_block(extra).unwrap(), &vec![6]);
}

#[test]
fn dangling_root_is_block_absent() {
    let mut host = HostState::new();
    host.put_block(vec![1]);
    host.set_root(9);
    assert!(matches!(host.load_state(4), Err(AbortCondition::BlockAbsent)));
    assert!(matches!(host.load_state(1), Ok(LoadOutcome::DefaultState)));
}

#[test]
fn get_block_misses_unknown_ids() {
    let host = HostState::new();
    assert!(host.get_block(0).is_none());
    assert!(host.get_block(1).is_none());
}

#[test]
fn commit_return_value_none_is_no_data() {
    let mut host = HostState::new();
    let id = commit_return_value(&mut host, None);
    assert_eq!(id, NO_DATA_BLOCK_ID);
    assert!(host.get_block(1).is_none());
}

#[test]
fn commit_return_value_stores_payload() {
    let mut host = HostState::new();
    let id = commit_return_value(&mut host, Some(vec![4, 2]));
    assert_ne!(id, NO_DATA_BLOCK_ID);
    assert_eq!(host.get_block(id).unwrap(), &vec![4, 2]);
    assert!(host.get_root().is_none());
}

#[test]
fn dispatch_lookup_finds_exact_match() {
    let table = vec![entry(2, "increment"), entry(3, "reset")];
    let hit = dispatch_lookup(&table, &DispatchKey::MethodNumber(3)).unwrap();
    assert_eq!(hit, 1);
    assert_eq!(table[hit].handler.name.as_str(), "reset");
}

#[test]
fn dispatch_lookup_unknown_selector_aborts() {
    let table = vec![entry(2, "increment"), entry(3, "reset")];
    let miss = dispatch_lookup(&table, &DispatchKey::MethodNumber(99));
    assert!(matches!(miss, Err(AbortCondition::UnhandledMessage)));
    let selector = DispatchKey::AbiSelector("nope".to_string());
    assert!(matches!(dispatch_lookup(&table, &selector), Err(AbortCondition::UnhandledMessage)));
}

#[test]
fn abort_conditions_report_their_classes() {
    assert_eq!(AbortCondition::RootUnavailable.exit_code(), 20);
    assert_eq!(AbortCondition::BlockAbsent.exit_code(), 20);
    assert_eq!(AbortCondition::DecodeFailure.exit_code(), 21);
    assert_eq!(AbortCondition::UnhandledMessage.exit_code(), 22);
    assert_eq!(AbortCondition::RootUnavailable.describe(), "failed to get root");
    assert_eq!(AbortCondition::BlockAbsent.describe(), "state does not exist");
    assert_eq!(AbortCondition::DecodeFailure.describe(), "failed to decode state");
    assert_eq!(AbortCondition::UnhandledMessage.describe(), "unrecognized method");
}

#[test]
fn counter_codec_round_trips() {
    let c = Counter { count: 5 };
    let bytes = encode_counter(&c);
    assert_eq!(bytes.len(), 8);
    assert_eq!(decode_counter(&bytes), Ok(Counter { count: 5 }));
    let big = Counter { count: u64::MAX - 1 };
    assert_eq!(decode_counter(&encode_counter(&big)), Ok(big));
}

#[test]
fn counter_decode_rejects_wrong_length() {
    assert_eq!(decode_counter(&vec![1, 2, 3]), Err(AbortCondition::DecodeFailure));
    assert_eq!(decode_counter(&Vec::new()), Err(AbortCondition::DecodeFailure));
}

#[test]
fn counter_default_is_zero() {
    let c: Counter = Default::default();
    assert_eq!(c.count, 0);
}
