//! The state-lifecycle protocol and the routing lookup, modeled against an
//! injected host capability.
//!
//! At run time an actor lives inside a host that owns a content-addressed
//! block store and a single mutable root pointer naming the current state
//! block. [`HostState`] models that capability as an explicit value handed to
//! `load`/`save`, so the lifecycle is specified and checked in isolation:
//! block identifiers are handed out fresh (1, 2, ...), identifier 0 is the
//! no-data sentinel, and a block, once stored, is never mutated — persistence
//! is always "write a new block, then repoint the root".
//!
//! Every fatal runtime condition carries its own distinct condition code, and
//! none is ever retried: a failed call is rolled back wholesale by the host.

use vstd::prelude::*;

use crate::table::{DispatchEntry, DispatchEntryView, DispatchKey, DispatchKeyView};

verus! {

/// The fatal per-call runtime conditions, each reported distinctly.
#[derive(Clone, Copy, Debug, PartialEq, Eq, Structural)]
pub enum AbortCondition {
    /// The root pointer is unavailable.
    RootUnavailable,
    /// No block exists at the identifier the root names.
    BlockAbsent,
    /// The state block does not decode to a state value.
    DecodeFailure,
    /// The incoming selector matches no entry of the dispatch table.
    UnhandledMessage,
}

/// Exit-code class for illegal-state conditions.
pub const EXIT_ILLEGAL_STATE: u64 = 20;

/// Exit-code class for serialization conditions.
pub const EXIT_SERIALIZATION: u64 = 21;

/// Exit-code class for an unhandled message.
pub const EXIT_UNHANDLED_MESSAGE: u64 = 22;

/// The machine-readable exit-code class of each condition.
pub open spec fn spec_exit_code(c: AbortCondition) -> u64 {
    match c {
        AbortCondition::RootUnavailable => EXIT_ILLEGAL_STATE,
        AbortCondition::BlockAbsent => EXIT_ILLEGAL_STATE,
        AbortCondition::DecodeFailure => EXIT_SERIALIZATION,
        AbortCondition::UnhandledMessage => EXIT_UNHANDLED_MESSAGE,
    }
}

impl AbortCondition {
    /// The machine-readable exit-code class this condition aborts with.
    pub fn exit_code(&self) -> (r: u64)
        ensures
            r == spec_exit_code(*self),
    {
        match self {
            AbortCondition::RootUnavailable => EXIT_ILLEGAL_STATE,
            AbortCondition::BlockAbsent => EXIT_ILLEGAL_STATE,
            AbortCondition::DecodeFailure => EXIT_SERIALIZATION,
            AbortCondition::UnhandledMessage => EXIT_UNHANDLED_MESSAGE,
        }
    }

    /// The human-readable message this condition aborts with; the four
    /// messages are pairwise distinct.
    pub fn describe(&self) -> (r: &'static str)
        ensures
            *self is RootUnavailable ==> r@ == "failed to get root"@,
            *self is BlockAbsent ==> r@ == "state does not exist"@,
            *self is DecodeFailure ==> r@ == "failed to decode state"@,
            *self is UnhandledMessage ==> r@ == "unrecognized method"@,
    {
        match self {
            AbortCondition::RootUnavailable => "failed to get root",
            AbortCondition::BlockAbsent => "state does not exist",
            AbortCondition::DecodeFailure => "failed to decode state",
            AbortCondition::UnhandledMessage => "unrecognized method",
        }
    }
}

/// The block identifier that stands for "no return payload".
pub const NO_DATA_BLOCK_ID: u64 = 0;

/// The method number reserved for the actor's implicit constructor.
pub const RESERVED_CONSTRUCTOR_METHOD: u64 = 1;

/// The spec-level image of the host: the stored blocks in the order they
/// were put, and the root pointer. Block `i` carries identifier `i + 1`.
pub struct HostView {
    pub blocks: Seq<Seq<u8>>,
    pub root: Option<u64>,
}

/// A well-formed host: the root, when set, names a stored block.
pub open spec fn host_wf(h: HostView) -> bool {
    match h.root {
        Some(r) => 1 <= r && r <= h.blocks.len(),
        None => true,
    }
}

pub open spec fn spec_get_block(h: HostView, id: u64) -> Option<Seq<u8>> {
    if 1 <= id && id <= h.blocks.len() {
        Some(h.blocks[id - 1])
    } else {
        None
    }
}

/// Storing a block appends it and hands out the next fresh identifier; the
/// root is untouched.
pub open spec fn spec_put_block(h: HostView, b: Seq<u8>) -> (HostView, u64) {
    (HostView { blocks: h.blocks.push(b), root: h.root }, (h.blocks.len() + 1) as u64)
}

pub open spec fn spec_set_root(h: HostView, id: u64) -> HostView {
    HostView { blocks: h.blocks, root: Some(id) }
}

/// The save protocol: store the block, then repoint the root at it, as a
/// unit; the prior root is replaced only after the block exists.
pub open spec fn spec_save(h: HostView, b: Seq<u8>) -> (HostView, u64) {
    let stored = spec_put_block(h, b);
    (spec_set_root(stored.0, stored.1), stored.1)
}

/// What `load` yields: the designated default for the constructor selector,
/// or the bytes of the current state block.
pub enum LoadedState {
    DefaultState,
    Stored(Seq<u8>),
}

/// The executable image of a [`LoadedState`].
pub enum LoadOutcome {
    DefaultState,
    Stored(Vec<u8>),
}

impl View for LoadOutcome {
    type V = LoadedState;

    open spec fn view(&self) -> LoadedState {
        match self {
            LoadOutcome::DefaultState => LoadedState::DefaultState,
            LoadOutcome::Stored(v) => LoadedState::Stored(v@),
        }
    }
}

/// The load protocol: the constructor selector yields the default state
/// without touching the store; any other selector follows the root to its
/// block. The two failure conditions are distinct: no root, and no block at
/// the identifier the root names.
pub open spec fn spec_load(h: HostView, selector: u64) -> Result<LoadedState, AbortCondition> {
    if selector == RESERVED_CONSTRUCTOR_METHOD {
        Ok(LoadedState::DefaultState)
    } else {
        match h.root {
            None => Err(AbortCondition::RootUnavailable),
            Some(r) => match spec_get_block(h, r) {
                None => Err(AbortCondition::BlockAbsent),
                Some(b) => Ok(LoadedState::Stored(b)),
            },
        }
    }
}

/// Maps an executable load result to its spec-level image.
pub open spec fn load_result_view(r: Result<LoadOutcome, AbortCondition>) -> Result<
    LoadedState,
    AbortCondition,
> {
    match r {
        Ok(o) => Ok(o@),
        Err(e) => Err(e),
    }
}

/// The host capability: a content-addressed block store behind a single
/// mutable root pointer.
pub struct HostState {
    blocks: Vec<Vec<u8>>,
    root: Option<u64>,
}

impl View for HostState {
    type V = HostView;

    closed spec fn view(&self) -> HostView {
        HostView { blocks: self.blocks.deep_view(), root: self.root }
    }
}

/// A byte-for-byte copy of a block.
fn copy_bytes(v: &Vec<u8>) -> (r: Vec<u8>)
    ensures
        r@ == v@,
{
    let mut r: Vec<u8> = Vec::new();
    let mut i: usize = 0;
    while i < v.len()
        invariant
            i <= v.len(),
            r@ =~= v@.take(i as int),
        decreases v.len() - i,
    {
        r.push(v[i]);
        proof {
            assert(r@ =~= v@.take(i as int + 1));
        }
        i += 1;
    }
    proof {
        assert(v@.take(v@.len() as int) =~= v@);
    }
    r
}

impl HostState {
    /// A fresh host: no blocks, no root.
    pub fn new() -> (h: Self)
        ensures
            h@.blocks.len() == 0,
            h@.root is None,
            host_wf(h@),
    {
        let h = HostState { blocks: Vec::new(), root: None };
        proof {
            assert(h@.blocks =~= Seq::<Seq<u8>>::empty());
        }
        h
    }

    /// Stores a block and returns its fresh identifier; the root pointer is
    /// untouched.
    pub fn put_block(&mut self, bytes: Vec<u8>) -> (id: u64)
        requires
            old(self)@.blocks.len() + 1 <= u64::MAX,
        ensures
            final(self)@ == spec_put_block(old(self)@, bytes@).0,
            id == spec_put_block(old(self)@, bytes@).1,
            id != NO_DATA_BLOCK_ID,
    {
        let id: u64 = (self.blocks.len() as u64) + 1;
        let ghost old_shallow = self.blocks@;
        let ghost old_deep = self@.blocks;
        let ghost bv = bytes@;
        self.blocks.push(bytes);
        proof {
            assert(self.blocks@.len() == old_shallow.len() + 1);
            assert forall|j: int| 0 <= j < old_deep.len() implies #[trigger] self@.blocks[j]
                == old_deep[j] by {
                assert(self.blocks@[j] == old_shallow[j]);
            }
            assert(self@.blocks[old_deep.len() as int] == bv);
            assert(self@.blocks =~= old_deep.push(bv));
        }
        id
    }

    /// The block the given identifier names, if one is stored.
    pub fn get_block(&self, id: u64) -> (r: Option<&Vec<u8>>)
        ensures
            match r {
                Some(b) => spec_get_block(self@, id) == Some(b@),
                None => spec_get_block(self@, id) is None,
            },
    {
        if 1 <= id && id <= self.blocks.len() as u64 {
            let idx: usize = (id - 1) as usize;
            Some(&self.blocks[idx])
        } else {
            None
        }
    }

    /// The current root pointer, if set.
    pub fn get_root(&self) -> (r: Option<u64>)
        ensures
            r == self@.root,
    {
        self.root
    }

    /// Repoints the root at the given identifier. The store cannot tell a
    /// live identifier from a dangling one, so this accepts any; a root left
    /// dangling surfaces later as the block-absent condition of `load`.
    pub fn set_root(&mut self, id: u64)
        ensures
            final(self)@ == spec_set_root(old(self)@, id),
    {
        self.root = Some(id);
    }

    /// The save protocol: stores the state bytes as a new block, then
    /// repoints the root at it, and returns the new identifier. It either
    /// fully succeeds or — since storing precedes repointing — leaves the
    /// prior root untouched; it never corrupts the root.
    pub fn save_state(&mut self, bytes: Vec<u8>) -> (id: u64)
        requires
            old(self)@.blocks.len() + 1 <= u64::MAX,
        ensures
            final(self)@ == spec_save(old(self)@, bytes@).0,
            id == spec_save(old(self)@, bytes@).1,
            host_wf(final(self)@),
    {
        let id = self.put_block(bytes);
        self.set_root(id);
        id
    }

    /// The load protocol for the given call-selector.
    pub fn load_state(&self, selector: u64) -> (r: Result<LoadOutcome, AbortCondition>)
        ensures
            load_result_view(r) == spec_load(self@, selector),
    {
        if selector == RESERVED_CONSTRUCTOR_METHOD {
            Ok(LoadOutcome::DefaultState)
        } else {
            match self.get_root() {
                None => Err(AbortCondition::RootUnavailable),
                Some(rt) => match self.get_block(rt) {
                    None => Err(AbortCondition::BlockAbsent),
                    Some(b) => Ok(LoadOutcome::Stored(copy_bytes(b))),
                },
            }
        }
    }
}

/// Post-processing of a handler's return value: no value yields the no-data
/// sentinel and leaves the host untouched; a value is stored as a new block
/// — without repointing the root — and its identifier is surfaced.
pub fn commit_return_value(host: &mut HostState, ret: Option<Vec<u8>>) -> (id: u64)
    requires
        old(host)@.blocks.len() + 1 <= u64::MAX,
    ensures
        match ret {
            None => final(host)@ == old(host)@ && id == NO_DATA_BLOCK_ID,
            Some(v) => final(host)@ == spec_put_block(old(host)@, v@).0 && id == spec_put_block(
                old(host)@,
                v@,
            ).1 && id != NO_DATA_BLOCK_ID,
        },
{
    match ret {
        None => NO_DATA_BLOCK_ID,
        Some(v) => host.put_block(v),
    }
}

/// The first table row at or after position `i` whose key is the selector.
pub open spec fn spec_lookup_from(t: Seq<DispatchEntryView>, sel: DispatchKeyView, i: int) -> Result<
    int,
    AbortCondition,
>
    decreases t.len() - i,
{
    if i < 0 || i >= t.len() {
        Err(AbortCondition::UnhandledMessage)
    } else if t[i].key == sel {
        Ok(i)
    } else {
        spec_lookup_from(t, sel, i + 1)
    }
}

/// The routing lookup: the first table row keyed by the incoming selector,
/// or the unhandled-message condition.
pub open spec fn spec_lookup(t: Seq<DispatchEntryView>, sel: DispatchKeyView) -> Result<
    int,
    AbortCondition,
> {
    spec_lookup_from(t, sel, 0)
}

fn dispatch_lookup_from(table: &Vec<DispatchEntry>, selector: &DispatchKey, i: usize) -> (r:
    Result<usize, AbortCondition>)
    requires
        i <= table.len(),
    ensures
        match r {
            Ok(k) => k < table.len() && spec_lookup_from(table.deep_view(), selector@, i as int)
                == Ok::<int, AbortCondition>(k as int),
            Err(e) => spec_lookup_from(table.deep_view(), selector@, i as int) == Err::<
                int,
                AbortCondition,
            >(e),
        },
    decreases table.len() - i,
{
    if i == table.len() {
        Err(AbortCondition::UnhandledMessage)
    } else if crate::table::key_eq(&table[i].key, selector) {
        Ok(i)
    } else {
        dispatch_lookup_from(table, selector, i + 1)
    }
}

/// Looks the incoming call-selector up in the dispatch table by exact match:
/// the matched row's position, or the unhandled-message condition.
pub fn dispatch_lookup(table: &Vec<DispatchEntry>, selector: &DispatchKey) -> (r: Result<
    usize,
    AbortCondition,
>)
    ensures
        match r {
            Ok(k) => k < table.len() && spec_lookup(table.deep_view(), selector@) == Ok::<int, AbortCondition>(k as int),
            Err(e) => spec_lookup(table.deep_view(), selector@) == Err::<int, AbortCondition>(e),
        },
{
    dispatch_lookup_from(table, selector, 0)
}

/// The state-lifecycle capability an actor's state type offers the generated
/// routing code: both operations act through an explicitly injected host.
pub trait StateObject: Sized {
    /// The state for the given call-selector: the default value for the
    /// constructor selector, otherwise the value the current root names.
    fn load(host: &HostState, selector: u64) -> Self;

    /// Persists this state in the host and returns the identifier of the new
    /// state block.
    fn save(&self, host: &mut HostState) -> u64;
}

/// Round-trip law: `save` followed immediately by `load` with any
/// non-constructor selector yields exactly the bytes that were saved.
pub proof fn lemma_save_then_load(h: HostView, bytes: Seq<u8>, selector: u64)
    requires
        selector != RESERVED_CONSTRUCTOR_METHOD,
        h.blocks.len() + 1 <= u64::MAX,
    ensures
        spec_load(spec_save(h, bytes).0, selector) == Ok::<LoadedState, AbortCondition>(
            LoadedState::Stored(bytes),
        ),
{
    let saved = spec_save(h, bytes).0;
    assert(saved.blocks[h.blocks.len() as int] == bytes);
}

/// Constructor-bypass law: the constructor selector yields the default state
/// from every host alike — even one holding a prior state block — so no
/// store read can influence the result.
pub proof fn lemma_constructor_bypass(h1: HostView, h2: HostView)
    ensures
        spec_load(h1, RESERVED_CONSTRUCTOR_METHOD) == Ok::<LoadedState, AbortCondition>(
            LoadedState::DefaultState,
        ),
        spec_load(h1, RESERVED_CONSTRUCTOR_METHOD) == spec_load(h2, RESERVED_CONSTRUCTOR_METHOD),
{
}

proof fn lemma_lookup_miss_from(t: Seq<DispatchEntryView>, sel: DispatchKeyView, i: int)
    requires
        0 <= i <= t.len(),
        forall|k: int| 0 <= k < t.len() ==> (#[trigger] t[k]).key != sel,
    ensures
        spec_lookup_from(t, sel, i) == Err::<int, AbortCondition>(AbortCondition::UnhandledMessage),
    decreases t.len() - i,
{
    if i < t.len() {
        lemma_lookup_miss_from(t, sel, i + 1);
    }
}

/// Unhandled-message law: an incoming selector that matches no key of a
/// non-empty table aborts with the unhandled-message condition; it never
/// falls through to any handler.
pub proof fn lemma_unknown_selector_aborts(t: Seq<DispatchEntryView>, sel: DispatchKeyView)
    requires
        t.len() > 0,
        forall|k: int| 0 <= k < t.len() ==> (#[trigger] t[k]).key != sel,
    ensures
        spec_lookup(t, sel) == Err::<int, AbortCondition>(AbortCondition::UnhandledMessage),
{
    lemma_lookup_miss_from(t, sel, 0);
}

} // verus!
