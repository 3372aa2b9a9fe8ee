//! The dispatch table builder: assigns every collected handler a concrete
//! dispatch key according to the actor's dispatch mode, and rejects duplicate
//! or malformed keys before anything is emitted.
//!
//! Numbering policy: method number 1 is reserved for the actor's implicit
//! constructor. In sequential mode the handlers therefore receive the
//! consecutive method numbers 2, 3, ... in declaration order, so the reserved
//! number can never collide with an exported handler. In the explicit modes a
//! handler may deliberately bind number 1 to export its own constructor.

use vstd::prelude::*;
use vstd::string::*;

use crate::resolver::{AttributeConfig, ConfigError, DispatchMode};

verus! {

/// One handler of the implementation block, in declaration order, with the
/// binding its annotation declared, if any.
pub struct HandlerDeclaration {
    pub name: String,
    pub declared_binding: Option<String>,
}

/// The spec-level image of a [`HandlerDeclaration`].
pub struct HandlerView {
    pub name: Seq<char>,
    pub binding: Option<Seq<char>>,
}

impl View for HandlerDeclaration {
    type V = HandlerView;

    open spec fn view(&self) -> HandlerView {
        HandlerView { name: self.name@, binding: self.declared_binding.deep_view() }
    }
}

impl DeepView for HandlerDeclaration {
    type V = HandlerView;

    open spec fn deep_view(&self) -> HandlerView {
        self@
    }
}

impl Clone for HandlerDeclaration {
    fn clone(&self) -> (r: Self)
        ensures
            r@ == self@,
    {
        HandlerDeclaration {
            name: self.name.clone(),
            declared_binding: match &self.declared_binding {
                Some(b) => Some(b.clone()),
                None => None,
            },
        }
    }
}

/// A handler name paired with the binding text its annotation declared.
pub struct ExportAttribute {
    pub fn_name: String,
    pub binding: String,
}

impl ExportAttribute {
    pub fn new(fn_name: String, binding: String) -> (r: Self)
        ensures
            r.fn_name == fn_name,
            r.binding == binding,
    {
        ExportAttribute { fn_name, binding }
    }
}

/// A concrete dispatch key: every key of one actor must be pairwise distinct.
pub enum DispatchKey {
    MethodNumber(u64),
    AbiSelector(String),
}

/// The spec-level image of a [`DispatchKey`].
pub enum DispatchKeyView {
    MethodNumber(u64),
    AbiSelector(Seq<char>),
}

impl View for DispatchKey {
    type V = DispatchKeyView;

    open spec fn view(&self) -> DispatchKeyView {
        match self {
            DispatchKey::MethodNumber(n) => DispatchKeyView::MethodNumber(*n),
            DispatchKey::AbiSelector(s) => DispatchKeyView::AbiSelector(s@),
        }
    }
}

impl DeepView for DispatchKey {
    type V = DispatchKeyView;

    open spec fn deep_view(&self) -> DispatchKeyView {
        self@
    }
}

/// One row of the routing table.
pub struct DispatchEntry {
    pub key: DispatchKey,
    pub handler: HandlerDeclaration,
}

/// The spec-level image of a [`DispatchEntry`].
pub struct DispatchEntryView {
    pub key: DispatchKeyView,
    pub handler: HandlerView,
}

impl View for DispatchEntry {
    type V = DispatchEntryView;

    open spec fn view(&self) -> DispatchEntryView {
        DispatchEntryView { key: self.key@, handler: self.handler@ }
    }
}

impl DeepView for DispatchEntry {
    type V = DispatchEntryView;

    open spec fn deep_view(&self) -> DispatchEntryView {
        self@
    }
}

pub open spec fn is_dec_digit(c: char) -> bool {
    '0' as u32 <= c as u32 && c as u32 <= '9' as u32
}

pub open spec fn digit_val(c: char) -> int {
    c as u32 - '0' as u32
}

pub open spec fn all_dec_digits(s: Seq<char>) -> bool {
    forall|i: int| 0 <= i < s.len() ==> is_dec_digit(#[trigger] s[i])
}

/// The decimal value of `s` read most-significant digit first.
pub open spec fn dec_val(s: Seq<char>) -> int
    decreases s.len(),
{
    if s.len() == 0 {
        0
    } else {
        dec_val(s.drop_last()) * 10 + digit_val(s.last())
    }
}

/// `s` read as a decimal method number: it must be non-empty, all digits, and
/// fit in 64 bits.
pub open spec fn spec_parse_u64(s: Seq<char>) -> Option<u64> {
    if s.len() > 0 && all_dec_digits(s) && dec_val(s) <= u64::MAX {
        Some(dec_val(s) as u64)
    } else {
        None
    }
}

/// The decimal value of a digit string is never negative.
proof fn lemma_dec_val_nonneg(s: Seq<char>)
    requires
        all_dec_digits(s),
    ensures
        dec_val(s) >= 0,
    decreases s.len(),
{
    if s.len() > 0 {
        assert forall|k: int| 0 <= k < s.drop_last().len() implies is_dec_digit(
            #[trigger] s.drop_last()[k],
        ) by {
            assert(s.drop_last()[k] == s[k]);
        }
        lemma_dec_val_nonneg(s.drop_last());
    }
}

/// Reading one more digit never shrinks the value.
proof fn lemma_dec_val_prefix(s: Seq<char>, i: int)
    requires
        0 <= i <= s.len(),
        all_dec_digits(s),
    ensures
        dec_val(s.take(i)) <= dec_val(s),
    decreases s.len() - i,
{
    if i == s.len() {
        assert(s.take(i) =~= s);
    } else {
        assert forall|k: int| 0 <= k < s.take(i).len() implies is_dec_digit(
            #[trigger] s.take(i)[k],
        ) by {
            assert(s.take(i)[k] == s[k]);
        }
        lemma_dec_val_nonneg(s.take(i));
        assert(s.take(i + 1).drop_last() =~= s.take(i));
        assert(s.take(i + 1).last() == s[i]);
        assert(dec_val(s.take(i)) <= dec_val(s.take(i + 1)));
        lemma_dec_val_prefix(s, i + 1);
    }
}

/// `s` read as a decimal method number.
pub fn parse_u64(s: &str) -> (r: Option<u64>)
    ensures
        match r {
            Some(v) => spec_parse_u64(s@) == Some(v),
            None => spec_parse_u64(s@) is None,
        },
{
    let n = s.unicode_len();
    if n == 0 {
        return None;
    }
    let mut acc: u64 = 0;
    let mut i: usize = 0;
    while i < n
        invariant
            i <= n,
            n == s@.len(),
            forall|k: int| 0 <= k < i ==> is_dec_digit(#[trigger] s@[k]),
            acc == dec_val(s@.take(i as int)),
        decreases n - i,
    {
        let c = s.get_char(i);
        let cv = c as u32;
        proof {
            assert(s@.take(i as int + 1).drop_last() =~= s@.take(i as int));
            assert(s@.take(i as int + 1).last() == s@[i as int]);
        }
        if cv < 48 || cv > 57 {
            proof {
                assert(!is_dec_digit(s@[i as int]));
                assert(!all_dec_digits(s@));
            }
            return None;
        }
        let d: u64 = (cv - 48) as u64;
        if acc > (u64::MAX - d) / 10 {
            proof {
                assert(dec_val(s@.take(i as int + 1)) > u64::MAX);
                if all_dec_digits(s@) {
                    lemma_dec_val_prefix(s@, i as int + 1);
                }
            }
            return None;
        }
        acc = acc * 10 + d;
        i += 1;
    }
    proof {
        assert(s@.take(n as int) =~= s@);
    }
    Some(acc)
}

/// The key an explicitly declared binding stands for under the given mode:
/// a decimal method number, or the selector text verbatim. Sequential mode
/// ignores declared bindings and assigns no key here.
pub open spec fn spec_key_of_binding(b: Seq<char>, mode: DispatchMode) -> Option<DispatchKeyView> {
    match mode {
        DispatchMode::SequentialNumber => None,
        DispatchMode::ExplicitNumber => match spec_parse_u64(b) {
            Some(v) => Some(DispatchKeyView::MethodNumber(v)),
            None => None,
        },
        DispatchMode::ExplicitSelector => Some(DispatchKeyView::AbiSelector(b)),
    }
}

/// Sequential assignment: the i-th collected handler (0-indexed) receives
/// method number `i + 2`, leaving number 1 to the implicit constructor.
pub open spec fn spec_sequential_table(hs: Seq<HandlerView>) -> Seq<DispatchEntryView> {
    Seq::new(
        hs.len(),
        |i: int|
            DispatchEntryView {
                key: DispatchKeyView::MethodNumber((i + 2) as u64),
                handler: hs[i],
            },
    )
}

/// Explicit assignment: exactly the handlers that declare a binding appear,
/// in declaration order, keyed by that binding; a binding that is not a
/// decimal number under method-number dispatch rejects the whole table.
pub open spec fn spec_explicit_table(hs: Seq<HandlerView>, mode: DispatchMode) -> Result<
    Seq<DispatchEntryView>,
    ConfigError,
>
    decreases hs.len(),
{
    if hs.len() == 0 {
        Ok(Seq::empty())
    } else {
        let h = hs[0];
        match h.binding {
            None => spec_explicit_table(hs.drop_first(), mode),
            Some(b) => match spec_key_of_binding(b, mode) {
                None => Err(ConfigError::InvalidMethodNumber),
                Some(k) => match spec_explicit_table(hs.drop_first(), mode) {
                    Err(e) => Err(e),
                    Ok(rest) => Ok(seq![DispatchEntryView { key: k, handler: h }] + rest),
                },
            },
        }
    }
}

/// Key assignment for a whole handler list under the given mode.
pub open spec fn spec_assign(mode: DispatchMode, hs: Seq<HandlerView>) -> Result<
    Seq<DispatchEntryView>,
    ConfigError,
> {
    match mode {
        DispatchMode::SequentialNumber => Ok(spec_sequential_table(hs)),
        _ => spec_explicit_table(hs, mode),
    }
}

/// Two rows carry the same key.
pub open spec fn table_has_duplicate(t: Seq<DispatchEntryView>) -> bool {
    exists|i: int, j: int| 0 <= i < j < t.len() && t[i].key == t[j].key
}

/// The whole builder: keys assigned by mode, then duplicates rejected. A
/// duplicate key is always a build failure, never a silently-last-wins table.
pub open spec fn spec_build_table(mode: DispatchMode, hs: Seq<HandlerView>) -> Result<
    Seq<DispatchEntryView>,
    ConfigError,
> {
    match spec_assign(mode, hs) {
        Err(e) => Err(e),
        Ok(t) => if table_has_duplicate(t) {
            Err(ConfigError::DuplicateKey)
        } else {
            Ok(t)
        },
    }
}

/// Maps an executable builder result to its spec-level image.
pub open spec fn table_result_view(r: Result<Vec<DispatchEntry>, ConfigError>) -> Result<
    Seq<DispatchEntryView>,
    ConfigError,
> {
    match r {
        Ok(t) => Ok(t.deep_view()),
        Err(e) => Err(e),
    }
}

/// The key a bound export stands for under the given mode.
pub fn assign_key(attr: &ExportAttribute, mode: DispatchMode) -> (r: Result<
    DispatchKey,
    ConfigError,
>)
    ensures
        match r {
            Ok(k) => spec_key_of_binding(attr.binding@, mode) == Some(k@),
            Err(e) => spec_key_of_binding(attr.binding@, mode) is None && e
                == ConfigError::InvalidMethodNumber,
        },
{
    match mode {
        DispatchMode::SequentialNumber => Err(ConfigError::InvalidMethodNumber),
        DispatchMode::ExplicitNumber => match parse_u64(attr.binding.as_str()) {
            Some(v) => Ok(DispatchKey::MethodNumber(v)),
            None => Err(ConfigError::InvalidMethodNumber),
        },
        DispatchMode::ExplicitSelector => Ok(DispatchKey::AbiSelector(attr.binding.clone())),
    }
}

/// Whether two keys are the same key.
pub fn key_eq(a: &DispatchKey, b: &DispatchKey) -> (r: bool)
    ensures
        r == (a@ == b@),
{
    match (a, b) {
        (DispatchKey::MethodNumber(m), DispatchKey::MethodNumber(n)) => m == n,
        (DispatchKey::AbiSelector(s), DispatchKey::AbiSelector(t)) => s.eq(t),
        _ => false,
    }
}

fn sequential_table(handlers: &Vec<HandlerDeclaration>) -> (t: Vec<DispatchEntry>)
    requires
        handlers@.len() + 2 <= u64::MAX,
    ensures
        t.deep_view() == spec_sequential_table(handlers.deep_view()),
{
    let mut t: Vec<DispatchEntry> = Vec::new();
    let mut i: usize = 0;
    while i < handlers.len()
        invariant
            i <= handlers.len(),
            handlers@.len() + 2 <= u64::MAX,
            t.deep_view() =~= spec_sequential_table(handlers.deep_view()).take(i as int),
        decreases handlers.len() - i,
    {
        let num: u64 = (i as u64) + 2;
        let entry = DispatchEntry {
            key: DispatchKey::MethodNumber(num),
            handler: handlers[i].clone(),
        };
        let ghost old_dv = t.deep_view();
        let ghost entry_view = entry@;
        t.push(entry);
        proof {
            let hs = handlers.deep_view();
            let sp = spec_sequential_table(hs);
            assert(sp.len() == hs.len());
            assert(hs.len() == handlers@.len());
            assert(old_dv.len() == i as int);
            assert(t@.len() == old_dv.len() + 1);
            assert(t.deep_view().len() == i + 1);
            assert forall|j: int| 0 <= j < i + 1 implies #[trigger] t.deep_view()[j] == sp[j] by {
                if j == i {
                    assert(t.deep_view()[j] == entry_view);
                    assert(entry_view.key == DispatchKeyView::MethodNumber((j + 2) as u64));
                    assert(entry_view.handler == hs[j]);
                } else {
                    assert(t.deep_view()[j] == old_dv[j]);
                    assert(old_dv[j] == sp.take(i as int)[j]);
                    assert(sp.take(i as int)[j] == sp[j]);
                }
            }
            assert(t.deep_view() =~= sp.take(i as int + 1));
        }
        i += 1;
    }
    proof {
        assert(spec_sequential_table(handlers.deep_view()).take(handlers@.len() as int)
            =~= spec_sequential_table(handlers.deep_view()));
    }
    t
}

fn explicit_table_from(handlers: &Vec<HandlerDeclaration>, i: usize, mode: DispatchMode) -> (r:
    Result<Vec<DispatchEntry>, ConfigError>)
    requires
        i <= handlers.len(),
        mode != DispatchMode::SequentialNumber,
    ensures
        table_result_view(r) == spec_explicit_table(handlers.deep_view().skip(i as int), mode),
    decreases handlers.len() - i,
{
    proof {
        if i < handlers.len() {
            assert(handlers.deep_view().skip(i as int).drop_first() =~= handlers.deep_view().skip(
                i as int + 1,
            ));
            assert(handlers.deep_view().skip(i as int)[0] == handlers.deep_view()[i as int]);
        }
    }
    if i == handlers.len() {
        let t: Vec<DispatchEntry> = Vec::new();
        proof {
            assert(handlers.deep_view().skip(i as int) =~= Seq::<HandlerView>::empty());
            assert(t.deep_view() =~= Seq::<DispatchEntryView>::empty());
        }
        Ok(t)
    } else {
        let h = &handlers[i];
        match &h.declared_binding {
            None => explicit_table_from(handlers, i + 1, mode),
            Some(b) => {
                let export = ExportAttribute::new(h.name.clone(), b.clone());
                match assign_key(&export, mode) {
                    Err(e) => Err(e),
                    Ok(key) => match explicit_table_from(handlers, i + 1, mode) {
                        Err(e) => Err(e),
                        Ok(rest) => {
                            let mut t = rest;
                            t.insert(0, DispatchEntry { key, handler: h.clone() });
                            proof {
                                assert(t.deep_view() =~= seq![t.deep_view()[0]]
                                    + spec_explicit_table(
                                    handlers.deep_view().skip(i as int + 1),
                                    mode,
                                ).unwrap());
                            }
                            Ok(t)
                        }
                    },
                }
            }
        }
    }
}

fn table_duplicate_exists(t: &Vec<DispatchEntry>) -> (r: bool)
    ensures
        r == table_has_duplicate(t.deep_view()),
{
    let mut i: usize = 0;
    while i < t.len()
        invariant
            i <= t.len(),
            forall|x: int, y: int|
                0 <= x < y < t.deep_view().len() && x < i ==> (#[trigger] t.deep_view()[x]).key
                    != (#[trigger] t.deep_view()[y]).key,
        decreases t.len() - i,
    {
        let mut j: usize = i + 1;
        while j < t.len()
            invariant
                i < j <= t.len(),
                i < t.len(),
                forall|y: int|
                    i < y < j ==> t.deep_view()[i as int].key != (#[trigger] t.deep_view()[y]).key,
            decreases t.len() - j,
        {
            if key_eq(&t[i].key, &t[j].key) {
                proof {
                    assert(t.deep_view()[i as int].key == t.deep_view()[j as int].key);
                }
                return true;
            }
            j += 1;
        }
        i += 1;
    }
    false
}

/// The dispatch table of one actor: every collected handler keyed by the
/// actor's dispatch mode, rejected whole on a malformed or duplicate key.
pub fn build_dispatch_table(config: &AttributeConfig, handlers: &Vec<HandlerDeclaration>) -> (r:
    Result<Vec<DispatchEntry>, ConfigError>)
    requires
        handlers@.len() + 2 <= u64::MAX,
    ensures
        table_result_view(r) == spec_build_table(config.dispatch_mode, handlers.deep_view()),
{
    let assigned = match config.dispatch_mode {
        DispatchMode::SequentialNumber => sequential_table(handlers),
        DispatchMode::ExplicitNumber => match explicit_table_from(handlers, 0, DispatchMode::ExplicitNumber) {
            Ok(t) => {
                proof {
                    assert(handlers.deep_view().skip(0) =~= handlers.deep_view());
                }
                t
            },
            Err(e) => {
                proof {
                    assert(handlers.deep_view().skip(0) =~= handlers.deep_view());
                }
                return Err(e);
            },
        },
        DispatchMode::ExplicitSelector => match explicit_table_from(handlers, 0, DispatchMode::ExplicitSelector) {
            Ok(t) => {
                proof {
                    assert(handlers.deep_view().skip(0) =~= handlers.deep_view());
                }
                t
            },
            Err(e) => {
                proof {
                    assert(handlers.deep_view().skip(0) =~= handlers.deep_view());
                }
                return Err(e);
            },
        },
    };
    if table_duplicate_exists(&assigned) {
        Err(ConfigError::DuplicateKey)
    } else {
        Ok(assigned)
    }
}

/// Sequential numbering law: with N collected handlers the table assigns the
/// consecutive method numbers 2..N+1 in declaration order, with no gaps and
/// no duplicates, irrespective of the handlers' names; number 1, reserved for
/// the implicit constructor, is never assigned, so building the table always
/// succeeds in this mode.
pub proof fn lemma_sequential_numbering(hs: Seq<HandlerView>)
    requires
        hs.len() + 2 <= u64::MAX,
    ensures
        spec_sequential_table(hs).len() == hs.len(),
        forall|i: int|
            0 <= i < hs.len() ==> (#[trigger] spec_sequential_table(hs)[i]).key
                == DispatchKeyView::MethodNumber((i + 2) as u64),
        forall|i: int|
            0 <= i < hs.len() ==> (#[trigger] spec_sequential_table(hs)[i]).handler == hs[i],
        forall|i: int|
            0 <= i < hs.len() ==> (#[trigger] spec_sequential_table(hs)[i]).key
                != DispatchKeyView::MethodNumber(1),
        !table_has_duplicate(spec_sequential_table(hs)),
        spec_build_table(DispatchMode::SequentialNumber, hs) == Ok::<
            Seq<DispatchEntryView>,
            ConfigError,
        >(spec_sequential_table(hs)),
{
    let t = spec_sequential_table(hs);
    assert forall|i: int, j: int| 0 <= i < j < t.len() implies (#[trigger] t[i]).key != (
    #[trigger] t[j]).key by {
        assert(t[i].key == DispatchKeyView::MethodNumber((i + 2) as u64));
        assert(t[j].key == DispatchKeyView::MethodNumber((j + 2) as u64));
        assert((i + 2) as u64 != (j + 2) as u64);
    }
}

/// The handlers that declare a binding, in declaration order.
pub open spec fn bound_handlers(hs: Seq<HandlerView>) -> Seq<HandlerView>
    decreases hs.len(),
{
    if hs.len() == 0 {
        Seq::empty()
    } else {
        let rest = bound_handlers(hs.drop_first());
        if hs[0].binding is Some {
            seq![hs[0]] + rest
        } else {
            rest
        }
    }
}

/// Explicit assignment law: when key assignment succeeds, handlers lacking a
/// binding are excluded from the table, and exactly the handlers with a
/// binding appear, in declaration order, keyed by their declared binding.
pub proof fn lemma_explicit_exactly_bound(hs: Seq<HandlerView>, mode: DispatchMode)
    requires
        mode != DispatchMode::SequentialNumber,
        spec_explicit_table(hs, mode) is Ok,
    ensures
        spec_explicit_table(hs, mode)->Ok_0.len() == bound_handlers(hs).len(),
        forall|i: int|
            0 <= i < bound_handlers(hs).len() ==> (#[trigger] spec_explicit_table(
                hs,
                mode,
            )->Ok_0[i]).handler == bound_handlers(hs)[i],
        forall|i: int|
            0 <= i < bound_handlers(hs).len() ==> Some(
                (#[trigger] spec_explicit_table(hs, mode)->Ok_0[i]).key,
            ) == spec_key_of_binding(bound_handlers(hs)[i].binding->0, mode),
    decreases hs.len(),
{
    if hs.len() > 0 {
        let t = spec_explicit_table(hs, mode)->Ok_0;
        let bs = bound_handlers(hs);
        let rest_t = spec_explicit_table(hs.drop_first(), mode)->Ok_0;
        let rest_bs = bound_handlers(hs.drop_first());
        lemma_explicit_exactly_bound(hs.drop_first(), mode);
        match hs[0].binding {
            None => {
                assert(t == rest_t);
                assert(bs == rest_bs);
            }
            Some(b) => {
                let k = spec_key_of_binding(b, mode)->0;
                assert(t == seq![DispatchEntryView { key: k, handler: hs[0] }] + rest_t);
                assert(bs == seq![hs[0]] + rest_bs);
                assert forall|i: int| 0 <= i < bs.len() implies (#[trigger] t[i]).handler == bs[i]
                    && Some(t[i].key) == spec_key_of_binding(bs[i].binding->0, mode) by {
                    if i > 0 {
                        assert(t[i] == rest_t[i - 1]);
                        assert(bs[i] == rest_bs[i - 1]);
                    }
                }
            }
        }
    }
}

/// Duplicate rejection law: whenever key assignment yields a table in which
/// two handlers share a key, the builder reports the duplicate-key failure;
/// it never lets a later entry silently win.
pub proof fn lemma_duplicate_keys_rejected(mode: DispatchMode, hs: Seq<HandlerView>)
    requires
        spec_assign(mode, hs) is Ok,
        table_has_duplicate(spec_assign(mode, hs)->Ok_0),
    ensures
        spec_build_table(mode, hs) == Err::<Seq<DispatchEntryView>, ConfigError>(
            ConfigError::DuplicateKey,
        ),
{
}

} // verus!
