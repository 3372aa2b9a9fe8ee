//! The configuration resolver: a strict parser for the flat
//! `key = value, key = value, ...` text that configures an actor, and for the
//! single-pair `binding = <value>` annotation a handler may carry.
//!
//! Every function is specified against a small mathematical model of the
//! micro-grammar: the text is split on commas, each segment must contain an
//! `=` sign, key and value are trimmed of surrounding spaces, and a value may
//! optionally be wrapped in one pair of double quotes. Malformed text is
//! rejected at this earliest stage, never silently defaulted.

use vstd::prelude::*;
use vstd::string::*;

verus! {

/// A single resolved `key = value` pair.
pub struct KeyValue {
    pub key: String,
    pub value: String,
}

/// The spec-level image of a [`KeyValue`]: both sides as character sequences.
pub struct KvView {
    pub key: Seq<char>,
    pub value: Seq<char>,
}

impl View for KeyValue {
    type V = KvView;

    open spec fn view(&self) -> KvView {
        KvView { key: self.key@, value: self.value@ }
    }
}

impl DeepView for KeyValue {
    type V = KvView;

    open spec fn deep_view(&self) -> KvView {
        self@
    }
}

/// Every way the build-time configuration of an actor can be rejected.
#[derive(Clone, Copy, Debug, PartialEq, Eq, Structural)]
pub enum ConfigError {
    /// A comma-separated segment is not a well-formed `key = value` pair.
    MalformedPair,
    /// A pair uses a key other than `state`, `dispatch` or `invoke`.
    UnrecognizedKey,
    /// The required `state` key is absent.
    MissingStateKey,
    /// The `dispatch` key names neither `method_num` nor `abi_selector`.
    UnknownDispatchValue,
    /// The `invoke` key is not a boolean literal.
    InvalidInvokeFlag,
    /// A declared binding is not a decimal method number although the actor
    /// dispatches by method number.
    InvalidMethodNumber,
    /// Two handlers were assigned the same dispatch key.
    DuplicateKey,
    /// The annotated item is not an inherent implementation block.
    NotImplBlock,
    /// The annotated implementation block implements a trait.
    TraitImplNotSupported,
}

/// How incoming call-selectors are keyed for this actor.
#[derive(Clone, Copy, Debug, PartialEq, Eq, Structural)]
pub enum DispatchMode {
    /// Handlers are numbered consecutively in declaration order, starting at
    /// method number 2: number 1 is reserved for the implicit constructor.
    SequentialNumber,
    /// Each exported handler declares its own decimal method number.
    ExplicitNumber,
    /// Each exported handler declares its own string selector.
    ExplicitSelector,
}

/// The resolved actor-level configuration.
pub struct AttributeConfig {
    pub state_type_name: String,
    pub dispatch_mode: DispatchMode,
    pub invoke_entrypoint: bool,
}

/// The spec-level image of an [`AttributeConfig`].
pub struct ConfigView {
    pub state_type_name: Seq<char>,
    pub dispatch_mode: DispatchMode,
    pub invoke_entrypoint: bool,
}

impl View for AttributeConfig {
    type V = ConfigView;

    open spec fn view(&self) -> ConfigView {
        ConfigView {
            state_type_name: self.state_type_name@,
            dispatch_mode: self.dispatch_mode,
            invoke_entrypoint: self.invoke_entrypoint,
        }
    }
}

/// Index of the first occurrence of `c` in `s`, or `-1` if `c` does not occur.
pub open spec fn find_char(s: Seq<char>, c: char) -> int
    decreases s.len(),
{
    if s.len() == 0 {
        -1
    } else if s[0] == c {
        0
    } else {
        let r = find_char(s.drop_first(), c);
        if r == -1 {
            -1
        } else {
            r + 1
        }
    }
}

/// `s` split on `c`; the separators themselves are dropped. The result always
/// holds at least one segment.
pub open spec fn split_on(s: Seq<char>, c: char) -> Seq<Seq<char>>
    decreases s.len(),
{
    let i = find_char(s, c);
    if 0 <= i < s.len() {
        seq![s.subrange(0, i)] + split_on(s.subrange(i + 1, s.len() as int), c)
    } else {
        seq![s]
    }
}

/// `s` without its leading spaces.
pub open spec fn trim_front(s: Seq<char>) -> Seq<char>
    decreases s.len(),
{
    if s.len() > 0 && s[0] == ' ' {
        trim_front(s.drop_first())
    } else {
        s
    }
}

/// `s` without its trailing spaces.
pub open spec fn trim_back(s: Seq<char>) -> Seq<char>
    decreases s.len(),
{
    if s.len() > 0 && s[s.len() - 1] == ' ' {
        trim_back(s.drop_last())
    } else {
        s
    }
}

/// `s` without leading and trailing spaces.
pub open spec fn trim_spaces(s: Seq<char>) -> Seq<char> {
    trim_back(trim_front(s))
}

/// `s` without one surrounding pair of double quotes, if it carries one.
pub open spec fn unquote(s: Seq<char>) -> Seq<char> {
    if s.len() >= 2 && s[0] == '"' && s[s.len() - 1] == '"' {
        s.subrange(1, s.len() - 1)
    } else {
        s
    }
}

/// One comma-separated segment read as a `key = value` pair: the segment must
/// contain an `=`, the trimmed key must not be empty, and the trimmed value
/// loses one surrounding pair of quotes.
pub open spec fn parse_pair(s: Seq<char>) -> Option<KvView> {
    let i = find_char(s, '=');
    if 0 <= i < s.len() {
        let k = trim_spaces(s.subrange(0, i));
        let v = unquote(trim_spaces(s.subrange(i + 1, s.len() as int)));
        if k.len() > 0 {
            Some(KvView { key: k, value: v })
        } else {
            None
        }
    } else {
        None
    }
}

/// The segments from position `i` on, each read as a pair; `None` as soon as
/// one segment is malformed.
pub open spec fn parse_pairs_from(segs: Seq<Seq<char>>, i: int) -> Option<Seq<KvView>>
    decreases segs.len() - i,
{
    if i >= segs.len() {
        Some(Seq::empty())
    } else {
        match parse_pair(segs[i]) {
            None => None,
            Some(kv) => match parse_pairs_from(segs, i + 1) {
                None => None,
                Some(rest) => Some(seq![kv] + rest),
            },
        }
    }
}

/// The whole micro-grammar: the text split on commas, every segment read as a
/// pair.
pub open spec fn spec_parse_args(s: Seq<char>) -> Option<Seq<KvView>> {
    parse_pairs_from(split_on(s, ','), 0)
}

/// Character-sequence equality of two string slices, decided in executable
/// code.
pub fn str_eq(a: &str, b: &str) -> (r: bool)
    ensures
        r == (a@ == b@),
{
    let n = a.unicode_len();
    let m = b.unicode_len();
    if n != m {
        proof {
            if a@ == b@ {
                assert(a@.len() == b@.len());
            }
        }
        return false;
    }
    let mut i: usize = 0;
    while i < n
        invariant
            n == m,
            n == a@.len(),
            m == b@.len(),
            i <= n,
            forall|k: int| 0 <= k < i ==> a@[k] == b@[k],
        decreases n - i,
    {
        let ca = a.get_char(i);
        let cb = b.get_char(i);
        if ca != cb {
            proof {
                if a@ == b@ {
                    assert(a@[i as int] == b@[i as int]);
                }
            }
            return false;
        }
        i += 1;
    }
    proof {
        assert(a@ =~= b@);
    }
    true
}

/// Index of the first occurrence of `c` in `s`, if any.
pub fn find_char_in(s: &str, c: char) -> (r: Option<usize>)
    ensures
        match r {
            Some(i) => 0 <= i < s@.len() && find_char(s@, c) == i as int,
            None => find_char(s@, c) == -1,
        },
    decreases s@.len(),
{
    let n = s.unicode_len();
    if n == 0 {
        None
    } else if s.get_char(0) == c {
        Some(0)
    } else {
        let rest = s.substring_char(1, n);
        proof {
            assert(rest@ =~= s@.drop_first());
        }
        match find_char_in(rest, c) {
            None => None,
            Some(k) => Some(k + 1),
        }
    }
}

/// `s` split on `sep`, as owned strings.
pub fn split_string(s: &str, sep: char) -> (parts: Vec<String>)
    ensures
        parts.deep_view() == split_on(s@, sep),
    decreases s@.len(),
{
    match find_char_in(s, sep) {
        None => {
            let mut parts: Vec<String> = Vec::new();
            parts.push(s.to_owned());
            proof {
                assert(parts.deep_view() =~= seq![s@]);
            }
            parts
        }
        Some(i) => {
            let n = s.unicode_len();
            let head = s.substring_char(0, i).to_owned();
            let rest = s.substring_char(i + 1, n);
            let mut parts = split_string(rest, sep);
            parts.insert(0, head);
            proof {
                assert(parts.deep_view() =~= seq![head@] + split_on(rest@, sep));
            }
            parts
        }
    }
}

/// `s` without its leading spaces.
pub fn trim_front_str(s: &str) -> (r: String)
    ensures
        r@ == trim_front(s@),
    decreases s@.len(),
{
    let n = s.unicode_len();
    if n > 0 && s.get_char(0) == ' ' {
        let rest = s.substring_char(1, n);
        proof {
            assert(rest@ =~= s@.drop_first());
        }
        trim_front_str(rest)
    } else {
        s.to_owned()
    }
}

/// `s` without its trailing spaces.
pub fn trim_back_str(s: &str) -> (r: String)
    ensures
        r@ == trim_back(s@),
    decreases s@.len(),
{
    let n = s.unicode_len();
    if n > 0 && s.get_char(n - 1) == ' ' {
        let rest = s.substring_char(0, n - 1);
        proof {
            assert(rest@ =~= s@.drop_last());
        }
        trim_back_str(rest)
    } else {
        s.to_owned()
    }
}

/// `s` without leading and trailing spaces.
pub fn trim_str(s: &str) -> (r: String)
    ensures
        r@ == trim_spaces(s@),
{
    let front = trim_front_str(s);
    trim_back_str(front.as_str())
}

/// `s` without one surrounding pair of double quotes, if it carries one.
pub fn unquote_str(s: &str) -> (r: String)
    ensures
        r@ == unquote(s@),
{
    let n = s.unicode_len();
    if n >= 2 && s.get_char(0) == '"' && s.get_char(n - 1) == '"' {
        s.substring_char(1, n - 1).to_owned()
    } else {
        s.to_owned()
    }
}

/// One segment read as a `key = value` pair.
pub fn parse_pair_str(s: &str) -> (r: Option<KeyValue>)
    ensures
        match r {
            Some(kv) => parse_pair(s@) == Some(kv@),
            None => parse_pair(s@) is None,
        },
{
    match find_char_in(s, '=') {
        None => None,
        Some(i) => {
            let n = s.unicode_len();
            let key = trim_str(s.substring_char(0, i));
            let value_raw = trim_str(s.substring_char(i + 1, n));
            let value = unquote_str(value_raw.as_str());
            if key.as_str().unicode_len() > 0 {
                Some(KeyValue { key, value })
            } else {
                None
            }
        }
    }
}

/// The segments from position `i` on, each read as a pair.
fn parse_pairs_vec(segs: &Vec<String>, i: usize) -> (r: Option<Vec<KeyValue>>)
    requires
        i <= segs.len(),
    ensures
        match r {
            Some(kvs) => parse_pairs_from(segs.deep_view(), i as int) == Some(kvs.deep_view()),
            None => parse_pairs_from(segs.deep_view(), i as int) is None,
        },
    decreases segs.len() - i,
{
    if i == segs.len() {
        let kvs: Vec<KeyValue> = Vec::new();
        proof {
            assert(kvs.deep_view() =~= Seq::<KvView>::empty());
        }
        Some(kvs)
    } else {
        match parse_pair_str(segs[i].as_str()) {
            None => None,
            Some(kv) => match parse_pairs_vec(segs, i + 1) {
                None => None,
                Some(rest) => {
                    let mut kvs = rest;
                    kvs.insert(0, kv);
                    proof {
                        assert(kvs.deep_view() =~= seq![kv@]
                            + parse_pairs_from(segs.deep_view(), i + 1).unwrap());
                    }
                    Some(kvs)
                }
            },
        }
    }
}

/// The actor-level (or per-handler) configuration text, resolved to its list
/// of `key = value` pairs; rejected whole as soon as one segment is
/// malformed.
pub fn parse_macro_args(attr_string: &str) -> (r: Result<Vec<KeyValue>, ConfigError>)
    ensures
        match r {
            Ok(kvs) => spec_parse_args(attr_string@) == Some(kvs.deep_view()),
            Err(e) => spec_parse_args(attr_string@) is None && e == ConfigError::MalformedPair,
        },
{
    let segs = split_string(attr_string, ',');
    match parse_pairs_vec(&segs, 0) {
        Some(kvs) => Ok(kvs),
        None => Err(ConfigError::MalformedPair),
    }
}

/// The value of the last pair with the given key, if any: a later pair
/// overrides an earlier one.
pub open spec fn last_value(kvs: Seq<KvView>, key: Seq<char>) -> Option<Seq<char>>
    decreases kvs.len(),
{
    if kvs.len() == 0 {
        None
    } else if kvs.last().key == key {
        Some(kvs.last().value)
    } else {
        last_value(kvs.drop_last(), key)
    }
}

/// The keys the actor-level grammar recognizes.
pub open spec fn recognized_key(k: Seq<char>) -> bool {
    k == "state"@ || k == "dispatch"@ || k == "invoke"@
}

pub open spec fn all_keys_recognized(kvs: Seq<KvView>) -> bool {
    forall|i: int| 0 <= i < kvs.len() ==> recognized_key(#[trigger] kvs[i].key)
}

/// The dispatch mode named by the `dispatch` value: absent means sequential
/// numbering, anything other than the two recognized names is rejected.
pub open spec fn spec_dispatch_mode(v: Option<Seq<char>>) -> Option<DispatchMode> {
    match v {
        None => Some(DispatchMode::SequentialNumber),
        Some(t) => if t == "method_num"@ {
            Some(DispatchMode::ExplicitNumber)
        } else if t == "abi_selector"@ {
            Some(DispatchMode::ExplicitSelector)
        } else {
            None
        },
    }
}

/// The entrypoint flag named by the `invoke` value: absent means `true`,
/// anything other than a boolean literal is rejected.
pub open spec fn spec_invoke_flag(v: Option<Seq<char>>) -> Option<bool> {
    match v {
        None => Some(true),
        Some(t) => if t == "true"@ {
            Some(true)
        } else if t == "false"@ {
            Some(false)
        } else {
            None
        },
    }
}

/// The actor configuration built from resolved pairs. Checks run in a fixed
/// order: unrecognized keys, then the required `state` key, then the
/// `dispatch` value, then the `invoke` value.
pub open spec fn spec_build_config(kvs: Seq<KvView>) -> Result<ConfigView, ConfigError> {
    if !all_keys_recognized(kvs) {
        Err(ConfigError::UnrecognizedKey)
    } else {
        match last_value(kvs, "state"@) {
            None => Err(ConfigError::MissingStateKey),
            Some(st) => match spec_dispatch_mode(last_value(kvs, "dispatch"@)) {
                None => Err(ConfigError::UnknownDispatchValue),
                Some(mode) => match spec_invoke_flag(last_value(kvs, "invoke"@)) {
                    None => Err(ConfigError::InvalidInvokeFlag),
                    Some(inv) => Ok(
                        ConfigView {
                            state_type_name: st,
                            dispatch_mode: mode,
                            invoke_entrypoint: inv,
                        },
                    ),
                },
            },
        }
    }
}

/// The whole resolver, from raw text to configuration.
pub open spec fn spec_resolve_config(s: Seq<char>) -> Result<ConfigView, ConfigError> {
    match spec_parse_args(s) {
        None => Err(ConfigError::MalformedPair),
        Some(kvs) => spec_build_config(kvs),
    }
}

/// Maps an executable resolver result to its spec-level image.
pub open spec fn config_result_view(
    r: Result<AttributeConfig, ConfigError>,
) -> Result<ConfigView, ConfigError> {
    match r {
        Ok(c) => Ok(c@),
        Err(e) => Err(e),
    }
}

/// The value of the last pair among `kvs[0..n]` whose key is `key`.
fn last_value_upto(kvs: &Vec<KeyValue>, n: usize, key: &str) -> (r: Option<String>)
    requires
        n <= kvs.len(),
    ensures
        match r {
            Some(v) => last_value(kvs.deep_view().take(n as int), key@) == Some(v@),
            None => last_value(kvs.deep_view().take(n as int), key@) is None,
        },
    decreases n,
{
    if n == 0 {
        proof {
            assert(kvs.deep_view().take(0) =~= Seq::<KvView>::empty());
        }
        None
    } else {
        proof {
            assert(kvs.deep_view().take(n as int).drop_last() =~= kvs.deep_view().take(
                n as int - 1,
            ));
            assert(kvs.deep_view().take(n as int).last() == kvs.deep_view()[n as int - 1]);
        }
        if str_eq(kvs[n - 1].key.as_str(), key) {
            Some(kvs[n - 1].value.clone())
        } else {
            last_value_upto(kvs, n - 1, key)
        }
    }
}

/// The value of the last pair with the given key, if any.
pub fn find_last_value(kvs: &Vec<KeyValue>, key: &str) -> (r: Option<String>)
    ensures
        match r {
            Some(v) => last_value(kvs.deep_view(), key@) == Some(v@),
            None => last_value(kvs.deep_view(), key@) is None,
        },
{
    let n = kvs.len();
    proof {
        assert(kvs.deep_view().take(n as int) =~= kvs.deep_view());
    }
    last_value_upto(kvs, n, key)
}

/// Whether every key in `kvs` is one the grammar recognizes.
fn check_keys_recognized(kvs: &Vec<KeyValue>) -> (r: bool)
    ensures
        r == all_keys_recognized(kvs.deep_view()),
{
    let mut i: usize = 0;
    while i < kvs.len()
        invariant
            i <= kvs.len(),
            forall|k: int| 0 <= k < i ==> recognized_key(#[trigger] kvs.deep_view()[k].key),
        decreases kvs.len() - i,
    {
        let key = kvs[i].key.as_str();
        let ok = str_eq(key, "state") || str_eq(key, "dispatch") || str_eq(key, "invoke");
        if !ok {
            proof {
                assert(!recognized_key(kvs.deep_view()[i as int].key));
            }
            return false;
        }
        i += 1;
    }
    true
}

/// The actor configuration built from already-resolved pairs.
///
/// Defaults apply only where a key is wholly absent: `dispatch` defaults to
/// sequential numbering and `invoke` to `true`; the `state` key is required.
/// A later pair overrides an earlier one with the same key.
pub fn build_fvm_actor_attributes(parsed_args: &Vec<KeyValue>) -> (r: Result<
    AttributeConfig,
    ConfigError,
>)
    ensures
        config_result_view(r) == spec_build_config(parsed_args.deep_view()),
{
    if !check_keys_recognized(parsed_args) {
        return Err(ConfigError::UnrecognizedKey);
    }
    let state = match find_last_value(parsed_args, "state") {
        None => {
            return Err(ConfigError::MissingStateKey);
        }
        Some(st) => st,
    };
    let dispatch_mode = match find_last_value(parsed_args, "dispatch") {
        None => DispatchMode::SequentialNumber,
        Some(t) => {
            if str_eq(t.as_str(), "method_num") {
                DispatchMode::ExplicitNumber
            } else if str_eq(t.as_str(), "abi_selector") {
                DispatchMode::ExplicitSelector
            } else {
                return Err(ConfigError::UnknownDispatchValue);
            }
        }
    };
    let invoke_entrypoint = match find_last_value(parsed_args, "invoke") {
        None => true,
        Some(t) => {
            if str_eq(t.as_str(), "true") {
                true
            } else if str_eq(t.as_str(), "false") {
                false
            } else {
                return Err(ConfigError::InvalidInvokeFlag);
            }
        }
    };
    Ok(AttributeConfig { state_type_name: state, dispatch_mode, invoke_entrypoint })
}

/// The whole resolver: the raw actor-level text, parsed and validated.
pub fn parse_attributes(attr_string: &str) -> (r: Result<AttributeConfig, ConfigError>)
    ensures
        config_result_view(r) == spec_resolve_config(attr_string@),
{
    match parse_macro_args(attr_string) {
        Ok(kvs) => build_fvm_actor_attributes(&kvs),
        Err(e) => Err(e),
    }
}

} // verus!
