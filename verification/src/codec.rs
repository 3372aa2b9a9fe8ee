//! A small fixed-width state codec: a counter state encoded as eight
//! little-endian bytes. It exercises the lifecycle end to end — a state
//! value saved through the host and loaded back decodes to a structurally
//! equal value — and gives the decode-failure condition a concrete producer.

use vstd::prelude::*;

use crate::lifecycle::{
    AbortCondition, HostView, LoadedState, RESERVED_CONSTRUCTOR_METHOD, spec_load, spec_save,
};

verus! {

/// A counter: the example state type of an actor whose handlers increment
/// and reset it.
#[derive(Clone, Copy, Debug, PartialEq, Eq, Structural)]
pub struct Counter {
    pub count: u64,
}

impl Default for Counter {
    /// The default state a constructor call starts from.
    fn default() -> (r: Self)
        ensures
            r.count == 0,
    {
        Counter { count: 0 }
    }
}

/// The eight little-endian bytes of the count.
pub open spec fn spec_encode_counter(c: Counter) -> Seq<u8> {
    seq![
        (c.count & 0xff) as u8,
        ((c.count >> 8) & 0xff) as u8,
        ((c.count >> 16) & 0xff) as u8,
        ((c.count >> 24) & 0xff) as u8,
        ((c.count >> 32) & 0xff) as u8,
        ((c.count >> 40) & 0xff) as u8,
        ((c.count >> 48) & 0xff) as u8,
        ((c.count >> 56) & 0xff) as u8,
    ]
}

/// The count eight little-endian bytes stand for.
pub open spec fn spec_decode_count(b: Seq<u8>) -> u64 {
    (b[0] as u64) | ((b[1] as u64) << 8) | ((b[2] as u64) << 16) | ((b[3] as u64) << 24) | ((
    b[4] as u64) << 32) | ((b[5] as u64) << 40) | ((b[6] as u64) << 48) | ((b[7] as u64) << 56)
}

/// A block decodes to a counter exactly when it is eight bytes long;
/// anything else is the decode-failure condition.
pub open spec fn spec_decode_counter(b: Seq<u8>) -> Result<Counter, AbortCondition> {
    if b.len() == 8 {
        Ok(Counter { count: spec_decode_count(b) })
    } else {
        Err(AbortCondition::DecodeFailure)
    }
}

/// Encodes a counter as its eight little-endian bytes.
pub fn encode_counter(c: &Counter) -> (r: Vec<u8>)
    ensures
        r@ == spec_encode_counter(*c),
{
    let x = c.count;
    let mut r: Vec<u8> = Vec::new();
    r.push((x & 0xff) as u8);
    r.push(((x >> 8) & 0xff) as u8);
    r.push(((x >> 16) & 0xff) as u8);
    r.push(((x >> 24) & 0xff) as u8);
    r.push(((x >> 32) & 0xff) as u8);
    r.push(((x >> 40) & 0xff) as u8);
    r.push(((x >> 48) & 0xff) as u8);
    r.push(((x >> 56) & 0xff) as u8);
    proof {
        assert(r@ =~= spec_encode_counter(*c));
    }
    r
}

/// Decodes a state block back to a counter; a block of any other length is
/// the decode-failure condition.
pub fn decode_counter(b: &Vec<u8>) -> (r: Result<Counter, AbortCondition>)
    ensures
        r == spec_decode_counter(b@),
{
    if b.len() == 8 {
        let count: u64 = (b[0] as u64) | ((b[1] as u64) << 8) | ((b[2] as u64) << 16) | ((
        b[3] as u64) << 24) | ((b[4] as u64) << 32) | ((b[5] as u64) << 40) | ((b[6] as u64) << 48)
            | ((b[7] as u64) << 56);
        Ok(Counter { count })
    } else {
        Err(AbortCondition::DecodeFailure)
    }
}

/// Codec round-trip law: decoding an encoded counter yields the counter
/// back.
pub proof fn lemma_counter_round_trip(c: Counter)
    ensures
        spec_decode_counter(spec_encode_counter(c)) == Ok::<Counter, AbortCondition>(c),
{
    let x = c.count;
    let b = spec_encode_counter(c);
    assert(b.len() == 8);
    assert(((x & 0xff) as u8) as u64 == (x & 0xff)) by (bit_vector);
    assert((((x >> 8) & 0xff) as u8) as u64 == ((x >> 8) & 0xff)) by (bit_vector);
    assert((((x >> 16) & 0xff) as u8) as u64 == ((x >> 16) & 0xff)) by (bit_vector);
    assert((((x >> 24) & 0xff) as u8) as u64 == ((x >> 24) & 0xff)) by (bit_vector);
    assert((((x >> 32) & 0xff) as u8) as u64 == ((x >> 32) & 0xff)) by (bit_vector);
    assert((((x >> 40) & 0xff) as u8) as u64 == ((x >> 40) & 0xff)) by (bit_vector);
    assert((((x >> 48) & 0xff) as u8) as u64 == ((x >> 48) & 0xff)) by (bit_vector);
    assert((((x >> 56) & 0xff) as u8) as u64 == ((x >> 56) & 0xff)) by (bit_vector);
    assert((x & 0xff) | (((x >> 8) & 0xff) << 8) | (((x >> 16) & 0xff) << 16) | (((x >> 24)
        & 0xff) << 24) | (((x >> 32) & 0xff) << 32) | (((x >> 40) & 0xff) << 40) | (((x >> 48)
        & 0xff) << 48) | (((x >> 56) & 0xff) << 56) == x) by (bit_vector);
    assert(spec_decode_count(b) == x);
}

/// State round-trip law: a counter saved through the host and loaded back
/// with any non-constructor selector decodes to a structurally equal value.
pub proof fn lemma_counter_save_then_load(h: HostView, c: Counter, selector: u64)
    requires
        selector != RESERVED_CONSTRUCTOR_METHOD,
        h.blocks.len() + 1 <= u64::MAX,
    ensures
        spec_load(spec_save(h, spec_encode_counter(c)).0, selector) == Ok::<
            LoadedState,
            AbortCondition,
        >(LoadedState::Stored(spec_encode_counter(c))),
        spec_decode_counter(spec_encode_counter(c)) == Ok::<Counter, AbortCondition>(c),
{
    crate::lifecycle::lemma_save_then_load(h, spec_encode_counter(c), selector);
    lemma_counter_round_trip(c);
}

} // verus!
