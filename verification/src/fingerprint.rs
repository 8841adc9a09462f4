//! The identity of a filter on a chain.
use vstd::prelude::*;
use vstd::bytes::*;
use crate::filter::{resolved_start, Address, Filter, FilterView, Topic};
use crate::keys::{ascending, lemma_ascending_unique, sorted_keys};

verus! {

/// The SHA-256 digest of a byte string.
pub uninterp spec fn sha256_digest(data: Seq<u8>) -> Seq<u8>;

/// The Keccak-256 digest of a byte string.
pub uninterp spec fn keccak256_digest(data: Seq<u8>) -> Seq<u8>;

/// The 32-byte word that stands for an unsigned integer: big-endian, padded
/// with zeros on the left.
pub open spec fn word_of_u64(value: u64) -> Seq<u8> {
    Seq::new(24, |i: int| 0u8) + spec_u64_to_le_bytes(value).reverse()
}

/// The 32-byte word that stands for an address: padded with zeros on the left.
pub open spec fn word_of_address(value: Seq<u8>) -> Seq<u8> {
    Seq::new(12, |i: int| 0u8) + value
}

/// The lower-case hexadecimal digit for `n`, which is below 16.
pub open spec fn hex_digit(n: int) -> char {
    seq![
        '0', '1', '2', '3', '4', '5', '6', '7', '8', '9', 'a', 'b', 'c', 'd', 'e', 'f',
    ][n]
}

/// `0x`, then the bytes in lower-case hexadecimal, two digits each.
pub open spec fn hex_text(bytes: Seq<u8>) -> Seq<char> {
    seq!['0', 'x'] + Seq::new(
        2 * bytes.len(),
        |i: int|
            hex_digit(
                if i % 2 == 0 {
                    bytes[i / 2] as int / 16
                } else {
                    bytes[i / 2] as int % 16
                },
            ),
    )
}

/// The topics one after the other.
pub open spec fn concat_topics(values: Seq<Topic>) -> Seq<u8>
    decreases values.len(),
{
    if values.len() == 0 {
        Seq::empty()
    } else {
        concat_topics(values.drop_last()) + values.last()@
    }
}

/// The words of the addresses one after the other.
pub open spec fn concat_addresses(values: Seq<Address>) -> Seq<u8>
    decreases values.len(),
{
    if values.len() == 0 {
        Seq::empty()
    } else {
        concat_addresses(values.drop_last()) + word_of_address(values.last()@)
    }
}

/// The bytes that stand for the topics of one position: the word of their
/// number, then the topics in ascending order.
pub open spec fn topic_set_bytes(values: Set<Topic>) -> Seq<u8> {
    word_of_u64(ascending(values).len() as u64) + concat_topics(ascending(values))
}

/// The bytes that stand for the addresses: the word of their number, then
/// the words of the addresses in ascending order.
pub open spec fn address_set_bytes(values: Set<Address>) -> Seq<u8> {
    word_of_u64(ascending(values).len() as u64) + concat_addresses(ascending(values))
}

/// The bytes that are hashed for a filter on a chain: the chain id, the start
/// block (1 where none is set), then the topics of each of the four positions
/// and the addresses. Each of these five sets begins with the number of its
/// values, so that the bytes tell where one set ends and the next begins.
pub open spec fn fingerprint_preimage(filter: FilterView, chain_id: u64) -> Seq<u8> {
    word_of_u64(chain_id) + word_of_u64(resolved_start(filter.from_block)) + topic_set_bytes(
        filter.topics[0],
    ) + topic_set_bytes(filter.topics[1]) + topic_set_bytes(filter.topics[2]) + topic_set_bytes(
        filter.topics[3],
    ) + address_set_bytes(filter.address)
}

/// The identity of a filter on a chain: the Keccak-256 digest of the SHA-256
/// digest of its preimage, in hexadecimal.
pub open spec fn fingerprint(filter: FilterView, chain_id: u64) -> Seq<char> {
    hex_text(keccak256_digest(sha256_digest(fingerprint_preimage(filter, chain_id))))
}

/// Calls `SolValue::abi_encode` of alloy on a `u64`. Trusted: the result is the
/// integer's word, 24 zero bytes and then its eight bytes, highest first.
#[verifier::external_body]
fn abi_encode_u64(value: u64) -> (word: Vec<u8>)
    ensures
        word@ == word_of_u64(value),
{
    alloy::sol_types::SolValue::abi_encode(&value)
}

/// Calls `SolValue::abi_encode` of alloy on a `B256`. Trusted: the result is
/// the 32 bytes as they are.
#[verifier::external_body]
fn abi_encode_topic(value: &Topic) -> (word: Vec<u8>)
    ensures
        word@ == value@,
{
    alloy::sol_types::SolValue::abi_encode(&alloy::primitives::B256::new(*value))
}

/// Calls `SolValue::abi_encode` of alloy on an `Address`. Trusted: the result
/// is 12 zero bytes and then the 20 bytes of the address.
#[verifier::external_body]
fn abi_encode_address(value: &Address) -> (word: Vec<u8>)
    ensures
        word@ == word_of_address(value@),
{
    alloy::sol_types::SolValue::abi_encode(&alloy::primitives::Address::new(*value))
}

/// Calls `Sha256::digest` of sha2. Trusted: the result depends on the bytes
/// alone; it is named `sha256_digest`.
#[verifier::external_body]
fn sha256(data: &Vec<u8>) -> (digest: Vec<u8>)
    ensures
        digest@ == sha256_digest(data@),
{
    <sha2::Sha256 as sha2::Digest>::digest(data.as_slice()).to_vec()
}

/// Calls `keccak256` of alloy. Trusted: the result depends on the bytes alone;
/// it is named `keccak256_digest`.
#[verifier::external_body]
fn keccak256(data: &Vec<u8>) -> (digest: [u8; 32])
    ensures
        digest@ == keccak256_digest(data@),
{
    alloy::primitives::keccak256(data.as_slice()).0
}

/// Calls `to_string` on a `B256` of alloy. Trusted: the result is `0x` and the
/// 64 lower-case hexadecimal digits of the bytes.
#[verifier::external_body]
fn hash_to_string(hash: &[u8; 32]) -> (text: String)
    ensures
        text@ == hex_text(hash@),
{
    alloy::primitives::B256::new(*hash).to_string()
}

/// Appends the word of each topic to `buffer`.
fn append_topics(buffer: &mut Vec<u8>, values: &Vec<Topic>)
    ensures
        final(buffer)@ == old(buffer)@ + concat_topics(values@),
{
    let mut i: usize = 0;
    proof {
        assert(values@.subrange(0, 0) =~= Seq::<Topic>::empty());
        assert(buffer@ =~= old(buffer)@ + concat_topics(values@.subrange(0, 0)));
    }
    while i < values.len()
        invariant
            i <= values.len(),
            buffer@ == old(buffer)@ + concat_topics(values@.subrange(0, i as int)),
        decreases values.len() - i,
    {
        let mut word = abi_encode_topic(&values[i]);
        buffer.append(&mut word);
        proof {
            let next = values@.subrange(0, i + 1);
            assert(next.drop_last() =~= values@.subrange(0, i as int));
            assert(next.last() == values@[i as int]);
            assert(buffer@ =~= old(buffer)@ + concat_topics(next));
        }
        i = i + 1;
    }
    proof {
        assert(values@.subrange(0, i as int) =~= values@);
    }
}

/// Appends the word of each address to `buffer`.
fn append_addresses(buffer: &mut Vec<u8>, values: &Vec<Address>)
    ensures
        final(buffer)@ == old(buffer)@ + concat_addresses(values@),
{
    let mut i: usize = 0;
    proof {
        assert(values@.subrange(0, 0) =~= Seq::<Address>::empty());
        assert(buffer@ =~= old(buffer)@ + concat_addresses(values@.subrange(0, 0)));
    }
    while i < values.len()
        invariant
            i <= values.len(),
            buffer@ == old(buffer)@ + concat_addresses(values@.subrange(0, i as int)),
        decreases values.len() - i,
    {
        let mut word = abi_encode_address(&values[i]);
        buffer.append(&mut word);
        proof {
            let next = values@.subrange(0, i + 1);
            assert(next.drop_last() =~= values@.subrange(0, i as int));
            assert(next.last() == values@[i as int]);
            assert(buffer@ =~= old(buffer)@ + concat_addresses(next));
        }
        i = i + 1;
    }
    proof {
        assert(values@.subrange(0, i as int) =~= values@);
    }
}

/// The bytes that are hashed for `filter` on the chain `chain_id`.
pub fn preimage(filter: &Filter, chain_id: u64) -> (bytes: Vec<u8>)
    ensures
        bytes@ == fingerprint_preimage(filter@, chain_id),
{
    proof {
        filter.lemma_four_positions();
    }
    let mut bytes = abi_encode_u64(chain_id);
    let mut start = abi_encode_u64(filter.start_block());
    bytes.append(&mut start);
    let mut position: usize = 0;
    while position < 4
        invariant
            position <= 4,
            filter@.topics.len() == 4,
            bytes@ == topics_prefix(filter@, chain_id, position as int),
        decreases 4 - position,
    {
        let sorted = sorted_keys(filter.topic_values(position));
        proof {
            lemma_ascending_unique(sorted@, filter@.topics[position as int]);
        }
        let mut count = abi_encode_u64(sorted.len() as u64);
        bytes.append(&mut count);
        append_topics(&mut bytes, &sorted);
        proof {
            assert(bytes@ =~= topics_prefix(filter@, chain_id, position + 1));
        }
        position = position + 1;
    }
    let sorted = sorted_keys(filter.addresses());
    proof {
        lemma_ascending_unique(sorted@, filter@.address);
    }
    let mut count = abi_encode_u64(sorted.len() as u64);
    bytes.append(&mut count);
    append_addresses(&mut bytes, &sorted);
    proof {
        reveal_with_fuel(topics_prefix, 5);
        assert(bytes@ =~= fingerprint_preimage(filter@, chain_id));
    }
    bytes
}

/// The preimage up to and without topic position `upto`.
pub open spec fn topics_prefix(filter: FilterView, chain_id: u64, upto: int) -> Seq<u8>
    decreases upto,
{
    if upto <= 0 {
        word_of_u64(chain_id) + word_of_u64(resolved_start(filter.from_block))
    } else {
        topics_prefix(filter, chain_id, upto - 1) + topic_set_bytes(filter.topics[upto - 1])
    }
}

/// The identity of `filter` on the chain `chain_id`: `0x` and 64 hexadecimal
/// digits. It depends on what the filter admits and not on the order in which
/// its values were added.
pub fn filter_id(filter: &Filter, chain_id: u64) -> (id: String)
    ensures
        id@ == fingerprint(filter@, chain_id),
        id@.len() == 66,
{
    let bytes = preimage(filter, chain_id);
    let digest = sha256(&bytes);
    let hash = keccak256(&digest);
    hash_to_string(&hash)
}

/// Two filters that admit the same values at each topic position and the same
/// addresses, and start at the same block, have the same identity on a chain,
/// whatever the order in which their values were added.
pub proof fn lemma_fingerprint_of_equal_sets(a: Filter, b: Filter, chain_id: u64)
    requires
        a@.from_block == b@.from_block,
        forall|position: int| 0 <= position < 4 ==> a@.topics[position] =~= b@.topics[position],
        a@.address =~= b@.address,
    ensures
        fingerprint(a@, chain_id) == fingerprint(b@, chain_id),
{
    a.lemma_four_positions();
    b.lemma_four_positions();
    assert(a@.topics =~= b@.topics);
}

/// An unsigned integer can be read back from its word.
pub proof fn lemma_word_of_u64_injective(x: u64, y: u64)
    requires
        word_of_u64(x) == word_of_u64(y),
    ensures
        x == y,
{
    lemma_auto_spec_u64_to_from_le_bytes();
    let bx = spec_u64_to_le_bytes(x);
    let by = spec_u64_to_le_bytes(y);
    assert forall|i: int| 0 <= i < 8 implies bx[i] == by[i] by {
        assert(word_of_u64(x)[24 + (7 - i)] == bx.reverse()[7 - i]);
        assert(word_of_u64(y)[24 + (7 - i)] == by.reverse()[7 - i]);
    }
    assert(bx =~= by);
    assert(spec_u64_from_le_bytes(bx) == x);
    assert(spec_u64_from_le_bytes(by) == y);
}

/// The chain and the start block can be read back from the bytes that are
/// hashed: filters on different chains, or with different start blocks, are
/// hashed from different bytes.
pub proof fn lemma_preimage_fixes_chain_and_start(
    a: FilterView,
    chain_a: u64,
    b: FilterView,
    chain_b: u64,
)
    requires
        fingerprint_preimage(a, chain_a) == fingerprint_preimage(b, chain_b),
    ensures
        chain_a == chain_b,
        resolved_start(a.from_block) == resolved_start(b.from_block),
{
    lemma_auto_spec_u64_to_from_le_bytes();
    let pa = fingerprint_preimage(a, chain_a);
    let pb = fingerprint_preimage(b, chain_b);
    let start_a = resolved_start(a.from_block);
    let start_b = resolved_start(b.from_block);
    assert(word_of_u64(chain_a).len() == 32);
    assert(word_of_u64(chain_b).len() == 32);
    assert(word_of_u64(start_a).len() == 32);
    assert(word_of_u64(start_b).len() == 32);
    assert(pa.subrange(0, 32) =~= word_of_u64(chain_a));
    assert(pb.subrange(0, 32) =~= word_of_u64(chain_b));
    assert(pa.subrange(32, 64) =~= word_of_u64(start_a));
    assert(pb.subrange(32, 64) =~= word_of_u64(start_b));
    lemma_word_of_u64_injective(chain_a, chain_b);
    lemma_word_of_u64_injective(start_a, start_b);
}

/// Each topic takes 32 bytes.
pub proof fn lemma_concat_topics_len(values: Seq<Topic>)
    ensures
        concat_topics(values).len() == 32 * values.len(),
    decreases values.len(),
{
    if values.len() > 0 {
        lemma_concat_topics_len(values.drop_last());
    }
}

/// Each address takes 32 bytes.
pub proof fn lemma_concat_addresses_len(values: Seq<Address>)
    ensures
        concat_addresses(values).len() == 32 * values.len(),
    decreases values.len(),
{
    if values.len() > 0 {
        lemma_concat_addresses_len(values.drop_last());
    }
}

/// The topics can be read back from their bytes.
pub proof fn lemma_concat_topics_injective(a: Seq<Topic>, b: Seq<Topic>)
    requires
        a.len() == b.len(),
        concat_topics(a) == concat_topics(b),
    ensures
        a == b,
    decreases a.len(),
{
    if a.len() == 0 {
        assert(a =~= b);
    } else {
        let n: int = 32 * (a.len() - 1);
        lemma_concat_topics_len(a.drop_last());
        lemma_concat_topics_len(b.drop_last());
        assert(concat_topics(a).subrange(0, n) =~= concat_topics(a.drop_last()));
        assert(concat_topics(b).subrange(0, n) =~= concat_topics(b.drop_last()));
        assert(concat_topics(a).subrange(n, n + 32) =~= a.last()@);
        assert(concat_topics(b).subrange(n, n + 32) =~= b.last()@);
        lemma_concat_topics_injective(a.drop_last(), b.drop_last());
        assert(a.last() =~= b.last());
        assert(a =~= a.drop_last().push(a.last()));
        assert(b =~= b.drop_last().push(b.last()));
    }
}

/// The addresses can be read back from their bytes.
pub proof fn lemma_concat_addresses_injective(a: Seq<Address>, b: Seq<Address>)
    requires
        a.len() == b.len(),
        concat_addresses(a) == concat_addresses(b),
    ensures
        a == b,
    decreases a.len(),
{
    if a.len() == 0 {
        assert(a =~= b);
    } else {
        let n: int = 32 * (a.len() - 1);
        lemma_concat_addresses_len(a.drop_last());
        lemma_concat_addresses_len(b.drop_last());
        assert(concat_addresses(a).subrange(0, n) =~= concat_addresses(a.drop_last()));
        assert(concat_addresses(b).subrange(0, n) =~= concat_addresses(b.drop_last()));
        assert(concat_addresses(a).subrange(n + 12, n + 32) =~= a.last()@);
        assert(concat_addresses(b).subrange(n + 12, n + 32) =~= b.last()@);
        lemma_concat_addresses_injective(a.drop_last(), b.drop_last());
        assert(a.last() =~= b.last());
        assert(a =~= a.drop_last().push(a.last()));
        assert(b =~= b.drop_last().push(b.last()));
    }
}

/// Where the bytes of a set of topics, followed by more bytes, equal those of
/// another set followed by more bytes, the sets hold the same topics and the
/// bytes that follow are the same.
pub proof fn lemma_topics_then_rest(a: Seq<Topic>, rest_a: Seq<u8>, b: Seq<Topic>, rest_b: Seq<u8>)
    requires
        a.len() <= u64::MAX,
        b.len() <= u64::MAX,
        word_of_u64(a.len() as u64) + concat_topics(a) + rest_a == word_of_u64(b.len() as u64)
            + concat_topics(b) + rest_b,
    ensures
        a == b,
        rest_a == rest_b,
{
    lemma_auto_spec_u64_to_from_le_bytes();
    lemma_concat_topics_len(a);
    lemma_concat_topics_len(b);
    let x = word_of_u64(a.len() as u64) + concat_topics(a) + rest_a;
    let y = word_of_u64(b.len() as u64) + concat_topics(b) + rest_b;
    assert(x.subrange(0, 32) =~= word_of_u64(a.len() as u64));
    assert(y.subrange(0, 32) =~= word_of_u64(b.len() as u64));
    lemma_word_of_u64_injective(a.len() as u64, b.len() as u64);
    let n: int = 32 + 32 * (a.len() as int);
    assert(x.subrange(32, n) =~= concat_topics(a));
    assert(y.subrange(32, n) =~= concat_topics(b));
    lemma_concat_topics_injective(a, b);
    assert(x.subrange(n, x.len() as int) =~= rest_a);
    assert(y.subrange(n, y.len() as int) =~= rest_b);
}

/// Where the bytes of two sets of addresses are the same, the sets hold the
/// same addresses.
pub proof fn lemma_addresses_from_bytes(a: Seq<Address>, b: Seq<Address>)
    requires
        a.len() <= u64::MAX,
        b.len() <= u64::MAX,
        word_of_u64(a.len() as u64) + concat_addresses(a) == word_of_u64(b.len() as u64)
            + concat_addresses(b),
    ensures
        a == b,
{
    lemma_auto_spec_u64_to_from_le_bytes();
    lemma_concat_addresses_len(a);
    lemma_concat_addresses_len(b);
    let x = word_of_u64(a.len() as u64) + concat_addresses(a);
    let y = word_of_u64(b.len() as u64) + concat_addresses(b);
    assert(x.subrange(0, 32) =~= word_of_u64(a.len() as u64));
    assert(y.subrange(0, 32) =~= word_of_u64(b.len() as u64));
    lemma_word_of_u64_injective(a.len() as u64, b.len() as u64);
    assert(x.subrange(32, x.len() as int) =~= concat_addresses(a));
    assert(y.subrange(32, y.len() as int) =~= concat_addresses(b));
    lemma_concat_addresses_injective(a, b);
}

/// The bytes that are hashed tell filters apart: where two filters are hashed
/// from the same bytes, they are on the same chain, start at the same block
/// and admit the same topics at each position and the same addresses. So a
/// topic moved to another position, a value added or taken away, an address
/// in place of a topic, another chain or another start block each change the
/// bytes.
pub proof fn lemma_preimage_fixes_filter(a: Filter, chain_a: u64, b: Filter, chain_b: u64)
    requires
        fingerprint_preimage(a@, chain_a) == fingerprint_preimage(b@, chain_b),
    ensures
        chain_a == chain_b,
        resolved_start(a@.from_block) == resolved_start(b@.from_block),
        a@.topics == b@.topics,
        a@.address == b@.address,
{
    lemma_preimage_fixes_chain_and_start(a@, chain_a, b@, chain_b);
    a.lemma_four_positions();
    b.lemma_four_positions();
    a.lemma_sets_in_order();
    b.lemma_sets_in_order();
    let pa = fingerprint_preimage(a@, chain_a);
    let pb = fingerprint_preimage(b@, chain_b);
    let a4 = address_set_bytes(a@.address);
    let a3 = topic_set_bytes(a@.topics[3]) + a4;
    let a2 = topic_set_bytes(a@.topics[2]) + a3;
    let a1 = topic_set_bytes(a@.topics[1]) + a2;
    let a0 = topic_set_bytes(a@.topics[0]) + a1;
    let b4 = address_set_bytes(b@.address);
    let b3 = topic_set_bytes(b@.topics[3]) + b4;
    let b2 = topic_set_bytes(b@.topics[2]) + b3;
    let b1 = topic_set_bytes(b@.topics[1]) + b2;
    let b0 = topic_set_bytes(b@.topics[0]) + b1;
    assert(a0 == b0) by {
        lemma_auto_spec_u64_to_from_le_bytes();
        assert(pa.subrange(64, pa.len() as int) =~= a0);
        assert(pb.subrange(64, pb.len() as int) =~= b0);
    }
    lemma_topics_then_rest(ascending(a@.topics[0]), a1, ascending(b@.topics[0]), b1);
    lemma_topics_then_rest(ascending(a@.topics[1]), a2, ascending(b@.topics[1]), b2);
    lemma_topics_then_rest(ascending(a@.topics[2]), a3, ascending(b@.topics[2]), b3);
    lemma_topics_then_rest(ascending(a@.topics[3]), a4, ascending(b@.topics[3]), b4);
    lemma_addresses_from_bytes(ascending(a@.address), ascending(b@.address));
    assert(a@.topics =~= b@.topics);
}

/// Filters that differ in the chain, in the start block, in the topics of a
/// position or in the addresses are hashed from different bytes.
pub proof fn lemma_different_filters_different_bytes(
    a: Filter,
    chain_a: u64,
    b: Filter,
    chain_b: u64,
)
    requires
        chain_a != chain_b || resolved_start(a@.from_block) != resolved_start(b@.from_block)
            || a@.topics != b@.topics || a@.address != b@.address,
    ensures
        fingerprint_preimage(a@, chain_a) != fingerprint_preimage(b@, chain_b),
{
    if fingerprint_preimage(a@, chain_a) == fingerprint_preimage(b@, chain_b) {
        lemma_preimage_fixes_filter(a, chain_a, b, chain_b);
    }
}

} // verus!
