use vstd::prelude::*;

verus! {

/// Number of bits in one stored value.
pub const VALUE_BITS: usize = 8;

/// Bit `j` of byte `b`, counting from the most significant bit (`j == 0`).
pub open spec fn bit_of(b: u8, j: int) -> bool {
    (b >> ((7 - j) as u8)) & 1u8 == 1u8
}

/// The bits of a byte sequence: eight per byte, most significant bit first.
pub open spec fn bits_of_bytes(bytes: Seq<u8>) -> Seq<bool> {
    Seq::new(bytes.len() * 8, |i: int| bit_of(bytes[i / 8], i % 8))
}

/// Why an operation refused its arguments.
#[derive(Debug, Clone, Copy, PartialEq, Eq, Structural)]
pub enum VcError {
    /// The key and value sequences differ in length.
    InvalidInput,
}

/// Every bit index of `key` (`key * 8` up to `key * 8 + 7`) fits in a `usize`.
pub open spec fn key_fits(key: usize) -> bool {
    key as int * 8 + 8 <= usize::MAX as int + 1
}

/// The bit indices of a key sequence: for each key in order, the eight
/// indices `key * 8 .. key * 8 + 8` in ascending order.
pub open spec fn encoded_indices(keys: Seq<usize>) -> Seq<usize> {
    Seq::new(keys.len() * 8, |i: int| (keys[i / 8] as int * 8 + i % 8) as usize)
}

/// `bits` and `indices` are the encoding of the pairs `(keys[i], values[i])`.
pub open spec fn encodes(keys: Seq<usize>, values: Seq<u8>, bits: Seq<bool>, indices: Seq<usize>) -> bool {
    &&& bits == bits_of_bytes(values)
    &&& indices == encoded_indices(keys)
}

proof fn lemma_block(i: int, j: int)
    requires
        0 <= i,
        0 <= j < 8,
    ensures
        (i * 8 + j) / 8 == i,
        (i * 8 + j) % 8 == j,
{
    vstd::arithmetic::div_mod::lemma_fundamental_div_mod_converse(i * 8 + j, 8, i, j);
}

/// Relies on bit_vec::BitVec::from_bytes and BitVec::iter: each byte becomes
/// eight bits, most significant bit first.
#[verifier::external_body]
fn bits_from_bytes(bytes: &Vec<u8>) -> (r: Vec<bool>)
    requires
        bytes@.len() * 8 <= usize::MAX,
    ensures
        r@ == bits_of_bytes(bytes@),
{
    bit_vec::BitVec::from_bytes(bytes).iter().collect()
}

/// The bits of one value: its single little-endian byte, most significant
/// bit first.
pub fn to_binary(elem: u8) -> (r: Vec<bool>)
    ensures
        r@ == bits_of_bytes(seq![elem]),
{
    let bytes: Vec<u8> = vec![elem];
    bits_from_bytes(&bytes)
}

/// Encodes key-value pairs as a flat bit sequence and the matching bit
/// indices: for each pair in order, the eight bits of the value (most
/// significant first) at the indices `key * 8 .. key * 8 + 8`.
pub fn convert_key_value(keys: &[usize], values: &[u8]) -> (r: Result<(Vec<bool>, Vec<usize>), VcError>)
    requires
        forall|i: int| 0 <= i < keys@.len() ==> key_fits(#[trigger] keys@[i]),
        values@.len() * 8 <= usize::MAX,
    ensures
        keys@.len() != values@.len() <==> r == Err::<(Vec<bool>, Vec<usize>), VcError>(VcError::InvalidInput),
        r matches Ok((bits, indices)) ==> encodes(keys@, values@, bits@, indices@),
        r matches Ok((bits, indices)) ==> bits@.len() == values@.len() * 8 && indices@.len() == bits@.len(),
{
    if keys.len() != values.len() {
        return Err(VcError::InvalidInput);
    }
    let n = values.len();
    let mut binary_vec: Vec<bool> = Vec::new();
    let mut indices: Vec<usize> = Vec::new();
    let mut i: usize = 0;
    while i < n
        invariant
            n == values@.len(),
            n == keys@.len(),
            n * 8 <= usize::MAX,
            i <= n,
            forall|k: int| 0 <= k < keys@.len() ==> key_fits(#[trigger] keys@[k]),
            binary_vec@.len() == i * 8,
            indices@.len() == i * 8,
            forall|k: int| 0 <= k < i * 8 ==> #[trigger] binary_vec@[k] == bit_of(values@[k / 8], k % 8),
            forall|k: int| 0 <= k < i * 8 ==> #[trigger] indices@[k] as int == keys@[k / 8] as int * 8 + k % 8,
        decreases n - i,
    {
        let value = values[i];
        let mut value_vec = to_binary(value);
        let key = keys[i];
        assert(key_fits(keys@[i as int]));
        let ghost prev_bits = binary_vec@;
        binary_vec.append(&mut value_vec);
        let offset: usize = VALUE_BITS;
        let mut j: usize = 0;
        while j < offset
            invariant
                offset == 8,
                j <= 8,
                key == keys@[i as int],
                key_fits(key),
                i < n,
                indices@.len() == i * 8 + j,
                forall|k: int| 0 <= k < i * 8 + j ==> #[trigger] indices@[k] as int == keys@[k / 8] as int * 8 + k % 8,
            decreases 8 - j,
        {
            proof {
                lemma_block(i as int, j as int);
            }
            indices.push(key * offset + j);
            j += 1;
        }
        assert forall|k: int| 0 <= k < (i + 1) * 8 implies #[trigger] binary_vec@[k] == bit_of(values@[k / 8], k % 8) by {
            if k >= i * 8 {
                lemma_block(i as int, k - i * 8);
                assert(binary_vec@[k] == bits_of_bytes(seq![value])[k - i * 8]);
            } else {
                assert(binary_vec@[k] == prev_bits[k]);
            }
        }
        i += 1;
    }
    assert(binary_vec@ =~= bits_of_bytes(values@));
    assert forall|k: int| 0 <= k < n * 8 implies #[trigger] indices@[k] == encoded_indices(keys@)[k] by {
        lemma_block(k / 8, k % 8);
        assert(key_fits(keys@[k / 8]));
    }
    assert(indices@ =~= encoded_indices(keys@));
    Ok((binary_vec, indices))
}

/// Encodes a single key-value pair.
pub(crate) fn encode_pair(key: usize, value: u8) -> (r: (Vec<bool>, Vec<usize>))
    requires
        key_fits(key),
    ensures
        encodes(seq![key], seq![value], r.0@, r.1@),
        r.0@.len() == 8,
        r.1@.len() == 8,
{
    let keys: Vec<usize> = vec![key];
    let values: Vec<u8> = vec![value];
    assert(keys@ == seq![key]);
    assert(values@ == seq![value]);
    match convert_key_value(keys.as_slice(), values.as_slice()) {
        Ok(pair) => pair,
        Err(e) => {
            assert(e == VcError::InvalidInput);
            assert(false);
            (Vec::new(), Vec::new())
        },
    }
}

/// Encoding is a function of its inputs: two encodings of the same key and
/// value sequences are the same bits and the same indices.
pub proof fn lemma_encoding_deterministic(
    keys: Seq<usize>,
    values: Seq<u8>,
    bits1: Seq<bool>,
    indices1: Seq<usize>,
    bits2: Seq<bool>,
    indices2: Seq<usize>,
)
    requires
        encodes(keys, values, bits1, indices1),
        encodes(keys, values, bits2, indices2),
    ensures
        bits1 == bits2,
        indices1 == indices2,
{
}

/// Bit indices never collide across keys or bit positions: two positions of
/// an encoding share an index only if they belong to equal keys and to the
/// same bit of their values.
pub proof fn lemma_indices_distinct(keys: Seq<usize>, a: int, b: int)
    requires
        forall|i: int| 0 <= i < keys.len() ==> key_fits(#[trigger] keys[i]),
        0 <= a < keys.len() * 8,
        0 <= b < keys.len() * 8,
        encoded_indices(keys)[a] == encoded_indices(keys)[b],
    ensures
        keys[a / 8] == keys[b / 8],
        a % 8 == b % 8,
{
    lemma_block(a / 8, a % 8);
    lemma_block(b / 8, b % 8);
    let ka = keys[a / 8] as int;
    let kb = keys[b / 8] as int;
    assert(key_fits(keys[a / 8]) && key_fits(keys[b / 8]));
    assert(ka * 8 + a % 8 == kb * 8 + b % 8);
    vstd::arithmetic::div_mod::lemma_fundamental_div_mod_converse(ka * 8 + a % 8, 8, ka, a % 8);
    vstd::arithmetic::div_mod::lemma_fundamental_div_mod_converse(kb * 8 + b % 8, 8, kb, b % 8);
}

} // verus!
