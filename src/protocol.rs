use vstd::prelude::*;
use crate::encoding::{bits_of_bytes, convert_key_value, encode_pair, encoded_indices, key_fits, VcError, VALUE_BITS};

verus! {

/// An accumulator engine over bit assignments: it commits to bits at bit
/// indices, opens and verifies them with a pair of witnesses (one for the
/// bits that are set, one for those that are clear), and updates them.
///
/// Every operation is deterministic: its result is a function of its
/// arguments alone, named by the matching spec function (`commit_of` for
/// `commit`, and so on). An implementation verified here defines those spec
/// functions; the defaults name no particular value, and for a generic
/// engine each stays abstract. The protocol operations below hand every call a bit
/// sequence and an index sequence of equal length, one index per bit.
pub trait AccumulatorEngine {
    /// A large integer: a digest, a product of accumulated elements, or an
    /// element.
    type Digest;

    /// A membership or non-membership witness.
    type Witness;

    /// What `commit` returns on these arguments.
    closed spec fn commit_of(base: Self::Digest, bits: Seq<bool>, indices: Seq<usize>) -> (Self::Digest, Self::Digest) {
        arbitrary()
    }

    /// What `batch_open` returns on these arguments.
    closed spec fn open_of(
        old_state: Self::Digest,
        product: Self::Digest,
        bits: Seq<bool>,
        indices: Seq<usize>,
    ) -> (Self::Witness, Self::Witness) {
        arbitrary()
    }

    /// What `batch_verify` returns on these arguments.
    closed spec fn verify_of(
        old_state: Self::Digest,
        accumulator: Self::Digest,
        bits: Seq<bool>,
        indices: Seq<usize>,
        pi_i: Self::Witness,
        pi_e: Self::Witness,
    ) -> bool {
        arbitrary()
    }

    /// What `update` returns on these arguments.
    closed spec fn update_of(
        accumulator: Self::Digest,
        old_state: Self::Digest,
        agg: Self::Digest,
        bits: Seq<bool>,
        indices: Seq<usize>,
    ) -> Self::Digest {
        arbitrary()
    }

    /// What `get_bit_elems` returns on these arguments.
    closed spec fn elems_of(bits: Seq<bool>, indices: Seq<usize>) -> (Self::Digest, Self::Digest) {
        arbitrary()
    }

    /// Accumulates `bits` at `indices` onto `base`; returns the new digest
    /// and the product of the accumulated elements.
    fn commit(base: Self::Digest, bits: &Vec<bool>, indices: &Vec<usize>) -> (r: (Self::Digest, Self::Digest))
        requires
            bits@.len() == indices@.len(),
        ensures
            r == Self::commit_of(base, bits@, indices@),
    ;

    /// Witnesses for `bits` at `indices` under a digest and its product.
    fn batch_open(
        old_state: Self::Digest,
        product: Self::Digest,
        bits: &Vec<bool>,
        indices: &Vec<usize>,
    ) -> (r: (Self::Witness, Self::Witness))
        requires
            bits@.len() == indices@.len(),
        ensures
            r == Self::open_of(old_state, product, bits@, indices@),
    ;

    /// Whether the witnesses show `bits` at `indices` between two digests.
    fn batch_verify(
        old_state: Self::Digest,
        accumulator: Self::Digest,
        bits: &Vec<bool>,
        indices: &Vec<usize>,
        pi_i: Self::Witness,
        pi_e: Self::Witness,
    ) -> (r: bool)
        requires
            bits@.len() == indices@.len(),
        ensures
            r == Self::verify_of(old_state, accumulator, bits@, indices@, pi_i, pi_e),
    ;

    /// Sets `bits` at `indices` in a digest, in either direction.
    fn update(
        accumulator: Self::Digest,
        old_state: Self::Digest,
        agg: Self::Digest,
        bits: &Vec<bool>,
        indices: &Vec<usize>,
    ) -> (r: Self::Digest)
        requires
            bits@.len() == indices@.len(),
        ensures
            r == Self::update_of(accumulator, old_state, agg, bits@, indices@),
    ;

    /// The element that `bits` at `indices` contribute, and its companion.
    fn get_bit_elems(bits: &Vec<bool>, indices: &Vec<usize>) -> (r: (Self::Digest, Self::Digest))
        requires
            bits@.len() == indices@.len(),
        ensures
            r == Self::elems_of(bits@, indices@),
    ;
}

/// Commits to the values at the given keys on top of `accumulator`; returns
/// the new digest and the product that later openings and updates need.
pub fn commit<E: AccumulatorEngine>(accumulator: E::Digest, keys: &[usize], values: &[u8]) -> (r: Result<
    (E::Digest, E::Digest),
    VcError,
>)
    requires
        forall|i: int| 0 <= i < keys@.len() ==> key_fits(#[trigger] keys@[i]),
        values@.len() * 8 <= usize::MAX,
    ensures
        r is Err <==> keys@.len() != values@.len(),
        r matches Err(e) ==> e == VcError::InvalidInput,
        r matches Ok(p) ==> p == E::commit_of(accumulator, bits_of_bytes(values@), encoded_indices(keys@)),
{
    match convert_key_value(keys, values) {
        Ok((binary_vec, indices)) => Ok(E::commit(accumulator, &binary_vec, &indices)),
        Err(e) => Err(e),
    }
}

/// Opens a commitment at one key: witnesses that `key` holds `value` under
/// the digest `old_state` and its `product`, as a commit or update on that
/// state has just left them.
pub fn open_at_key<E: AccumulatorEngine>(old_state: E::Digest, product: E::Digest, key: usize, value: u8) -> (r: (
    E::Witness,
    E::Witness,
))
    requires
        key_fits(key),
    ensures
        r == E::open_of(old_state, product, bits_of_bytes(seq![value]), encoded_indices(seq![key])),
{
    let (binary_vec, indices) = encode_pair(key, value);
    E::batch_open(old_state, product, &binary_vec, &indices)
}

/// Checks the witnesses `pi_i` and `pi_e` for `key` holding `value` between
/// `old_state` and `accumulator`. It always answers: a key whose bit indices
/// would not fit in a `usize` can hold no committed value and is refused.
pub fn verify_at_key<E: AccumulatorEngine>(
    old_state: E::Digest,
    accumulator: E::Digest,
    key: usize,
    value: u8,
    pi_i: E::Witness,
    pi_e: E::Witness,
) -> (r: bool)
    ensures
        !key_fits(key) ==> !r,
        key_fits(key) ==> r == E::verify_of(
            old_state,
            accumulator,
            bits_of_bytes(seq![value]),
            encoded_indices(seq![key]),
            pi_i,
            pi_e,
        ),
{
    if key > usize::MAX / VALUE_BITS {
        return false;
    }
    let (binary_vec, indices) = encode_pair(key, value);
    E::batch_verify(old_state, accumulator, &binary_vec, &indices, pi_i, pi_e)
}

/// Sets the values at the given keys in the digest `old_state`, whose
/// aggregate is `agg`, over the base `accumulator`; returns the new digest.
/// The keys are taken to hold values that `old_state` committed to.
pub fn update<E: AccumulatorEngine>(
    accumulator: E::Digest,
    old_state: E::Digest,
    agg: E::Digest,
    keys: &[usize],
    values: &[u8],
) -> (r: Result<E::Digest, VcError>)
    requires
        forall|i: int| 0 <= i < keys@.len() ==> key_fits(#[trigger] keys@[i]),
        values@.len() * 8 <= usize::MAX,
    ensures
        r is Err <==> keys@.len() != values@.len(),
        r matches Err(e) ==> e == VcError::InvalidInput,
        r matches Ok(d) ==> d == E::update_of(
            accumulator,
            old_state,
            agg,
            bits_of_bytes(values@),
            encoded_indices(keys@),
        ),
{
    match convert_key_value(keys, values) {
        Ok((binary_vec, indices)) => Ok(E::update(accumulator, old_state, agg, &binary_vec, &indices)),
        Err(e) => Err(e),
    }
}

/// The element that the pair `(key, value)` contributes to a commitment:
/// committing the pair alone onto a base `g` gives `g` raised to it.
pub fn get_key_value_elem<E: AccumulatorEngine>(key: usize, value: u8) -> (r: E::Digest)
    requires
        key_fits(key),
    ensures
        r == E::elems_of(bits_of_bytes(seq![value]), encoded_indices(seq![key])).0,
{
    let (binary_vec, indices) = encode_pair(key, value);
    let (elem, _) = E::get_bit_elems(&binary_vec, &indices);
    elem
}

} // verus!
