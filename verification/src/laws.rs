//! Laws of the ledger's integrity model, stated and proved over the
//! validation specifications: tampering with a block or a chain is detected,
//! and where in the checking order each violation surfaces.

use vstd::prelude::*;

use crate::blockchain::{
    chain_prev, chain_valid, lemma_chain_check_first_err, lemma_chain_check_ok,
    lemma_chain_indices, opt_str_view, spec_block_check, spec_block_hash, spec_chain_check,
    spec_genesis_data, Block, IntegrityViolation,
};

verus! {

/// A block whose stored hash is not the hash recomputed over its own fields
/// never passes validation, whatever predecessor it is checked against.
pub proof fn lemma_stored_hash_must_match(b: Block, prev: Option<Block>)
    requires
        opt_str_view(b.hash) != Option::Some(spec_block_hash(b)),
    ensures
        spec_block_check(b, prev) is Err,
{
}

/// Altering a valid block's payload or timestamp while keeping the stored
/// hash is reported as `InvalidHash`, whenever the altered fields hash
/// differently — a SHA-256 collision is the one escape, and is assumed away
/// here. A genesis block's payload is the exception: changing it is caught
/// earlier, as `InvalidGenesis`.
pub proof fn lemma_mutation_detected(b: Block, t: Block, prev: Option<Block>)
    requires
        spec_block_check(b, prev) == Result::<(), IntegrityViolation>::Ok(()),
        t.index == b.index,
        t.previous_hash == b.previous_hash,
        t.hash == b.hash,
        prev is Some || t.data@ == b.data@,
        spec_block_hash(t) != spec_block_hash(b),
    ensures
        spec_block_check(t, prev) == Result::<(), IntegrityViolation>::Err(
            IntegrityViolation::InvalidHash,
        ),
{
}

/// A genesis-position block with any payload other than the sentinel is
/// rejected as `InvalidGenesis`.
pub proof fn lemma_genesis_payload_rejected(b: Block)
    requires
        b.index == 0,
        b.previous_hash is None,
        b.data@ != spec_genesis_data(),
    ensures
        spec_block_check(b, Option::None) == Result::<(), IntegrityViolation>::Err(
            IntegrityViolation::InvalidGenesis,
        ),
{
}

/// Altering `previous_hash` at a non-genesis position of a valid chain, to
/// anything but the true predecessor hash, makes whole-chain validation fail
/// at exactly that position with `InvalidPreviousHash`.
pub proof fn lemma_previous_hash_tampering(s: Seq<Block>, t: Seq<Block>, i: int)
    requires
        chain_valid(s),
        t.len() == s.len(),
        0 < i < s.len(),
        forall|j: int| 0 <= j < s.len() && j != i ==> t[j] == s[j],
        t[i].index == s[i].index,
        t[i].hash == s[i].hash,
        t[i].timestamp == s[i].timestamp,
        t[i].data == s[i].data,
        opt_str_view(t[i].previous_hash) != Option::Some(spec_block_hash(s[i - 1])),
    ensures
        spec_chain_check(t) == Result::<(), (int, IntegrityViolation)>::Err(
            (i, IntegrityViolation::InvalidPreviousHash),
        ),
{
    assert forall|j: int| 0 <= j < i implies #[trigger] spec_block_check(t[j], chain_prev(t, j))
        == Result::<(), IntegrityViolation>::Ok(()) by {
        assert(spec_block_check(s[j], chain_prev(s, j)) == Result::<(), IntegrityViolation>::Ok(
            (),
        ));
        assert(t[j] == s[j]);
        assert(chain_prev(t, j) == chain_prev(s, j));
    }
    assert(spec_block_check(s[i], chain_prev(s, i)) == Result::<(), IntegrityViolation>::Ok(()));
    assert(t[i - 1] == s[i - 1]);
    assert(spec_block_check(t[i], chain_prev(t, i)) == Result::<(), IntegrityViolation>::Err(
        IntegrityViolation::InvalidPreviousHash,
    ));
    lemma_chain_check_first_err(t, 0, i);
}

/// Removing a block from the middle of a valid chain leaves an index gap, and
/// whole-chain validation fails at exactly the removal position with
/// `InvalidIndex`.
pub proof fn lemma_index_gap(s: Seq<Block>, i: int)
    requires
        chain_valid(s),
        0 < i < s.len() - 1,
    ensures
        spec_chain_check(s.remove(i)) == Result::<(), (int, IntegrityViolation)>::Err(
            (i, IntegrityViolation::InvalidIndex),
        ),
{
    let t = s.remove(i);
    assert forall|j: int| 0 <= j < i implies #[trigger] spec_block_check(t[j], chain_prev(t, j))
        == Result::<(), IntegrityViolation>::Ok(()) by {
        assert(spec_block_check(s[j], chain_prev(s, j)) == Result::<(), IntegrityViolation>::Ok(
            (),
        ));
        assert(t[j] == s[j]);
        assert(chain_prev(t, j) == chain_prev(s, j));
    }
    lemma_chain_indices(s, i + 1);
    lemma_chain_indices(s, i - 1);
    assert(t[i] == s[i + 1]);
    assert(t[i - 1] == s[i - 1]);
    assert(spec_block_check(t[i], chain_prev(t, i)) == Result::<(), IntegrityViolation>::Err(
        IntegrityViolation::InvalidIndex,
    ));
    lemma_chain_check_first_err(t, 0, i);
}

/// Validation is pure: two validation results for one and the same sequence
/// are equal, however many times it is run.
pub proof fn lemma_validation_deterministic(
    s: Seq<Block>,
    r1: Result<(), (int, IntegrityViolation)>,
    r2: Result<(), (int, IntegrityViolation)>,
)
    requires
        r1 == spec_chain_check(s),
        r2 == spec_chain_check(s),
    ensures
        r1 == r2,
{
}

/// The empty candidate sequence is vacuously valid. `replace_chain` still
/// rejects it, because it is never strictly longer than an existing chain.
pub proof fn lemma_empty_sequence_valid()
    ensures
        spec_chain_check(Seq::<Block>::empty()) == Result::<(), (int, IntegrityViolation)>::Ok(()),
        chain_valid(Seq::<Block>::empty()),
{
    lemma_chain_check_ok(Seq::<Block>::empty());
}

} // verus!
