//! The ledger core: hash-linked blocks, whole-chain validation with a first
//! violation reported by position, and the strict longest-chain replacement
//! rule.
//!
//! An empty candidate sequence is pinned as vacuously valid: validation walks
//! zero positions and succeeds, and `replace_chain` still rejects it because it
//! is never strictly longer than an existing chain.

use vstd::prelude::*;

use crate::hashing::{
    append_dec_i64, append_dec_u64, current_time_millis, sha256, sha256_of, spec_dec_digits,
    spec_hex_upper, spec_int_digits, to_hex_upper,
};

verus! {

use vstd::string::StringExecFns;

/// Why a block fails validation, the first reason found in checking order:
/// index, then previous-hash linkage or the genesis payload, then the block's
/// own stored hash.
#[derive(Clone, Copy, Debug, PartialEq, Eq)]
pub enum IntegrityViolation {
    InvalidIndex,
    InvalidGenesis,
    InvalidPreviousHash,
    InvalidHash,
}

/// One record of the ledger. `hash` is computed from the other fields — never
/// supplied by a caller — and a block is never mutated once its hash is set.
pub struct Block {
    /// Position in the chain, `0` for genesis.
    pub index: usize,
    /// The hash of this block's own fields, uppercase hexadecimal.
    pub hash: Option<String>,
    /// The previous block's hash; `None` only for genesis.
    pub previous_hash: Option<String>,
    /// Creation time in milliseconds since the epoch; informational only,
    /// beyond being hashed.
    pub timestamp: i64,
    /// Opaque payload chosen by the minting caller.
    pub data: String,
}

/// The view of an optional owned string as an optional character sequence.
pub open spec fn opt_str_view(o: Option<String>) -> Option<Seq<char>> {
    match o {
        Option::Some(s) => Option::Some(s@),
        Option::None => Option::None,
    }
}

/// The sentinel payload of the genesis block.
pub open spec fn spec_genesis_data() -> Seq<char> {
    "Neon genesis!"@
}

/// The text a block's hash is computed over: its index, previous hash,
/// timestamp and payload, separated by `|`, with `-` standing for the missing
/// previous hash of genesis.
pub open spec fn spec_hash_input(
    index: nat,
    previous_hash: Option<Seq<char>>,
    timestamp: int,
    data: Seq<char>,
) -> Seq<char> {
    spec_dec_digits(index) + seq!['|'] + (match previous_hash {
        Option::Some(h) => h,
        Option::None => seq!['-'],
    }) + seq!['|'] + spec_int_digits(timestamp) + seq!['|'] + data
}

/// A block's content hash: SHA-256 of its hash input, as uppercase
/// hexadecimal. It does not depend on the stored `hash` field.
pub open spec fn spec_block_hash(b: Block) -> Seq<char> {
    spec_hex_upper(
        sha256_of(
            spec_hash_input(
                b.index as nat,
                opt_str_view(b.previous_hash),
                b.timestamp as int,
                b.data@,
            ),
        ),
    )
}

/// What validating one block against its optional predecessor returns: the
/// index check comes first, then the previous-hash or genesis-payload check,
/// then the check of the block's own stored hash.
pub open spec fn spec_block_check(b: Block, prev: Option<Block>) -> Result<(), IntegrityViolation> {
    match prev {
        Option::Some(p) => {
            if b.index != p.index + 1 {
                Result::Err(IntegrityViolation::InvalidIndex)
            } else if opt_str_view(b.previous_hash) != Option::Some(spec_block_hash(p)) {
                Result::Err(IntegrityViolation::InvalidPreviousHash)
            } else if opt_str_view(b.hash) != Option::Some(spec_block_hash(b)) {
                Result::Err(IntegrityViolation::InvalidHash)
            } else {
                Result::Ok(())
            }
        },
        Option::None => {
            if b.index != 0 {
                Result::Err(IntegrityViolation::InvalidIndex)
            } else if b.previous_hash is Some {
                Result::Err(IntegrityViolation::InvalidPreviousHash)
            } else if b.data@ != spec_genesis_data() {
                Result::Err(IntegrityViolation::InvalidGenesis)
            } else if opt_str_view(b.hash) != Option::Some(spec_block_hash(b)) {
                Result::Err(IntegrityViolation::InvalidHash)
            } else {
                Result::Ok(())
            }
        },
    }
}

/// The predecessor a block at position `i` is checked against: none at the
/// genesis position, the block before it everywhere else.
pub open spec fn chain_prev(s: Seq<Block>, i: int) -> Option<Block> {
    if i == 0 {
        Option::None
    } else {
        Option::Some(s[i - 1])
    }
}

/// What validating a sequence from position `i` on returns: the first failing
/// position with its violation, or success.
pub open spec fn spec_chain_check_from(s: Seq<Block>, i: int) -> Result<
    (),
    (int, IntegrityViolation),
>
    decreases s.len() - i,
{
    if i < 0 || i >= s.len() {
        Result::Ok(())
    } else {
        match spec_block_check(s[i], chain_prev(s, i)) {
            Result::Err(v) => Result::Err((i, v)),
            Result::Ok(u) => spec_chain_check_from(s, i + 1),
        }
    }
}

/// What validating a whole candidate sequence returns. The empty sequence is
/// vacuously valid.
pub open spec fn spec_chain_check(s: Seq<Block>) -> Result<(), (int, IntegrityViolation)> {
    spec_chain_check_from(s, 0)
}

/// Every position of the sequence passes validation against its predecessor.
pub open spec fn chain_valid(s: Seq<Block>) -> bool {
    forall|i: int|
        0 <= i < s.len() ==> #[trigger] spec_block_check(s[i], chain_prev(s, i)) == Result::<
            (),
            IntegrityViolation,
        >::Ok(())
}

/// Validation from position `i` succeeds exactly when every position from `i`
/// on passes.
pub proof fn lemma_chain_check_from_ok(s: Seq<Block>, i: int)
    requires
        0 <= i <= s.len(),
    ensures
        (spec_chain_check_from(s, i) is Ok) <==> (forall|j: int|
            i <= j < s.len() ==> #[trigger] spec_block_check(s[j], chain_prev(s, j)) == Result::<
                (),
                IntegrityViolation,
            >::Ok(())),
    decreases s.len() - i,
{
    if i < s.len() {
        lemma_chain_check_from_ok(s, i + 1);
    }
}

/// Whole-sequence validation succeeds exactly when every position passes.
pub proof fn lemma_chain_check_ok(s: Seq<Block>)
    ensures
        (spec_chain_check(s) is Ok) <==> chain_valid(s),
{
    lemma_chain_check_from_ok(s, 0);
}

/// When every position before `i` passes and position `i` fails, whole-chain
/// validation reports exactly position `i` and its violation.
pub proof fn lemma_chain_check_first_err(s: Seq<Block>, k: int, i: int)
    requires
        0 <= k <= i < s.len(),
        forall|j: int|
            k <= j < i ==> #[trigger] spec_block_check(s[j], chain_prev(s, j)) == Result::<
                (),
                IntegrityViolation,
            >::Ok(()),
        spec_block_check(s[i], chain_prev(s, i)) is Err,
    ensures
        spec_chain_check_from(s, k) == Result::<(), (int, IntegrityViolation)>::Err(
            (i, spec_block_check(s[i], chain_prev(s, i))->Err_0),
        ),
    decreases i - k,
{
    if k < i {
        lemma_chain_check_first_err(s, k + 1, i);
    }
}

/// In a valid chain, the block at each position carries that position as its
/// index.
pub proof fn lemma_chain_indices(s: Seq<Block>, i: int)
    requires
        chain_valid(s),
        0 <= i < s.len(),
    ensures
        s[i].index == i,
    decreases i,
{
    assert(spec_block_check(s[i], chain_prev(s, i)) == Result::<(), IntegrityViolation>::Ok(()));
    if i > 0 {
        lemma_chain_indices(s, i - 1);
    }
}

/// A valid chain extended with a freshly linked block — next index, previous
/// hash taken from the stored hash of the last block, own hash set from its
/// fields — is again valid. Repeated minting from genesis therefore yields a
/// chain that passes validation at every length.
pub proof fn lemma_chain_extend(s: Seq<Block>, b: Block)
    requires
        s.len() >= 1,
        chain_valid(s),
        b.index == s.last().index + 1,
        b.previous_hash == s.last().hash,
        opt_str_view(b.hash) == Option::Some(spec_block_hash(b)),
    ensures
        chain_valid(s.push(b)),
{
    let t = s.push(b);
    assert(spec_block_check(s[s.len() - 1], chain_prev(s, s.len() - 1)) == Result::<
        (),
        IntegrityViolation,
    >::Ok(()));
    assert forall|i: int| 0 <= i < t.len() implies #[trigger] spec_block_check(
        t[i],
        chain_prev(t, i),
    ) == Result::<(), IntegrityViolation>::Ok(()) by {
        if i < s.len() {
            assert(spec_block_check(s[i], chain_prev(s, i)) == Result::<
                (),
                IntegrityViolation,
            >::Ok(()));
            assert(t[i] == s[i]);
            assert(chain_prev(t, i) == chain_prev(s, i));
        } else {
            assert(t[i] == b);
            assert(chain_prev(t, i) == Option::Some(s.last()));
        }
    }
}

/// Clones an optional owned string.
fn clone_opt_string(o: &Option<String>) -> (r: Option<String>)
    ensures
        r == *o,
{
    match o {
        Option::Some(s) => Option::Some(s.clone()),
        Option::None => Option::None,
    }
}

/// The genesis payload sentinel.
fn genesis_data() -> (r: String)
    ensures
        r@ == spec_genesis_data(),
{
    "Neon genesis!".to_owned()
}

/// Builds the text a block's hash is computed over.
fn hash_input(index: usize, previous_hash: &Option<String>, timestamp: i64, data: &String) -> (r:
    String)
    ensures
        r@ == spec_hash_input(index as nat, opt_str_view(*previous_hash), timestamp as int, data@),
{
    let mut s = String::new();
    append_dec_u64(&mut s, index as u64);
    s.append("|");
    match previous_hash {
        Option::Some(h) => s.append(h.as_str()),
        Option::None => s.append("-"),
    }
    s.append("|");
    append_dec_i64(&mut s, timestamp);
    s.append("|");
    s.append(data.as_str());
    proof {
        reveal_strlit("|");
        reveal_strlit("-");
        assert(s@ =~= spec_hash_input(
            index as nat,
            opt_str_view(*previous_hash),
            timestamp as int,
            data@,
        ));
    }
    s
}

impl Clone for Block {
    /// A clone carries exactly the fields of the block it was made from.
    fn clone(&self) -> (r: Self)
        ensures
            r == *self,
    {
        Block {
            index: self.index,
            hash: clone_opt_string(&self.hash),
            previous_hash: clone_opt_string(&self.previous_hash),
            timestamp: self.timestamp,
            data: self.data.clone(),
        }
    }
}

impl Block {
    /// The fixed first block: index `0`, no previous hash, the sentinel
    /// payload, the current time, and a hash computed over those fields.
    pub fn genesis() -> (r: Self)
        ensures
            r.index == 0,
            r.previous_hash is None,
            r.data@ == spec_genesis_data(),
            opt_str_view(r.hash) == Option::Some(spec_block_hash(r)),
            spec_block_check(r, Option::None) == Result::<(), IntegrityViolation>::Ok(()),
    {
        let mut genesis_block = Block {
            index: 0,
            hash: Option::None,
            previous_hash: Option::None,
            timestamp: current_time_millis(),
            data: genesis_data(),
        };
        genesis_block.set_hash();
        genesis_block
    }

    /// The block following `self`: the next index, `self`'s stored hash as the
    /// previous hash, a fresh timestamp, the given payload, and a hash
    /// computed over those fields.
    pub fn generate_next(&self, data: String) -> (r: Self)
        requires
            self.index < usize::MAX,
        ensures
            r.index == self.index + 1,
            r.previous_hash == self.hash,
            r.data == data,
            opt_str_view(r.hash) == Option::Some(spec_block_hash(r)),
    {
        let mut next_block = Block {
            index: self.index + 1,
            hash: Option::None,
            previous_hash: clone_opt_string(&self.hash),
            timestamp: current_time_millis(),
            data,
        };
        next_block.set_hash();
        next_block
    }

    /// Stores the hash of the block's own fields; the other fields are left
    /// untouched.
    pub fn set_hash(&mut self)
        ensures
            final(self).index == old(self).index,
            final(self).previous_hash == old(self).previous_hash,
            final(self).timestamp == old(self).timestamp,
            final(self).data == old(self).data,
            opt_str_view(final(self).hash) == Option::Some(spec_block_hash(*final(self))),
            opt_str_view(final(self).hash) == Option::Some(spec_block_hash(*old(self))),
    {
        let h = self.calculate_hash();
        self.hash = Option::Some(h);
    }

    /// The hash of the block's own fields: a pure function of its index,
    /// previous hash, timestamp and payload — never of the stored `hash`.
    pub fn calculate_hash(&self) -> (r: String)
        ensures
            r@ == spec_block_hash(*self),
    {
        let input = hash_input(self.index, &self.previous_hash, self.timestamp, &self.data);
        let digest = sha256(input.as_str());
        to_hex_upper(&digest)
    }

    /// Validates this block against its optional predecessor: `None` means the
    /// block claims to be genesis. Checks the index first, then the
    /// previous-hash linkage (or, for genesis, the absent previous hash and
    /// the sentinel payload), and last that the stored hash equals the hash
    /// recomputed over the block's own fields.
    pub fn check_integrity(&self, previous_block: Option<&Self>) -> (r: Result<
        (),
        IntegrityViolation,
    >)
        ensures
            r == spec_block_check(
                *self,
                match previous_block {
                    Option::Some(p) => Option::Some(*p),
                    Option::None => Option::None,
                },
            ),
    {
        match previous_block {
            Option::Some(previous_block) => {
                if previous_block.index == usize::MAX || self.index != previous_block.index + 1 {
                    return Result::Err(IntegrityViolation::InvalidIndex);
                }
                let expected_previous = previous_block.calculate_hash();
                let previous_matches = match &self.previous_hash {
                    Option::Some(h) => *h == expected_previous,
                    Option::None => false,
                };
                if !previous_matches {
                    return Result::Err(IntegrityViolation::InvalidPreviousHash);
                }
            },
            Option::None => {
                if self.index != 0 {
                    return Result::Err(IntegrityViolation::InvalidIndex);
                }
                if self.previous_hash.is_some() {
                    return Result::Err(IntegrityViolation::InvalidPreviousHash);
                }
                if !(self.data == genesis_data()) {
                    return Result::Err(IntegrityViolation::InvalidGenesis);
                }
            },
        }
        let recomputed = self.calculate_hash();
        let hash_matches = match &self.hash {
            Option::Some(h) => *h == recomputed,
            Option::None => false,
        };
        if !hash_matches {
            return Result::Err(IntegrityViolation::InvalidHash);
        }
        Result::Ok(())
    }
}

/// The ledger: an ordered sequence of blocks, a valid genesis chain from
/// construction on.
pub struct Blockchain {
    /// The blocks, in chain order.
    pub blocks: Vec<Block>,
}

/// Clones a sequence of blocks, element for element.
fn clone_blocks(blocks: &Vec<Block>) -> (r: Vec<Block>)
    ensures
        r@ == blocks@,
{
    let mut out = Vec::<Block>::new();
    let mut i: usize = 0;
    while i < blocks.len()
        invariant
            i <= blocks@.len(),
            out@ == blocks@.subrange(0, i as int),
        decreases blocks@.len() - i,
    {
        out.push(blocks[i].clone());
        proof {
            assert(out@ =~= blocks@.subrange(0, i as int + 1));
        }
        i += 1;
    }
    proof {
        assert(blocks@.subrange(0, blocks@.len() as int) =~= blocks@);
    }
    out
}

impl Blockchain {
    /// The ledger invariant: at least the genesis block, and every position
    /// valid against its predecessor.
    pub open spec fn valid(&self) -> bool {
        self.blocks@.len() >= 1 && chain_valid(self.blocks@)
    }

    /// A fresh ledger holding only the genesis block.
    pub fn new() -> (r: Self)
        ensures
            r.valid(),
            r.blocks@.len() == 1,
            r.blocks@[0].index == 0,
            r.blocks@[0].previous_hash is None,
            r.blocks@[0].data@ == spec_genesis_data(),
            spec_chain_check(r.blocks@) == Result::<(), (int, IntegrityViolation)>::Ok(()),
    {
        let mut blocks = Vec::<Block>::new();
        blocks.push(Block::genesis());
        let r = Blockchain { blocks };
        proof {
            assert forall|i: int| 0 <= i < r.blocks@.len() implies #[trigger] spec_block_check(
                r.blocks@[i],
                chain_prev(r.blocks@, i),
            ) == Result::<(), IntegrityViolation>::Ok(()) by {
                assert(chain_prev(r.blocks@, i) == Option::<Block>::None);
            }
            lemma_chain_check_ok(r.blocks@);
            assert(spec_chain_check(r.blocks@) is Ok);
            assert(spec_chain_check(r.blocks@)->Ok_0 == ());
        }
        r
    }

    /// Validates a candidate sequence from its first position on, checking
    /// each block against the block before it; reports the first failing
    /// position and its violation, and checks no further. The empty sequence
    /// is vacuously valid.
    pub fn check_integrity(blocks: &Vec<Block>) -> (r: Result<(), (usize, IntegrityViolation)>)
        ensures
            match r {
                Result::Ok(u) => spec_chain_check(blocks@) == Result::<
                    (),
                    (int, IntegrityViolation),
                >::Ok(()),
                Result::Err((i, v)) => spec_chain_check(blocks@) == Result::<
                    (),
                    (int, IntegrityViolation),
                >::Err((i as int, v)),
            },
    {
        let n = blocks.len();
        let mut i: usize = 0;
        while i < n
            invariant
                i <= n,
                n == blocks@.len(),
                spec_chain_check(blocks@) == spec_chain_check_from(blocks@, i as int),
            decreases n - i,
        {
            let previous_block: Option<&Block> = if i == 0 {
                Option::None
            } else {
                Option::Some(&blocks[i - 1])
            };
            match blocks[i].check_integrity(previous_block) {
                Result::Err(violation) => {
                    return Result::Err((i, violation));
                },
                Result::Ok(u) => (),
            }
            i += 1;
        }
        Result::Ok(())
    }

    /// Appends the block following the current last block, built over the
    /// given payload, and returns a reference to it. Indices stay consecutive,
    /// so a valid ledger stays valid.
    pub fn mint_next_block(&mut self, data: String) -> (r: &Block)
        requires
            old(self).blocks@.len() >= 1,
            old(self).blocks@.last().index < usize::MAX,
        ensures
            final(self).blocks@.len() == old(self).blocks@.len() + 1,
            final(self).blocks@ == old(self).blocks@.push(final(self).blocks@.last()),
            *r == final(self).blocks@.last(),
            ({
                let nb = final(self).blocks@.last();
                &&& nb.index == old(self).blocks@.last().index + 1
                &&& nb.previous_hash == old(self).blocks@.last().hash
                &&& nb.data == data
                &&& opt_str_view(nb.hash) == Option::Some(spec_block_hash(nb))
            }),
            chain_valid(old(self).blocks@) ==> chain_valid(final(self).blocks@),
            old(self).valid() ==> final(self).valid(),
    {
        let last_index = self.blocks.len() - 1;
        let next_block = self.blocks[last_index].generate_next(data);
        proof {
            if chain_valid(self.blocks@) {
                lemma_chain_extend(self.blocks@, next_block);
            }
        }
        self.blocks.push(next_block);
        let n = self.blocks.len();
        &self.blocks[n - 1]
    }

    /// Adopts the candidate sequence exactly when it is fully valid and
    /// strictly longer than the current chain; otherwise leaves the ledger
    /// untouched. The two rejection reasons are deliberately not told apart.
    pub fn replace_chain(&mut self, new_blocks: &Vec<Block>) -> (r: Result<(), ()>)
        ensures
            r is Ok <==> (spec_chain_check(new_blocks@) == Result::<
                (),
                (int, IntegrityViolation),
            >::Ok(()) && new_blocks@.len() > old(self).blocks@.len()),
            r is Ok ==> final(self).blocks@ == new_blocks@,
            r is Err ==> *final(self) == *old(self),
            old(self).valid() ==> final(self).valid(),
    {
        if Self::check_integrity(new_blocks).is_ok() && new_blocks.len() > self.blocks.len() {
            self.blocks = clone_blocks(new_blocks);
            proof {
                lemma_chain_check_ok(new_blocks@);
            }
            Result::Ok(())
        } else {
            Result::Err(())
        }
    }
}

} // verus!
