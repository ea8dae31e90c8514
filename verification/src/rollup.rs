use vstd::prelude::*;

use crate::block_public_inputs_target::{
    BlockProductionPublicInputsTarget, DepositInfoTarget, TransactionSenderWithValidityTarget,
};
use crate::target::{AddressTarget, HashOutTarget, Target};

verus! {

/// The targets of a block header in the block-production circuit.
#[derive(Clone, Copy, Debug, PartialEq, Eq)]
pub struct BlockHeaderTarget {
    pub block_number: Target,
    pub block_headers_digest: HashOutTarget,
    pub transactions_digest: HashOutTarget,
    pub deposit_digest: HashOutTarget,
    pub proposed_world_state_digest: HashOutTarget,
    pub approved_world_state_digest: HashOutTarget,
    pub latest_account_digest: HashOutTarget,
}

impl BlockHeaderTarget {
    /// The previous block's header in the block circuit: its number is one less
    /// than the new block's; its approved world state is the proposal's old
    /// world-state root and its latest-account digest the approval's old
    /// latest-account root; its other digests are fresh targets.
    pub fn previous(
        prev_block_number: Target,
        block_headers_digest: HashOutTarget,
        transactions_digest: HashOutTarget,
        deposit_digest: HashOutTarget,
        proposed_world_state_digest: HashOutTarget,
        proposal_old_world_state_root: HashOutTarget,
        approval_old_latest_account_root: HashOutTarget,
    ) -> (r: Self)
        ensures
            r.block_number == prev_block_number,
            r.block_headers_digest == block_headers_digest,
            r.transactions_digest == transactions_digest,
            r.deposit_digest == deposit_digest,
            r.proposed_world_state_digest == proposed_world_state_digest,
            r.approved_world_state_digest == proposal_old_world_state_root,
            r.latest_account_digest == approval_old_latest_account_root,
    {
        BlockHeaderTarget {
            block_number: prev_block_number,
            block_headers_digest,
            transactions_digest,
            deposit_digest,
            proposed_world_state_digest,
            approved_world_state_digest: proposal_old_world_state_root,
            latest_account_digest: approval_old_latest_account_root,
        }
    }

    /// The new block's header in the block circuit: its block-headers digest is
    /// the root of the proof that adds the previous block's hash; its
    /// transactions digest and proposed world state come from the proposal, its
    /// approved world state and latest-account digest are the approval's new roots.
    pub fn new_block(
        block_number: Target,
        block_headers_root: HashOutTarget,
        proposal_transactions_digest: HashOutTarget,
        deposit_digest: HashOutTarget,
        proposal_new_world_state_root: HashOutTarget,
        approval_new_world_state_root: HashOutTarget,
        approval_new_latest_account_root: HashOutTarget,
    ) -> (r: Self)
        ensures
            r.block_number == block_number,
            r.block_headers_digest == block_headers_root,
            r.transactions_digest == proposal_transactions_digest,
            r.deposit_digest == deposit_digest,
            r.proposed_world_state_digest == proposal_new_world_state_root,
            r.approved_world_state_digest == approval_new_world_state_root,
            r.latest_account_digest == approval_new_latest_account_root,
    {
        BlockHeaderTarget {
            block_number,
            block_headers_digest: block_headers_root,
            transactions_digest: proposal_transactions_digest,
            deposit_digest,
            proposed_world_state_digest: proposal_new_world_state_root,
            approved_world_state_digest: approval_new_world_state_root,
            latest_account_digest: approval_new_latest_account_root,
        }
    }
}

/// The targets of what a deposit proof tells about a deposit: the keys of the
/// receiver, the contract and the variable, and the amount.
#[derive(Clone, Copy, Debug, PartialEq, Eq)]
pub struct DepositWitnessTarget {
    pub receiver_key: HashOutTarget,
    pub contract_key: HashOutTarget,
    pub variable_key: HashOutTarget,
    pub amount: Target,
}

/// The deposit targets of a block, one per deposit proof.
pub fn make_deposit_list_target(deposits: &[DepositWitnessTarget]) -> (r: Vec<DepositInfoTarget>)
    ensures
        r@.len() == deposits@.len(),
        forall|k: int|
            0 <= k < deposits@.len() ==> {
                &&& (#[trigger] r@[k]).receiver_address == AddressTarget(deposits@[k].receiver_key)
                &&& r@[k].contract_address == AddressTarget(deposits@[k].contract_key)
                &&& r@[k].variable_index == deposits@[k].variable_key
                &&& r@[k].amount == deposits@[k].amount
            },
{
    let n = deposits.len();
    let mut r: Vec<DepositInfoTarget> = Vec::new();
    let mut k: usize = 0;
    while k < n
        invariant
            n == deposits@.len(),
            k <= n,
            r@.len() == k,
            forall|i: int|
                0 <= i < k ==> {
                    &&& (#[trigger] r@[i]).receiver_address == AddressTarget(deposits@[i].receiver_key)
                    &&& r@[i].contract_address == AddressTarget(deposits@[i].contract_key)
                    &&& r@[i].variable_index == deposits@[i].variable_key
                    &&& r@[i].amount == deposits@[i].amount
                },
        decreases n - k,
    {
        let d = deposits[k];
        r.push(
            DepositInfoTarget {
                receiver_address: AddressTarget(d.receiver_key),
                contract_address: AddressTarget(d.contract_key),
                variable_index: d.variable_key,
                amount: d.amount,
            },
        );
        k = k + 1;
    }
    r
}

/// The leaves of the deposit tree: the interior deposit digest, then the hash
/// of four `zero` targets up to `n_txs` leaves.
pub fn deposit_tree_leaves(interior_deposit_digest: HashOutTarget, zero: Target, n_txs: usize) -> (r: Vec<
    HashOutTarget,
>)
    ensures
        r@.len() == n_txs,
        n_txs > 0 ==> r@[0] == interior_deposit_digest,
        forall|i: int|
            1 <= i < n_txs ==> (#[trigger] r@[i]).elements@ == seq![zero, zero, zero, zero],
{
    let default_hash = HashOutTarget { elements: [zero, zero, zero, zero] };
    assert(default_hash.elements@ =~= seq![zero, zero, zero, zero]);
    let mut r: Vec<HashOutTarget> = Vec::new();
    let mut i: usize = 0;
    while i < n_txs
        invariant
            i <= n_txs,
            r@.len() == i,
            default_hash.elements@ == seq![zero, zero, zero, zero],
            i > 0 ==> r@[0] == interior_deposit_digest,
            forall|j: int| 1 <= j < i ==> (#[trigger] r@[j]).elements@ == seq![zero, zero, zero, zero],
        decreases n_txs - i,
    {
        if i == 0 {
            r.push(interior_deposit_digest);
        } else {
            r.push(default_hash);
        }
        i = i + 1;
    }
    r
}

/// The public inputs that the block circuit registers: the four elements of
/// the entry hash, and nothing else.
pub fn registered_public_inputs(entry_hash: &HashOutTarget) -> (r: Vec<Target>)
    ensures
        r@ == entry_hash.elements@,
{
    let mut r: Vec<Target> = Vec::new();
    entry_hash.write(&mut r);
    assert(r@ =~= entry_hash.elements@);
    r
}

impl<const N_TXS: usize, const N_DEPOSITS: usize> BlockProductionPublicInputsTarget<N_TXS, N_DEPOSITS> {
    /// The public-input targets of the block circuit: the entries and deposits,
    /// the old account and world-state roots and block-headers root of the
    /// previous header, the new ones of the new header, and the block hash.
    pub fn from_headers(
        address_list: Vec<TransactionSenderWithValidityTarget>,
        deposit_list: Vec<DepositInfoTarget>,
        prev_block_header: &BlockHeaderTarget,
        block_header: &BlockHeaderTarget,
        block_hash: HashOutTarget,
    ) -> (r: Self)
        requires
            address_list@.len() == N_TXS,
            deposit_list@.len() == N_DEPOSITS,
        ensures
            r.has_slot_lengths(),
            r.address_list@ == address_list@,
            r.deposit_list@ == deposit_list@,
            r.old_account_tree_root == prev_block_header.latest_account_digest,
            r.new_account_tree_root == block_header.latest_account_digest,
            r.old_world_state_root == prev_block_header.approved_world_state_digest,
            r.new_world_state_root == block_header.approved_world_state_digest,
            r.old_block_headers_root == prev_block_header.block_headers_digest,
            r.new_block_headers_root == block_header.block_headers_digest,
            r.block_hash == block_hash,
    {
        BlockProductionPublicInputsTarget {
            address_list,
            deposit_list,
            old_account_tree_root: prev_block_header.latest_account_digest,
            new_account_tree_root: block_header.latest_account_digest,
            old_world_state_root: prev_block_header.approved_world_state_digest,
            new_world_state_root: block_header.approved_world_state_digest,
            old_block_headers_root: prev_block_header.block_headers_digest,
            new_block_headers_root: block_header.block_headers_digest,
            block_hash,
        }
    }
}

/// The targets of a Merkle proof in the tree of block headers.
#[derive(Clone, Debug, PartialEq, Eq)]
pub struct MerkleProofTarget {
    pub root: HashOutTarget,
    pub index: Target,
    pub value: HashOutTarget,
    pub siblings: Vec<HashOutTarget>,
}

impl MerkleProofTarget {
    /// The proof that the tree of block headers holds the previous block's hash
    /// at the previous block's number: `root` is the root computed from the
    /// previous block's hash and the siblings.
    pub fn block_headers_proof(
        prev_block_header: &BlockHeaderTarget,
        siblings: Vec<HashOutTarget>,
        prev_block_hash: HashOutTarget,
        root: HashOutTarget,
    ) -> (r: Self)
        ensures
            r.root == root,
            r.index == prev_block_header.block_number,
            r.value == prev_block_hash,
            r.siblings@ == siblings@,
    {
        MerkleProofTarget { root, index: prev_block_header.block_number, value: prev_block_hash, siblings }
    }
}

/// The targets of the block-production circuit: those of its deposit, proposal
/// and approval gadgets, one recursive proof per user transaction and per
/// received signature, the proof in the tree of block headers, and the
/// previous and new block headers.
pub struct BlockProductionTarget<DepositTarget, ProposalTarget, ApprovalTarget, ProofTarget> {
    pub deposit_block_target: DepositTarget,
    pub proposal_block_target: ProposalTarget,
    pub approval_block_target: ApprovalTarget,
    pub user_tx_proofs: Vec<ProofTarget>,
    pub received_signature_proofs: Vec<ProofTarget>,
    pub block_headers_proof: MerkleProofTarget,
    pub prev_block_header: BlockHeaderTarget,
    pub block_header: BlockHeaderTarget,
}

} // verus!
