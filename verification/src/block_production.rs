use vstd::prelude::*;

use crate::block_public_inputs::{BlockProductionPublicInputs, DepositInfo};
use crate::field::{same_field_hash, Address, HashOut};
use crate::transaction::MergeAndPurgeTransitionPublicInputs;

verus! {

/// The header of a block.
#[derive(Clone, Copy, Debug, PartialEq, Eq)]
pub struct BlockHeader {
    pub block_number: u32,
    pub prev_block_hash: HashOut,
    pub block_headers_digest: HashOut,
    pub transactions_digest: HashOut,
    pub deposit_digest: HashOut,
    pub proposed_world_state_digest: HashOut,
    pub approved_world_state_digest: HashOut,
    pub latest_account_digest: HashOut,
}

/// What a deposit proof tells about a deposit: the keys of the receiver, of the
/// contract and of the variable that it updates, and the amount.
#[derive(Clone, Copy, Debug, PartialEq, Eq)]
pub struct DepositWitness {
    pub receiver_key: HashOut,
    pub contract_key: HashOut,
    pub variable_key: HashOut,
    pub amount: u64,
}

/// The header of a new block: its number, the hash of the previous header, the
/// digests of its transactions and deposits, the proposed and approved world
/// states, the latest-account tree, and the tree of block headers that holds
/// the previous block's hash.
pub fn make_block_header(
    block_number: u32,
    prev_block_hash: HashOut,
    transactions_digest: HashOut,
    deposit_digest: HashOut,
    proposed_world_state_digest: HashOut,
    approved_world_state_digest: HashOut,
    latest_account_digest: HashOut,
    block_headers_digest: HashOut,
) -> (r: BlockHeader)
    ensures
        r.block_number == block_number,
        r.prev_block_hash == prev_block_hash,
        r.transactions_digest == transactions_digest,
        r.deposit_digest == deposit_digest,
        r.proposed_world_state_digest == proposed_world_state_digest,
        r.approved_world_state_digest == approved_world_state_digest,
        r.latest_account_digest == latest_account_digest,
        r.block_headers_digest == block_headers_digest,
{
    BlockHeader {
        block_number,
        prev_block_hash,
        transactions_digest,
        deposit_digest,
        proposed_world_state_digest,
        approved_world_state_digest,
        latest_account_digest,
        block_headers_digest,
    }
}

/// The deposits of a block: one per deposit witness, its receiver and contract
/// the addresses at those keys, its variable index the variable key; then zero
/// deposits up to `n_deposits`; deposits beyond `n_deposits` are dropped.
pub fn make_deposit_list(deposits: &[DepositWitness], n_deposits: usize) -> (r: Vec<DepositInfo>)
    ensures
        r@.len() == n_deposits,
        forall|k: int|
            0 <= k < n_deposits && k < deposits@.len() ==> {
                &&& (#[trigger] r@[k]).receiver_address == Address(deposits@[k].receiver_key)
                &&& r@[k].contract_address == Address(deposits@[k].contract_key)
                &&& r@[k].variable_index == deposits@[k].variable_key
                &&& r@[k].amount == deposits@[k].amount
            },
        forall|k: int| 0 <= k < n_deposits && k >= deposits@.len() ==> (#[trigger] r@[k]).is_default(),
{
    let n = deposits.len();
    let mut r: Vec<DepositInfo> = Vec::new();
    let mut k: usize = 0;
    while k < n_deposits
        invariant
            n == deposits@.len(),
            k <= n_deposits,
            r@.len() == k,
            forall|i: int|
                0 <= i < k && i < n ==> {
                    &&& (#[trigger] r@[i]).receiver_address == Address(deposits@[i].receiver_key)
                    &&& r@[i].contract_address == Address(deposits@[i].contract_key)
                    &&& r@[i].variable_index == deposits@[i].variable_key
                    &&& r@[i].amount == deposits@[i].amount
                },
            forall|i: int| 0 <= i < k && i >= n ==> (#[trigger] r@[i]).is_default(),
        decreases n_deposits - k,
    {
        if k < n {
            let d = deposits[k];
            r.push(
                DepositInfo {
                    receiver_address: Address(d.receiver_key),
                    contract_address: Address(d.contract_key),
                    variable_index: d.variable_key,
                    amount: d.amount,
                },
            );
        } else {
            r.push(DepositInfo::default_entry());
        }
        k = k + 1;
    }
    r
}

/// Whether each recursive-proof slot holds a real proof: the first `n_real`
/// slots do, the others hold the default proof.
pub fn proof_slot_flags(n_real: usize, n_slots: usize) -> (r: Vec<bool>)
    requires
        n_real <= n_slots,
    ensures
        r@.len() == n_slots,
        forall|i: int| 0 <= i < n_slots ==> #[trigger] r@[i] == (i < n_real),
{
    let mut r: Vec<bool> = Vec::new();
    let mut i: usize = 0;
    while i < n_slots
        invariant
            i <= n_slots,
            r@.len() == i,
            forall|j: int| 0 <= j < i ==> #[trigger] r@[j] == (j < n_real),
        decreases n_slots - i,
    {
        r.push(i < n_real);
        i = i + 1;
    }
    r
}

/// Whether each signature-proof slot holds a received signature: slot `i` does
/// where the `i`-th signature was received, the slots beyond the signatures
/// hold the default proof.
pub fn signature_slot_flags(received: &[bool], n_slots: usize) -> (r: Vec<bool>)
    requires
        received@.len() <= n_slots,
    ensures
        r@.len() == n_slots,
        forall|i: int| 0 <= i < n_slots ==> #[trigger] r@[i] == (i < received@.len() && received@[i]),
{
    let n = received.len();
    let mut r: Vec<bool> = Vec::new();
    let mut i: usize = 0;
    while i < n_slots
        invariant
            n == received@.len(),
            i <= n_slots,
            r@.len() == i,
            forall|j: int| 0 <= j < i ==> #[trigger] r@[j] == (j < n && received@[j]),
        decreases n_slots - i,
    {
        let flag = i < n && received[i];
        r.push(flag);
        i = i + 1;
    }
    r
}

/// The public inputs that setting the witness of the block-production circuit
/// yields, given the previous and the new header, the new block's hash, the
/// user transactions, which signatures were received, and the deposits.
/// The root of the previous tree of block headers with an empty leaf at the
/// previous block number must be the previous header's digest, and there are
/// at most `N_TXS` transactions and signatures.
pub fn block_witness_public_inputs<const N_TXS: usize, const N_DEPOSITS: usize>(
    prev_block_header: &BlockHeader,
    block_header: &BlockHeader,
    block_hash: HashOut,
    prev_block_headers_digest: HashOut,
    user_transactions: &[MergeAndPurgeTransitionPublicInputs],
    signature_received: &[bool],
    deposits: &[DepositWitness],
) -> (r: BlockProductionPublicInputs<N_TXS, N_DEPOSITS>)
    requires
        user_transactions@.len() <= N_TXS,
        signature_received@.len() <= N_TXS,
        same_field_hash(prev_block_headers_digest, prev_block_header.block_headers_digest),
    ensures
        r.address_list@.len() == N_TXS,
        forall|k: int|
            0 <= k < N_TXS && k < user_transactions@.len() && k < signature_received@.len()
                ==> (#[trigger] r.address_list@[k]).sender_address
                == user_transactions@[k].sender_address && r.address_list@[k].is_valid
                == signature_received@[k],
        forall|k: int|
            0 <= k < N_TXS && (k >= user_transactions@.len() || k >= signature_received@.len())
                ==> (#[trigger] r.address_list@[k]).is_default(),
        r.deposit_list@.len() == N_DEPOSITS,
        forall|k: int|
            0 <= k < N_DEPOSITS && k < deposits@.len() ==> {
                &&& (#[trigger] r.deposit_list@[k]).receiver_address == Address(
                    deposits@[k].receiver_key,
                )
                &&& r.deposit_list@[k].contract_address == Address(deposits@[k].contract_key)
                &&& r.deposit_list@[k].variable_index == deposits@[k].variable_key
                &&& r.deposit_list@[k].amount == deposits@[k].amount
            },
        forall|k: int|
            0 <= k < N_DEPOSITS && k >= deposits@.len() ==> (#[trigger] r.deposit_list@[k]).is_default(),
        r.old_account_tree_root == prev_block_header.latest_account_digest,
        r.new_account_tree_root == block_header.latest_account_digest,
        r.old_world_state_root == prev_block_header.approved_world_state_digest,
        r.new_world_state_root == block_header.approved_world_state_digest,
        r.old_prev_block_header_digest == prev_block_header.block_headers_digest,
        r.new_prev_block_header_digest == block_header.block_headers_digest,
        r.block_hash == block_hash,
{
    let address_list = BlockProductionPublicInputs::<N_TXS, N_DEPOSITS>::make_address_list(
        user_transactions,
        signature_received,
    );
    let deposit_list = make_deposit_list(deposits, N_DEPOSITS);
    BlockProductionPublicInputs {
        address_list,
        deposit_list,
        old_account_tree_root: prev_block_header.latest_account_digest,
        new_account_tree_root: block_header.latest_account_digest,
        old_world_state_root: prev_block_header.approved_world_state_digest,
        new_world_state_root: block_header.approved_world_state_digest,
        old_prev_block_header_digest: prev_block_header.block_headers_digest,
        new_prev_block_header_digest: block_header.block_headers_digest,
        block_hash,
    }
}

/// The leaves of the tree of block headers before the new block: zero for each
/// block before the previous one, then the previous block's hash.
pub fn block_headers_leaves(prev_block_number: u32, prev_block_hash: HashOut) -> (r: Vec<HashOut>)
    ensures
        r@.len() == prev_block_number + 1,
        forall|i: int|
            0 <= i < prev_block_number ==> (#[trigger] r@[i]).elements@ == seq![0u64, 0u64, 0u64, 0u64],
        r@[prev_block_number as int] == prev_block_hash,
{
    let mut r: Vec<HashOut> = Vec::new();
    let mut i: u32 = 0;
    while i < prev_block_number
        invariant
            i <= prev_block_number,
            r@.len() == i,
            forall|j: int| 0 <= j < i ==> (#[trigger] r@[j]).elements@ == seq![0u64, 0u64, 0u64, 0u64],
        decreases prev_block_number - i,
    {
        r.push(HashOut::zero());
        i = i + 1;
    }
    r.push(prev_block_hash);
    r
}

} // verus!
