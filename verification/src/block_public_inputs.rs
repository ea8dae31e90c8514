use vstd::prelude::*;

use crate::chunks::{flatten_chunks, lemma_flatten_chunks, lemma_flatten_chunks_of};
use crate::transaction::MergeAndPurgeTransitionPublicInputs;
use crate::field::{field_value, from_bool, is_nonzero, GOLDILOCKS_ORDER, lemma_hash_out_eq, spec_from_bool, Address, HashOut};

verus! {

broadcast use vstd::array::group_array_axioms;

/// The sender of a transaction in a block, and whether the sender signed the block.
#[derive(Clone, Copy, Debug, PartialEq, Eq)]
pub struct TransactionSenderWithValidity {
    pub sender_address: Address,
    pub is_valid: bool,
}

/// A deposit in a block: who receives it, of which contract and variable, and how much.
#[derive(Clone, Copy, Debug, PartialEq, Eq)]
pub struct DepositInfo {
    pub receiver_address: Address,
    pub contract_address: Address,
    /// The variable index, written as the hash-out key of the deposit tree.
    pub variable_index: HashOut,
    pub amount: u64,
}

impl TransactionSenderWithValidity {
    /// The five elements of an entry: the address, then the validity as `0` or `1`.
    pub open spec fn spec_encode(self) -> Seq<u64> {
        self.sender_address.0.elements@.push(spec_from_bool(self.is_valid))
    }

    /// The entry that fills the list up to its length: the zero address, not valid.
    pub open spec fn is_default(self) -> bool {
        &&& self.sender_address.0.elements@ == seq![0u64, 0u64, 0u64, 0u64]
        &&& !self.is_valid
    }

    /// What reading an entry from five elements gives.
    pub open spec fn decoded_from(self, chunk: Seq<u64>) -> bool {
        &&& chunk.len() == 5
        &&& self.sender_address.0.elements@ == chunk.subrange(0, 4)
        &&& self.is_valid == (field_value(chunk[4]) != 0)
    }

    pub fn default_entry() -> (r: Self)
        ensures
            r.is_default(),
    {
        TransactionSenderWithValidity { sender_address: Address(HashOut::zero()), is_valid: false }
    }

    fn write(&self, out: &mut Vec<u64>)
        ensures
            final(out)@ == old(out)@ + self.spec_encode(),
    {
        self.sender_address.0.write(out);
        out.push(from_bool(self.is_valid));
        assert(out@ =~= old(out)@ + self.spec_encode());
    }

    fn read_at(inputs: &[u64], start: usize) -> (r: Self)
        requires
            start + 5 <= inputs@.len(),
        ensures
            r.decoded_from(inputs@.subrange(start as int, start + 5)),
    {
        let len = inputs.len();
        assert(start + 5 <= len);
        let sender_address = Address(HashOut::read_at(inputs, start));
        let is_valid = is_nonzero(inputs[start + 4]);
        let r = TransactionSenderWithValidity { sender_address, is_valid };
        assert(r.sender_address.0.elements@ =~= inputs@.subrange(start as int, start + 5).subrange(0, 4));
        r
    }
}

impl DepositInfo {
    /// The thirteen elements of a deposit: receiver, contract, variable index, amount.
    pub open spec fn spec_encode(self) -> Seq<u64> {
        (self.receiver_address.0.elements@ + self.contract_address.0.elements@
            + self.variable_index.elements@).push(self.amount)
    }

    /// The deposit that fills the list up to its length: all zero.
    pub open spec fn is_default(self) -> bool {
        &&& self.receiver_address.0.elements@ == seq![0u64, 0u64, 0u64, 0u64]
        &&& self.contract_address.0.elements@ == seq![0u64, 0u64, 0u64, 0u64]
        &&& self.variable_index.elements@ == seq![0u64, 0u64, 0u64, 0u64]
        &&& self.amount == 0
    }

    pub fn default_entry() -> (r: Self)
        ensures
            r.is_default(),
    {
        DepositInfo {
            receiver_address: Address(HashOut::zero()),
            contract_address: Address(HashOut::zero()),
            variable_index: HashOut::zero(),
            amount: 0,
        }
    }

    fn write(&self, out: &mut Vec<u64>)
        ensures
            final(out)@ == old(out)@ + self.spec_encode(),
    {
        self.receiver_address.0.write(out);
        self.contract_address.0.write(out);
        self.variable_index.write(out);
        out.push(self.amount);
        assert(out@ =~= old(out)@ + self.spec_encode());
    }

    fn read_at(inputs: &[u64], start: usize) -> (r: Self)
        requires
            start + 13 <= inputs@.len(),
        ensures
            r.spec_encode() == inputs@.subrange(start as int, start + 13),
    {
        let len = inputs.len();
        assert(start + 13 <= len);
        let receiver_address = Address(HashOut::read_at(inputs, start));
        let contract_address = Address(HashOut::read_at(inputs, start + 4));
        let variable_index = HashOut::read_at(inputs, start + 8);
        let amount = inputs[start + 12];
        let r = DepositInfo { receiver_address, contract_address, variable_index, amount };
        assert(r.spec_encode() =~= inputs@.subrange(start as int, start + 13));
        r
    }
}

/// The encodings of the entries of `list`, one after the other.
pub open spec fn senders_encoding(list: Seq<TransactionSenderWithValidity>) -> Seq<u64> {
    flatten_chunks(list.map_values(|t: TransactionSenderWithValidity| t.spec_encode()))
}

/// The encodings of the deposits of `list`, one after the other.
pub open spec fn deposits_encoding(list: Seq<DepositInfo>) -> Seq<u64> {
    flatten_chunks(list.map_values(|d: DepositInfo| d.spec_encode()))
}

/// `n` copies of the element `0`.
pub open spec fn zeros(n: int) -> Seq<u64> {
    Seq::new(n as nat, |i: int| 0u64)
}

proof fn lemma_senders_encoding(list: Seq<TransactionSenderWithValidity>)
    ensures
        senders_encoding(list).len() == 5 * list.len(),
        forall|k: int|
            0 <= k < list.len() ==> senders_encoding(list).subrange(5 * k, 5 * k + 5)
                == (#[trigger] list[k]).spec_encode(),
{
    let parts = list.map_values(|t: TransactionSenderWithValidity| t.spec_encode());
    lemma_flatten_chunks(parts, 5);
    assert forall|k: int| 0 <= k < list.len() implies senders_encoding(list).subrange(5 * k, 5 * k + 5)
        == (#[trigger] list[k]).spec_encode() by {
        assert(parts[k] == list[k].spec_encode());
    }
}

proof fn lemma_deposits_encoding(list: Seq<DepositInfo>)
    ensures
        deposits_encoding(list).len() == 13 * list.len(),
        forall|k: int|
            0 <= k < list.len() ==> deposits_encoding(list).subrange(13 * k, 13 * k + 13)
                == (#[trigger] list[k]).spec_encode(),
{
    let parts = list.map_values(|d: DepositInfo| d.spec_encode());
    lemma_flatten_chunks(parts, 13);
    assert forall|k: int| 0 <= k < list.len() implies deposits_encoding(list).subrange(13 * k, 13 * k + 13)
        == (#[trigger] list[k]).spec_encode() by {
        assert(parts[k] == list[k].spec_encode());
    }
}

pub proof fn lemma_senders_encoding_from_chunks(list: Seq<TransactionSenderWithValidity>, s: Seq<u64>)
    requires
        s.len() == 5 * list.len(),
        forall|k: int| 0 <= k < list.len() ==> s.subrange(5 * k, 5 * k + 5) == (#[trigger] list[k]).spec_encode(),
    ensures
        senders_encoding(list) == s,
{
    let parts = list.map_values(|t: TransactionSenderWithValidity| t.spec_encode());
    assert forall|k: int| 0 <= k < parts.len() implies s.subrange(5 * k, 5 * k + 5) == #[trigger] parts[k] by {
        assert(s.subrange(5 * k, 5 * k + 5) == list[k].spec_encode());
    }
    lemma_flatten_chunks_of(parts, s, 5);
}

pub proof fn lemma_deposits_encoding_from_chunks(list: Seq<DepositInfo>, s: Seq<u64>)
    requires
        s.len() == 13 * list.len(),
        forall|k: int| 0 <= k < list.len() ==> s.subrange(13 * k, 13 * k + 13) == (#[trigger] list[k]).spec_encode(),
    ensures
        deposits_encoding(list) == s,
{
    let parts = list.map_values(|d: DepositInfo| d.spec_encode());
    assert forall|k: int| 0 <= k < parts.len() implies s.subrange(13 * k, 13 * k + 13) == #[trigger] parts[k] by {
        assert(s.subrange(13 * k, 13 * k + 13) == list[k].spec_encode());
    }
    lemma_flatten_chunks_of(parts, s, 13);
}

/// Encoding one more entry appends its encoding.
proof fn lemma_senders_encoding_push(list: Seq<TransactionSenderWithValidity>, i: int)
    requires
        0 <= i < list.len(),
    ensures
        senders_encoding(list.take(i + 1)) == senders_encoding(list.take(i)) + list[i].spec_encode(),
{
    let f = |t: TransactionSenderWithValidity| t.spec_encode();
    assert(list.take(i + 1).map_values(f).drop_last() =~= list.take(i).map_values(f));
}

/// Encoding one more deposit appends its encoding.
proof fn lemma_deposits_encoding_push(list: Seq<DepositInfo>, i: int)
    requires
        0 <= i < list.len(),
    ensures
        deposits_encoding(list.take(i + 1)) == deposits_encoding(list.take(i)) + list[i].spec_encode(),
{
    let f = |d: DepositInfo| d.spec_encode();
    assert(list.take(i + 1).map_values(f).drop_last() =~= list.take(i).map_values(f));
}

proof fn lemma_sender_read_back(x: TransactionSenderWithValidity, r: TransactionSenderWithValidity)
    requires
        r.decoded_from(x.spec_encode()),
    ensures
        r == x,
{
    let e = x.spec_encode();
    assert(e.subrange(0, 4) =~= x.sender_address.0.elements@);
    lemma_hash_out_eq(r.sender_address.0, x.sender_address.0);
    assert(e[4] == spec_from_bool(x.is_valid));
}

proof fn lemma_sender_read_zeros(r: TransactionSenderWithValidity)
    requires
        r.decoded_from(zeros(5)),
    ensures
        r.is_default(),
{
    assert(zeros(5).subrange(0, 4) =~= seq![0u64, 0u64, 0u64, 0u64]);
    assert(zeros(5)[4] == 0);
}

proof fn lemma_deposit_encoding_injective(a: DepositInfo, b: DepositInfo)
    requires
        a.spec_encode() == b.spec_encode(),
    ensures
        a == b,
{
    let e = a.spec_encode();
    let f = b.spec_encode();
    assert(e.subrange(0, 4) =~= a.receiver_address.0.elements@);
    assert(f.subrange(0, 4) =~= b.receiver_address.0.elements@);
    assert(e.subrange(4, 8) =~= a.contract_address.0.elements@);
    assert(f.subrange(4, 8) =~= b.contract_address.0.elements@);
    assert(e.subrange(8, 12) =~= a.variable_index.elements@);
    assert(f.subrange(8, 12) =~= b.variable_index.elements@);
    assert(e[12] == a.amount && f[12] == b.amount);
    lemma_hash_out_eq(a.receiver_address.0, b.receiver_address.0);
    lemma_hash_out_eq(a.contract_address.0, b.contract_address.0);
    lemma_hash_out_eq(a.variable_index, b.variable_index);
}

proof fn lemma_deposit_zeros(r: DepositInfo)
    requires
        r.spec_encode() == zeros(13),
    ensures
        r.is_default(),
{
    let e = r.spec_encode();
    assert(e.subrange(0, 4) =~= r.receiver_address.0.elements@);
    assert(e.subrange(4, 8) =~= r.contract_address.0.elements@);
    assert(e.subrange(8, 12) =~= r.variable_index.elements@);
    assert(zeros(13).subrange(0, 4) =~= seq![0u64, 0u64, 0u64, 0u64]);
    assert(zeros(13).subrange(4, 8) =~= seq![0u64, 0u64, 0u64, 0u64]);
    assert(zeros(13).subrange(8, 12) =~= seq![0u64, 0u64, 0u64, 0u64]);
    assert(e[12] == 0);
}

/// The public inputs of a block-production proof: one entry per transaction
/// slot, one deposit per deposit slot, then the roots before and after the block
/// and the block hash.
#[derive(Clone, Debug, PartialEq, Eq)]
pub struct BlockProductionPublicInputs<const N_TXS: usize, const N_DEPOSITS: usize> {
    pub address_list: Vec<TransactionSenderWithValidity>,
    pub deposit_list: Vec<DepositInfo>,
    pub old_account_tree_root: HashOut,
    pub new_account_tree_root: HashOut,
    pub old_world_state_root: HashOut,
    pub new_world_state_root: HashOut,
    pub old_prev_block_header_digest: HashOut,
    pub new_prev_block_header_digest: HashOut,
    pub block_hash: HashOut,
}

impl<const N_TXS: usize, const N_DEPOSITS: usize> BlockProductionPublicInputs<N_TXS, N_DEPOSITS> {
    /// How many field elements the public inputs take: `5 * N_TXS + 13 * N_DEPOSITS + 28`.
    pub open spec fn num_public_inputs() -> int {
        5 * N_TXS + 13 * N_DEPOSITS + 28
    }

    /// The seven roots, in the order they are written.
    pub open spec fn roots_encoding(&self) -> Seq<u64> {
        self.old_account_tree_root.elements@ + self.new_account_tree_root.elements@
            + self.old_world_state_root.elements@ + self.new_world_state_root.elements@
            + self.old_prev_block_header_digest.elements@
            + self.new_prev_block_header_digest.elements@ + self.block_hash.elements@
    }

    /// The public inputs as field elements: the entries, filled up with default
    /// entries to `N_TXS`, the deposits, filled up with zero deposits to
    /// `N_DEPOSITS`, then the roots.
    pub open spec fn spec_encode(&self) -> Seq<u64> {
        senders_encoding(self.address_list@) + zeros(5 * (N_TXS - self.address_list@.len()))
            + deposits_encoding(self.deposit_list@) + zeros(
            13 * (N_DEPOSITS - self.deposit_list@.len()),
        ) + self.roots_encoding()
    }

    /// What reading the public inputs from `s` gives: `N_TXS` entries from
    /// five elements each, `N_DEPOSITS` deposits from thirteen each, then the roots.
    pub open spec fn decoded_from(&self, s: Seq<u64>) -> bool {
        &&& self.address_list@.len() == N_TXS
        &&& self.deposit_list@.len() == N_DEPOSITS
        &&& forall|k: int|
            0 <= k < N_TXS ==> (#[trigger] self.address_list@[k]).decoded_from(
                s.subrange(5 * k, 5 * k + 5),
            )
        &&& forall|k: int|
            0 <= k < N_DEPOSITS ==> (#[trigger] self.deposit_list@[k]).spec_encode() == s.subrange(
                5 * N_TXS + 13 * k,
                5 * N_TXS + 13 * k + 13,
            )
        &&& self.roots_encoding() == s.subrange(
            5 * N_TXS + 13 * N_DEPOSITS,
            5 * N_TXS + 13 * N_DEPOSITS + 28,
        )
    }

    pub fn encode(&self) -> (r: Vec<u64>)
        requires
            self.address_list@.len() <= N_TXS,
            self.deposit_list@.len() <= N_DEPOSITS,
        ensures
            r@ == self.spec_encode(),
            r@.len() == Self::num_public_inputs(),
    {
        let mut public_inputs: Vec<u64> = Vec::new();
        let n_senders = self.address_list.len();
        let mut i: usize = 0;
        while i < n_senders
            invariant
                n_senders == self.address_list@.len(),
                i <= n_senders,
                public_inputs@ == senders_encoding(self.address_list@.take(i as int)),
            decreases n_senders - i,
        {
            proof {
                lemma_senders_encoding_push(self.address_list@, i as int);
            }
            self.address_list[i].write(&mut public_inputs);
            i = i + 1;
        }
        assert(self.address_list@.take(n_senders as int) =~= self.address_list@);
        let ghost senders = public_inputs@;
        let mut j: usize = n_senders;
        while j < N_TXS
            invariant
                n_senders <= j <= N_TXS,
                public_inputs@ == senders + zeros(5 * (j - n_senders)),
            decreases N_TXS - j,
        {
            TransactionSenderWithValidity::default_entry().write(&mut public_inputs);
            assert(public_inputs@ =~= senders + zeros(5 * (j + 1 - n_senders)));
            j = j + 1;
        }
        let n_deposits = self.deposit_list.len();
        let ghost before_deposits = public_inputs@;
        let mut i: usize = 0;
        while i < n_deposits
            invariant
                n_deposits == self.deposit_list@.len(),
                i <= n_deposits,
                public_inputs@ == before_deposits + deposits_encoding(
                    self.deposit_list@.take(i as int),
                ),
            decreases n_deposits - i,
        {
            proof {
                lemma_deposits_encoding_push(self.deposit_list@, i as int);
            }
            self.deposit_list[i].write(&mut public_inputs);
            assert(public_inputs@ =~= before_deposits + deposits_encoding(
                self.deposit_list@.take(i + 1),
            ));
            i = i + 1;
        }
        assert(self.deposit_list@.take(n_deposits as int) =~= self.deposit_list@);
        let ghost deposits = public_inputs@;
        let mut j: usize = n_deposits;
        while j < N_DEPOSITS
            invariant
                n_deposits <= j <= N_DEPOSITS,
                public_inputs@ == deposits + zeros(13 * (j - n_deposits)),
            decreases N_DEPOSITS - j,
        {
            DepositInfo::default_entry().write(&mut public_inputs);
            assert(public_inputs@ =~= deposits + zeros(13 * (j + 1 - n_deposits)));
            j = j + 1;
        }
        let ghost before_roots = public_inputs@;
        self.old_account_tree_root.write(&mut public_inputs);
        self.new_account_tree_root.write(&mut public_inputs);
        self.old_world_state_root.write(&mut public_inputs);
        self.new_world_state_root.write(&mut public_inputs);
        self.old_prev_block_header_digest.write(&mut public_inputs);
        self.new_prev_block_header_digest.write(&mut public_inputs);
        self.block_hash.write(&mut public_inputs);
        assert(public_inputs@ =~= before_roots + self.roots_encoding());
        assert(public_inputs@ =~= self.spec_encode());
        proof {
            lemma_senders_encoding(self.address_list@);
            lemma_deposits_encoding(self.deposit_list@);
        }
        public_inputs
    }

    pub fn decode(public_inputs: &[u64]) -> (r: Self)
        requires
            public_inputs@.len() == Self::num_public_inputs(),
        ensures
            r.decoded_from(public_inputs@),
    {
        let len = public_inputs.len();
        let mut address_list: Vec<TransactionSenderWithValidity> = Vec::new();
        let mut pos: usize = 0;
        let mut k: usize = 0;
        while k < N_TXS
            invariant
                len == public_inputs@.len() == Self::num_public_inputs(),
                k <= N_TXS,
                pos == 5 * k,
                address_list@.len() == k,
                forall|i: int|
                    0 <= i < k ==> (#[trigger] address_list@[i]).decoded_from(
                        public_inputs@.subrange(5 * i, 5 * i + 5),
                    ),
            decreases N_TXS - k,
        {
            let entry = TransactionSenderWithValidity::read_at(public_inputs, pos);
            address_list.push(entry);
            pos = pos + 5;
            k = k + 1;
        }
        let mut deposit_list: Vec<DepositInfo> = Vec::new();
        let mut k: usize = 0;
        while k < N_DEPOSITS
            invariant
                len == public_inputs@.len() == Self::num_public_inputs(),
                k <= N_DEPOSITS,
                pos == 5 * N_TXS + 13 * k,
                deposit_list@.len() == k,
                forall|i: int|
                    0 <= i < k ==> (#[trigger] deposit_list@[i]).spec_encode()
                        == public_inputs@.subrange(5 * N_TXS + 13 * i, 5 * N_TXS + 13 * i + 13),
            decreases N_DEPOSITS - k,
        {
            let deposit = DepositInfo::read_at(public_inputs, pos);
            deposit_list.push(deposit);
            pos = pos + 13;
            k = k + 1;
        }
        let old_account_tree_root = HashOut::read_at(public_inputs, pos);
        let new_account_tree_root = HashOut::read_at(public_inputs, pos + 4);
        let old_world_state_root = HashOut::read_at(public_inputs, pos + 8);
        let new_world_state_root = HashOut::read_at(public_inputs, pos + 12);
        let old_prev_block_header_digest = HashOut::read_at(public_inputs, pos + 16);
        let new_prev_block_header_digest = HashOut::read_at(public_inputs, pos + 20);
        let block_hash = HashOut::read_at(public_inputs, pos + 24);
        let r = BlockProductionPublicInputs {
            address_list,
            deposit_list,
            old_account_tree_root,
            new_account_tree_root,
            old_world_state_root,
            new_world_state_root,
            old_prev_block_header_digest,
            new_prev_block_header_digest,
            block_hash,
        };
        assert(r.roots_encoding() =~= public_inputs@.subrange(pos as int, pos + 28));
        r
    }

    /// The entries of a block: the `k`-th user transaction's sender, valid
    /// where a signature from it was received, for as many slots as there are
    /// both transactions and signature slots, then default entries up to
    /// `N_TXS`; entries beyond `N_TXS` are dropped.
    pub fn make_address_list(
        user_transactions: &[MergeAndPurgeTransitionPublicInputs],
        signature_received: &[bool],
    ) -> (r: Vec<TransactionSenderWithValidity>)
        ensures
            r@.len() == N_TXS,
            forall|k: int|
                0 <= k < N_TXS && k < user_transactions@.len() && k < signature_received@.len()
                    ==> (#[trigger] r@[k]).sender_address == user_transactions@[k].sender_address
                    && r@[k].is_valid == signature_received@[k],
            forall|k: int|
                0 <= k < N_TXS && (k >= user_transactions@.len() || k >= signature_received@.len())
                    ==> (#[trigger] r@[k]).is_default(),
    {
        let n_users = user_transactions.len();
        let n_signatures = signature_received.len();
        let mut r: Vec<TransactionSenderWithValidity> = Vec::new();
        let mut k: usize = 0;
        while k < N_TXS
            invariant
                n_users == user_transactions@.len(),
                n_signatures == signature_received@.len(),
                k <= N_TXS,
                r@.len() == k,
                forall|i: int|
                    0 <= i < k && i < n_users && i < n_signatures
                        ==> (#[trigger] r@[i]).sender_address == user_transactions@[i].sender_address
                        && r@[i].is_valid == signature_received@[i],
                forall|i: int|
                    0 <= i < k && (i >= n_users || i >= n_signatures)
                        ==> (#[trigger] r@[i]).is_default(),
            decreases N_TXS - k,
        {
            if k < n_users && k < n_signatures {
                r.push(
                    TransactionSenderWithValidity {
                        sender_address: user_transactions[k].sender_address,
                        is_valid: signature_received[k],
                    },
                );
            } else {
                r.push(TransactionSenderWithValidity::default_entry());
            }
            k = k + 1;
        }
        r
    }

    /// The same roots are written the same way, and only they.
    proof fn lemma_roots_read_back(x: Self, r: Self)
        requires
            r.roots_encoding() == x.roots_encoding(),
        ensures
            r.old_account_tree_root == x.old_account_tree_root,
            r.new_account_tree_root == x.new_account_tree_root,
            r.old_world_state_root == x.old_world_state_root,
            r.new_world_state_root == x.new_world_state_root,
            r.old_prev_block_header_digest == x.old_prev_block_header_digest,
            r.new_prev_block_header_digest == x.new_prev_block_header_digest,
            r.block_hash == x.block_hash,
    {
        let e = r.roots_encoding();
        let f = x.roots_encoding();
        assert(e.subrange(0, 4) =~= r.old_account_tree_root.elements@);
        assert(f.subrange(0, 4) =~= x.old_account_tree_root.elements@);
        assert(e.subrange(4, 8) =~= r.new_account_tree_root.elements@);
        assert(f.subrange(4, 8) =~= x.new_account_tree_root.elements@);
        assert(e.subrange(8, 12) =~= r.old_world_state_root.elements@);
        assert(f.subrange(8, 12) =~= x.old_world_state_root.elements@);
        assert(e.subrange(12, 16) =~= r.new_world_state_root.elements@);
        assert(f.subrange(12, 16) =~= x.new_world_state_root.elements@);
        assert(e.subrange(16, 20) =~= r.old_prev_block_header_digest.elements@);
        assert(f.subrange(16, 20) =~= x.old_prev_block_header_digest.elements@);
        assert(e.subrange(20, 24) =~= r.new_prev_block_header_digest.elements@);
        assert(f.subrange(20, 24) =~= x.new_prev_block_header_digest.elements@);
        assert(e.subrange(24, 28) =~= r.block_hash.elements@);
        assert(f.subrange(24, 28) =~= x.block_hash.elements@);
        lemma_hash_out_eq(r.old_account_tree_root, x.old_account_tree_root);
        lemma_hash_out_eq(r.new_account_tree_root, x.new_account_tree_root);
        lemma_hash_out_eq(r.old_world_state_root, x.old_world_state_root);
        lemma_hash_out_eq(r.new_world_state_root, x.new_world_state_root);
        lemma_hash_out_eq(r.old_prev_block_header_digest, x.old_prev_block_header_digest);
        lemma_hash_out_eq(r.new_prev_block_header_digest, x.new_prev_block_header_digest);
        lemma_hash_out_eq(r.block_hash, x.block_hash);
    }

    /// Decoding what `encode` writes gives back every entry, every deposit and
    /// every root; the slots that `encode` fills up read back as default entries
    /// and zero deposits.
    pub proof fn lemma_decode_encode(x: Self, r: Self)
        requires
            x.address_list@.len() <= N_TXS,
            x.deposit_list@.len() <= N_DEPOSITS,
            r.decoded_from(x.spec_encode()),
        ensures
            r.address_list@.len() == N_TXS,
            r.deposit_list@.len() == N_DEPOSITS,
            forall|k: int|
                0 <= k < x.address_list@.len() ==> r.address_list@[k] == x.address_list@[k],
            forall|k: int|
                x.address_list@.len() <= k < N_TXS ==> (#[trigger] r.address_list@[k]).is_default(),
            forall|k: int|
                0 <= k < x.deposit_list@.len() ==> r.deposit_list@[k] == x.deposit_list@[k],
            forall|k: int|
                x.deposit_list@.len() <= k < N_DEPOSITS ==> (#[trigger] r.deposit_list@[k]).is_default(),
            r.old_account_tree_root == x.old_account_tree_root,
            r.new_account_tree_root == x.new_account_tree_root,
            r.old_world_state_root == x.old_world_state_root,
            r.new_world_state_root == x.new_world_state_root,
            r.old_prev_block_header_digest == x.old_prev_block_header_digest,
            r.new_prev_block_header_digest == x.new_prev_block_header_digest,
            r.block_hash == x.block_hash,
    {
        let n = x.address_list@.len() as int;
        let m = x.deposit_list@.len() as int;
        let senders = senders_encoding(x.address_list@);
        let deposits = deposits_encoding(x.deposit_list@);
        let pad_s = zeros(5 * (N_TXS - n));
        let pad_d = zeros(13 * (N_DEPOSITS - m));
        let e = x.spec_encode();
        lemma_senders_encoding(x.address_list@);
        lemma_deposits_encoding(x.deposit_list@);
        assert(e == senders + pad_s + deposits + pad_d + x.roots_encoding());
        assert forall|k: int| 0 <= k < n implies r.address_list@[k] == x.address_list@[k] by {
            assert(e.subrange(5 * k, 5 * k + 5) =~= senders.subrange(5 * k, 5 * k + 5));
            assert(x.address_list@[k].spec_encode() == senders.subrange(5 * k, 5 * k + 5));
            assert(r.address_list@[k].decoded_from(e.subrange(5 * k, 5 * k + 5)));
            lemma_sender_read_back(x.address_list@[k], r.address_list@[k]);
        }
        assert forall|k: int| n <= k < N_TXS implies (#[trigger] r.address_list@[k]).is_default() by {
            assert(e.subrange(5 * k, 5 * k + 5) =~= zeros(5));
            assert(r.address_list@[k].decoded_from(e.subrange(5 * k, 5 * k + 5)));
            lemma_sender_read_zeros(r.address_list@[k]);
        }
        let base = 5 * N_TXS;
        assert forall|k: int| 0 <= k < m implies r.deposit_list@[k] == x.deposit_list@[k] by {
            assert(e.subrange(base + 13 * k, base + 13 * k + 13) =~= deposits.subrange(13 * k, 13 * k + 13));
            assert(x.deposit_list@[k].spec_encode() == deposits.subrange(13 * k, 13 * k + 13));
            assert(r.deposit_list@[k].spec_encode() == e.subrange(base + 13 * k, base + 13 * k + 13));
            lemma_deposit_encoding_injective(r.deposit_list@[k], x.deposit_list@[k]);
        }
        assert forall|k: int| m <= k < N_DEPOSITS implies (#[trigger] r.deposit_list@[k]).is_default() by {
            assert(e.subrange(base + 13 * k, base + 13 * k + 13) =~= zeros(13));
            assert(r.deposit_list@[k].spec_encode() == e.subrange(base + 13 * k, base + 13 * k + 13));
            lemma_deposit_zeros(r.deposit_list@[k]);
        }
        let roots_start = 5 * N_TXS + 13 * N_DEPOSITS;
        assert(e.subrange(roots_start, roots_start + 28) =~= x.roots_encoding());
        Self::lemma_roots_read_back(x, r);
    }

    /// Where each validity slot holds `0` or `1`, encoding what `decode` reads
    /// from a sequence of the right length writes that sequence again.
    pub proof fn lemma_encode_decode(s: Seq<u64>, r: Self)
        requires
            s.len() == Self::num_public_inputs(),
            forall|k: int| 0 <= k < N_TXS ==> #[trigger] s[5 * k + 4] == 0 || s[5 * k + 4] == 1,
            r.decoded_from(s),
        ensures
            r.spec_encode() == s,
    {
        let base = 5 * N_TXS;
        let roots_start = base + 13 * N_DEPOSITS;
        let s_senders = s.subrange(0, base);
        let s_deposits = s.subrange(base, roots_start);
        assert forall|k: int| 0 <= k < N_TXS implies s_senders.subrange(5 * k, 5 * k + 5)
            == (#[trigger] r.address_list@[k]).spec_encode() by {
            let chunk = s.subrange(5 * k, 5 * k + 5);
            assert(r.address_list@[k].decoded_from(chunk));
            assert(chunk[4] == s[5 * k + 4]);
            assert(chunk =~= s_senders.subrange(5 * k, 5 * k + 5));
            assert(chunk =~= r.address_list@[k].spec_encode());
        }
        lemma_senders_encoding_from_chunks(r.address_list@, s_senders);
        assert forall|k: int| 0 <= k < N_DEPOSITS implies s_deposits.subrange(13 * k, 13 * k + 13)
            == (#[trigger] r.deposit_list@[k]).spec_encode() by {
            assert(s_deposits.subrange(13 * k, 13 * k + 13) =~= s.subrange(base + 13 * k, base + 13 * k + 13));
        }
        lemma_deposits_encoding_from_chunks(r.deposit_list@, s_deposits);
        assert(zeros(0) =~= seq![]);
        assert(s =~= s_senders + zeros(0) + s_deposits + zeros(0) + s.subrange(roots_start, roots_start + 28));
    }

    /// Where `encode` writes each part of the public inputs. Entry `k` takes
    /// the five elements from `5 * k`: its address, then its validity as `0` or
    /// `1`; the default entries after the list are zeros. Deposit `k` takes the
    /// thirteen elements from `5 * N_TXS + 13 * k`: the receiver's address, the
    /// contract's address, the variable index, then the amount; the zero
    /// deposits after the list are zeros. From `5 * N_TXS + 13 * N_DEPOSITS`
    /// come, four elements each, the old and the new account-tree roots, the
    /// old and the new world-state roots, the old and the new digests of the
    /// previous block headers, and the block hash.
    pub proof fn lemma_encode_layout(x: Self)
        requires
            x.address_list@.len() <= N_TXS,
            x.deposit_list@.len() <= N_DEPOSITS,
        ensures
            x.spec_encode().len() == 5 * N_TXS + 13 * N_DEPOSITS + 28,
            forall|k: int|
                0 <= k < x.address_list@.len() ==> x.spec_encode().subrange(5 * k, 5 * k + 4)
                    == (#[trigger] x.address_list@[k]).sender_address.0.elements@
                    && x.spec_encode()[5 * k + 4] == spec_from_bool(x.address_list@[k].is_valid),
            forall|i: int|
                5 * x.address_list@.len() <= i < 5 * N_TXS ==> #[trigger] x.spec_encode()[i] == 0,
            forall|k: int|
                0 <= k < x.deposit_list@.len() ==> {
                    &&& x.spec_encode().subrange(5 * N_TXS + 13 * k, 5 * N_TXS + 13 * k + 4)
                        == (#[trigger] x.deposit_list@[k]).receiver_address.0.elements@
                    &&& x.spec_encode().subrange(5 * N_TXS + 13 * k + 4, 5 * N_TXS + 13 * k + 8)
                        == x.deposit_list@[k].contract_address.0.elements@
                    &&& x.spec_encode().subrange(5 * N_TXS + 13 * k + 8, 5 * N_TXS + 13 * k + 12)
                        == x.deposit_list@[k].variable_index.elements@
                    &&& x.spec_encode()[5 * N_TXS + 13 * k + 12] == x.deposit_list@[k].amount
                },
            forall|i: int|
                5 * N_TXS + 13 * x.deposit_list@.len() <= i < 5 * N_TXS + 13 * N_DEPOSITS
                    ==> #[trigger] x.spec_encode()[i] == 0,
            x.spec_encode().subrange(5 * N_TXS + 13 * N_DEPOSITS, 5 * N_TXS + 13 * N_DEPOSITS + 4)
                == x.old_account_tree_root.elements@,
            x.spec_encode().subrange(5 * N_TXS + 13 * N_DEPOSITS + 4, 5 * N_TXS + 13 * N_DEPOSITS + 8)
                == x.new_account_tree_root.elements@,
            x.spec_encode().subrange(5 * N_TXS + 13 * N_DEPOSITS + 8, 5 * N_TXS + 13 * N_DEPOSITS + 12)
                == x.old_world_state_root.elements@,
            x.spec_encode().subrange(5 * N_TXS + 13 * N_DEPOSITS + 12, 5 * N_TXS + 13 * N_DEPOSITS + 16)
                == x.new_world_state_root.elements@,
            x.spec_encode().subrange(5 * N_TXS + 13 * N_DEPOSITS + 16, 5 * N_TXS + 13 * N_DEPOSITS + 20)
                == x.old_prev_block_header_digest.elements@,
            x.spec_encode().subrange(5 * N_TXS + 13 * N_DEPOSITS + 20, 5 * N_TXS + 13 * N_DEPOSITS + 24)
                == x.new_prev_block_header_digest.elements@,
            x.spec_encode().subrange(5 * N_TXS + 13 * N_DEPOSITS + 24, 5 * N_TXS + 13 * N_DEPOSITS + 28)
                == x.block_hash.elements@,
    {
        let n = x.address_list@.len() as int;
        let m = x.deposit_list@.len() as int;
        let d = 5 * N_TXS;
        let b = 5 * N_TXS + 13 * N_DEPOSITS;
        let senders = senders_encoding(x.address_list@);
        let deposits = deposits_encoding(x.deposit_list@);
        let pad_s = zeros(5 * (N_TXS - n));
        let pad_d = zeros(13 * (N_DEPOSITS - m));
        let roots = x.roots_encoding();
        let e = x.spec_encode();
        lemma_senders_encoding(x.address_list@);
        lemma_deposits_encoding(x.deposit_list@);
        assert(e == senders + pad_s + deposits + pad_d + roots);
        assert forall|k: int| 0 <= k < n implies e.subrange(5 * k, 5 * k + 4)
            == (#[trigger] x.address_list@[k]).sender_address.0.elements@
            && e[5 * k + 4] == spec_from_bool(x.address_list@[k].is_valid) by {
            let c = x.address_list@[k].spec_encode();
            assert(senders.subrange(5 * k, 5 * k + 5) == c);
            assert(e.subrange(5 * k, 5 * k + 4) =~= c.subrange(0, 4));
            assert(c.subrange(0, 4) =~= x.address_list@[k].sender_address.0.elements@);
            assert(e[5 * k + 4] == c[4]);
        }
        assert forall|i: int| 5 * n <= i < d implies #[trigger] e[i] == 0 by {
            assert(e[i] == pad_s[i - 5 * n]);
        }
        assert forall|k: int| 0 <= k < m implies {
            &&& e.subrange(d + 13 * k, d + 13 * k + 4) == (#[trigger] x.deposit_list@[k]).receiver_address.0.elements@
            &&& e.subrange(d + 13 * k + 4, d + 13 * k + 8) == x.deposit_list@[k].contract_address.0.elements@
            &&& e.subrange(d + 13 * k + 8, d + 13 * k + 12) == x.deposit_list@[k].variable_index.elements@
            &&& e[d + 13 * k + 12] == x.deposit_list@[k].amount
        } by {
            let c = x.deposit_list@[k].spec_encode();
            assert(deposits.subrange(13 * k, 13 * k + 13) == c);
            assert(e.subrange(d + 13 * k, d + 13 * k + 4) =~= c.subrange(0, 4));
            assert(e.subrange(d + 13 * k + 4, d + 13 * k + 8) =~= c.subrange(4, 8));
            assert(e.subrange(d + 13 * k + 8, d + 13 * k + 12) =~= c.subrange(8, 12));
            assert(e[d + 13 * k + 12] == c[12]);
            assert(c.subrange(0, 4) =~= x.deposit_list@[k].receiver_address.0.elements@);
            assert(c.subrange(4, 8) =~= x.deposit_list@[k].contract_address.0.elements@);
            assert(c.subrange(8, 12) =~= x.deposit_list@[k].variable_index.elements@);
        }
        assert forall|i: int| d + 13 * m <= i < b implies #[trigger] e[i] == 0 by {
            assert(e[i] == pad_d[i - d - 13 * m]);
        }
        assert(e.subrange(b, b + 4) =~= x.old_account_tree_root.elements@);
        assert(e.subrange(b + 4, b + 8) =~= x.new_account_tree_root.elements@);
        assert(e.subrange(b + 8, b + 12) =~= x.old_world_state_root.elements@);
        assert(e.subrange(b + 12, b + 16) =~= x.new_world_state_root.elements@);
        assert(e.subrange(b + 16, b + 20) =~= x.old_prev_block_header_digest.elements@);
        assert(e.subrange(b + 20, b + 24) =~= x.new_prev_block_header_digest.elements@);
        assert(e.subrange(b + 24, b + 28) =~= x.block_hash.elements@);
    }

    /// Where `decode` reads each part of the public inputs from: entry `k`'s
    /// address from the four elements at `5 * k` and its validity from the next
    /// one, nonzero meaning valid; deposit `k`'s receiver, contract, variable
    /// index and amount from the thirteen elements at `5 * N_TXS + 13 * k`; the
    /// old and new account-tree roots, the old and new world-state roots, the old
    /// and new digests of the previous block headers and the block hash from
    /// the four-element groups at `5 * N_TXS + 13 * N_DEPOSITS`, in that order.
    pub proof fn lemma_decode_layout(s: Seq<u64>, r: Self)
        requires
            s.len() == Self::num_public_inputs(),
            r.decoded_from(s),
        ensures
            r.address_list@.len() == N_TXS,
            r.deposit_list@.len() == N_DEPOSITS,
            forall|k: int|
                0 <= k < N_TXS ==> (#[trigger] r.address_list@[k]).sender_address.0.elements@
                    == s.subrange(5 * k, 5 * k + 4) && r.address_list@[k].is_valid == (field_value(
                    s[5 * k + 4],
                ) != 0),
            forall|k: int|
                0 <= k < N_DEPOSITS ==> {
                    &&& (#[trigger] r.deposit_list@[k]).receiver_address.0.elements@ == s.subrange(
                        5 * N_TXS + 13 * k,
                        5 * N_TXS + 13 * k + 4,
                    )
                    &&& r.deposit_list@[k].contract_address.0.elements@ == s.subrange(
                        5 * N_TXS + 13 * k + 4,
                        5 * N_TXS + 13 * k + 8,
                    )
                    &&& r.deposit_list@[k].variable_index.elements@ == s.subrange(
                        5 * N_TXS + 13 * k + 8,
                        5 * N_TXS + 13 * k + 12,
                    )
                    &&& r.deposit_list@[k].amount == s[5 * N_TXS + 13 * k + 12]
                },
            r.old_account_tree_root.elements@ == s.subrange(5 * N_TXS + 13 * N_DEPOSITS, 5 * N_TXS + 13 * N_DEPOSITS + 4),
            r.new_account_tree_root.elements@ == s.subrange(5 * N_TXS + 13 * N_DEPOSITS + 4, 5 * N_TXS + 13 * N_DEPOSITS + 8),
            r.old_world_state_root.elements@ == s.subrange(5 * N_TXS + 13 * N_DEPOSITS + 8, 5 * N_TXS + 13 * N_DEPOSITS + 12),
            r.new_world_state_root.elements@ == s.subrange(5 * N_TXS + 13 * N_DEPOSITS + 12, 5 * N_TXS + 13 * N_DEPOSITS + 16),
            r.old_prev_block_header_digest.elements@ == s.subrange(5 * N_TXS + 13 * N_DEPOSITS + 16, 5 * N_TXS + 13 * N_DEPOSITS + 20),
            r.new_prev_block_header_digest.elements@ == s.subrange(5 * N_TXS + 13 * N_DEPOSITS + 20, 5 * N_TXS + 13 * N_DEPOSITS + 24),
            r.block_hash.elements@ == s.subrange(5 * N_TXS + 13 * N_DEPOSITS + 24, 5 * N_TXS + 13 * N_DEPOSITS + 28),
    {
        let d = 5 * N_TXS;
        let b = 5 * N_TXS + 13 * N_DEPOSITS;
        assert forall|k: int| 0 <= k < N_TXS implies (#[trigger] r.address_list@[k]).sender_address.0.elements@
            == s.subrange(5 * k, 5 * k + 4) && r.address_list@[k].is_valid == (field_value(s[5 * k + 4]) != 0) by {
            let c = s.subrange(5 * k, 5 * k + 5);
            assert(r.address_list@[k].decoded_from(c));
            assert(c.subrange(0, 4) =~= s.subrange(5 * k, 5 * k + 4));
            assert(c[4] == s[5 * k + 4]);
        }
        assert forall|k: int| 0 <= k < N_DEPOSITS implies {
            &&& (#[trigger] r.deposit_list@[k]).receiver_address.0.elements@ == s.subrange(d + 13 * k, d + 13 * k + 4)
            &&& r.deposit_list@[k].contract_address.0.elements@ == s.subrange(d + 13 * k + 4, d + 13 * k + 8)
            &&& r.deposit_list@[k].variable_index.elements@ == s.subrange(d + 13 * k + 8, d + 13 * k + 12)
            &&& r.deposit_list@[k].amount == s[d + 13 * k + 12]
        } by {
            let c = r.deposit_list@[k].spec_encode();
            assert(c == s.subrange(d + 13 * k, d + 13 * k + 13));
            assert(c.subrange(0, 4) =~= r.deposit_list@[k].receiver_address.0.elements@);
            assert(c.subrange(4, 8) =~= r.deposit_list@[k].contract_address.0.elements@);
            assert(c.subrange(8, 12) =~= r.deposit_list@[k].variable_index.elements@);
            assert(c.subrange(0, 4) =~= s.subrange(d + 13 * k, d + 13 * k + 4));
            assert(c.subrange(4, 8) =~= s.subrange(d + 13 * k + 4, d + 13 * k + 8));
            assert(c.subrange(8, 12) =~= s.subrange(d + 13 * k + 8, d + 13 * k + 12));
            assert(c[12] == s[d + 13 * k + 12]);
        }
        let roots = r.roots_encoding();
        assert(roots == s.subrange(b, b + 28));
        assert(roots.subrange(0, 4) =~= r.old_account_tree_root.elements@);
        assert(roots.subrange(4, 8) =~= r.new_account_tree_root.elements@);
        assert(roots.subrange(8, 12) =~= r.old_world_state_root.elements@);
        assert(roots.subrange(12, 16) =~= r.new_world_state_root.elements@);
        assert(roots.subrange(16, 20) =~= r.old_prev_block_header_digest.elements@);
        assert(roots.subrange(20, 24) =~= r.new_prev_block_header_digest.elements@);
        assert(roots.subrange(24, 28) =~= r.block_hash.elements@);
        assert(roots.subrange(0, 4) =~= s.subrange(b, b + 4));
        assert(roots.subrange(4, 8) =~= s.subrange(b + 4, b + 8));
        assert(roots.subrange(8, 12) =~= s.subrange(b + 8, b + 12));
        assert(roots.subrange(12, 16) =~= s.subrange(b + 12, b + 16));
        assert(roots.subrange(16, 20) =~= s.subrange(b + 16, b + 20));
        assert(roots.subrange(20, 24) =~= s.subrange(b + 20, b + 24));
        assert(roots.subrange(24, 28) =~= s.subrange(b + 24, b + 28));
    }
}

/// Why the public inputs of a block-production proof are refused.
#[derive(Clone, Copy, Debug, PartialEq, Eq)]
pub enum BlockProofError {
    /// The proof does not have exactly four public inputs.
    InvalidPublicInputsLength,
    /// The four public inputs are not the expected entry hash.
    InvalidEntryHash,
}

/// Checks the public inputs of a block-production proof against `entry_hash`,
/// the Poseidon hash of the encoded public inputs the witness was set to: there
/// must be exactly four, and as field elements they must equal the hash.
pub fn check_entry_hash(proof_public_inputs: &[u64], entry_hash: &HashOut) -> (r: Result<
    (),
    BlockProofError,
>)
    ensures
        proof_public_inputs@.len() != 4 ==> r == Err::<(), _>(
            BlockProofError::InvalidPublicInputsLength,
        ),
        proof_public_inputs@.len() == 4 ==> (r is Ok <==> forall|i: int|
            0 <= i < 4 ==> field_value(#[trigger] proof_public_inputs@[i]) == field_value(
                entry_hash.elements@[i],
            )),
        proof_public_inputs@.len() == 4 && r is Err ==> r == Err::<(), _>(
            BlockProofError::InvalidEntryHash,
        ),
{
    if proof_public_inputs.len() != 4 {
        return Err(BlockProofError::InvalidPublicInputsLength);
    }
    let mut i: usize = 0;
    while i < 4
        invariant
            proof_public_inputs@.len() == 4,
            i <= 4,
            forall|j: int|
                0 <= j < i ==> field_value(#[trigger] proof_public_inputs@[j]) == field_value(
                    entry_hash.elements@[j],
                ),
        decreases 4 - i,
    {
        if proof_public_inputs[i] % GOLDILOCKS_ORDER != entry_hash.elements[i] % GOLDILOCKS_ORDER {
            return Err(BlockProofError::InvalidEntryHash);
        }
        i = i + 1;
    }
    Ok(())
}

} // verus!
