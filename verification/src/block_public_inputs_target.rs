use vstd::prelude::*;

use crate::block_public_inputs::{
    deposits_encoding, lemma_deposits_encoding_from_chunks, lemma_senders_encoding_from_chunks,
    senders_encoding, zeros, BlockProductionPublicInputs,
};
use crate::chunks::{flatten_chunks, lemma_flatten_chunks, lemma_flatten_chunks_of};
use crate::transaction::MergeAndPurgeTransitionPublicInputsTarget;
use crate::target::{lemma_hash_out_target_eq, AddressTarget, BoolTarget, HashOutTarget, Target};

verus! {

/// The targets of a transaction sender and of whether it signed the block.
#[derive(Clone, Copy, Debug, PartialEq, Eq)]
pub struct TransactionSenderWithValidityTarget {
    pub sender_address: HashOutTarget,
    pub is_valid: BoolTarget,
}

/// The targets of a deposit: receiver, contract, variable index and amount.
#[derive(Clone, Copy, Debug, PartialEq, Eq)]
pub struct DepositInfoTarget {
    pub receiver_address: AddressTarget,
    pub contract_address: AddressTarget,
    pub variable_index: HashOutTarget,
    pub amount: Target,
}

impl TransactionSenderWithValidityTarget {
    /// The five targets of an entry: the address, then the validity.
    pub open spec fn spec_encode(self) -> Seq<Target> {
        self.sender_address.elements@.push(self.is_valid.target)
    }

    fn write(&self, out: &mut Vec<Target>)
        ensures
            final(out)@ == old(out)@ + self.spec_encode(),
    {
        self.sender_address.write(out);
        out.push(self.is_valid.target);
        assert(out@ =~= old(out)@ + self.spec_encode());
    }

    fn read_at(inputs: &[Target], start: usize) -> (r: Self)
        requires
            start + 5 <= inputs@.len(),
        ensures
            r.spec_encode() == inputs@.subrange(start as int, start + 5),
    {
        let len = inputs.len();
        assert(start + 5 <= len);
        let sender_address = HashOutTarget::read_at(inputs, start);
        let is_valid = BoolTarget { target: inputs[start + 4] };
        let r = TransactionSenderWithValidityTarget { sender_address, is_valid };
        assert(r.spec_encode() =~= inputs@.subrange(start as int, start + 5));
        r
    }
}

impl DepositInfoTarget {
    /// The thirteen targets of a deposit.
    pub open spec fn spec_encode(self) -> Seq<Target> {
        (self.receiver_address.0.elements@ + self.contract_address.0.elements@
            + self.variable_index.elements@).push(self.amount)
    }

    fn write(&self, out: &mut Vec<Target>)
        ensures
            final(out)@ == old(out)@ + self.spec_encode(),
    {
        self.receiver_address.0.write(out);
        self.contract_address.0.write(out);
        self.variable_index.write(out);
        out.push(self.amount);
        assert(out@ =~= old(out)@ + self.spec_encode());
    }

    fn read_at(inputs: &[Target], start: usize) -> (r: Self)
        requires
            start + 13 <= inputs@.len(),
        ensures
            r.spec_encode() == inputs@.subrange(start as int, start + 13),
    {
        let len = inputs.len();
        assert(start + 13 <= len);
        let receiver_address = AddressTarget(HashOutTarget::read_at(inputs, start));
        let contract_address = AddressTarget(HashOutTarget::read_at(inputs, start + 4));
        let variable_index = HashOutTarget::read_at(inputs, start + 8);
        let amount = inputs[start + 12];
        let r = DepositInfoTarget { receiver_address, contract_address, variable_index, amount };
        assert(r.spec_encode() =~= inputs@.subrange(start as int, start + 13));
        r
    }
}

proof fn lemma_sender_target_injective(a: TransactionSenderWithValidityTarget, b: TransactionSenderWithValidityTarget)
    requires
        a.spec_encode() == b.spec_encode(),
    ensures
        a == b,
{
    let e = a.spec_encode();
    let f = b.spec_encode();
    assert(e.subrange(0, 4) =~= a.sender_address.elements@);
    assert(f.subrange(0, 4) =~= b.sender_address.elements@);
    assert(e[4] == a.is_valid.target && f[4] == b.is_valid.target);
    lemma_hash_out_target_eq(a.sender_address, b.sender_address);
}

proof fn lemma_deposit_target_injective(a: DepositInfoTarget, b: DepositInfoTarget)
    requires
        a.spec_encode() == b.spec_encode(),
    ensures
        a == b,
{
    let e = a.spec_encode();
    let f = b.spec_encode();
    assert(e.subrange(0, 4) =~= a.receiver_address.0.elements@);
    assert(f.subrange(0, 4) =~= b.receiver_address.0.elements@);
    assert(e.subrange(4, 8) =~= a.contract_address.0.elements@);
    assert(f.subrange(4, 8) =~= b.contract_address.0.elements@);
    assert(e.subrange(8, 12) =~= a.variable_index.elements@);
    assert(f.subrange(8, 12) =~= b.variable_index.elements@);
    assert(e[12] == a.amount && f[12] == b.amount);
    lemma_hash_out_target_eq(a.receiver_address.0, b.receiver_address.0);
    lemma_hash_out_target_eq(a.contract_address.0, b.contract_address.0);
    lemma_hash_out_target_eq(a.variable_index, b.variable_index);
}

/// The encodings of the entries of `list`, one after the other.
pub open spec fn sender_targets_encoding(list: Seq<TransactionSenderWithValidityTarget>) -> Seq<Target> {
    flatten_chunks(list.map_values(|t: TransactionSenderWithValidityTarget| t.spec_encode()))
}

/// The encodings of the deposits of `list`, one after the other.
pub open spec fn deposit_targets_encoding(list: Seq<DepositInfoTarget>) -> Seq<Target> {
    flatten_chunks(list.map_values(|d: DepositInfoTarget| d.spec_encode()))
}

pub proof fn lemma_sender_targets_encoding(list: Seq<TransactionSenderWithValidityTarget>)
    ensures
        sender_targets_encoding(list).len() == 5 * list.len(),
        forall|k: int|
            0 <= k < list.len() ==> sender_targets_encoding(list).subrange(5 * k, 5 * k + 5)
                == (#[trigger] list[k]).spec_encode(),
{
    let parts = list.map_values(|t: TransactionSenderWithValidityTarget| t.spec_encode());
    lemma_flatten_chunks(parts, 5);
    assert forall|k: int| 0 <= k < list.len() implies sender_targets_encoding(list).subrange(5 * k, 5 * k + 5)
        == (#[trigger] list[k]).spec_encode() by {
        assert(parts[k] == list[k].spec_encode());
    }
}

pub proof fn lemma_deposit_targets_encoding(list: Seq<DepositInfoTarget>)
    ensures
        deposit_targets_encoding(list).len() == 13 * list.len(),
        forall|k: int|
            0 <= k < list.len() ==> deposit_targets_encoding(list).subrange(13 * k, 13 * k + 13)
                == (#[trigger] list[k]).spec_encode(),
{
    let parts = list.map_values(|d: DepositInfoTarget| d.spec_encode());
    lemma_flatten_chunks(parts, 13);
    assert forall|k: int| 0 <= k < list.len() implies deposit_targets_encoding(list).subrange(13 * k, 13 * k + 13)
        == (#[trigger] list[k]).spec_encode() by {
        assert(parts[k] == list[k].spec_encode());
    }
}

proof fn lemma_sender_targets_from_chunks(list: Seq<TransactionSenderWithValidityTarget>, s: Seq<Target>)
    requires
        s.len() == 5 * list.len(),
        forall|k: int| 0 <= k < list.len() ==> s.subrange(5 * k, 5 * k + 5) == (#[trigger] list[k]).spec_encode(),
    ensures
        sender_targets_encoding(list) == s,
{
    let parts = list.map_values(|t: TransactionSenderWithValidityTarget| t.spec_encode());
    assert forall|k: int| 0 <= k < parts.len() implies s.subrange(5 * k, 5 * k + 5) == #[trigger] parts[k] by {
        assert(s.subrange(5 * k, 5 * k + 5) == list[k].spec_encode());
    }
    lemma_flatten_chunks_of(parts, s, 5);
}

proof fn lemma_deposit_targets_from_chunks(list: Seq<DepositInfoTarget>, s: Seq<Target>)
    requires
        s.len() == 13 * list.len(),
        forall|k: int| 0 <= k < list.len() ==> s.subrange(13 * k, 13 * k + 13) == (#[trigger] list[k]).spec_encode(),
    ensures
        deposit_targets_encoding(list) == s,
{
    let parts = list.map_values(|d: DepositInfoTarget| d.spec_encode());
    assert forall|k: int| 0 <= k < parts.len() implies s.subrange(13 * k, 13 * k + 13) == #[trigger] parts[k] by {
        assert(s.subrange(13 * k, 13 * k + 13) == list[k].spec_encode());
    }
    lemma_flatten_chunks_of(parts, s, 13);
}

/// The targets of the public inputs of a block-production proof.
#[derive(Clone, Debug, PartialEq, Eq)]
pub struct BlockProductionPublicInputsTarget<const N_TXS: usize, const N_DEPOSITS: usize> {
    pub address_list: Vec<TransactionSenderWithValidityTarget>,
    pub deposit_list: Vec<DepositInfoTarget>,
    pub old_account_tree_root: HashOutTarget,
    pub new_account_tree_root: HashOutTarget,
    pub old_world_state_root: HashOutTarget,
    pub new_world_state_root: HashOutTarget,
    pub old_block_headers_root: HashOutTarget,
    pub new_block_headers_root: HashOutTarget,
    pub block_hash: HashOutTarget,
}

impl<const N_TXS: usize, const N_DEPOSITS: usize> BlockProductionPublicInputsTarget<N_TXS, N_DEPOSITS> {
    /// How many targets the public inputs take: `5 * N_TXS + 13 * N_DEPOSITS + 28`.
    pub open spec fn num_public_inputs() -> int {
        5 * N_TXS + 13 * N_DEPOSITS + 28
    }

    /// Whether there is one entry per transaction slot and one deposit per deposit slot.
    pub open spec fn has_slot_lengths(&self) -> bool {
        &&& self.address_list@.len() == N_TXS
        &&& self.deposit_list@.len() == N_DEPOSITS
    }

    /// The seven roots, in the order they are written.
    pub open spec fn roots_encoding(&self) -> Seq<Target> {
        self.old_account_tree_root.elements@ + self.new_account_tree_root.elements@
            + self.old_world_state_root.elements@ + self.new_world_state_root.elements@
            + self.old_block_headers_root.elements@ + self.new_block_headers_root.elements@
            + self.block_hash.elements@
    }

    /// The public-input targets: the entries, the deposits, then the roots.
    pub open spec fn spec_encode(&self) -> Seq<Target> {
        sender_targets_encoding(self.address_list@) + deposit_targets_encoding(self.deposit_list@)
            + self.roots_encoding()
    }

    pub fn encode(&self) -> (r: Vec<Target>)
        requires
            self.has_slot_lengths(),
        ensures
            r@ == self.spec_encode(),
            r@.len() == Self::num_public_inputs(),
    {
        let mut public_inputs_t: Vec<Target> = Vec::new();
        let n_senders = self.address_list.len();
        let mut i: usize = 0;
        while i < n_senders
            invariant
                n_senders == self.address_list@.len(),
                i <= n_senders,
                public_inputs_t@ == sender_targets_encoding(self.address_list@.take(i as int)),
            decreases n_senders - i,
        {
            proof {
                let f = |t: TransactionSenderWithValidityTarget| t.spec_encode();
                let list = self.address_list@;
                assert(list.take(i + 1).map_values(f).drop_last() =~= list.take(i as int).map_values(f));
            }
            self.address_list[i].write(&mut public_inputs_t);
            i = i + 1;
        }
        assert(self.address_list@.take(n_senders as int) =~= self.address_list@);
        let ghost senders = public_inputs_t@;
        let n_deposits = self.deposit_list.len();
        let mut i: usize = 0;
        while i < n_deposits
            invariant
                n_deposits == self.deposit_list@.len(),
                i <= n_deposits,
                public_inputs_t@ == senders + deposit_targets_encoding(
                    self.deposit_list@.take(i as int),
                ),
            decreases n_deposits - i,
        {
            proof {
                let f = |d: DepositInfoTarget| d.spec_encode();
                let list = self.deposit_list@;
                assert(list.take(i + 1).map_values(f).drop_last() =~= list.take(i as int).map_values(f));
            }
            self.deposit_list[i].write(&mut public_inputs_t);
            assert(public_inputs_t@ =~= senders + deposit_targets_encoding(
                self.deposit_list@.take(i + 1),
            ));
            i = i + 1;
        }
        assert(self.deposit_list@.take(n_deposits as int) =~= self.deposit_list@);
        let ghost before_roots = public_inputs_t@;
        self.old_account_tree_root.write(&mut public_inputs_t);
        self.new_account_tree_root.write(&mut public_inputs_t);
        self.old_world_state_root.write(&mut public_inputs_t);
        self.new_world_state_root.write(&mut public_inputs_t);
        self.old_block_headers_root.write(&mut public_inputs_t);
        self.new_block_headers_root.write(&mut public_inputs_t);
        self.block_hash.write(&mut public_inputs_t);
        assert(public_inputs_t@ =~= before_roots + self.roots_encoding());
        assert(public_inputs_t@ =~= self.spec_encode());
        proof {
            lemma_sender_targets_encoding(self.address_list@);
            lemma_deposit_targets_encoding(self.deposit_list@);
        }
        public_inputs_t
    }

    pub fn decode(public_inputs_t: &[Target]) -> (r: Self)
        requires
            public_inputs_t@.len() == Self::num_public_inputs(),
        ensures
            r.has_slot_lengths(),
            r.spec_encode() == public_inputs_t@,
    {
        let len = public_inputs_t.len();
        let mut address_list: Vec<TransactionSenderWithValidityTarget> = Vec::new();
        let mut pos: usize = 0;
        let mut k: usize = 0;
        while k < N_TXS
            invariant
                len == public_inputs_t@.len() == Self::num_public_inputs(),
                k <= N_TXS,
                pos == 5 * k,
                address_list@.len() == k,
                forall|i: int|
                    0 <= i < k ==> (#[trigger] address_list@[i]).spec_encode()
                        == public_inputs_t@.subrange(5 * i, 5 * i + 5),
            decreases N_TXS - k,
        {
            let entry = TransactionSenderWithValidityTarget::read_at(public_inputs_t, pos);
            address_list.push(entry);
            pos = pos + 5;
            k = k + 1;
        }
        let mut deposit_list: Vec<DepositInfoTarget> = Vec::new();
        let mut k: usize = 0;
        while k < N_DEPOSITS
            invariant
                len == public_inputs_t@.len() == Self::num_public_inputs(),
                k <= N_DEPOSITS,
                pos == 5 * N_TXS + 13 * k,
                deposit_list@.len() == k,
                forall|i: int|
                    0 <= i < k ==> (#[trigger] deposit_list@[i]).spec_encode()
                        == public_inputs_t@.subrange(5 * N_TXS + 13 * i, 5 * N_TXS + 13 * i + 13),
            decreases N_DEPOSITS - k,
        {
            let deposit = DepositInfoTarget::read_at(public_inputs_t, pos);
            deposit_list.push(deposit);
            pos = pos + 13;
            k = k + 1;
        }
        let old_account_tree_root = HashOutTarget::read_at(public_inputs_t, pos);
        let new_account_tree_root = HashOutTarget::read_at(public_inputs_t, pos + 4);
        let old_world_state_root = HashOutTarget::read_at(public_inputs_t, pos + 8);
        let new_world_state_root = HashOutTarget::read_at(public_inputs_t, pos + 12);
        let old_block_headers_root = HashOutTarget::read_at(public_inputs_t, pos + 16);
        let new_block_headers_root = HashOutTarget::read_at(public_inputs_t, pos + 20);
        let block_hash = HashOutTarget::read_at(public_inputs_t, pos + 24);
        let r = BlockProductionPublicInputsTarget {
            address_list,
            deposit_list,
            old_account_tree_root,
            new_account_tree_root,
            old_world_state_root,
            new_world_state_root,
            old_block_headers_root,
            new_block_headers_root,
            block_hash,
        };
        let ghost s = public_inputs_t@;
        let ghost base = 5 * N_TXS;
        let ghost roots_start = base + 13 * N_DEPOSITS;
        proof {
            assert forall|i: int| 0 <= i < N_TXS implies s.subrange(0, base).subrange(5 * i, 5 * i + 5)
                == (#[trigger] r.address_list@[i]).spec_encode() by {
                assert(s.subrange(0, base).subrange(5 * i, 5 * i + 5) =~= s.subrange(5 * i, 5 * i + 5));
            }
            lemma_sender_targets_from_chunks(r.address_list@, s.subrange(0, base));
            assert forall|i: int| 0 <= i < N_DEPOSITS implies s.subrange(base, roots_start).subrange(
                13 * i,
                13 * i + 13,
            ) == (#[trigger] r.deposit_list@[i]).spec_encode() by {
                assert(s.subrange(base, roots_start).subrange(13 * i, 13 * i + 13) =~= s.subrange(
                    base + 13 * i,
                    base + 13 * i + 13,
                ));
            }
            lemma_deposit_targets_from_chunks(r.deposit_list@, s.subrange(base, roots_start));
            assert(r.roots_encoding() =~= s.subrange(roots_start, roots_start + 28));
            assert(s =~= s.subrange(0, base) + s.subrange(base, roots_start) + s.subrange(
                roots_start,
                roots_start + 28,
            ));
        }
        r
    }

    /// The entry targets of a block: the `k`-th user transaction's sender with
    /// the `k`-th signature flag, for as many slots as there are both.
    pub fn make_address_list(
        user_transactions: &[MergeAndPurgeTransitionPublicInputsTarget],
        signature_flags: &[BoolTarget],
    ) -> (r: Vec<TransactionSenderWithValidityTarget>)
        ensures
            r@.len() == if user_transactions@.len() <= signature_flags@.len() {
                user_transactions@.len()
            } else {
                signature_flags@.len()
            },
            forall|k: int|
                0 <= k < r@.len() ==> (#[trigger] r@[k]).sender_address
                    == user_transactions@[k].sender_address && r@[k].is_valid
                    == signature_flags@[k],
    {
        let n_users = user_transactions.len();
        let n_flags = signature_flags.len();
        let n = if n_users <= n_flags { n_users } else { n_flags };
        let mut r: Vec<TransactionSenderWithValidityTarget> = Vec::new();
        let mut k: usize = 0;
        while k < n
            invariant
                n_users == user_transactions@.len(),
                n_flags == signature_flags@.len(),
                n <= n_users,
                n <= n_flags,
                k <= n,
                r@.len() == k,
                forall|i: int|
                    0 <= i < k ==> (#[trigger] r@[i]).sender_address
                        == user_transactions@[i].sender_address && r@[i].is_valid
                        == signature_flags@[i],
            decreases n - k,
        {
            r.push(
                TransactionSenderWithValidityTarget {
                    sender_address: user_transactions[k].sender_address,
                    is_valid: signature_flags[k],
                },
            );
            k = k + 1;
        }
        r
    }

    /// Whether the witness `w` gives each target the matching value of `x`:
    /// each entry's and each deposit's targets, read through `w`, are its
    /// encoding (a validity target reads as `0` or `1`), and so are the roots',
    /// the old and new block-headers roots standing for the old and new digests
    /// of the previous block headers.
    pub open spec fn witnessed_as(
        &self,
        w: spec_fn(Target) -> u64,
        x: &BlockProductionPublicInputs<N_TXS, N_DEPOSITS>,
    ) -> bool {
        &&& self.has_slot_lengths()
        &&& x.address_list@.len() == N_TXS
        &&& x.deposit_list@.len() == N_DEPOSITS
        &&& forall|k: int|
            0 <= k < N_TXS ==> (#[trigger] self.address_list@[k]).spec_encode().map_values(w)
                == x.address_list@[k].spec_encode()
        &&& forall|k: int|
            0 <= k < N_DEPOSITS ==> (#[trigger] self.deposit_list@[k]).spec_encode().map_values(w)
                == x.deposit_list@[k].spec_encode()
        &&& self.roots_encoding().map_values(w) == x.roots_encoding()
    }

    /// The circuit and native encodings share one layout: where the witness
    /// gives each target the matching value of `x`, the target encoding read
    /// through the witness is the native encoding of `x`, so the in-circuit
    /// entry hash and the native one hash the same elements.
    pub proof fn lemma_encoding_under_witness(
        t: Self,
        w: spec_fn(Target) -> u64,
        x: BlockProductionPublicInputs<N_TXS, N_DEPOSITS>,
    )
        requires
            t.witnessed_as(w, &x),
        ensures
            t.spec_encode().map_values(w) == x.spec_encode(),
    {
        lemma_sender_targets_encoding(t.address_list@);
        lemma_deposit_targets_encoding(t.deposit_list@);
        let st = sender_targets_encoding(t.address_list@);
        let dt = deposit_targets_encoding(t.deposit_list@);
        let sm = st.map_values(w);
        let dm = dt.map_values(w);
        assert forall|k: int| 0 <= k < N_TXS implies sm.subrange(5 * k, 5 * k + 5)
            == (#[trigger] x.address_list@[k]).spec_encode() by {
            assert(sm.subrange(5 * k, 5 * k + 5) =~= st.subrange(5 * k, 5 * k + 5).map_values(w));
            assert(st.subrange(5 * k, 5 * k + 5) == t.address_list@[k].spec_encode());
        }
        lemma_senders_encoding_from_chunks(x.address_list@, sm);
        assert forall|k: int| 0 <= k < N_DEPOSITS implies dm.subrange(13 * k, 13 * k + 13)
            == (#[trigger] x.deposit_list@[k]).spec_encode() by {
            assert(dm.subrange(13 * k, 13 * k + 13) =~= dt.subrange(13 * k, 13 * k + 13).map_values(w));
            assert(dt.subrange(13 * k, 13 * k + 13) == t.deposit_list@[k].spec_encode());
        }
        lemma_deposits_encoding_from_chunks(x.deposit_list@, dm);
        assert(t.spec_encode().map_values(w) =~= sm + dm + t.roots_encoding().map_values(w));
        assert(zeros(0) =~= seq![]);
        assert(x.spec_encode() =~= senders_encoding(x.address_list@) + deposits_encoding(x.deposit_list@)
            + x.roots_encoding());
    }

    /// Where `encode` writes each target, in the native layout: entry `k`'s
    /// address at the four targets from `5 * k`, then its validity target;
    /// deposit `k`'s receiver, contract, variable index and amount at the
    /// thirteen from `5 * N_TXS + 13 * k`; from `5 * N_TXS + 13 * N_DEPOSITS`,
    /// four each, the old and the new account-tree roots, the old and the new
    /// world-state roots, the old and the new block-headers roots, and the
    /// block hash.
    pub proof fn lemma_encode_layout(x: Self)
        requires
            x.has_slot_lengths(),
        ensures
            x.spec_encode().len() == 5 * N_TXS + 13 * N_DEPOSITS + 28,
            forall|k: int|
                0 <= k < N_TXS ==> x.spec_encode().subrange(5 * k, 5 * k + 4)
                    == (#[trigger] x.address_list@[k]).sender_address.elements@
                    && x.spec_encode()[5 * k + 4] == x.address_list@[k].is_valid.target,
            forall|k: int|
                0 <= k < N_DEPOSITS ==> {
                    &&& x.spec_encode().subrange(5 * N_TXS + 13 * k, 5 * N_TXS + 13 * k + 4)
                        == (#[trigger] x.deposit_list@[k]).receiver_address.0.elements@
                    &&& x.spec_encode().subrange(5 * N_TXS + 13 * k + 4, 5 * N_TXS + 13 * k + 8)
                        == x.deposit_list@[k].contract_address.0.elements@
                    &&& x.spec_encode().subrange(5 * N_TXS + 13 * k + 8, 5 * N_TXS + 13 * k + 12)
                        == x.deposit_list@[k].variable_index.elements@
                    &&& x.spec_encode()[5 * N_TXS + 13 * k + 12] == x.deposit_list@[k].amount
                },
            x.spec_encode().subrange(5 * N_TXS + 13 * N_DEPOSITS, 5 * N_TXS + 13 * N_DEPOSITS + 4)
                == x.old_account_tree_root.elements@,
            x.spec_encode().subrange(5 * N_TXS + 13 * N_DEPOSITS + 4, 5 * N_TXS + 13 * N_DEPOSITS + 8)
                == x.new_account_tree_root.elements@,
            x.spec_encode().subrange(5 * N_TXS + 13 * N_DEPOSITS + 8, 5 * N_TXS + 13 * N_DEPOSITS + 12)
                == x.old_world_state_root.elements@,
            x.spec_encode().subrange(5 * N_TXS + 13 * N_DEPOSITS + 12, 5 * N_TXS + 13 * N_DEPOSITS + 16)
                == x.new_world_state_root.elements@,
            x.spec_encode().subrange(5 * N_TXS + 13 * N_DEPOSITS + 16, 5 * N_TXS + 13 * N_DEPOSITS + 20)
                == x.old_block_headers_root.elements@,
            x.spec_encode().subrange(5 * N_TXS + 13 * N_DEPOSITS + 20, 5 * N_TXS + 13 * N_DEPOSITS + 24)
                == x.new_block_headers_root.elements@,
            x.spec_encode().subrange(5 * N_TXS + 13 * N_DEPOSITS + 24, 5 * N_TXS + 13 * N_DEPOSITS + 28)
                == x.block_hash.elements@,
    {
        let d = 5 * N_TXS;
        let b = 5 * N_TXS + 13 * N_DEPOSITS;
        let senders = sender_targets_encoding(x.address_list@);
        let deposits = deposit_targets_encoding(x.deposit_list@);
        let e = x.spec_encode();
        lemma_sender_targets_encoding(x.address_list@);
        lemma_deposit_targets_encoding(x.deposit_list@);
        assert forall|k: int| 0 <= k < N_TXS implies e.subrange(5 * k, 5 * k + 4)
            == (#[trigger] x.address_list@[k]).sender_address.elements@
            && e[5 * k + 4] == x.address_list@[k].is_valid.target by {
            let c = x.address_list@[k].spec_encode();
            assert(senders.subrange(5 * k, 5 * k + 5) == c);
            assert(e.subrange(5 * k, 5 * k + 4) =~= c.subrange(0, 4));
            assert(c.subrange(0, 4) =~= x.address_list@[k].sender_address.elements@);
            assert(e[5 * k + 4] == c[4]);
        }
        assert forall|k: int| 0 <= k < N_DEPOSITS implies {
            &&& e.subrange(d + 13 * k, d + 13 * k + 4) == (#[trigger] x.deposit_list@[k]).receiver_address.0.elements@
            &&& e.subrange(d + 13 * k + 4, d + 13 * k + 8) == x.deposit_list@[k].contract_address.0.elements@
            &&& e.subrange(d + 13 * k + 8, d + 13 * k + 12) == x.deposit_list@[k].variable_index.elements@
            &&& e[d + 13 * k + 12] == x.deposit_list@[k].amount
        } by {
            let c = x.deposit_list@[k].spec_encode();
            assert(deposits.subrange(13 * k, 13 * k + 13) == c);
            assert(e.subrange(d + 13 * k, d + 13 * k + 4) =~= c.subrange(0, 4));
            assert(e.subrange(d + 13 * k + 4, d + 13 * k + 8) =~= c.subrange(4, 8));
            assert(e.subrange(d + 13 * k + 8, d + 13 * k + 12) =~= c.subrange(8, 12));
            assert(e[d + 13 * k + 12] == c[12]);
            assert(c.subrange(0, 4) =~= x.deposit_list@[k].receiver_address.0.elements@);
            assert(c.subrange(4, 8) =~= x.deposit_list@[k].contract_address.0.elements@);
            assert(c.subrange(8, 12) =~= x.deposit_list@[k].variable_index.elements@);
        }
        assert(e.subrange(b, b + 4) =~= x.old_account_tree_root.elements@);
        assert(e.subrange(b + 4, b + 8) =~= x.new_account_tree_root.elements@);
        assert(e.subrange(b + 8, b + 12) =~= x.old_world_state_root.elements@);
        assert(e.subrange(b + 12, b + 16) =~= x.new_world_state_root.elements@);
        assert(e.subrange(b + 16, b + 20) =~= x.old_block_headers_root.elements@);
        assert(e.subrange(b + 20, b + 24) =~= x.new_block_headers_root.elements@);
        assert(e.subrange(b + 24, b + 28) =~= x.block_hash.elements@);
    }

    /// Where `decode` reads each target from, in the native layout: entry `k`
    /// from the five targets at `5 * k`, deposit `k` from the thirteen at
    /// `5 * N_TXS + 13 * k`, and the old and new account-tree roots, the old and
    /// new world-state roots, the old and new block-headers roots and the block
    /// hash from the four-target groups at `5 * N_TXS + 13 * N_DEPOSITS`.
    pub proof fn lemma_decode_layout(s: Seq<Target>, r: Self)
        requires
            r.has_slot_lengths(),
            r.spec_encode() == s,
        ensures
            forall|k: int|
                0 <= k < N_TXS ==> (#[trigger] r.address_list@[k]).sender_address.elements@
                    == s.subrange(5 * k, 5 * k + 4) && r.address_list@[k].is_valid.target == s[5 * k + 4],
            forall|k: int|
                0 <= k < N_DEPOSITS ==> {
                    &&& (#[trigger] r.deposit_list@[k]).receiver_address.0.elements@ == s.subrange(
                        5 * N_TXS + 13 * k,
                        5 * N_TXS + 13 * k + 4,
                    )
                    &&& r.deposit_list@[k].contract_address.0.elements@ == s.subrange(
                        5 * N_TXS + 13 * k + 4,
                        5 * N_TXS + 13 * k + 8,
                    )
                    &&& r.deposit_list@[k].variable_index.elements@ == s.subrange(
                        5 * N_TXS + 13 * k + 8,
                        5 * N_TXS + 13 * k + 12,
                    )
                    &&& r.deposit_list@[k].amount == s[5 * N_TXS + 13 * k + 12]
                },
            r.old_account_tree_root.elements@ == s.subrange(5 * N_TXS + 13 * N_DEPOSITS, 5 * N_TXS + 13 * N_DEPOSITS + 4),
            r.new_account_tree_root.elements@ == s.subrange(5 * N_TXS + 13 * N_DEPOSITS + 4, 5 * N_TXS + 13 * N_DEPOSITS + 8),
            r.old_world_state_root.elements@ == s.subrange(5 * N_TXS + 13 * N_DEPOSITS + 8, 5 * N_TXS + 13 * N_DEPOSITS + 12),
            r.new_world_state_root.elements@ == s.subrange(5 * N_TXS + 13 * N_DEPOSITS + 12, 5 * N_TXS + 13 * N_DEPOSITS + 16),
            r.old_block_headers_root.elements@ == s.subrange(5 * N_TXS + 13 * N_DEPOSITS + 16, 5 * N_TXS + 13 * N_DEPOSITS + 20),
            r.new_block_headers_root.elements@ == s.subrange(5 * N_TXS + 13 * N_DEPOSITS + 20, 5 * N_TXS + 13 * N_DEPOSITS + 24),
            r.block_hash.elements@ == s.subrange(5 * N_TXS + 13 * N_DEPOSITS + 24, 5 * N_TXS + 13 * N_DEPOSITS + 28),
    {
        Self::lemma_encode_layout(r);
    }

    /// Targets with one entry and one deposit per slot and the same encoding
    /// are the same: decoding what `encode` writes gives back what was encoded.
    pub proof fn lemma_decode_encode(x: Self, r: Self)
        requires
            x.has_slot_lengths(),
            r.has_slot_lengths(),
            r.spec_encode() == x.spec_encode(),
        ensures
            r.address_list@ == x.address_list@,
            r.deposit_list@ == x.deposit_list@,
            r.old_account_tree_root == x.old_account_tree_root,
            r.new_account_tree_root == x.new_account_tree_root,
            r.old_world_state_root == x.old_world_state_root,
            r.new_world_state_root == x.new_world_state_root,
            r.old_block_headers_root == x.old_block_headers_root,
            r.new_block_headers_root == x.new_block_headers_root,
            r.block_hash == x.block_hash,
    {
        let e = r.spec_encode();
        lemma_sender_targets_encoding(r.address_list@);
        lemma_sender_targets_encoding(x.address_list@);
        lemma_deposit_targets_encoding(r.deposit_list@);
        lemma_deposit_targets_encoding(x.deposit_list@);
        let rs = sender_targets_encoding(r.address_list@);
        let xs = sender_targets_encoding(x.address_list@);
        let rd = deposit_targets_encoding(r.deposit_list@);
        let xd = deposit_targets_encoding(x.deposit_list@);
        let base = 5 * N_TXS;
        let roots_start = base + 13 * N_DEPOSITS;
        assert(rs =~= e.subrange(0, base));
        assert(xs =~= e.subrange(0, base));
        assert(rd =~= e.subrange(base, roots_start));
        assert(xd =~= e.subrange(base, roots_start));
        assert(r.roots_encoding() =~= e.subrange(roots_start, roots_start + 28));
        assert(x.roots_encoding() =~= e.subrange(roots_start, roots_start + 28));
        assert forall|k: int| 0 <= k < N_TXS implies r.address_list@[k] == x.address_list@[k] by {
            assert(r.address_list@[k].spec_encode() == x.address_list@[k].spec_encode());
            lemma_sender_target_injective(r.address_list@[k], x.address_list@[k]);
        }
        assert(r.address_list@ =~= x.address_list@);
        assert forall|k: int| 0 <= k < N_DEPOSITS implies r.deposit_list@[k] == x.deposit_list@[k] by {
            assert(r.deposit_list@[k].spec_encode() == x.deposit_list@[k].spec_encode());
            lemma_deposit_target_injective(r.deposit_list@[k], x.deposit_list@[k]);
        }
        assert(r.deposit_list@ =~= x.deposit_list@);
        let f = r.roots_encoding();
        let g = x.roots_encoding();
        assert(f.subrange(0, 4) =~= r.old_account_tree_root.elements@);
        assert(g.subrange(0, 4) =~= x.old_account_tree_root.elements@);
        assert(f.subrange(4, 8) =~= r.new_account_tree_root.elements@);
        assert(g.subrange(4, 8) =~= x.new_account_tree_root.elements@);
        assert(f.subrange(8, 12) =~= r.old_world_state_root.elements@);
        assert(g.subrange(8, 12) =~= x.old_world_state_root.elements@);
        assert(f.subrange(12, 16) =~= r.new_world_state_root.elements@);
        assert(g.subrange(12, 16) =~= x.new_world_state_root.elements@);
        assert(f.subrange(16, 20) =~= r.old_block_headers_root.elements@);
        assert(g.subrange(16, 20) =~= x.old_block_headers_root.elements@);
        assert(f.subrange(20, 24) =~= r.new_block_headers_root.elements@);
        assert(g.subrange(20, 24) =~= x.new_block_headers_root.elements@);
        assert(f.subrange(24, 28) =~= r.block_hash.elements@);
        assert(g.subrange(24, 28) =~= x.block_hash.elements@);
        lemma_hash_out_target_eq(r.old_account_tree_root, x.old_account_tree_root);
        lemma_hash_out_target_eq(r.new_account_tree_root, x.new_account_tree_root);
        lemma_hash_out_target_eq(r.old_world_state_root, x.old_world_state_root);
        lemma_hash_out_target_eq(r.new_world_state_root, x.new_world_state_root);
        lemma_hash_out_target_eq(r.old_block_headers_root, x.old_block_headers_root);
        lemma_hash_out_target_eq(r.new_block_headers_root, x.new_block_headers_root);
        lemma_hash_out_target_eq(r.block_hash, x.block_hash);
    }
}

} // verus!
