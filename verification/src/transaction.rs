use vstd::prelude::*;

use crate::field::{lemma_hash_out_eq, Address, HashOut};
use crate::target::{lemma_hash_out_target_eq, HashOutTarget, Target};

verus! {

/// The public inputs of a user's merge-and-purge transition proof.
#[derive(Clone, Copy, Debug, PartialEq, Eq)]
pub struct MergeAndPurgeTransitionPublicInputs {
    pub sender_address: Address,
    pub old_user_asset_root: HashOut,
    pub middle_user_asset_root: HashOut,
    pub new_user_asset_root: HashOut,
    pub diff_root: HashOut,
    pub tx_hash: HashOut,
}

impl MergeAndPurgeTransitionPublicInputs {
    /// The 24 public inputs in the order the circuit registers them: the old,
    /// middle and new asset roots, the diff root, the sender and the transaction hash.
    pub open spec fn spec_encode(&self) -> Seq<u64> {
        self.old_user_asset_root.elements@ + self.middle_user_asset_root.elements@
            + self.new_user_asset_root.elements@ + self.diff_root.elements@
            + self.sender_address.0.elements@ + self.tx_hash.elements@
    }

    pub fn encode(&self) -> (r: Vec<u64>)
        ensures
            r@ == self.spec_encode(),
            r@.len() == 24,
    {
        let mut public_inputs: Vec<u64> = Vec::new();
        self.old_user_asset_root.write(&mut public_inputs);
        self.middle_user_asset_root.write(&mut public_inputs);
        self.new_user_asset_root.write(&mut public_inputs);
        self.diff_root.write(&mut public_inputs);
        self.sender_address.0.write(&mut public_inputs);
        self.tx_hash.write(&mut public_inputs);
        assert(public_inputs@ =~= self.spec_encode());
        public_inputs
    }

    pub fn decode(public_inputs: &[u64]) -> (r: Self)
        requires
            public_inputs@.len() == 24,
        ensures
            r.spec_encode() == public_inputs@,
    {
        let old_user_asset_root = HashOut::read_at(public_inputs, 0);
        let middle_user_asset_root = HashOut::read_at(public_inputs, 4);
        let new_user_asset_root = HashOut::read_at(public_inputs, 8);
        let diff_root = HashOut::read_at(public_inputs, 12);
        let sender_address = Address(HashOut::read_at(public_inputs, 16));
        let tx_hash = HashOut::read_at(public_inputs, 20);
        let r = MergeAndPurgeTransitionPublicInputs {
            sender_address,
            old_user_asset_root,
            middle_user_asset_root,
            new_user_asset_root,
            diff_root,
            tx_hash,
        };
        assert(r.spec_encode() =~= public_inputs@);
        r
    }

    /// The public inputs that setting the witness of a user transaction yields:
    /// the sender, the asset root before the merge, the root the merge leads to,
    /// and the purge's new root, diff root and transaction hash.
    pub fn from_transition(
        sender_address: Address,
        old_user_asset_root: HashOut,
        merge_new_user_asset_root: HashOut,
        purge_new_user_asset_root: HashOut,
        purge_diff_root: HashOut,
        purge_tx_hash: HashOut,
    ) -> (r: Self)
        ensures
            r.sender_address == sender_address,
            r.old_user_asset_root == old_user_asset_root,
            r.middle_user_asset_root == merge_new_user_asset_root,
            r.new_user_asset_root == purge_new_user_asset_root,
            r.diff_root == purge_diff_root,
            r.tx_hash == purge_tx_hash,
    {
        MergeAndPurgeTransitionPublicInputs {
            sender_address,
            old_user_asset_root,
            middle_user_asset_root: merge_new_user_asset_root,
            new_user_asset_root: purge_new_user_asset_root,
            diff_root: purge_diff_root,
            tx_hash: purge_tx_hash,
        }
    }

    /// The public inputs of the default transaction, whose diff root and nonce
    /// are the zero hash, given `tx_hash`, the Poseidon two-to-one hash of those
    /// two zero hashes: every hash is zero but the transaction hash.
    pub fn default_with_tx_hash(tx_hash: HashOut) -> (r: Self)
        ensures
            r.sender_address.0.elements@ == seq![0u64, 0u64, 0u64, 0u64],
            r.old_user_asset_root.elements@ == seq![0u64, 0u64, 0u64, 0u64],
            r.middle_user_asset_root.elements@ == seq![0u64, 0u64, 0u64, 0u64],
            r.new_user_asset_root.elements@ == seq![0u64, 0u64, 0u64, 0u64],
            r.diff_root.elements@ == seq![0u64, 0u64, 0u64, 0u64],
            r.tx_hash == tx_hash,
    {
        MergeAndPurgeTransitionPublicInputs {
            sender_address: Address(HashOut::zero()),
            old_user_asset_root: HashOut::zero(),
            middle_user_asset_root: HashOut::zero(),
            new_user_asset_root: HashOut::zero(),
            diff_root: HashOut::zero(),
            tx_hash,
        }
    }

    fn assignment_order_value_list(&self) -> (r: Vec<u64>)
        ensures
            r@ == assignment_order_values(self),
            r@.len() == 24,
    {
        let mut r: Vec<u64> = Vec::new();
        self.sender_address.0.write(&mut r);
        self.old_user_asset_root.write(&mut r);
        self.middle_user_asset_root.write(&mut r);
        self.new_user_asset_root.write(&mut r);
        self.diff_root.write(&mut r);
        self.tx_hash.write(&mut r);
        assert(r@ =~= assignment_order_values(self));
        r
    }

    /// Where `encode` writes each hash, and where `decode` reads it from: the
    /// old asset root at 0, the middle root at 4, the new root at 8, the diff
    /// root at 12, the sender's address at 16 and the transaction hash at 20.
    pub proof fn lemma_layout(x: Self)
        ensures
            x.spec_encode().len() == 24,
            x.spec_encode().subrange(0, 4) == x.old_user_asset_root.elements@,
            x.spec_encode().subrange(4, 8) == x.middle_user_asset_root.elements@,
            x.spec_encode().subrange(8, 12) == x.new_user_asset_root.elements@,
            x.spec_encode().subrange(12, 16) == x.diff_root.elements@,
            x.spec_encode().subrange(16, 20) == x.sender_address.0.elements@,
            x.spec_encode().subrange(20, 24) == x.tx_hash.elements@,
    {
        let e = x.spec_encode();
        assert(e.subrange(0, 4) =~= x.old_user_asset_root.elements@);
        assert(e.subrange(4, 8) =~= x.middle_user_asset_root.elements@);
        assert(e.subrange(8, 12) =~= x.new_user_asset_root.elements@);
        assert(e.subrange(12, 16) =~= x.diff_root.elements@);
        assert(e.subrange(16, 20) =~= x.sender_address.0.elements@);
        assert(e.subrange(20, 24) =~= x.tx_hash.elements@);
    }

    /// Public inputs with the same encoding are the same: decoding what
    /// `encode` writes gives back the public inputs that were encoded.
    pub proof fn lemma_decode_encode(x: Self, r: Self)
        requires
            r.spec_encode() == x.spec_encode(),
        ensures
            r == x,
    {
        let e = r.spec_encode();
        let f = x.spec_encode();
        assert(e.subrange(0, 4) =~= r.old_user_asset_root.elements@);
        assert(f.subrange(0, 4) =~= x.old_user_asset_root.elements@);
        assert(e.subrange(4, 8) =~= r.middle_user_asset_root.elements@);
        assert(f.subrange(4, 8) =~= x.middle_user_asset_root.elements@);
        assert(e.subrange(8, 12) =~= r.new_user_asset_root.elements@);
        assert(f.subrange(8, 12) =~= x.new_user_asset_root.elements@);
        assert(e.subrange(12, 16) =~= r.diff_root.elements@);
        assert(f.subrange(12, 16) =~= x.diff_root.elements@);
        assert(e.subrange(16, 20) =~= r.sender_address.0.elements@);
        assert(f.subrange(16, 20) =~= x.sender_address.0.elements@);
        assert(e.subrange(20, 24) =~= r.tx_hash.elements@);
        assert(f.subrange(20, 24) =~= x.tx_hash.elements@);
        lemma_hash_out_eq(r.old_user_asset_root, x.old_user_asset_root);
        lemma_hash_out_eq(r.middle_user_asset_root, x.middle_user_asset_root);
        lemma_hash_out_eq(r.new_user_asset_root, x.new_user_asset_root);
        lemma_hash_out_eq(r.diff_root, x.diff_root);
        lemma_hash_out_eq(r.sender_address.0, x.sender_address.0);
        lemma_hash_out_eq(r.tx_hash, x.tx_hash);
    }
}

/// The targets of the public inputs of a user's merge-and-purge transition proof.
#[derive(Clone, Copy, Debug, PartialEq, Eq)]
pub struct MergeAndPurgeTransitionPublicInputsTarget {
    pub sender_address: HashOutTarget,
    pub old_user_asset_root: HashOutTarget,
    pub middle_user_asset_root: HashOutTarget,
    pub new_user_asset_root: HashOutTarget,
    pub diff_root: HashOutTarget,
    pub tx_hash: HashOutTarget,
}

impl MergeAndPurgeTransitionPublicInputsTarget {
    /// The 24 public-input targets, in the order of
    /// `MergeAndPurgeTransitionPublicInputs::spec_encode`.
    pub open spec fn spec_encode(&self) -> Seq<Target> {
        self.old_user_asset_root.elements@ + self.middle_user_asset_root.elements@
            + self.new_user_asset_root.elements@ + self.diff_root.elements@
            + self.sender_address.elements@ + self.tx_hash.elements@
    }

    /// The targets in the order the witness is set and the hashes are connected:
    /// sender, old, middle and new asset roots, diff root, transaction hash.
    pub open spec fn assignment_order_targets(&self) -> Seq<Target> {
        self.sender_address.elements@ + self.old_user_asset_root.elements@
            + self.middle_user_asset_root.elements@ + self.new_user_asset_root.elements@
            + self.diff_root.elements@ + self.tx_hash.elements@
    }

    pub fn encode(&self) -> (r: Vec<Target>)
        ensures
            r@ == self.spec_encode(),
            r@.len() == 24,
    {
        let mut public_inputs_t: Vec<Target> = Vec::new();
        self.old_user_asset_root.write(&mut public_inputs_t);
        self.middle_user_asset_root.write(&mut public_inputs_t);
        self.new_user_asset_root.write(&mut public_inputs_t);
        self.diff_root.write(&mut public_inputs_t);
        self.sender_address.write(&mut public_inputs_t);
        self.tx_hash.write(&mut public_inputs_t);
        assert(public_inputs_t@ =~= self.spec_encode());
        public_inputs_t
    }

    pub fn decode(public_inputs_t: &[Target]) -> (r: Self)
        requires
            public_inputs_t@.len() == 24,
        ensures
            r.spec_encode() == public_inputs_t@,
    {
        let old_user_asset_root = HashOutTarget::read_at(public_inputs_t, 0);
        let middle_user_asset_root = HashOutTarget::read_at(public_inputs_t, 4);
        let new_user_asset_root = HashOutTarget::read_at(public_inputs_t, 8);
        let diff_root = HashOutTarget::read_at(public_inputs_t, 12);
        let sender_address = HashOutTarget::read_at(public_inputs_t, 16);
        let tx_hash = HashOutTarget::read_at(public_inputs_t, 20);
        let r = MergeAndPurgeTransitionPublicInputsTarget {
            sender_address,
            old_user_asset_root,
            middle_user_asset_root,
            new_user_asset_root,
            diff_root,
            tx_hash,
        };
        assert(r.spec_encode() =~= public_inputs_t@);
        r
    }

    /// The values that setting the witness of these targets to `public_inputs`
    /// gives each target, in the order they are set: sender, old, middle and new
    /// asset roots, diff root, transaction hash.
    pub fn witness_assignments(&self, public_inputs: &MergeAndPurgeTransitionPublicInputs) -> (r: Vec<(Target, u64)>)
        ensures
            r@.len() == 24,
            forall|i: int|
                0 <= i < 24 ==> #[trigger] r@[i] == (
                    self.assignment_order_targets()[i],
                    assignment_order_values(public_inputs)[i],
                ),
    {
        let lt = self.assignment_order_list();
        let lv = public_inputs.assignment_order_value_list();
        let mut r: Vec<(Target, u64)> = Vec::new();
        let mut i: usize = 0;
        while i < 24
            invariant
                i <= 24,
                lt@ == self.assignment_order_targets(),
                lv@ == assignment_order_values(public_inputs),
                lt@.len() == 24,
                lv@.len() == 24,
                r@.len() == i,
                forall|j: int| 0 <= j < i ==> #[trigger] r@[j] == (lt@[j], lv@[j]),
            decreases 24 - i,
        {
            r.push((lt[i], lv[i]));
            i = i + 1;
        }
        r
    }

    /// The pairs of targets that connecting `a` to `b` constrains to be equal, in
    /// the order they are connected: sender, old, middle and new asset roots,
    /// diff root, transaction hash.
    pub fn connections(a: &Self, b: &Self) -> (r: Vec<(Target, Target)>)
        ensures
            r@.len() == 24,
            forall|i: int|
                0 <= i < 24 ==> #[trigger] r@[i] == (
                    a.assignment_order_targets()[i],
                    b.assignment_order_targets()[i],
                ),
    {
        let la = a.assignment_order_list();
        let lb = b.assignment_order_list();
        let mut r: Vec<(Target, Target)> = Vec::new();
        let mut i: usize = 0;
        while i < 24
            invariant
                i <= 24,
                la@ == a.assignment_order_targets(),
                lb@ == b.assignment_order_targets(),
                la@.len() == 24,
                lb@.len() == 24,
                r@.len() == i,
                forall|j: int| 0 <= j < i ==> #[trigger] r@[j] == (la@[j], lb@[j]),
            decreases 24 - i,
        {
            r.push((la[i], lb[i]));
            i = i + 1;
        }
        r
    }

    /// Where `encode` writes each hash target, and where `decode` reads it
    /// from: the old asset root at 0, the middle root at 4, the new root at 8,
    /// the diff root at 12, the sender's address at 16 and the transaction
    /// hash at 20; and the order in which the witness is set and the hashes
    /// are connected: sender, old, middle and new roots, diff root,
    /// transaction hash.
    pub proof fn lemma_layout(t: Self, x: MergeAndPurgeTransitionPublicInputs)
        ensures
            t.spec_encode().len() == 24,
            t.spec_encode().subrange(0, 4) == t.old_user_asset_root.elements@,
            t.spec_encode().subrange(4, 8) == t.middle_user_asset_root.elements@,
            t.spec_encode().subrange(8, 12) == t.new_user_asset_root.elements@,
            t.spec_encode().subrange(12, 16) == t.diff_root.elements@,
            t.spec_encode().subrange(16, 20) == t.sender_address.elements@,
            t.spec_encode().subrange(20, 24) == t.tx_hash.elements@,
            t.assignment_order_targets().subrange(0, 4) == t.sender_address.elements@,
            t.assignment_order_targets().subrange(4, 8) == t.old_user_asset_root.elements@,
            t.assignment_order_targets().subrange(8, 12) == t.middle_user_asset_root.elements@,
            t.assignment_order_targets().subrange(12, 16) == t.new_user_asset_root.elements@,
            t.assignment_order_targets().subrange(16, 20) == t.diff_root.elements@,
            t.assignment_order_targets().subrange(20, 24) == t.tx_hash.elements@,
            assignment_order_values(&x).subrange(0, 4) == x.sender_address.0.elements@,
            assignment_order_values(&x).subrange(4, 8) == x.old_user_asset_root.elements@,
            assignment_order_values(&x).subrange(8, 12) == x.middle_user_asset_root.elements@,
            assignment_order_values(&x).subrange(12, 16) == x.new_user_asset_root.elements@,
            assignment_order_values(&x).subrange(16, 20) == x.diff_root.elements@,
            assignment_order_values(&x).subrange(20, 24) == x.tx_hash.elements@,
    {
        let e = t.spec_encode();
        assert(e.subrange(0, 4) =~= t.old_user_asset_root.elements@);
        assert(e.subrange(4, 8) =~= t.middle_user_asset_root.elements@);
        assert(e.subrange(8, 12) =~= t.new_user_asset_root.elements@);
        assert(e.subrange(12, 16) =~= t.diff_root.elements@);
        assert(e.subrange(16, 20) =~= t.sender_address.elements@);
        assert(e.subrange(20, 24) =~= t.tx_hash.elements@);
        let f = t.assignment_order_targets();
        assert(f.subrange(0, 4) =~= t.sender_address.elements@);
        assert(f.subrange(4, 8) =~= t.old_user_asset_root.elements@);
        assert(f.subrange(8, 12) =~= t.middle_user_asset_root.elements@);
        assert(f.subrange(12, 16) =~= t.new_user_asset_root.elements@);
        assert(f.subrange(16, 20) =~= t.diff_root.elements@);
        assert(f.subrange(20, 24) =~= t.tx_hash.elements@);
        let g = assignment_order_values(&x);
        assert(g.subrange(0, 4) =~= x.sender_address.0.elements@);
        assert(g.subrange(4, 8) =~= x.old_user_asset_root.elements@);
        assert(g.subrange(8, 12) =~= x.middle_user_asset_root.elements@);
        assert(g.subrange(12, 16) =~= x.new_user_asset_root.elements@);
        assert(g.subrange(16, 20) =~= x.diff_root.elements@);
        assert(g.subrange(20, 24) =~= x.tx_hash.elements@);
    }

    /// Targets with the same encoding are the same: decoding what `encode`
    /// writes gives back the targets that were encoded.
    pub proof fn lemma_decode_encode(x: Self, r: Self)
        requires
            r.spec_encode() == x.spec_encode(),
        ensures
            r == x,
    {
        let e = r.spec_encode();
        let f = x.spec_encode();
        assert(e.subrange(0, 4) =~= r.old_user_asset_root.elements@);
        assert(f.subrange(0, 4) =~= x.old_user_asset_root.elements@);
        assert(e.subrange(4, 8) =~= r.middle_user_asset_root.elements@);
        assert(f.subrange(4, 8) =~= x.middle_user_asset_root.elements@);
        assert(e.subrange(8, 12) =~= r.new_user_asset_root.elements@);
        assert(f.subrange(8, 12) =~= x.new_user_asset_root.elements@);
        assert(e.subrange(12, 16) =~= r.diff_root.elements@);
        assert(f.subrange(12, 16) =~= x.diff_root.elements@);
        assert(e.subrange(16, 20) =~= r.sender_address.elements@);
        assert(f.subrange(16, 20) =~= x.sender_address.elements@);
        assert(e.subrange(20, 24) =~= r.tx_hash.elements@);
        assert(f.subrange(20, 24) =~= x.tx_hash.elements@);
        lemma_hash_out_target_eq(r.old_user_asset_root, x.old_user_asset_root);
        lemma_hash_out_target_eq(r.middle_user_asset_root, x.middle_user_asset_root);
        lemma_hash_out_target_eq(r.new_user_asset_root, x.new_user_asset_root);
        lemma_hash_out_target_eq(r.diff_root, x.diff_root);
        lemma_hash_out_target_eq(r.sender_address, x.sender_address);
        lemma_hash_out_target_eq(r.tx_hash, x.tx_hash);
    }

    /// Whether the witness `w` gives each target the matching element of `x`.
    pub open spec fn witnessed_as(
        &self,
        w: spec_fn(Target) -> u64,
        x: &MergeAndPurgeTransitionPublicInputs,
    ) -> bool {
        &&& self.sender_address.elements@.map_values(w) == x.sender_address.0.elements@
        &&& self.old_user_asset_root.elements@.map_values(w) == x.old_user_asset_root.elements@
        &&& self.middle_user_asset_root.elements@.map_values(w) == x.middle_user_asset_root.elements@
        &&& self.new_user_asset_root.elements@.map_values(w) == x.new_user_asset_root.elements@
        &&& self.diff_root.elements@.map_values(w) == x.diff_root.elements@
        &&& self.tx_hash.elements@.map_values(w) == x.tx_hash.elements@
    }

    /// The circuit and native encodings share one layout: where the witness
    /// gives each target the matching element of `x`, the target encoding read
    /// through the witness is the native encoding of `x`.
    pub proof fn lemma_encoding_under_witness(
        t: Self,
        w: spec_fn(Target) -> u64,
        x: MergeAndPurgeTransitionPublicInputs,
    )
        requires
            t.witnessed_as(w, &x),
        ensures
            t.spec_encode().map_values(w) == x.spec_encode(),
    {
        assert(t.spec_encode().map_values(w) =~= t.old_user_asset_root.elements@.map_values(w)
            + t.middle_user_asset_root.elements@.map_values(w)
            + t.new_user_asset_root.elements@.map_values(w) + t.diff_root.elements@.map_values(w)
            + t.sender_address.elements@.map_values(w) + t.tx_hash.elements@.map_values(w));
    }

    /// Setting the witness of the targets `t` to the public inputs `x` gives the
    /// `i`-th public-input target the `i`-th public input: the assignment at
    /// position `assignment_position(i)` pairs `t.spec_encode()[i]` with
    /// `x.spec_encode()[i]`.
    pub proof fn lemma_witness_matches_encoding(
        t: Self,
        x: MergeAndPurgeTransitionPublicInputs,
        i: int,
    )
        requires
            0 <= i < 24,
        ensures
            0 <= assignment_position(i) < 24,
            t.assignment_order_targets()[assignment_position(i)] == t.spec_encode()[i],
            assignment_order_values(&x)[assignment_position(i)] == x.spec_encode()[i],
    {
        let e = t.spec_encode();
        let f = t.assignment_order_targets();
        let ev = x.spec_encode();
        let fv = assignment_order_values(&x);
        if i < 16 {
            assert(e.subrange(0, 16) =~= f.subrange(4, 20));
            assert(ev.subrange(0, 16) =~= fv.subrange(4, 20));
            assert(e[i] == e.subrange(0, 16)[i]);
            assert(ev[i] == ev.subrange(0, 16)[i]);
        } else if i < 20 {
            assert(e.subrange(16, 20) =~= f.subrange(0, 4));
            assert(ev.subrange(16, 20) =~= fv.subrange(0, 4));
            assert(e[i] == e.subrange(16, 20)[i - 16]);
            assert(ev[i] == ev.subrange(16, 20)[i - 16]);
        } else {
            assert(e.subrange(20, 24) =~= f.subrange(20, 24));
            assert(ev.subrange(20, 24) =~= fv.subrange(20, 24));
            assert(e[i] == e.subrange(20, 24)[i - 20]);
            assert(ev[i] == ev.subrange(20, 24)[i - 20]);
        }
    }

    /// Connecting `a` to `b` pairs the `i`-th public-input target of `a` with
    /// the `i`-th public-input target of `b`, at position `assignment_position(i)`.
    pub proof fn lemma_connections_match_encoding(a: Self, b: Self, i: int)
        requires
            0 <= i < 24,
        ensures
            0 <= assignment_position(i) < 24,
            a.assignment_order_targets()[assignment_position(i)] == a.spec_encode()[i],
            b.assignment_order_targets()[assignment_position(i)] == b.spec_encode()[i],
    {
        Self::lemma_witness_matches_encoding(a, vstd::pervasive::arbitrary(), i);
        Self::lemma_witness_matches_encoding(b, vstd::pervasive::arbitrary(), i);
    }

    fn assignment_order_list(&self) -> (r: Vec<Target>)
        ensures
            r@ == self.assignment_order_targets(),
            r@.len() == 24,
    {
        let mut r: Vec<Target> = Vec::new();
        self.sender_address.write(&mut r);
        self.old_user_asset_root.write(&mut r);
        self.middle_user_asset_root.write(&mut r);
        self.new_user_asset_root.write(&mut r);
        self.diff_root.write(&mut r);
        self.tx_hash.write(&mut r);
        assert(r@ =~= self.assignment_order_targets());
        r
    }
}

/// Where the `i`-th public input stands in the order the witness is set:
/// the sender comes first there, and last but one in the encoding.
pub open spec fn assignment_position(i: int) -> int {
    if i < 16 {
        i + 4
    } else if i < 20 {
        i - 16
    } else {
        i
    }
}

/// The values of the public inputs in the order the witness is set: sender,
/// old, middle and new asset roots, diff root, transaction hash.
pub open spec fn assignment_order_values(x: &MergeAndPurgeTransitionPublicInputs) -> Seq<u64> {
    x.sender_address.0.elements@ + x.old_user_asset_root.elements@
        + x.middle_user_asset_root.elements@ + x.new_user_asset_root.elements@
        + x.diff_root.elements@ + x.tx_hash.elements@
}

/// The targets of the user-transaction circuit: those of its merge gadget and
/// those of its purge gadget.
pub struct MergeAndPurgeTransitionTarget<MergeTarget, PurgeTarget> {
    pub merge_proof_target: MergeTarget,
    pub purge_proof_target: PurgeTarget,
}

} // verus!
