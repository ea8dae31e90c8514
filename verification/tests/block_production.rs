use intmax_circuits::block_production::{
    block_headers_leaves, block_witness_public_inputs, make_block_header, make_deposit_list,
    proof_slot_flags, signature_slot_flags, BlockHeader, DepositWitness,
};
use intmax_circuits::block_public_inputs::{DepositInfo, TransactionSenderWithValidity};
use intmax_circuits::field::{Address, HashOut, GOLDILOCKS_ORDER};
use intmax_circuits::rollup::{
    deposit_tree_leaves, make_deposit_list_target, registered_public_inputs, BlockHeaderTarget,
    DepositWitnessTarget, MerkleProofTarget,
};
use intmax_circuits::block_public_inputs_target::BlockProductionPublicInputsTarget;
use intmax_circuits::target::{AddressTarget, HashOutTarget, Target};
use intmax_circuits::transaction::MergeAndPurgeTransitionPublicInputs;

fn hash(a: u64) -> HashOut {
    HashOut { elements: [a, a + 1, a + 2, a + 3] }
}

fn header(base: u64, number: u32) -> BlockHeader {
    make_block_header(number, hash(base), hash(base + 10), hash(base + 20), hash(base + 30), hash(base + 40), hash(base + 50), hash(base + 60))
}

fn v(index: usize) -> Target {
    Target::VirtualTarget { index }
}

fn h(start: usize) -> HashOutTarget {
    HashOutTarget { elements: [v(start), v(start + 1), v(start + 2), v(start + 3)] }
}

#[test]
fn block_header_fields_are_placed() {
    let b = header(100, 7);
    assert_eq!(b.block_number, 7);
    assert_eq!(b.prev_block_hash, hash(100));
    assert_eq!(b.transactions_digest, hash(110));
    assert_eq!(b.deposit_digest, hash(120));
    assert_eq!(b.proposed_world_state_digest, hash(130));
    assert_eq!(b.approved_world_state_digest, hash(140));
    assert_eq!(b.latest_account_digest, hash(150));
    assert_eq!(b.block_headers_digest, hash(160));
}

#[test]
fn deposits_are_read_from_keys_and_padded() {
    let d = DepositWitness { receiver_key: hash(1), contract_key: hash(5), variable_key: hash(9), amount: 42 };
    let r = make_deposit_list(&[d], 3);
    assert_eq!(r.len(), 3);
    assert_eq!(r[0], DepositInfo { receiver_address: Address(hash(1)), contract_address: Address(hash(5)), variable_index: hash(9), amount: 42 });
    assert_eq!(r[1], DepositInfo::default_entry());
    assert_eq!(r[2], DepositInfo::default_entry());
    assert_eq!(make_deposit_list(&[d, d, d], 2).len(), 2);
}

#[test]
fn proof_slots_hold_real_proofs_first() {
    assert_eq!(proof_slot_flags(2, 4), vec![true, true, false, false]);
    assert_eq!(proof_slot_flags(0, 2), vec![false, false]);
    assert_eq!(signature_slot_flags(&[true, false, true], 4), vec![true, false, true, false]);
}

#[test]
fn block_witness_public_inputs_take_roots_from_headers() {
    let prev = header(0, 3);
    let next = header(1000, 4);
    let tx = |i: u64| {
        MergeAndPurgeTransitionPublicInputs::from_transition(Address(hash(i)), hash(0), hash(0), hash(0), hash(0), hash(0))
    };
    let users = vec![tx(500), tx(600)];
    let deposits = vec![DepositWitness { receiver_key: hash(7), contract_key: hash(8), variable_key: hash(9), amount: 10 }];
    let mut digest = prev.block_headers_digest;
    digest.elements[1] += GOLDILOCKS_ORDER;
    let r = block_witness_public_inputs::<4, 2>(&prev, &next, hash(9000), digest, &users, &[true, false], &deposits);
    assert_eq!(r.address_list.len(), 4);
    assert_eq!(r.address_list[0], TransactionSenderWithValidity { sender_address: Address(hash(500)), is_valid: true });
    assert_eq!(r.address_list[1], TransactionSenderWithValidity { sender_address: Address(hash(600)), is_valid: false });
    assert_eq!(r.address_list[2], TransactionSenderWithValidity::default_entry());
    assert_eq!(r.deposit_list.len(), 2);
    assert_eq!(r.deposit_list[0].amount, 10);
    assert_eq!(r.deposit_list[1], DepositInfo::default_entry());
    assert_eq!(r.old_account_tree_root, prev.latest_account_digest);
    assert_eq!(r.new_account_tree_root, next.latest_account_digest);
    assert_eq!(r.old_world_state_root, prev.approved_world_state_digest);
    assert_eq!(r.new_world_state_root, next.approved_world_state_digest);
    assert_eq!(r.old_prev_block_header_digest, prev.block_headers_digest);
    assert_eq!(r.new_prev_block_header_digest, next.block_headers_digest);
    assert_eq!(r.block_hash, hash(9000));
}

#[test]
fn digests_compare_as_field_elements() {
    let a = hash(3);
    let mut b = a;
    b.elements[3] += GOLDILOCKS_ORDER;
    assert!(a.field_eq(&b));
    b.elements[0] += 1;
    assert!(!a.field_eq(&b));
}

#[test]
fn block_headers_leaves_end_with_the_previous_hash() {
    let r = block_headers_leaves(3, hash(77));
    assert_eq!(r.len(), 4);
    assert_eq!(r[0], HashOut::default());
    assert_eq!(r[2], HashOut::default());
    assert_eq!(r[3], hash(77));
    assert_eq!(block_headers_leaves(0, hash(1)), vec![hash(1)]);
}

#[test]
fn header_targets_are_wired_to_the_gadget_roots() {
    let prev = BlockHeaderTarget::previous(v(1), h(10), h(20), h(30), h(40), h(50), h(60));
    assert_eq!(prev.block_number, v(1));
    assert_eq!(prev.approved_world_state_digest, h(50));
    assert_eq!(prev.latest_account_digest, h(60));
    let next = BlockHeaderTarget::new_block(v(2), h(100), h(110), h(120), h(130), h(140), h(150));
    assert_eq!(next.block_headers_digest, h(100));
    assert_eq!(next.approved_world_state_digest, h(140));
    let proof = MerkleProofTarget::block_headers_proof(&prev, vec![h(200)], h(210), h(100));
    assert_eq!(proof.index, v(1));
    assert_eq!(proof.value, h(210));
    let deposits = make_deposit_list_target(&[DepositWitnessTarget { receiver_key: h(300), contract_key: h(304), variable_key: h(308), amount: v(312) }]);
    assert_eq!(deposits.len(), 1);
    assert_eq!(deposits[0].receiver_address, AddressTarget(h(300)));
    let t = BlockProductionPublicInputsTarget::<0, 1>::from_headers(vec![], deposits, &prev, &next, h(400));
    assert_eq!(t.old_account_tree_root, h(60));
    assert_eq!(t.new_account_tree_root, h(150));
    assert_eq!(t.old_world_state_root, h(50));
    assert_eq!(t.new_world_state_root, h(140));
    assert_eq!(t.old_block_headers_root, h(10));
    assert_eq!(t.new_block_headers_root, h(100));
    assert_eq!(t.block_hash, h(400));
}

#[test]
fn deposit_leaves_and_registered_inputs() {
    let leaves = deposit_tree_leaves(h(0), v(99), 4);
    assert_eq!(leaves.len(), 4);
    assert_eq!(leaves[0], h(0));
    assert_eq!(leaves[3], HashOutTarget { elements: [v(99); 4] });
    assert!(deposit_tree_leaves(h(0), v(99), 0).is_empty());
    assert_eq!(registered_public_inputs(&h(5)), vec![v(5), v(6), v(7), v(8)]);
}
