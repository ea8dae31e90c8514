use intmax_circuits::block_public_inputs::{
    check_entry_hash, BlockProductionPublicInputs, BlockProofError, DepositInfo,
    TransactionSenderWithValidity,
};
use intmax_circuits::field::{Address, HashOut, GOLDILOCKS_ORDER};
use intmax_circuits::transaction::MergeAndPurgeTransitionPublicInputs;
use rand::random;

const N_TXS: usize = 4;
const N_DEPOSITS: usize = 2;

fn random_element() -> u64 {
    random::<u64>() % GOLDILOCKS_ORDER
}

fn random_hash() -> HashOut {
    HashOut { elements: [random_element(), random_element(), random_element(), random_element()] }
}

fn hash(a: u64, b: u64, c: u64, d: u64) -> HashOut {
    HashOut { elements: [a, b, c, d] }
}

fn variable_index(v: u8) -> HashOut {
    HashOut { elements: [v as u64, 0, 0, 0] }
}

fn sample() -> BlockProductionPublicInputs<N_TXS, N_DEPOSITS> {
    BlockProductionPublicInputs {
        address_list: (0..N_TXS as u64)
            .map(|i| TransactionSenderWithValidity {
                sender_address: Address(hash(10 * i + 1, 10 * i + 2, 10 * i + 3, 10 * i + 4)),
                is_valid: i % 2 == 0,
            })
            .collect(),
        deposit_list: (0..N_DEPOSITS as u64)
            .map(|i| DepositInfo {
                receiver_address: Address(hash(100 + i, 101, 102, 103)),
                contract_address: Address(hash(200 + i, 201, 202, 203)),
                variable_index: variable_index(7 + i as u8),
                amount: 1000 + i,
            })
            .collect(),
        old_account_tree_root: hash(301, 302, 303, 304),
        new_account_tree_root: hash(311, 312, 313, 314),
        old_world_state_root: hash(321, 322, 323, 324),
        new_world_state_root: hash(331, 332, 333, 334),
        old_prev_block_header_digest: hash(341, 342, 343, 344),
        new_prev_block_header_digest: hash(351, 352, 353, 354),
        block_hash: hash(361, 362, 363, 364),
    }
}

#[test]
fn test_encode_block_production_public_inputs() {
    let public_inputs: BlockProductionPublicInputs<N_TXS, N_DEPOSITS> = BlockProductionPublicInputs {
        address_list: (0..N_TXS)
            .map(|_| TransactionSenderWithValidity {
                sender_address: Address(random_hash()),
                is_valid: random(),
            })
            .collect(),
        deposit_list: (0..N_DEPOSITS)
            .map(|_| DepositInfo {
                receiver_address: Address(random_hash()),
                contract_address: Address(random_hash()),
                variable_index: variable_index(random::<u8>()),
                amount: random_element(),
            })
            .collect(),
        old_account_tree_root: random_hash(),
        new_account_tree_root: random_hash(),
        old_world_state_root: random_hash(),
        new_world_state_root: random_hash(),
        old_prev_block_header_digest: random_hash(),
        new_prev_block_header_digest: random_hash(),
        block_hash: random_hash(),
    };
    let encoded_public_inputs = public_inputs.encode();
    let decoded_public_inputs =
        BlockProductionPublicInputs::<N_TXS, N_DEPOSITS>::decode(&encoded_public_inputs);
    assert_eq!(decoded_public_inputs, public_inputs, "invalid entry hash");
}

#[test]
fn encoding_has_the_documented_layout() {
    let x = sample();
    let e = x.encode();
    assert_eq!(e.len(), 5 * N_TXS + 13 * N_DEPOSITS + 28);
    assert_eq!(&e[0..5], &[1, 2, 3, 4, 1]);
    assert_eq!(&e[5..10], &[11, 12, 13, 14, 0]);
    assert_eq!(&e[20..33], &[100, 101, 102, 103, 200, 201, 202, 203, 7, 0, 0, 0, 1000]);
    assert_eq!(&e[46..50], &[301, 302, 303, 304]);
    assert_eq!(&e[70..74], &[361, 362, 363, 364]);
}

#[test]
fn block_decode_inverts_encode() {
    let x = sample();
    let r = BlockProductionPublicInputs::<N_TXS, N_DEPOSITS>::decode(&x.encode());
    assert_eq!(r, x);
}

#[test]
fn encode_inverts_decode_on_boolean_slots() {
    let mut s: Vec<u64> = (0..74u64).map(|i| i * 7 + 3).collect();
    for k in 0..N_TXS {
        s[5 * k + 4] = (k % 2) as u64;
    }
    let r = BlockProductionPublicInputs::<N_TXS, N_DEPOSITS>::decode(&s);
    assert_eq!(r.encode(), s);
}

#[test]
fn short_lists_are_filled_with_defaults() {
    let mut x = sample();
    x.address_list.truncate(1);
    x.deposit_list.clear();
    let e = x.encode();
    assert_eq!(e.len(), 74);
    assert!(e[5..46].iter().all(|v| *v == 0));
    let r = BlockProductionPublicInputs::<N_TXS, N_DEPOSITS>::decode(&e);
    assert_eq!(r.address_list[0], x.address_list[0]);
    assert_eq!(r.address_list.len(), N_TXS);
    for k in 1..N_TXS {
        assert_eq!(r.address_list[k], TransactionSenderWithValidity::default_entry());
    }
    assert_eq!(r.deposit_list, vec![DepositInfo::default_entry(); N_DEPOSITS]);
    assert_eq!(r.block_hash, x.block_hash);
}

#[test]
fn validity_is_read_as_a_nonzero_field_element() {
    let mut s = vec![0u64; 74];
    s[4] = 5;
    s[9] = GOLDILOCKS_ORDER;
    s[14] = GOLDILOCKS_ORDER + 1;
    let r = BlockProductionPublicInputs::<N_TXS, N_DEPOSITS>::decode(&s);
    assert!(r.address_list[0].is_valid);
    assert!(!r.address_list[1].is_valid);
    assert!(r.address_list[2].is_valid);
    assert!(!r.address_list[3].is_valid);
}

#[test]
fn address_list_pairs_senders_with_signatures_and_pads() {
    let tx = |i: u64| {
        let mut p = MergeAndPurgeTransitionPublicInputs::default_with_tx_hash(hash(0, 0, 0, 0));
        p.sender_address = Address(hash(i, i, i, i));
        p
    };
    let users = vec![tx(1), tx(2), tx(3)];
    let signatures = vec![true, false];
    let r = BlockProductionPublicInputs::<N_TXS, N_DEPOSITS>::make_address_list(&users, &signatures);
    assert_eq!(r.len(), N_TXS);
    assert_eq!(r[0], TransactionSenderWithValidity { sender_address: Address(hash(1, 1, 1, 1)), is_valid: true });
    assert_eq!(r[1], TransactionSenderWithValidity { sender_address: Address(hash(2, 2, 2, 2)), is_valid: false });
    assert_eq!(r[2], TransactionSenderWithValidity::default_entry());
    assert_eq!(r[3], TransactionSenderWithValidity::default_entry());

    let many: Vec<_> = (1..7).map(tx).collect();
    let r = BlockProductionPublicInputs::<N_TXS, N_DEPOSITS>::make_address_list(&many, &[true; 6]);
    assert_eq!(r.len(), N_TXS);
    assert_eq!(r[3].sender_address, Address(hash(4, 4, 4, 4)));
}

#[test]
fn entry_hash_check() {
    let h = hash(1, 2, 3, 4);
    assert_eq!(check_entry_hash(&[1, 2, 3, 4], &h), Ok(()));
    assert_eq!(check_entry_hash(&[1, 2, 3, 4 + GOLDILOCKS_ORDER], &h), Ok(()));
    assert_eq!(check_entry_hash(&[1, 2, 3], &h), Err(BlockProofError::InvalidPublicInputsLength));
    assert_eq!(
        check_entry_hash(&[1, 2, 3, 4, 5], &h),
        Err(BlockProofError::InvalidPublicInputsLength)
    );
    assert_eq!(check_entry_hash(&[1, 2, 9, 4], &h), Err(BlockProofError::InvalidEntryHash));
}
