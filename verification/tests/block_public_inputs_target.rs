use intmax_circuits::block_public_inputs_target::{
    BlockProductionPublicInputsTarget, DepositInfoTarget, TransactionSenderWithValidityTarget,
};
use intmax_circuits::block_public_inputs::{
    BlockProductionPublicInputs, DepositInfo, TransactionSenderWithValidity,
};
use intmax_circuits::field::{Address, HashOut};
use intmax_circuits::target::{AddressTarget, BoolTarget, HashOutTarget, Target};
use std::collections::HashMap;
use intmax_circuits::transaction::MergeAndPurgeTransitionPublicInputsTarget;

const N_TXS: usize = 2;
const N_DEPOSITS: usize = 3;

fn v(index: usize) -> Target {
    Target::VirtualTarget { index }
}

fn h(start: usize) -> HashOutTarget {
    HashOutTarget { elements: [v(start), v(start + 1), v(start + 2), v(start + 3)] }
}

fn sample() -> BlockProductionPublicInputsTarget<N_TXS, N_DEPOSITS> {
    BlockProductionPublicInputsTarget {
        address_list: (0..N_TXS)
            .map(|i| TransactionSenderWithValidityTarget {
                sender_address: h(10 * i),
                is_valid: BoolTarget { target: v(10 * i + 4) },
            })
            .collect(),
        deposit_list: (0..N_DEPOSITS)
            .map(|i| DepositInfoTarget {
                receiver_address: AddressTarget(h(100 + 20 * i)),
                contract_address: AddressTarget(h(104 + 20 * i)),
                variable_index: h(108 + 20 * i),
                amount: v(112 + 20 * i),
            })
            .collect(),
        old_account_tree_root: h(300),
        new_account_tree_root: h(304),
        old_world_state_root: h(308),
        new_world_state_root: h(312),
        old_block_headers_root: h(316),
        new_block_headers_root: h(320),
        block_hash: h(324),
    }
}

#[test]
fn target_layout_and_round_trip() {
    let x = sample();
    let e = x.encode();
    assert_eq!(e.len(), 5 * N_TXS + 13 * N_DEPOSITS + 28);
    assert_eq!(e[4], v(4));
    assert_eq!(e[5], v(10));
    assert_eq!(e[10], v(100));
    assert_eq!(e[22], v(112));
    assert_eq!(e[49], v(300));
    assert_eq!(e[76], v(327));
    assert_eq!(BlockProductionPublicInputsTarget::<N_TXS, N_DEPOSITS>::decode(&e), x);
}

#[test]
fn target_decode_then_encode_is_the_identity() {
    let s: Vec<Target> = (0..77).map(|i| Target::Wire { row: i, column: i % 7 }).collect();
    let r = BlockProductionPublicInputsTarget::<N_TXS, N_DEPOSITS>::decode(&s);
    assert_eq!(r.address_list.len(), N_TXS);
    assert_eq!(r.deposit_list.len(), N_DEPOSITS);
    assert_eq!(r.encode(), s);
}

#[test]
fn target_address_list_zips_senders_and_flags() {
    let tx = |base: usize| MergeAndPurgeTransitionPublicInputsTarget {
        sender_address: h(base),
        old_user_asset_root: h(base + 4),
        middle_user_asset_root: h(base + 8),
        new_user_asset_root: h(base + 12),
        diff_root: h(base + 16),
        tx_hash: h(base + 20),
    };
    let users = vec![tx(0), tx(100), tx(200)];
    let flags = vec![BoolTarget { target: v(900) }, BoolTarget { target: v(901) }];
    let r = BlockProductionPublicInputsTarget::<N_TXS, N_DEPOSITS>::make_address_list(&users, &flags);
    assert_eq!(r.len(), 2);
    assert_eq!(r[0], TransactionSenderWithValidityTarget { sender_address: h(0), is_valid: flags[0] });
    assert_eq!(r[1], TransactionSenderWithValidityTarget { sender_address: h(100), is_valid: flags[1] });
}

#[test]
fn block_target_encoding_read_through_a_witness_is_the_native_encoding() {
    let t = sample();
    let value = |g: &Target| match g {
        Target::VirtualTarget { index } => (*index as u64) * 3 + 1,
        Target::Wire { row, column } => (*row * 10 + *column) as u64,
    };
    let hv = |x: &HashOutTarget| HashOut { elements: x.elements.map(|g| value(&g)) };
    let mut witness: HashMap<Target, u64> = HashMap::new();
    let x: BlockProductionPublicInputs<N_TXS, N_DEPOSITS> = BlockProductionPublicInputs {
        address_list: t
            .address_list
            .iter()
            .enumerate()
            .map(|(k, e)| {
                let valid = k % 2 == 0;
                witness.insert(e.is_valid.target, valid as u64);
                TransactionSenderWithValidity { sender_address: Address(hv(&e.sender_address)), is_valid: valid }
            })
            .collect(),
        deposit_list: t
            .deposit_list
            .iter()
            .map(|d| DepositInfo {
                receiver_address: Address(hv(&d.receiver_address.0)),
                contract_address: Address(hv(&d.contract_address.0)),
                variable_index: hv(&d.variable_index),
                amount: value(&d.amount),
            })
            .collect(),
        old_account_tree_root: hv(&t.old_account_tree_root),
        new_account_tree_root: hv(&t.new_account_tree_root),
        old_world_state_root: hv(&t.old_world_state_root),
        new_world_state_root: hv(&t.new_world_state_root),
        old_prev_block_header_digest: hv(&t.old_block_headers_root),
        new_prev_block_header_digest: hv(&t.new_block_headers_root),
        block_hash: hv(&t.block_hash),
    };
    let read: Vec<u64> = t
        .encode()
        .iter()
        .map(|g| witness.get(g).copied().unwrap_or_else(|| value(g)))
        .collect();
    assert_eq!(read, x.encode());
}
