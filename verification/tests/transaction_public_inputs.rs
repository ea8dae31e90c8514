use intmax_circuits::field::{is_nonzero, from_bool, Address, HashOut, GOLDILOCKS_ORDER};
use intmax_circuits::target::{HashOutTarget, Target};
use std::collections::HashMap;
use intmax_circuits::transaction::{
    MergeAndPurgeTransitionPublicInputs, MergeAndPurgeTransitionPublicInputsTarget,
};

fn hash(a: u64) -> HashOut {
    HashOut { elements: [a, a + 1, a + 2, a + 3] }
}

fn sample() -> MergeAndPurgeTransitionPublicInputs {
    MergeAndPurgeTransitionPublicInputs {
        sender_address: Address(hash(100)),
        old_user_asset_root: hash(200),
        middle_user_asset_root: hash(300),
        new_user_asset_root: hash(400),
        diff_root: hash(500),
        tx_hash: hash(600),
    }
}

fn virtual_hash(start: usize) -> HashOutTarget {
    HashOutTarget {
        elements: [
            Target::VirtualTarget { index: start },
            Target::VirtualTarget { index: start + 1 },
            Target::VirtualTarget { index: start + 2 },
            Target::VirtualTarget { index: start + 3 },
        ],
    }
}

fn sample_targets(base: usize) -> MergeAndPurgeTransitionPublicInputsTarget {
    MergeAndPurgeTransitionPublicInputsTarget {
        sender_address: virtual_hash(base),
        old_user_asset_root: virtual_hash(base + 4),
        middle_user_asset_root: virtual_hash(base + 8),
        new_user_asset_root: virtual_hash(base + 12),
        diff_root: virtual_hash(base + 16),
        tx_hash: virtual_hash(base + 20),
    }
}

#[test]
fn encoding_order_puts_the_sender_fifth() {
    let e = sample().encode();
    assert_eq!(e.len(), 24);
    assert_eq!(&e[0..4], &[200, 201, 202, 203]);
    assert_eq!(&e[12..16], &[500, 501, 502, 503]);
    assert_eq!(&e[16..20], &[100, 101, 102, 103]);
    assert_eq!(&e[20..24], &[600, 601, 602, 603]);
}

#[test]
fn merge_and_purge_decode_inverts_encode() {
    let x = sample();
    assert_eq!(MergeAndPurgeTransitionPublicInputs::decode(&x.encode()), x);
}

#[test]
fn merge_and_purge_encode_inverts_decode() {
    let s: Vec<u64> = (0..24u64).map(|i| i * i + 5).collect();
    assert_eq!(MergeAndPurgeTransitionPublicInputs::decode(&s).encode(), s);
}

#[test]
fn default_public_inputs_are_zero_but_the_tx_hash() {
    let tx_hash = HashOut {
        elements: [
            4330397376401421145,
            14124799381142128323,
            8742572140681234676,
            14345658006221440202,
        ],
    };
    let d = MergeAndPurgeTransitionPublicInputs::default_with_tx_hash(tx_hash);
    assert_eq!(d.sender_address, Address::default());
    assert_eq!(d.old_user_asset_root, HashOut::default());
    assert_eq!(d.middle_user_asset_root, HashOut::default());
    assert_eq!(d.new_user_asset_root, HashOut::default());
    assert_eq!(d.diff_root, HashOut::default());
    assert_eq!(d.tx_hash, tx_hash);
}

#[test]
fn target_encoding_round_trips() {
    let t = sample_targets(0);
    let e = t.encode();
    assert_eq!(e.len(), 24);
    assert_eq!(e[0], Target::VirtualTarget { index: 4 });
    assert_eq!(e[16], Target::VirtualTarget { index: 0 });
    assert_eq!(MergeAndPurgeTransitionPublicInputsTarget::decode(&e), t);
    let wires: Vec<Target> = (0..24).map(|i| Target::Wire { row: i / 3, column: i % 3 }).collect();
    assert_eq!(MergeAndPurgeTransitionPublicInputsTarget::decode(&wires).encode(), wires);
}

#[test]
fn witness_gives_each_public_input_target_its_public_input() {
    let t = sample_targets(40);
    let x = sample();
    let assignments = t.witness_assignments(&x);
    assert_eq!(assignments.len(), 24);
    assert_eq!(assignments[0], (Target::VirtualTarget { index: 40 }, 100));
    let targets = t.encode();
    let values = x.encode();
    for i in 0..24 {
        assert!(assignments.contains(&(targets[i], values[i])));
    }
}

#[test]
fn connections_pair_matching_public_inputs() {
    let a = sample_targets(0);
    let b = sample_targets(100);
    let pairs = MergeAndPurgeTransitionPublicInputsTarget::connections(&a, &b);
    assert_eq!(pairs.len(), 24);
    let ea = a.encode();
    let eb = b.encode();
    for i in 0..24 {
        assert!(pairs.contains(&(ea[i], eb[i])));
    }
    assert_eq!(pairs[5], (Target::VirtualTarget { index: 5 }, Target::VirtualTarget { index: 105 }));
}

#[test]
fn booleans_and_nonzero_elements() {
    assert_eq!(from_bool(true), 1);
    assert_eq!(from_bool(false), 0);
    assert!(is_nonzero(1));
    assert!(!is_nonzero(0));
    assert!(!is_nonzero(GOLDILOCKS_ORDER));
    assert!(is_nonzero(GOLDILOCKS_ORDER - 1));
}

#[test]
fn target_encoding_read_through_the_witness_is_the_native_encoding() {
    let t = sample_targets(7);
    let x = sample();
    let witness: HashMap<Target, u64> = t.witness_assignments(&x).into_iter().collect();
    let read: Vec<u64> = t.encode().iter().map(|g| witness[g]).collect();
    assert_eq!(read, x.encode());
}
