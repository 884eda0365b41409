use interest_vault::claim::{build_leaf_preimage, leaf_hash};
use interest_vault::hash::nodes_equal;
use interest_vault::merkle::{build_pair_preimage, compute_root, hash_pair, node_le, verify_merkle};

const LEAF_0: [u8; 32] = [
    0x32, 0x34, 0xaf, 0xa8, 0x9f, 0x05, 0x40, 0x08, 0x4d, 0x0c, 0x11, 0xfe, 0xa4, 0xf6, 0xf7, 0x76,
    0x97, 0xe0, 0xed, 0xd7, 0x00, 0x5c, 0x1e, 0xaa, 0xe1, 0x06, 0x82, 0x1d, 0x37, 0xce, 0x39, 0xb3,
];
const LEAF_1: [u8; 32] = [
    0xa8, 0xa0, 0x81, 0x7d, 0x9e, 0x3a, 0xcf, 0xb2, 0x1c, 0xc8, 0xa7, 0x4a, 0x5b, 0xce, 0x13, 0x8b,
    0x19, 0xed, 0x74, 0x64, 0x94, 0xae, 0x47, 0x1c, 0x6b, 0xf6, 0x81, 0xb0, 0xd8, 0x5f, 0xea, 0x0b,
];
const LEAF_2: [u8; 32] = [
    0x88, 0x86, 0x87, 0xa2, 0xf2, 0x16, 0xf1, 0x3a, 0x0c, 0x3a, 0xdc, 0xfa, 0x48, 0x2a, 0x1e, 0xb2,
    0x63, 0xd1, 0xee, 0x9d, 0x3f, 0x47, 0x4a, 0x9a, 0x79, 0xcf, 0x2d, 0x3f, 0xb3, 0xab, 0xc0, 0xa7,
];
const NODE_01: [u8; 32] = [
    0xe0, 0xcf, 0x48, 0x84, 0xd7, 0x01, 0x96, 0x89, 0xf8, 0xd0, 0x96, 0x1a, 0x1e, 0x11, 0xa0, 0x87,
    0x5f, 0x38, 0xbf, 0xf4, 0xa8, 0x5a, 0xf0, 0x2b, 0xf1, 0xae, 0x5f, 0x8f, 0x72, 0xc5, 0x15, 0x56,
];
const ROOT: [u8; 32] = [
    0xb3, 0x0a, 0x0f, 0xbe, 0x55, 0x2e, 0xa1, 0x34, 0xec, 0xfd, 0x99, 0xd4, 0xa1, 0x26, 0x03, 0xee,
    0x4e, 0x28, 0x84, 0x97, 0xd4, 0x82, 0x29, 0xb3, 0x8e, 0xa3, 0x56, 0x71, 0xa7, 0x6b, 0x3d, 0x6f,
];

#[test]
fn pair_of_zero_nodes_is_the_keccak_of_64_zero_bytes() {
    let expected: [u8; 32] = [
        0xad, 0x32, 0x28, 0xb6, 0x76, 0xf7, 0xd3, 0xcd, 0x42, 0x84, 0xa5, 0x44, 0x3f, 0x17, 0xf1,
        0x96, 0x2b, 0x36, 0xe4, 0x91, 0xb3, 0x0a, 0x40, 0xb2, 0x40, 0x58, 0x49, 0xe5, 0x97, 0xba,
        0x5f, 0xb5,
    ];
    assert_eq!(hash_pair(&[0u8; 32], &[0u8; 32]), expected);
}

#[test]
fn pair_hash_does_not_depend_on_the_side() {
    let expected: [u8; 32] = [
        0x22, 0xdd, 0xaf, 0xaf, 0x52, 0x14, 0x12, 0xb3, 0x9e, 0x33, 0x98, 0x37, 0x10, 0x02, 0xbe,
        0x31, 0x62, 0x08, 0x57, 0xea, 0x0b, 0x52, 0x70, 0x60, 0x10, 0x13, 0xb7, 0x75, 0xe0, 0xcc,
        0x6b, 0xad,
    ];
    assert_eq!(hash_pair(&[0u8; 32], &[0xffu8; 32]), expected);
    assert_eq!(hash_pair(&[0xffu8; 32], &[0u8; 32]), expected);
}

#[test]
fn pair_preimage_puts_the_smaller_node_first() {
    let mut low = [9u8; 32];
    let mut high = [9u8; 32];
    low[31] = 1;
    high[31] = 2;
    let mut expected = Vec::new();
    expected.extend_from_slice(&low);
    expected.extend_from_slice(&high);
    assert_eq!(build_pair_preimage(&low, &high), expected);
    assert_eq!(build_pair_preimage(&high, &low), expected);
    let twice = build_pair_preimage(&low, &low);
    assert_eq!(twice.len(), 64);
    assert_eq!(&twice[..32], &low[..]);
    assert_eq!(&twice[32..], &low[..]);
}

#[test]
fn node_order_is_lexicographic() {
    let mut a = [0u8; 32];
    let mut b = [0u8; 32];
    assert!(node_le(&a, &b));
    a[0] = 1;
    b[31] = 0xff;
    // the first byte decides, not the last
    assert!(!node_le(&a, &b));
    assert!(node_le(&b, &a));
    b[0] = 1;
    assert!(node_le(&a, &b));
    assert!(!node_le(&b, &a));
}

#[test]
fn nodes_equal_compares_every_byte() {
    let a = [5u8; 32];
    let mut b = [5u8; 32];
    assert!(nodes_equal(&a, &b));
    b[31] = 6;
    assert!(!nodes_equal(&a, &b));
    b[31] = 5;
    b[0] = 4;
    assert!(!nodes_equal(&a, &b));
}

#[test]
fn leaf_preimage_layout() {
    let claimer = [0x11u8; 32];
    let bytes = build_leaf_preimage(0x0403_0201, &claimer, 0x100f_0e0d_0c0b_0a09_0807_0605_0403_0201);
    assert_eq!(bytes.len(), 58);
    assert_eq!(&bytes[..6], b"weight");
    assert_eq!(&bytes[6..10], &[1u8, 2, 3, 4]);
    assert_eq!(&bytes[10..42], &claimer[..]);
    assert_eq!(
        &bytes[42..],
        &[1u8, 2, 3, 4, 5, 6, 7, 8, 9, 10, 11, 12, 13, 14, 15, 16]
    );
}

#[test]
fn leaf_hash_is_keccak_of_the_tagged_leaf() {
    assert_eq!(leaf_hash(0, &[0x11u8; 32], 100), LEAF_0);
    assert_eq!(leaf_hash(1, &[0x22u8; 32], 100), LEAF_1);
    assert_eq!(leaf_hash(2, &[0x33u8; 32], 100), LEAF_2);
    let wide: [u8; 32] = [
        0x39, 0xd6, 0xf6, 0x6d, 0x70, 0x01, 0x99, 0x41, 0x59, 0x0b, 0xea, 0x1c, 0x49, 0x80, 0xc8,
        0x81, 0xf1, 0x14, 0x57, 0xb4, 0x96, 0xeb, 0xb0, 0x48, 0xc8, 0xe6, 0x41, 0xe0, 0x18, 0x6f,
        0xdb, 0xa9,
    ];
    assert_eq!(leaf_hash(7, &[0x11u8; 32], (1u128 << 100) + 5), wide);
}

#[test]
fn three_leaf_tree_has_the_expected_root() {
    assert_eq!(hash_pair(&LEAF_0, &LEAF_1), NODE_01);
    assert_eq!(hash_pair(&NODE_01, &LEAF_2), ROOT);
    assert_eq!(compute_root(&LEAF_0, &[LEAF_1, LEAF_2]), ROOT);
    assert_eq!(compute_root(&LEAF_1, &[LEAF_0, LEAF_2]), ROOT);
    assert_eq!(compute_root(&LEAF_2, &[NODE_01]), ROOT);
}

#[test]
fn verify_merkle_accepts_each_path_of_the_tree() {
    assert!(verify_merkle(&ROOT, &LEAF_0, &[LEAF_1, LEAF_2]));
    assert!(verify_merkle(&ROOT, &LEAF_1, &[LEAF_0, LEAF_2]));
    assert!(verify_merkle(&ROOT, &LEAF_2, &[NODE_01]));
}

#[test]
fn verify_merkle_rejects_wrong_paths() {
    // siblings in the wrong order
    assert!(!verify_merkle(&ROOT, &LEAF_0, &[LEAF_2, LEAF_1]));
    // a path cut short, or run too far
    assert!(!verify_merkle(&ROOT, &LEAF_0, &[LEAF_1]));
    assert!(!verify_merkle(&ROOT, &LEAF_0, &[LEAF_1, LEAF_2, LEAF_2]));
    // another leaf on a valid path
    assert!(!verify_merkle(&ROOT, &LEAF_2, &[LEAF_1, LEAF_2]));
    // another root
    assert!(!verify_merkle(&NODE_01, &LEAF_0, &[LEAF_1, LEAF_2]));
}

#[test]
fn empty_proof_accepts_only_the_leaf_itself() {
    assert!(verify_merkle(&LEAF_0, &LEAF_0, &[]));
    assert!(!verify_merkle(&LEAF_1, &LEAF_0, &[]));
    assert_eq!(compute_root(&LEAF_0, &[]), LEAF_0);
}
