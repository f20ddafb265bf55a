use poseidon2_gate::field::{add_mod, sub_mod, mul_mod, sbox, GOLDILOCKS_P};
use poseidon2_gate::permutation::permute;

#[test]
fn test_vectors() {
    // Test inputs are:
    // 1. range 0..WIDTH
    let test_vectors12: Vec<([u64; 12], [u64; 12])> = vec![
        ([0, 1, 2, 3, 4, 5, 6, 7, 8, 9, 10, 11, ],
         [0xed3dbcc4ff1e8d33, 0xfb85eac6ac91a150, 0xd41e1e237ed3e2ef, 0x5e289bf0a4c11897,
             0x4398b20f93e3ba6b, 0x5659a48ffaf2901d, 0xe44d81e89a88f8ae, 0x08efdb285f8c3dbc,
             0x294ab7503297850e, 0xa11c61f4870b9904, 0xa6855c112cc08968, 0x17c6d53d2fb3e8c1, ]),
    ];

    for (input, expected) in test_vectors12 {
        let out = permute(&input.to_vec());
        assert_eq!(out, expected.to_vec());
    }
}

#[test]
fn field_operations_edge_values() {
    // Wrap-around at the modulus.
    assert_eq!(add_mod(GOLDILOCKS_P - 1, 1), 0);
    assert_eq!(sub_mod(0, 1), GOLDILOCKS_P - 1);
    // 2^64 = 2^32 - 1 modulo the Goldilocks prime.
    assert_eq!(mul_mod(1 << 32, 1 << 32), (1 << 32) - 1);
    assert_eq!(mul_mod(GOLDILOCKS_P - 1, GOLDILOCKS_P - 1), 1);
    // The S-box on small and extreme values.
    assert_eq!(sbox(0), 0);
    assert_eq!(sbox(1), 1);
    assert_eq!(sbox(2), 128);
    // (-1)^7 = -1.
    assert_eq!(sbox(GOLDILOCKS_P - 1), GOLDILOCKS_P - 1);
    // Operands above the modulus are still reduced exactly.
    assert_eq!(add_mod(GOLDILOCKS_P, 5), 5);
}

#[test]
fn permutation_is_deterministic() {
    let input: Vec<u64> = (100..112).collect();
    assert_eq!(permute(&input), permute(&input));
}
