use poseidon2_gate::config::Poseidon2GoldilocksConfig;
use poseidon2_gate::constraints::eval_constraints;
use poseidon2_gate::extension::{embed_wires, eval_constraints_ext, ExtElem};
use poseidon2_gate::field::GOLDILOCKS_P;
use poseidon2_gate::gadget::apply_swap;
use poseidon2_gate::permutation::permute;
use poseidon2_gate::witness::generate;

/// Deterministic pseudo-random canonical field elements for adversarial-ish
/// inputs.
fn pseudo_random_inputs(seed: u64) -> Vec<u64> {
    let mut x = seed as u128;
    let mut out: Vec<u64> = Vec::new();
    for _ in 0..12 {
        x = (x.wrapping_mul(6364136223846793005).wrapping_add(1442695040888963407))
            & 0xffff_ffff_ffff_ffff;
        out.push((x as u64) % GOLDILOCKS_P);
    }
    out
}

#[test]
fn swap_identity_flag_zero() {
    for seed in [1u64, 7, 99] {
        let inputs = pseudo_random_inputs(seed);
        let pre = apply_swap(&inputs, 0);
        assert_eq!(pre, inputs);
    }
}

#[test]
fn swap_exchange_flag_one() {
    let inputs = pseudo_random_inputs(42);
    let pre = apply_swap(&inputs, 1);
    for j in 0..4 {
        assert_eq!(pre[j], inputs[j + 4]);
        assert_eq!(pre[j + 4], inputs[j]);
    }
    for i in 8..12 {
        assert_eq!(pre[i], inputs[i]);
    }
}

#[test]
fn witness_satisfies_constraints_both_flags() {
    for seed in [3u64, 1234567, 0xdead_beef] {
        let inputs = pseudo_random_inputs(seed);
        for flag in [0u64, 1] {
            let w = generate(&inputs, flag);
            let c = eval_constraints(&w);
            assert_eq!(c.len(), 123);
            assert!(c.iter().all(|&v| v == 0));
        }
    }
}

#[test]
fn witness_satisfies_constraints_boundary_inputs() {
    let all_zero: Vec<u64> = vec![0; 12];
    let all_max: Vec<u64> = vec![GOLDILOCKS_P - 1; 12];
    for inputs in [all_zero, all_max] {
        for flag in [0u64, 1] {
            let w = generate(&inputs, flag);
            let c = eval_constraints(&w);
            assert!(c.iter().all(|&v| v == 0));
        }
    }
}

#[test]
fn flipping_any_derived_wire_is_detected() {
    let inputs = pseudo_random_inputs(555);
    let w = generate(&inputs, 1);
    // Every wire the generator derives: outputs, deltas, and every stored
    // intermediate.  Inputs and the swap wire are the generator's givens.
    for k in 12..135 {
        if k == 24 {
            continue;
        }
        let mut bad = w.clone();
        bad[k] = (bad[k] + 1) % GOLDILOCKS_P;
        let c = eval_constraints(&bad);
        assert!(
            c.iter().any(|&v| v != 0),
            "flip of wire {} went undetected",
            k
        );
    }
}

#[test]
fn non_boolean_flag_is_rejected() {
    let inputs = pseudo_random_inputs(77);
    let w = generate(&inputs, 2);
    let c = eval_constraints(&w);
    // Only the booleanity constraint fails: the rest of the witness is
    // internally consistent for any flag value.
    assert_ne!(c[0], 0);
    assert!(c[1..].iter().all(|&v| v == 0));
}

#[test]
fn extension_agrees_with_base_on_embedded_assignments() {
    let inputs = pseudo_random_inputs(2024);
    let w = generate(&inputs, 1);
    // A valid witness and one with a corrupted stored wire.
    let mut bad = w.clone();
    bad[70] = (bad[70] + 3) % GOLDILOCKS_P;
    for assignment in [w, bad] {
        let base = eval_constraints(&assignment);
        let ext = eval_constraints_ext(&embed_wires(&assignment));
        assert_eq!(ext.len(), base.len());
        for i in 0..base.len() {
            assert_eq!(ext[i], ExtElem { c0: base[i], c1: 0 });
            assert_eq!(ext[i].c0 == 0 && ext[i].c1 == 0, base[i] == 0);
        }
    }
}

#[test]
fn extension_evaluator_handles_genuine_extension_values() {
    // A non-embedded assignment must still evaluate, componentwise canonical.
    let inputs = pseudo_random_inputs(31);
    let w = generate(&inputs, 0);
    let mut we: Vec<ExtElem> = embed_wires(&w);
    for k in 0..135 {
        we[k] = ExtElem { c0: we[k].c0, c1: (k as u64 * 7919) % GOLDILOCKS_P };
    }
    let ext = eval_constraints_ext(&we);
    assert_eq!(ext.len(), 123);
    for e in ext {
        assert!(e.c0 < GOLDILOCKS_P && e.c1 < GOLDILOCKS_P);
    }
}

#[test]
fn end_to_end_single_gate() {
    // One gate row: inputs 0..12, no swap, outputs registered as the row's
    // public result.
    let inputs: Vec<u64> = (0..12).collect();
    let w = generate(&inputs, 0);
    let public_outputs: Vec<u64> = (12..24).map(|k| w[k]).collect();
    assert_eq!(public_outputs, permute(&inputs));
    // Verifying the row against the claimed outputs succeeds...
    assert!(eval_constraints(&w).iter().all(|&v| v == 0));
    // ...and fails if any output is perturbed.
    for i in 0..12 {
        let mut bad = w.clone();
        bad[12 + i] = (bad[12 + i] + 1) % GOLDILOCKS_P;
        assert!(eval_constraints(&bad).iter().any(|&v| v != 0));
    }
}

#[test]
fn config_metadata() {
    assert_eq!(Poseidon2GoldilocksConfig::field_order(), GOLDILOCKS_P);
    assert_eq!(Poseidon2GoldilocksConfig::extension_degree(), 2);
    assert_eq!(Poseidon2GoldilocksConfig::extension_w(), 7);
    assert_eq!(Poseidon2GoldilocksConfig::state_width(), 12);
}
