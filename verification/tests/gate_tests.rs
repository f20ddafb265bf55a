use poseidon2_gate::layout::Poseidon2Gate;
use poseidon2_gate::permutation::permute;
use poseidon2_gate::witness::generate;

#[test]
fn wire_indices() {
    assert_eq!(Poseidon2Gate::wire_input(0), 0);
    assert_eq!(Poseidon2Gate::wire_input(11), 11);
    assert_eq!(Poseidon2Gate::wire_output(0), 12);
    assert_eq!(Poseidon2Gate::wire_output(11), 23);
    assert_eq!(Poseidon2Gate::WIRE_SWAP, 24);
    assert_eq!(Poseidon2Gate::wire_delta(0), 25);
    assert_eq!(Poseidon2Gate::wire_delta(3), 28);
    assert_eq!(Poseidon2Gate::wire_full_sbox_0(1, 0), 29);
    assert_eq!(Poseidon2Gate::wire_full_sbox_0(3, 0), 53);
    assert_eq!(Poseidon2Gate::wire_full_sbox_0(3, 11), 64);
    assert_eq!(Poseidon2Gate::wire_partial_sbox(0), 65);
    assert_eq!(Poseidon2Gate::wire_partial_sbox(21), 86);
    assert_eq!(Poseidon2Gate::wire_full_sbox_1(0, 0), 87);
    assert_eq!(Poseidon2Gate::wire_full_sbox_1(3, 0), 123);
    assert_eq!(Poseidon2Gate::wire_full_sbox_1(3, 11), 134);
}

#[test]
fn gate_metadata() {
    assert_eq!(Poseidon2Gate::num_wires(), 135);
    assert_eq!(Poseidon2Gate::num_constraints(), 123);
    assert_eq!(Poseidon2Gate::degree(), 7);
}

#[test]
fn generated_output() {
    let permutation_inputs: Vec<u64> = (0..12).collect();
    let w = generate(&permutation_inputs, 0);
    let expected_outputs = permute(&permutation_inputs);
    for i in 0..12 {
        assert_eq!(w[Poseidon2Gate::wire_output(i)], expected_outputs[i]);
    }
    for i in 0..12 {
        assert_eq!(w[Poseidon2Gate::wire_input(i)], permutation_inputs[i]);
    }
    assert_eq!(w[Poseidon2Gate::WIRE_SWAP], 0);
}

#[test]
fn generator_wire_sets() {
    let deps = Poseidon2Gate::generator_dependencies();
    let expected_deps: Vec<usize> = (0..12).chain([24]).collect();
    assert_eq!(deps, expected_deps);
    let gen = Poseidon2Gate::generated_wires();
    let expected_gen: Vec<usize> = (12..24).chain(25..135).collect();
    assert_eq!(gen, expected_gen);
    assert_eq!(deps.len() + gen.len(), Poseidon2Gate::num_wires());
}
