//! Unit tests: field arithmetic through the pasta wrappers, bit
//! decomposition, constraint declaration, witness assignment and the
//! satisfaction check.

use exp_circuit::circuit::check_circuit;
use exp_circuit::circuit::is_satisfied;
use exp_circuit::circuit::Binding;
use exp_circuit::circuit::Column;
use exp_circuit::circuit::ConstraintSystem;
use exp_circuit::circuit::Error;
use exp_circuit::circuit::ExponentiationChip;
use exp_circuit::expr::eval;
use exp_circuit::expr::Expr;
use exp_circuit::expr::Table;
use exp_circuit::field::felt_add;
use exp_circuit::field::felt_from_u64;
use exp_circuit::field::felt_mul;
use exp_circuit::field::felt_one;
use exp_circuit::field::felt_sub;
use exp_circuit::field::felt_zero;
use exp_circuit::field::Felt;
use exp_circuit::utils::u64_to_bits_rev;

// the field order minus one, as little-endian limbs
fn order_minus_one() -> Felt {
    Felt {
        l0: 0x992d30ed00000000,
        l1: 0x224698fc094cf91b,
        l2: 0x0000000000000000,
        l3: 0x4000000000000000,
    }
}

#[test]
fn felt_small_arithmetic() {
    assert_eq!(felt_add(&felt_from_u64(2), &felt_from_u64(3)), felt_from_u64(5));
    assert_eq!(felt_mul(&felt_from_u64(2), &felt_from_u64(3)), felt_from_u64(6));
    assert_eq!(felt_sub(&felt_from_u64(5), &felt_from_u64(3)), felt_from_u64(2));
    assert_eq!(felt_one(), felt_from_u64(1));
    assert_eq!(felt_zero(), felt_from_u64(0));
}

#[test]
fn felt_add_wraps_at_order() {
    // (p - 1) + 2 = 1 in the field: fails if the wrapper skipped reduction
    assert_eq!(felt_add(&order_minus_one(), &felt_from_u64(2)), felt_from_u64(1));
}

#[test]
fn felt_mul_wraps_at_order() {
    // (p - 1)^2 = 1 in the field
    assert_eq!(felt_mul(&order_minus_one(), &order_minus_one()), felt_from_u64(1));
}

#[test]
fn felt_sub_wraps_below_zero() {
    // 0 - 1 = p - 1 in the field
    assert_eq!(felt_sub(&felt_zero(), &felt_one()), order_minus_one());
}

#[test]
fn bits_of_three_lsb_first() {
    let bits = u64_to_bits_rev(3, 8);
    assert_eq!(bits.len(), 8);
    assert_eq!(bits[0], felt_from_u64(1));
    assert_eq!(bits[1], felt_from_u64(1));
    for i in 2..8 {
        assert_eq!(bits[i], felt_from_u64(0));
    }
}

#[test]
fn configure_declares_columns_and_gates() {
    let mut meta = ConstraintSystem::new();
    let config = ExponentiationChip::configure(&mut meta);
    assert_eq!(meta.num_advice, 4);
    assert_eq!(meta.num_fixed, 2);
    assert_eq!(meta.num_instance, 1);
    assert_eq!(meta.num_selectors, 1);
    assert_eq!(meta.gates.len(), 3);
    assert_eq!(config.col_y, 0);
    assert_eq!(config.col_x, 1);
    assert_eq!(config.col_n, 2);
    assert_eq!(config.col_n_acc, 3);
    assert_eq!(config.const_2_power_col, 1);
    // equality is enabled on the instance column and the four advice
    // columns; both fixed columns may hold author-asserted constants
    assert_eq!(
        meta.equality,
        vec![
            Column::Instance(0),
            Column::Advice(0),
            Column::Advice(1),
            Column::Advice(2),
            Column::Advice(3),
        ]
    );
    assert_eq!(meta.constants, vec![0, 1]);
}

fn assign_table(x: u64, n: u64, len: usize) -> Table {
    let mut meta = ConstraintSystem::new();
    let config = ExponentiationChip::configure(&mut meta);
    let chip = ExponentiationChip::construct(config);
    let mut public_input = vec![felt_from_u64(x), felt_from_u64(x)];
    public_input.append(&mut u64_to_bits_rev(n, len));
    chip.assign(&public_input, len).unwrap()
}

#[test]
fn assign_fills_the_ladders() {
    // x = 2, n = 3, four rows
    let t = assign_table(2, 3, 4);
    // x column: 2^(2^i)
    assert_eq!(t.advice[1][0], felt_from_u64(2));
    assert_eq!(t.advice[1][1], felt_from_u64(4));
    assert_eq!(t.advice[1][2], felt_from_u64(16));
    assert_eq!(t.advice[1][3], felt_from_u64(256));
    // y column: 1, then *2, *4, then the zero bits keep it
    assert_eq!(t.advice[0][0], felt_from_u64(1));
    assert_eq!(t.advice[0][1], felt_from_u64(2));
    assert_eq!(t.advice[0][2], felt_from_u64(8));
    assert_eq!(t.advice[0][3], felt_from_u64(8));
    // n_acc column: 0, 1, 3, 3
    assert_eq!(t.advice[3][0], felt_from_u64(0));
    assert_eq!(t.advice[3][1], felt_from_u64(1));
    assert_eq!(t.advice[3][2], felt_from_u64(3));
    assert_eq!(t.advice[3][3], felt_from_u64(3));
    // fixed column of powers of two has one extra row
    assert_eq!(t.fixed[1].len(), 5);
    assert_eq!(t.fixed[1][4], felt_from_u64(16));
    // selector: off on the base row, on for every transition but the last
    assert_eq!(t.selector, vec![false, true, true, false]);
}

#[test]
fn assign_rejects_empty_region() {
    let mut meta = ConstraintSystem::new();
    let config = ExponentiationChip::configure(&mut meta);
    let chip = ExponentiationChip::construct(config);
    let public_input = vec![felt_from_u64(2), felt_from_u64(1)];
    assert!(matches!(chip.assign(&public_input, 0), Err(Error::EmptyRegion)));
}

#[test]
fn assign_rejects_short_instance() {
    let mut meta = ConstraintSystem::new();
    let config = ExponentiationChip::configure(&mut meta);
    let chip = ExponentiationChip::construct(config);
    let mut public_input = vec![felt_from_u64(2), felt_from_u64(8)];
    public_input.append(&mut u64_to_bits_rev(3, 4));
    // six slots cover four bits; five rows would need one more
    assert!(matches!(chip.assign(&public_input, 5), Err(Error::MissingPublicInput)));
}

#[test]
fn check_circuit_propagates_errors() {
    let public_input = vec![felt_from_u64(2), felt_from_u64(8)];
    assert!(matches!(check_circuit(0, &public_input), Err(Error::EmptyRegion)));
    assert!(matches!(check_circuit(3, &public_input), Err(Error::MissingPublicInput)));
}

#[test]
fn eval_combines_constants() {
    let t = Table { advice: vec![], fixed: vec![], selector: vec![false, false] };
    let sum = Expr::Sum(
        Box::new(Expr::Constant(felt_from_u64(2))),
        Box::new(Expr::Constant(felt_from_u64(3))),
    );
    assert_eq!(eval(&sum, &t, 1), felt_from_u64(5));
    let diff = Expr::Diff(
        Box::new(Expr::Constant(felt_from_u64(2))),
        Box::new(Expr::Constant(felt_from_u64(3))),
    );
    let prod = Expr::Prod(Box::new(diff), Box::new(Expr::Constant(felt_from_u64(0))));
    assert_eq!(eval(&prod, &t, 1), felt_from_u64(0));
}

#[test]
fn is_satisfied_checks_bindings() {
    let t = Table { advice: vec![], fixed: vec![], selector: vec![] };
    let gates: Vec<Expr> = vec![];
    let instance = vec![felt_from_u64(7), felt_from_u64(9)];
    let hit = vec![Binding { value: felt_from_u64(9), row: 1 }];
    assert!(is_satisfied(&gates, &t, 0, &instance, &hit));
    let miss = vec![Binding { value: felt_from_u64(8), row: 1 }];
    assert!(!is_satisfied(&gates, &t, 0, &instance, &miss));
    // a slot beyond the supplied vector is padding and constrains nothing
    let padding = vec![Binding { value: felt_from_u64(8), row: 5 }];
    assert!(is_satisfied(&gates, &t, 0, &instance, &padding));
}

#[test]
fn expose_public_records_bindings() {
    let mut meta = ConstraintSystem::new();
    let config = ExponentiationChip::configure(&mut meta);
    let chip = ExponentiationChip::construct(config);
    let mut bindings: Vec<Binding> = Vec::new();
    let cell = felt_from_u64(42);
    chip.expose_public(&mut bindings, &cell, 6);
    assert_eq!(bindings, vec![Binding { value: felt_from_u64(42), row: 6 }]);
}
