use binius_core::composition::{CompositionPoly, ProductComposition};
use binius_core::error::Error;
use binius_core::field::{extrapolate_line, inner_product, Felt, TOWER_LEVEL};

fn f(x: u128) -> Felt {
    Felt::new(x)
}

#[test]
fn add_is_xor() {
    assert_eq!(f(3).add(f(5)).value, 6);
    assert_eq!(f(0).add(f(9)).value, 9);
}

#[test]
fn characteristic_two_self_cancels() {
    let a = f(0xdead_beef);
    assert_eq!(a.add(a).value, 0);
}

#[test]
fn mul_identities() {
    let a = f(0x1234_5678_9abc_def0);
    assert_eq!(Felt::one().mul(a).value, a.value);
    assert_eq!(a.mul(Felt::one()).value, a.value);
    assert_eq!(Felt::zero().mul(a).value, 0);
    assert_eq!(a.mul(Felt::zero()).value, 0);
}

#[test]
fn mul_small_polynomials() {
    // x * x = x^2
    assert_eq!(f(2).mul(f(2)).value, 4);
    // (x + 1) * (x + 1) = x^2 + 1 over GF(2)
    assert_eq!(f(3).mul(f(3)).value, 5);
}

#[test]
fn mul_wraps_through_reduction_polynomial() {
    // x^127 * x = x^128 = x^7 + x^2 + x + 1
    assert_eq!(f(1u128 << 127).mul(f(2)).value, 0x87);
}

#[test]
fn tower_level_of_128_bit_field() {
    assert_eq!(TOWER_LEVEL, 7);
}

#[test]
fn extrapolate_line_endpoints() {
    let e1 = f(0x11);
    let e2 = f(0x22);
    assert_eq!(extrapolate_line(e1, e2, Felt::zero()).value, e1.value);
    assert_eq!(extrapolate_line(e1, e2, Felt::one()).value, e2.value);
}

#[test]
fn extrapolate_line_formula() {
    let e1 = f(5);
    let e2 = f(9);
    let t = f(7);
    let expected = e1.add(t.mul(e2.add(e1)));
    assert_eq!(extrapolate_line(e1, e2, t).value, expected.value);
}

#[test]
fn inner_product_matches_termwise_sum() {
    let a = vec![f(2), f(3), f(4)];
    let b = vec![f(5), f(6), f(7)];
    let expected = f(2).mul(f(5)).add(f(3).mul(f(6))).add(f(4).mul(f(7)));
    assert_eq!(inner_product(&a, &b).value, expected.value);
}

#[test]
fn inner_product_empty_is_zero() {
    let a: Vec<Felt> = vec![];
    let b: Vec<Felt> = vec![];
    assert_eq!(inner_product(&a, &b).value, 0);
}

#[test]
fn product_composition_multiplies_inputs() {
    let c = CompositionPoly::Product { n_vars: 3 };
    assert_eq!(c.n_vars(), 3);
    assert_eq!(c.degree(), 3);
    let q = vec![f(2), f(3), f(4)];
    let expected = f(2).mul(f(3).mul(f(4)));
    assert_eq!(c.evaluate(&q).unwrap().value, expected.value);
}

#[test]
fn product_composition_rejects_wrong_query_size() {
    let c = CompositionPoly::Product { n_vars: 3 };
    let q = vec![f(2), f(3)];
    assert_eq!(c.evaluate(&q), Err(Error::IncorrectQuerySize { expected: 3 }));
}

#[test]
fn mult_gate_is_out_plus_in1_in2() {
    let c = CompositionPoly::MultGate;
    assert_eq!(c.n_vars(), 3);
    assert_eq!(c.degree(), 2);
    let q = vec![f(6), f(2), f(3)];
    // in characteristic 2, out - in1 * in2 = out + in1 * in2
    let expected = f(6).add(f(2).mul(f(3)));
    assert_eq!(c.evaluate(&q).unwrap().value, expected.value);
    // a satisfied gate vanishes
    let sat = vec![f(2).mul(f(3)), f(2), f(3)];
    assert_eq!(c.evaluate(&sat).unwrap().value, 0);
}

#[test]
fn product_composition_multiplies_by_the_extra_variable() {
    let pc = ProductComposition::new(CompositionPoly::Product { n_vars: 2 });
    assert_eq!(pc.n_vars(), 3);
    assert_eq!(pc.degree(), 3);
    assert_eq!(pc.binary_tower_level(), 0);
    let q = vec![f(2), f(3), f(5)];
    let expected = f(2).mul(f(3)).mul(f(5));
    assert_eq!(pc.evaluate(&q).unwrap().value, expected.value);
    let short = vec![f(2), f(3)];
    assert_eq!(pc.evaluate(&short), Err(Error::IncorrectQuerySize { expected: 3 }));
}

#[test]
fn augmented_composition_adds_one_variable_and_degree() {
    let inner = CompositionPoly::Product { n_vars: 2 };
    let augmented = CompositionPoly::Augmented(ProductComposition::new(inner));
    assert_eq!(augmented.n_vars(), 3);
    assert_eq!(augmented.degree(), 3);
    // g(x0, x1, x2) = f(x0, x1) * x2
    let q = vec![f(2), f(3), f(5)];
    let expected = f(2).mul(f(3)).mul(f(5));
    assert_eq!(augmented.evaluate(&q).unwrap().value, expected.value);
}
