//! Gate compilation behavior: selector extraction, challenge-product
//! flattening, query-table shape, and determinism.

use halo2curves::bn256::Fr;

use protostar::expr::{Expr, Expression};
use protostar::gate::Gate;
use protostar::queries::{AdviceQuery, Challenge, FixedQuery, Selector};

fn adv(col: usize, rot: i32) -> Expression {
    Expression::Advice(AdviceQuery { column_index: col, rotation: rot })
}

fn chal(index: usize, power: usize) -> Expression {
    Expression::Challenge(Challenge { index, power })
}

fn prod(a: Expression, b: Expression) -> Expression {
    Expression::Product(Box::new(a), Box::new(b))
}

fn sum(a: Expression, b: Expression) -> Expression {
    Expression::Sum(Box::new(a), Box::new(b))
}

fn neg(a: Expression) -> Expression {
    Expression::Negated(Box::new(a))
}

fn expr_eq(a: &Expr, b: &Expr) -> bool {
    match (a, b) {
        (Expr::Constant(x), Expr::Constant(y)) => x == y,
        (Expr::Selector(x), Expr::Selector(y)) => x == y,
        (Expr::Fixed(x), Expr::Fixed(y)) => x == y,
        (Expr::Advice(x), Expr::Advice(y)) => x == y,
        (Expr::Instance(x), Expr::Instance(y)) => x == y,
        (Expr::Challenge(x), Expr::Challenge(y)) => x == y,
        (Expr::Negated(x), Expr::Negated(y)) => expr_eq(x, y),
        (Expr::Sum(x1, x2), Expr::Sum(y1, y2)) => expr_eq(x1, y1) && expr_eq(x2, y2),
        (Expr::Product(x1, x2), Expr::Product(y1, y2)) => expr_eq(x1, y1) && expr_eq(x2, y2),
        (Expr::Scaled(x, f), Expr::Scaled(y, g)) => expr_eq(x, y) && f == g,
        _ => false,
    }
}

/// A product `c * c * c` of one challenge compiles to a single leaf with
/// power 3, and the challenge table has exactly one entry.
#[test]
fn test_challenge_power_flattening() {
    // G = c*c*c * a - b
    let c3 = prod(prod(chal(0, 1), chal(0, 1)), chal(0, 1));
    let g = sum(prod(c3, adv(0, 0)), neg(adv(1, 0)));
    let gate = Gate::compile(&vec![g]);
    assert_eq!(gate.queried_challenges.len(), 1);
    assert_eq!(gate.queried_challenges[0], Challenge { index: 0, power: 3 });
    match &gate.polys[0] {
        Expr::Sum(l, _) => match &**l {
            Expr::Product(cl, _) => match &**cl {
                Expr::Challenge(i) => assert_eq!(*i, 0usize),
                other => panic!("expected a challenge leaf, got {:?}", expr_tag(other)),
            },
            other => panic!("expected a product, got {:?}", expr_tag(other)),
        },
        other => panic!("expected a sum, got {:?}", expr_tag(other)),
    }
    // The merged leaf has folding degree 1, so c^3 * a has degree 2.
    assert_eq!(gate.degrees[0], 2);
}

fn expr_tag(e: &Expr) -> &'static str {
    match e {
        Expr::Constant(_) => "constant",
        Expr::Selector(_) => "selector",
        Expr::Fixed(_) => "fixed",
        Expr::Advice(_) => "advice",
        Expr::Instance(_) => "instance",
        Expr::Challenge(_) => "challenge",
        Expr::Negated(_) => "negated",
        Expr::Sum(_, _) => "sum",
        Expr::Product(_, _) => "product",
        Expr::Scaled(_, _) => "scaled",
    }
}

/// A common simple selector at the top level is factored out; a gate without
/// one keeps `simple_selector` empty.
#[test]
fn test_simple_selector_extraction() {
    let s = Selector { index: 0, is_simple: true };
    let g0 = prod(Expression::Selector(s), adv(0, 0));
    let g1 = prod(Expression::Selector(s), adv(1, 0));
    let gate = Gate::compile(&vec![g0, g1]);
    assert_eq!(gate.simple_selector, Some(s));
    // The selector was peeled, so it is not re-queried inside the polys.
    assert_eq!(gate.queried_selectors.len(), 0);

    let gate2 = Gate::compile(&vec![adv(0, 0)]);
    assert_eq!(gate2.simple_selector, None);
}

/// Query tables come out strictly increasing and duplicate-free.
#[test]
fn test_query_tables_sorted_unique() {
    // Query fixed column 1 at rotations 1 and -1, column 0 at rotation 0,
    // with a duplicate of one query.
    let f = |col: usize, rot: i32| Expression::Fixed(FixedQuery { column_index: col, rotation: rot });
    let g = sum(sum(f(1, 1), f(1, -1)), sum(f(0, 0), f(1, 1)));
    let gate = Gate::compile(&vec![g]);
    assert_eq!(
        gate.queried_fixed,
        vec![
            FixedQuery { column_index: 0, rotation: 0 },
            FixedQuery { column_index: 1, rotation: -1 },
            FixedQuery { column_index: 1, rotation: 1 },
        ]
    );
}

/// Compiling the same constraints twice yields structurally identical gates.
#[test]
fn test_compile_deterministic() {
    let s = Selector { index: 2, is_simple: true };
    let mk = || {
        vec![
            prod(
                Expression::Selector(s),
                sum(prod(chal(1, 1), chal(1, 1)), neg(adv(0, 1))),
            ),
            prod(
                Expression::Selector(s),
                prod(adv(1, -1), Expression::Scaled(Box::new(adv(0, 0)), Fr::from(7u64))),
            ),
        ]
    };
    let g1 = Gate::compile(&mk());
    let g2 = Gate::compile(&mk());
    assert_eq!(g1.simple_selector, g2.simple_selector);
    assert_eq!(g1.degrees, g2.degrees);
    assert_eq!(g1.queried_selectors, g2.queried_selectors);
    assert_eq!(g1.queried_fixed, g2.queried_fixed);
    assert_eq!(g1.queried_challenges, g2.queried_challenges);
    assert_eq!(g1.queried_instance, g2.queried_instance);
    assert_eq!(g1.queried_advice, g2.queried_advice);
    assert_eq!(g1.polys.len(), g2.polys.len());
    for (a, b) in g1.polys.iter().zip(g2.polys.iter()) {
        assert!(expr_eq(a, b));
    }
}

/// Folding degrees: constants and fixed count 0; advice, instance and
/// challenges count 1; products add; sums take the maximum.
#[test]
fn test_folding_degree() {
    let d0 = Expression::Constant(Fr::from(3u64));
    assert_eq!(d0.folding_degree(), 0);
    assert_eq!(adv(0, 0).folding_degree(), 1);
    assert_eq!(prod(adv(0, 0), adv(1, 0)).folding_degree(), 2);
    assert_eq!(sum(prod(adv(0, 0), adv(1, 0)), adv(2, 0)).folding_degree(), 2);
    assert_eq!(neg(chal(0, 1)).folding_degree(), 1);
}
