//! Gate constraint expressions.
//!
//! `Expression` is the source form of a constraint: a tree over column and
//! challenge leaves. Gate compilation rewrites it in three steps, all here:
//! computing the folding degree, collapsing products of equal challenges into
//! a single power leaf, and replacing every leaf by its index into the
//! compiled gate's query tables, which yields the compact `Expr` form that row
//! evaluation walks.

use vstd::prelude::*;

use halo2curves::bn256::Fr;

use crate::queries::{
    sorted_unique, AdviceQuery, Challenge, FixedQuery, InstanceQuery, Selector,
};
use crate::queries::find_index;
use crate::scalar::{fadd, fmul, fneg, scalar_add, scalar_mul, scalar_neg};

verus! {

/// A constraint polynomial over named column and challenge leaves.
pub enum Expression {
    /// A constant scalar.
    Constant(Fr),
    /// A selector column, read as 0 or 1.
    Selector(Selector),
    /// A fixed column at a rotation.
    Fixed(FixedQuery),
    /// An advice column at a rotation.
    Advice(AdviceQuery),
    /// An instance column at a rotation.
    Instance(InstanceQuery),
    /// A power of a challenge.
    Challenge(Challenge),
    /// Negation.
    Negated(Box<Expression>),
    /// Sum of two subtrees.
    Sum(Box<Expression>, Box<Expression>),
    /// Product of two subtrees.
    Product(Box<Expression>, Box<Expression>),
    /// A subtree scaled by a constant.
    Scaled(Box<Expression>, Fr),
}

/// The degree of a constraint in the variables that vary along the fold line:
/// advice, instance and challenge leaves count 1, constants, selectors and
/// fixed columns count 0.
pub open spec fn spec_folding_degree(e: Expression) -> nat
    decreases e,
{
    match e {
        Expression::Constant(_) => 0,
        Expression::Selector(_) => 0,
        Expression::Fixed(_) => 0,
        Expression::Advice(_) => 1,
        Expression::Instance(_) => 1,
        Expression::Challenge(_) => 1,
        Expression::Negated(x) => spec_folding_degree(*x),
        Expression::Sum(a, b) => {
            let da = spec_folding_degree(*a);
            let db = spec_folding_degree(*b);
            if da >= db {
                da
            } else {
                db
            }
        },
        Expression::Product(a, b) => spec_folding_degree(*a) + spec_folding_degree(*b),
        Expression::Scaled(x, _) => spec_folding_degree(*x),
    }
}

/// The sum of the powers of all challenge leaves; a bound on any power that
/// challenge-product merging can produce.
pub open spec fn spec_sum_powers(e: Expression) -> nat
    decreases e,
{
    match e {
        Expression::Challenge(c) => c.power as nat,
        Expression::Negated(x) => spec_sum_powers(*x),
        Expression::Scaled(x, _) => spec_sum_powers(*x),
        Expression::Sum(a, b) => spec_sum_powers(*a) + spec_sum_powers(*b),
        Expression::Product(a, b) => spec_sum_powers(*a) + spec_sum_powers(*b),
        _ => 0,
    }
}

/// The result of collapsing every product of equal challenges into a single
/// challenge leaf whose power is the sum of the factors' powers.
pub open spec fn spec_merge(e: Expression) -> Expression
    decreases e,
{
    match e {
        Expression::Negated(x) => Expression::Negated(Box::new(spec_merge(*x))),
        Expression::Sum(a, b) => Expression::Sum(
            Box::new(spec_merge(*a)),
            Box::new(spec_merge(*b)),
        ),
        Expression::Scaled(x, f) => Expression::Scaled(Box::new(spec_merge(*x)), f),
        Expression::Product(a, b) => {
            let ma = spec_merge(*a);
            let mb = spec_merge(*b);
            match (ma, mb) {
                (Expression::Challenge(c1), Expression::Challenge(c2)) => {
                    if c1.index == c2.index {
                        Expression::Challenge(
                            Challenge { index: c1.index, power: (c1.power + c2.power) as usize },
                        )
                    } else {
                        Expression::Product(
                            Box::new(Expression::Challenge(c1)),
                            Box::new(Expression::Challenge(c2)),
                        )
                    }
                },
                (x, y) => Expression::Product(Box::new(x), Box::new(y)),
            }
        },
        _ => e,
    }
}

/// Merging never raises the total challenge power.
pub proof fn lemma_merge_sum_powers(e: Expression)
    ensures
        spec_sum_powers(spec_merge(e)) <= spec_sum_powers(e),
    decreases e,
{
    match e {
        Expression::Negated(x) => lemma_merge_sum_powers(*x),
        Expression::Scaled(x, _) => lemma_merge_sum_powers(*x),
        Expression::Sum(a, b) => {
            lemma_merge_sum_powers(*a);
            lemma_merge_sum_powers(*b);
        },
        Expression::Product(a, b) => {
            lemma_merge_sum_powers(*a);
            lemma_merge_sum_powers(*b);
        },
        _ => {},
    }
}

impl Expression {
    /// An owned structural copy.
    pub fn duplicate(&self) -> (r: Expression)
        ensures
            r == *self,
        decreases *self,
    {
        match self {
            Expression::Constant(v) => Expression::Constant(*v),
            Expression::Selector(s) => Expression::Selector(*s),
            Expression::Fixed(q) => Expression::Fixed(*q),
            Expression::Advice(q) => Expression::Advice(*q),
            Expression::Instance(q) => Expression::Instance(*q),
            Expression::Challenge(c) => Expression::Challenge(*c),
            Expression::Negated(x) => Expression::Negated(Box::new(x.duplicate())),
            Expression::Sum(a, b) => Expression::Sum(
                Box::new(a.duplicate()),
                Box::new(b.duplicate()),
            ),
            Expression::Product(a, b) => Expression::Product(
                Box::new(a.duplicate()),
                Box::new(b.duplicate()),
            ),
            Expression::Scaled(x, f) => Expression::Scaled(Box::new(x.duplicate()), *f),
        }
    }

    /// The folding degree of this constraint (see `spec_folding_degree`).
    pub fn folding_degree(&self) -> (r: usize)
        requires
            spec_folding_degree(*self) <= usize::MAX,
        ensures
            r == spec_folding_degree(*self),
        decreases *self,
    {
        match self {
            Expression::Constant(_) => 0,
            Expression::Selector(_) => 0,
            Expression::Fixed(_) => 0,
            Expression::Advice(_) => 1,
            Expression::Instance(_) => 1,
            Expression::Challenge(_) => 1,
            Expression::Negated(x) => x.folding_degree(),
            Expression::Sum(a, b) => {
                let da = a.folding_degree();
                let db = b.folding_degree();
                if da >= db {
                    da
                } else {
                    db
                }
            },
            Expression::Product(a, b) => {
                let da = a.folding_degree();
                let db = b.folding_degree();
                da + db
            },
            Expression::Scaled(x, _) => x.folding_degree(),
        }
    }

    /// Collapse products of equal challenges into explicit powers
    /// (see `spec_merge`).
    pub fn merge_challenge_products(&self) -> (r: Expression)
        requires
            spec_sum_powers(*self) <= usize::MAX,
        ensures
            r == spec_merge(*self),
        decreases *self,
    {
        match self {
            Expression::Negated(x) => Expression::Negated(Box::new(x.merge_challenge_products())),
            Expression::Sum(a, b) => Expression::Sum(
                Box::new(a.merge_challenge_products()),
                Box::new(b.merge_challenge_products()),
            ),
            Expression::Scaled(x, f) => Expression::Scaled(
                Box::new(x.merge_challenge_products()),
                *f,
            ),
            Expression::Product(a, b) => {
                let ma = a.merge_challenge_products();
                let mb = b.merge_challenge_products();
                proof {
                    lemma_merge_sum_powers(**a);
                    lemma_merge_sum_powers(**b);
                }
                let merged = match (&ma, &mb) {
                    (Expression::Challenge(c1), Expression::Challenge(c2)) => {
                        if c1.index == c2.index {
                            Some(Challenge { index: c1.index, power: c1.power + c2.power })
                        } else {
                            None
                        }
                    },
                    _ => None,
                };
                match merged {
                    Some(c) => Expression::Challenge(c),
                    None => Expression::Product(Box::new(ma), Box::new(mb)),
                }
            },
            _ => self.duplicate(),
        }
    }
}

/// A constraint polynomial whose leaves are indices into the query tables of
/// its compiled gate.
pub enum Expr {
    /// A constant scalar.
    Constant(Fr),
    /// Index into the owning gate's selector table.
    Selector(usize),
    /// Index into the owning gate's fixed-query table.
    Fixed(usize),
    /// Index into the owning gate's advice-query table.
    Advice(usize),
    /// Index into the owning gate's instance-query table.
    Instance(usize),
    /// Index into the owning gate's challenge table.
    Challenge(usize),
    /// Negation.
    Negated(Box<Expr>),
    /// Sum of two subtrees.
    Sum(Box<Expr>, Box<Expr>),
    /// Product of two subtrees.
    Product(Box<Expr>, Box<Expr>),
    /// A subtree scaled by a constant.
    Scaled(Box<Expr>, Fr),
}

/// Every leaf index is within the corresponding buffer length.
pub open spec fn spec_expr_wf(
    e: Expr,
    n_selectors: nat,
    n_fixed: nat,
    n_advice: nat,
    n_instance: nat,
    n_challenges: nat,
) -> bool
    decreases e,
{
    match e {
        Expr::Constant(_) => true,
        Expr::Selector(i) => i < n_selectors,
        Expr::Fixed(i) => i < n_fixed,
        Expr::Advice(i) => i < n_advice,
        Expr::Instance(i) => i < n_instance,
        Expr::Challenge(i) => i < n_challenges,
        Expr::Negated(x) => spec_expr_wf(*x, n_selectors, n_fixed, n_advice, n_instance, n_challenges),
        Expr::Sum(a, b) => spec_expr_wf(*a, n_selectors, n_fixed, n_advice, n_instance, n_challenges)
            && spec_expr_wf(*b, n_selectors, n_fixed, n_advice, n_instance, n_challenges),
        Expr::Product(a, b) => spec_expr_wf(
            *a,
            n_selectors,
            n_fixed,
            n_advice,
            n_instance,
            n_challenges,
        ) && spec_expr_wf(*b, n_selectors, n_fixed, n_advice, n_instance, n_challenges),
        Expr::Scaled(x, _) => spec_expr_wf(*x, n_selectors, n_fixed, n_advice, n_instance, n_challenges),
    }
}

/// Postorder evaluation of an indexed constraint against row buffers, over the
/// named bn256 field operations.
pub open spec fn spec_eval_expr(
    e: Expr,
    selectors: Seq<Fr>,
    fixed: Seq<Fr>,
    advice: Seq<Fr>,
    instance: Seq<Fr>,
    challenges: Seq<Fr>,
) -> Fr
    decreases e,
{
    match e {
        Expr::Constant(v) => v,
        Expr::Selector(i) => selectors[i as int],
        Expr::Fixed(i) => fixed[i as int],
        Expr::Advice(i) => advice[i as int],
        Expr::Instance(i) => instance[i as int],
        Expr::Challenge(i) => challenges[i as int],
        Expr::Negated(x) => fneg(spec_eval_expr(*x, selectors, fixed, advice, instance, challenges)),
        Expr::Sum(a, b) => fadd(
            spec_eval_expr(*a, selectors, fixed, advice, instance, challenges),
            spec_eval_expr(*b, selectors, fixed, advice, instance, challenges),
        ),
        Expr::Product(a, b) => fmul(
            spec_eval_expr(*a, selectors, fixed, advice, instance, challenges),
            spec_eval_expr(*b, selectors, fixed, advice, instance, challenges),
        ),
        Expr::Scaled(x, f) => fmul(
            spec_eval_expr(*x, selectors, fixed, advice, instance, challenges),
            f,
        ),
    }
}

impl Expr {
    /// Evaluate the constraint against the given row buffers. The buffers are,
    /// in order: selector values (as 0/1 scalars), fixed values, advice values,
    /// instance values, and challenge powers, each parallel to the compiled
    /// gate's query table of that kind.
    pub fn evaluate(
        &self,
        selectors: &Vec<Fr>,
        fixed: &Vec<Fr>,
        advice: &Vec<Fr>,
        instance: &Vec<Fr>,
        challenges: &Vec<Fr>,
    ) -> (r: Fr)
        requires
            spec_expr_wf(
                *self,
                selectors@.len(),
                fixed@.len(),
                advice@.len(),
                instance@.len(),
                challenges@.len(),
            ),
        ensures
            r == spec_eval_expr(*self, selectors@, fixed@, advice@, instance@, challenges@),
        decreases *self,
    {
        match self {
            Expr::Constant(v) => *v,
            Expr::Selector(i) => selectors[*i],
            Expr::Fixed(i) => fixed[*i],
            Expr::Advice(i) => advice[*i],
            Expr::Instance(i) => instance[*i],
            Expr::Challenge(i) => challenges[*i],
            Expr::Negated(x) => scalar_neg(x.evaluate(selectors, fixed, advice, instance, challenges)),
            Expr::Sum(a, b) => {
                let va = a.evaluate(selectors, fixed, advice, instance, challenges);
                let vb = b.evaluate(selectors, fixed, advice, instance, challenges);
                scalar_add(va, vb)
            },
            Expr::Product(a, b) => {
                let va = a.evaluate(selectors, fixed, advice, instance, challenges);
                let vb = b.evaluate(selectors, fixed, advice, instance, challenges);
                scalar_mul(va, vb)
            },
            Expr::Scaled(x, f) => {
                let vx = x.evaluate(selectors, fixed, advice, instance, challenges);
                scalar_mul(vx, *f)
            },
        }
    }
}

/// Every leaf of `e` is a member of the corresponding query table.
pub open spec fn spec_leaves_in(
    e: Expression,
    sels: Seq<Selector>,
    fixed: Seq<FixedQuery>,
    challenges: Seq<Challenge>,
    instance: Seq<InstanceQuery>,
    advice: Seq<AdviceQuery>,
) -> bool
    decreases e,
{
    match e {
        Expression::Constant(_) => true,
        Expression::Selector(s) => sels.contains(s),
        Expression::Fixed(q) => fixed.contains(q),
        Expression::Advice(q) => advice.contains(q),
        Expression::Instance(q) => instance.contains(q),
        Expression::Challenge(c) => challenges.contains(c),
        Expression::Negated(x) => spec_leaves_in(*x, sels, fixed, challenges, instance, advice),
        Expression::Sum(a, b) => spec_leaves_in(*a, sels, fixed, challenges, instance, advice)
            && spec_leaves_in(*b, sels, fixed, challenges, instance, advice),
        Expression::Product(a, b) => spec_leaves_in(*a, sels, fixed, challenges, instance, advice)
            && spec_leaves_in(*b, sels, fixed, challenges, instance, advice),
        Expression::Scaled(x, _) => spec_leaves_in(*x, sels, fixed, challenges, instance, advice),
    }
}

/// The index rewriting of `to_expr`: each leaf becomes its index in the
/// corresponding query table.
pub open spec fn spec_to_expr(
    e: Expression,
    sels: Seq<Selector>,
    fixed: Seq<FixedQuery>,
    challenges: Seq<Challenge>,
    instance: Seq<InstanceQuery>,
    advice: Seq<AdviceQuery>,
) -> Expr
    decreases e,
{
    match e {
        Expression::Constant(v) => Expr::Constant(v),
        Expression::Selector(s) => Expr::Selector(sels.index_of(s) as usize),
        Expression::Fixed(q) => Expr::Fixed(fixed.index_of(q) as usize),
        Expression::Advice(q) => Expr::Advice(advice.index_of(q) as usize),
        Expression::Instance(q) => Expr::Instance(instance.index_of(q) as usize),
        Expression::Challenge(c) => Expr::Challenge(challenges.index_of(c) as usize),
        Expression::Negated(x) => Expr::Negated(
            Box::new(spec_to_expr(*x, sels, fixed, challenges, instance, advice)),
        ),
        Expression::Sum(a, b) => Expr::Sum(
            Box::new(spec_to_expr(*a, sels, fixed, challenges, instance, advice)),
            Box::new(spec_to_expr(*b, sels, fixed, challenges, instance, advice)),
        ),
        Expression::Product(a, b) => Expr::Product(
            Box::new(spec_to_expr(*a, sels, fixed, challenges, instance, advice)),
            Box::new(spec_to_expr(*b, sels, fixed, challenges, instance, advice)),
        ),
        Expression::Scaled(x, f) => Expr::Scaled(
            Box::new(spec_to_expr(*x, sels, fixed, challenges, instance, advice)),
            f,
        ),
    }
}

impl Expression {
    /// Given the sorted tables of all leaves of this expression, produce the
    /// indexed `Expr` whose leaves are positions in those tables.
    pub fn to_expr(
        &self,
        selectors: &Vec<Selector>,
        fixed: &Vec<FixedQuery>,
        challenges: &Vec<Challenge>,
        instance: &Vec<InstanceQuery>,
        advice: &Vec<AdviceQuery>,
    ) -> (r: Expr)
        requires
            sorted_unique(selectors@),
            sorted_unique(fixed@),
            sorted_unique(challenges@),
            sorted_unique(instance@),
            sorted_unique(advice@),
            spec_leaves_in(*self, selectors@, fixed@, challenges@, instance@, advice@),
        ensures
            r == spec_to_expr(*self, selectors@, fixed@, challenges@, instance@, advice@),
        decreases *self,
    {
        match self {
            Expression::Constant(v) => Expr::Constant(*v),
            Expression::Selector(s) => Expr::Selector(find_index(selectors, s)),
            Expression::Fixed(q) => Expr::Fixed(find_index(fixed, q)),
            Expression::Advice(q) => Expr::Advice(find_index(advice, q)),
            Expression::Instance(q) => Expr::Instance(find_index(instance, q)),
            Expression::Challenge(c) => Expr::Challenge(find_index(challenges, c)),
            Expression::Negated(x) => Expr::Negated(
                Box::new(x.to_expr(selectors, fixed, challenges, instance, advice)),
            ),
            Expression::Sum(a, b) => Expr::Sum(
                Box::new(a.to_expr(selectors, fixed, challenges, instance, advice)),
                Box::new(b.to_expr(selectors, fixed, challenges, instance, advice)),
            ),
            Expression::Product(a, b) => Expr::Product(
                Box::new(a.to_expr(selectors, fixed, challenges, instance, advice)),
                Box::new(b.to_expr(selectors, fixed, challenges, instance, advice)),
            ),
            Expression::Scaled(x, f) => Expr::Scaled(
                Box::new(x.to_expr(selectors, fixed, challenges, instance, advice)),
                *f,
            ),
        }
    }
}

} // verus!
