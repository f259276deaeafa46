//! Gate compilation.
//!
//! A source gate is a non-empty list of constraint expressions. Compilation
//! factors a common simple selector out of the top level, collapses products
//! of equal challenges into powers, interns every remaining leaf into a
//! sorted, duplicate-free query table per kind, and rewrites each constraint
//! into the indexed `Expr` form, tagged with its folding degree.

use vstd::prelude::*;

use crate::expr::{
    spec_folding_degree, spec_leaves_in, spec_merge, spec_sum_powers, spec_to_expr, Expr,
    Expression,
};
use crate::queries::{
    insert_sorted, lemma_sorted_unique_canonical, sorted_unique, AdviceQuery, Challenge,
    FixedQuery, InstanceQuery, Selector,
};

verus! {

/// A compiled gate: the indexed constraints, their folding degrees, the
/// factored-out simple selector if one exists, and the query tables that the
/// constraints' leaf indices point into.
pub struct Gate {
    /// The constraint polynomials, leaves rewritten to table indices.
    pub polys: Vec<Expr>,
    /// A simple selector that multiplied every top-level constraint, if any.
    pub simple_selector: Option<Selector>,
    /// Folding degree of each constraint, parallel to `polys`.
    pub degrees: Vec<usize>,
    /// Sorted table of queried selectors.
    pub queried_selectors: Vec<Selector>,
    /// Sorted table of queried fixed columns with rotations.
    pub queried_fixed: Vec<FixedQuery>,
    /// Sorted table of queried challenge powers.
    pub queried_challenges: Vec<Challenge>,
    /// Sorted table of queried instance columns with rotations.
    pub queried_instance: Vec<InstanceQuery>,
    /// Sorted table of queried advice columns with rotations.
    pub queried_advice: Vec<AdviceQuery>,
}

/// Does `s` occur as a selector leaf of `e`?
pub open spec fn spec_sel_leaf(e: Expression, s: Selector) -> bool
    decreases e,
{
    match e {
        Expression::Selector(x) => x == s,
        Expression::Negated(x) => spec_sel_leaf(*x, s),
        Expression::Scaled(x, _) => spec_sel_leaf(*x, s),
        Expression::Sum(a, b) => spec_sel_leaf(*a, s) || spec_sel_leaf(*b, s),
        Expression::Product(a, b) => spec_sel_leaf(*a, s) || spec_sel_leaf(*b, s),
        _ => false,
    }
}

/// Does `q` occur as a fixed-query leaf of `e`?
pub open spec fn spec_fixed_leaf(e: Expression, q: FixedQuery) -> bool
    decreases e,
{
    match e {
        Expression::Fixed(x) => x == q,
        Expression::Negated(x) => spec_fixed_leaf(*x, q),
        Expression::Scaled(x, _) => spec_fixed_leaf(*x, q),
        Expression::Sum(a, b) => spec_fixed_leaf(*a, q) || spec_fixed_leaf(*b, q),
        Expression::Product(a, b) => spec_fixed_leaf(*a, q) || spec_fixed_leaf(*b, q),
        _ => false,
    }
}

/// Does `q` occur as an advice-query leaf of `e`?
pub open spec fn spec_advice_leaf(e: Expression, q: AdviceQuery) -> bool
    decreases e,
{
    match e {
        Expression::Advice(x) => x == q,
        Expression::Negated(x) => spec_advice_leaf(*x, q),
        Expression::Scaled(x, _) => spec_advice_leaf(*x, q),
        Expression::Sum(a, b) => spec_advice_leaf(*a, q) || spec_advice_leaf(*b, q),
        Expression::Product(a, b) => spec_advice_leaf(*a, q) || spec_advice_leaf(*b, q),
        _ => false,
    }
}

/// Does `q` occur as an instance-query leaf of `e`?
pub open spec fn spec_instance_leaf(e: Expression, q: InstanceQuery) -> bool
    decreases e,
{
    match e {
        Expression::Instance(x) => x == q,
        Expression::Negated(x) => spec_instance_leaf(*x, q),
        Expression::Scaled(x, _) => spec_instance_leaf(*x, q),
        Expression::Sum(a, b) => spec_instance_leaf(*a, q) || spec_instance_leaf(*b, q),
        Expression::Product(a, b) => spec_instance_leaf(*a, q) || spec_instance_leaf(*b, q),
        _ => false,
    }
}

/// Does `c` occur as a challenge leaf of `e`?
pub open spec fn spec_challenge_leaf(e: Expression, c: Challenge) -> bool
    decreases e,
{
    match e {
        Expression::Challenge(x) => x == c,
        Expression::Negated(x) => spec_challenge_leaf(*x, c),
        Expression::Scaled(x, _) => spec_challenge_leaf(*x, c),
        Expression::Sum(a, b) => spec_challenge_leaf(*a, c) || spec_challenge_leaf(*b, c),
        Expression::Product(a, b) => spec_challenge_leaf(*a, c) || spec_challenge_leaf(*b, c),
        _ => false,
    }
}

/// The simple selector at the top of `e`, when `e` is a product with a simple
/// selector as its left factor.
pub open spec fn spec_top_selector(e: Expression) -> Option<Selector> {
    match e {
        Expression::Product(a, _) => match *a {
            Expression::Selector(s) => if s.is_simple {
                Some(s)
            } else {
                None
            },
            _ => None,
        },
        _ => None,
    }
}

/// The selector factored out of a gate: present exactly when every top-level
/// constraint is a product of one common simple selector with a rest.
pub open spec fn spec_common_selector(polys: Seq<Expression>) -> Option<Selector> {
    if polys.len() > 0 && spec_top_selector(polys[0]) is Some && (forall|j: int|
        0 <= j < polys.len() ==> #[trigger] spec_top_selector(polys[j]) == spec_top_selector(
            polys[0],
        )) {
        spec_top_selector(polys[0])
    } else {
        None
    }
}

/// Remove the top-level selector factor when one was extracted.
pub open spec fn spec_strip_top(e: Expression) -> Expression {
    match e {
        Expression::Product(_, b) => *b,
        _ => e,
    }
}

/// The constraint that compilation actually interns and rewrites: the source
/// constraint with the common selector peeled off and challenge products
/// merged.
pub open spec fn spec_source_poly(polys: Seq<Expression>, j: int) -> Expression {
    if spec_common_selector(polys) is Some {
        spec_merge(spec_strip_top(polys[j]))
    } else {
        spec_merge(polys[j])
    }
}

/// What `Gate::compile` promises: each field of `g` is the described function
/// of the source constraints.
pub open spec fn compiled_from(g: Gate, polys: Seq<Expression>) -> bool {
    &&& g.simple_selector == spec_common_selector(polys)
    &&& g.polys@.len() == polys.len()
    &&& g.degrees@.len() == polys.len()
    &&& forall|j: int|
        0 <= j < polys.len() ==> g.degrees@[j] as nat == spec_folding_degree(
            spec_source_poly(polys, j),
        )
    &&& forall|j: int|
        0 <= j < polys.len() ==> g.polys@[j] == spec_to_expr(
            spec_source_poly(polys, j),
            g.queried_selectors@,
            g.queried_fixed@,
            g.queried_challenges@,
            g.queried_instance@,
            g.queried_advice@,
        )
    &&& sorted_unique(g.queried_selectors@)
    &&& sorted_unique(g.queried_fixed@)
    &&& sorted_unique(g.queried_challenges@)
    &&& sorted_unique(g.queried_instance@)
    &&& sorted_unique(g.queried_advice@)
    &&& forall|x: Selector|
        g.queried_selectors@.contains(x) <==> exists|j: int|
            0 <= j < polys.len() && spec_sel_leaf(spec_source_poly(polys, j), x)
    &&& forall|x: FixedQuery|
        g.queried_fixed@.contains(x) <==> exists|j: int|
            0 <= j < polys.len() && spec_fixed_leaf(spec_source_poly(polys, j), x)
    &&& forall|x: Challenge|
        g.queried_challenges@.contains(x) <==> exists|j: int|
            0 <= j < polys.len() && spec_challenge_leaf(spec_source_poly(polys, j), x)
    &&& forall|x: InstanceQuery|
        g.queried_instance@.contains(x) <==> exists|j: int|
            0 <= j < polys.len() && spec_instance_leaf(spec_source_poly(polys, j), x)
    &&& forall|x: AdviceQuery|
        g.queried_advice@.contains(x) <==> exists|j: int|
            0 <= j < polys.len() && spec_advice_leaf(spec_source_poly(polys, j), x)
}

/// Merging cannot raise the folding degree: a merged challenge power counts 1
/// where the product of its factors counted at least 2.
pub proof fn lemma_merge_degree(e: Expression)
    ensures
        spec_folding_degree(spec_merge(e)) <= spec_folding_degree(e),
    decreases e,
{
    match e {
        Expression::Negated(x) => lemma_merge_degree(*x),
        Expression::Scaled(x, _) => lemma_merge_degree(*x),
        Expression::Sum(a, b) => {
            lemma_merge_degree(*a);
            lemma_merge_degree(*b);
        },
        Expression::Product(a, b) => {
            lemma_merge_degree(*a);
            lemma_merge_degree(*b);
        },
        _ => {},
    }
}

/// Leaf membership in the tables gives `spec_leaves_in`.
proof fn lemma_leaves_in(
    e: Expression,
    sels: Seq<Selector>,
    fixed: Seq<FixedQuery>,
    challenges: Seq<Challenge>,
    instance: Seq<InstanceQuery>,
    advice: Seq<AdviceQuery>,
)
    requires
        forall|x: Selector| spec_sel_leaf(e, x) ==> sels.contains(x),
        forall|x: FixedQuery| spec_fixed_leaf(e, x) ==> fixed.contains(x),
        forall|x: Challenge| spec_challenge_leaf(e, x) ==> challenges.contains(x),
        forall|x: InstanceQuery| spec_instance_leaf(e, x) ==> instance.contains(x),
        forall|x: AdviceQuery| spec_advice_leaf(e, x) ==> advice.contains(x),
    ensures
        spec_leaves_in(e, sels, fixed, challenges, instance, advice),
    decreases e,
{
    match e {
        Expression::Negated(x) => lemma_leaves_in(*x, sels, fixed, challenges, instance, advice),
        Expression::Scaled(x, _) => lemma_leaves_in(*x, sels, fixed, challenges, instance, advice),
        Expression::Sum(a, b) => {
            lemma_leaves_in(*a, sels, fixed, challenges, instance, advice);
            lemma_leaves_in(*b, sels, fixed, challenges, instance, advice);
        },
        Expression::Product(a, b) => {
            lemma_leaves_in(*a, sels, fixed, challenges, instance, advice);
            lemma_leaves_in(*b, sels, fixed, challenges, instance, advice);
        },
        _ => {},
    }
}

/// The rewriting of an expression whose leaves all lie in the tables has every
/// index within the table lengths.
pub proof fn lemma_to_expr_wf(
    e: Expression,
    sels: Seq<Selector>,
    fixed: Seq<FixedQuery>,
    challenges: Seq<Challenge>,
    instance: Seq<InstanceQuery>,
    advice: Seq<AdviceQuery>,
)
    requires
        spec_leaves_in(e, sels, fixed, challenges, instance, advice),
    ensures
        crate::expr::spec_expr_wf(
            spec_to_expr(e, sels, fixed, challenges, instance, advice),
            sels.len(),
            fixed.len(),
            advice.len(),
            instance.len(),
            challenges.len(),
        ),
    decreases e,
{
    match e {
        Expression::Negated(x) => lemma_to_expr_wf(*x, sels, fixed, challenges, instance, advice),
        Expression::Scaled(x, _) => lemma_to_expr_wf(*x, sels, fixed, challenges, instance, advice),
        Expression::Sum(a, b) => {
            lemma_to_expr_wf(*a, sels, fixed, challenges, instance, advice);
            lemma_to_expr_wf(*b, sels, fixed, challenges, instance, advice);
        },
        Expression::Product(a, b) => {
            lemma_to_expr_wf(*a, sels, fixed, challenges, instance, advice);
            lemma_to_expr_wf(*b, sels, fixed, challenges, instance, advice);
        },
        _ => {},
    }
}

/// Insert every leaf of `e` into the corresponding sorted table.
pub(crate) fn collect_queries(
    e: &Expression,
    sels: &mut Vec<Selector>,
    fixed: &mut Vec<FixedQuery>,
    challenges: &mut Vec<Challenge>,
    instance: &mut Vec<InstanceQuery>,
    advice: &mut Vec<AdviceQuery>,
)
    requires
        sorted_unique(old(sels)@),
        sorted_unique(old(fixed)@),
        sorted_unique(old(challenges)@),
        sorted_unique(old(instance)@),
        sorted_unique(old(advice)@),
    ensures
        sorted_unique(final(sels)@),
        sorted_unique(final(fixed)@),
        sorted_unique(final(challenges)@),
        sorted_unique(final(instance)@),
        sorted_unique(final(advice)@),
        forall|x: Selector|
            #[trigger] final(sels)@.contains(x) <==> (old(sels)@.contains(x) || spec_sel_leaf(
                *e,
                x,
            )),
        forall|x: FixedQuery|
            #[trigger] final(fixed)@.contains(x) <==> (old(fixed)@.contains(x) || spec_fixed_leaf(
                *e,
                x,
            )),
        forall|x: Challenge|
            #[trigger] final(challenges)@.contains(x) <==> (old(challenges)@.contains(x)
                || spec_challenge_leaf(*e, x)),
        forall|x: InstanceQuery|
            #[trigger] final(instance)@.contains(x) <==> (old(instance)@.contains(x)
                || spec_instance_leaf(*e, x)),
        forall|x: AdviceQuery|
            #[trigger] final(advice)@.contains(x) <==> (old(advice)@.contains(x)
                || spec_advice_leaf(*e, x)),
    decreases *e,
{
    match e {
        Expression::Selector(s) => {
            insert_sorted(sels, *s);
            proof {
                assert(*e == Expression::Selector(*s));
                assert(forall|x: Selector| #[trigger] spec_sel_leaf(*e, x) <==> x == *s);
                assert(forall|x: Selector|
                    sels@.contains(x) <==> (old(sels)@.contains(x) || x == *s));
            }
        },
        Expression::Fixed(q) => insert_sorted(fixed, *q),
        Expression::Advice(q) => insert_sorted(advice, *q),
        Expression::Instance(q) => insert_sorted(instance, *q),
        Expression::Challenge(c) => insert_sorted(challenges, *c),
        Expression::Negated(x) => collect_queries(x, sels, fixed, challenges, instance, advice),
        Expression::Scaled(x, _) => collect_queries(x, sels, fixed, challenges, instance, advice),
        Expression::Sum(a, b) => {
            collect_queries(a, sels, fixed, challenges, instance, advice);
            collect_queries(b, sels, fixed, challenges, instance, advice);
        },
        Expression::Product(a, b) => {
            collect_queries(a, sels, fixed, challenges, instance, advice);
            collect_queries(b, sels, fixed, challenges, instance, advice);
        },
        Expression::Constant(_) => {},
    }
}

/// The simple selector at the top of `e`, if any.
fn top_selector(e: &Expression) -> (r: Option<Selector>)
    ensures
        r == spec_top_selector(*e),
{
    match e {
        Expression::Product(a, _) => match &**a {
            Expression::Selector(s) => if s.is_simple {
                Some(*s)
            } else {
                None
            },
            _ => None,
        },
        _ => None,
    }
}

/// Structural equality of two optional selectors.
fn opt_sel_eq(a: &Option<Selector>, b: &Option<Selector>) -> (r: bool)
    ensures
        r == (*a == *b),
{
    match (a, b) {
        (Some(x), Some(y)) => x.index == y.index && x.is_simple == y.is_simple,
        (None, None) => true,
        _ => false,
    }
}

/// Copy of `e`, with the top-level product factor removed when `strip` holds.
fn peel(e: &Expression, strip: bool) -> (r: Expression)
    ensures
        strip ==> r == spec_strip_top(*e),
        !strip ==> r == *e,
{
    if strip {
        match e {
            Expression::Product(_, b) => b.duplicate(),
            _ => e.duplicate(),
        }
    } else {
        e.duplicate()
    }
}

impl Gate {
    /// Compile a non-empty list of source constraints into a gate.
    ///
    /// The query tables come out strictly sorted and duplicate-free, and every
    /// field is a function of the input alone, so compiling the same
    /// constraints twice yields structurally identical gates
    /// (`lemma_compile_deterministic`).
    pub fn compile(polys: &Vec<Expression>) -> (r: Gate)
        requires
            polys@.len() > 0,
            forall|j: int|
                0 <= j < polys@.len() ==> spec_folding_degree(#[trigger] polys@[j]) <= usize::MAX,
            forall|j: int|
                0 <= j < polys@.len() ==> spec_sum_powers(#[trigger] polys@[j]) <= usize::MAX,
        ensures
            compiled_from(r, polys@),
    {
        let n = polys.len();
        // Step 1: extract the common simple selector, if every constraint is
        // a product of one and the same simple selector with a rest.
        let first_top = top_selector(&polys[0]);
        let mut all_same = true;
        let mut j: usize = 1;
        while j < n
            invariant
                1 <= j <= n,
                n == polys@.len(),
                n > 0,
                first_top == spec_top_selector(polys@[0]),
                all_same <==> forall|k: int|
                    0 <= k < j ==> #[trigger] spec_top_selector(polys@[k]) == spec_top_selector(
                        polys@[0],
                    ),
            decreases n - j,
        {
            let t = top_selector(&polys[j]);
            if !opt_sel_eq(&t, &first_top) {
                all_same = false;
            }
            j = j + 1;
        }
        let simple_selector = if all_same {
            first_top
        } else {
            None
        };
        proof {
            assert(simple_selector == spec_common_selector(polys@));
        }
        let strip = simple_selector.is_some();

        // Steps 2 and 3: peel the selector and merge challenge products.
        let mut sources: Vec<Expression> = Vec::new();
        let mut i: usize = 0;
        while i < n
            invariant
                i <= n,
                n == polys@.len(),
                strip == (spec_common_selector(polys@) is Some),
                sources@.len() == i,
                forall|k: int| 0 <= k < i ==> sources@[k] == spec_source_poly(polys@, k),
                forall|k: int|
                    0 <= k < polys@.len() ==> spec_folding_degree(#[trigger] polys@[k])
                        <= usize::MAX,
                forall|k: int|
                    0 <= k < polys@.len() ==> spec_sum_powers(#[trigger] polys@[k]) <= usize::MAX,
            decreases n - i,
        {
            let p = peel(&polys[i], strip);
            proof {
                // Peeling takes a subtree, so the power bound carries over.
                assert(spec_sum_powers(p) <= spec_sum_powers(polys@[i as int]));
            }
            let m = p.merge_challenge_products();
            sources.push(m);
            i = i + 1;
        }

        // Degree tagging.
        let mut degrees: Vec<usize> = Vec::new();
        let mut i: usize = 0;
        while i < n
            invariant
                i <= n,
                n == polys@.len(),
                sources@.len() == n,
                forall|k: int| 0 <= k < n ==> sources@[k] == spec_source_poly(polys@, k),
                degrees@.len() == i,
                forall|k: int|
                    0 <= k < i ==> degrees@[k] as nat == spec_folding_degree(
                        spec_source_poly(polys@, k),
                    ),
                forall|k: int|
                    0 <= k < polys@.len() ==> spec_folding_degree(#[trigger] polys@[k])
                        <= usize::MAX,
            decreases n - i,
        {
            proof {
                let src = polys@[i as int];
                if spec_common_selector(polys@) is Some {
                    lemma_merge_degree(spec_strip_top(src));
                    assert(spec_folding_degree(spec_strip_top(src)) <= spec_folding_degree(src));
                } else {
                    lemma_merge_degree(src);
                }
            }
            let d = sources[i].folding_degree();
            degrees.push(d);
            i = i + 1;
        }

        // Step 4: intern all leaves into sorted tables.
        let mut queried_selectors: Vec<Selector> = Vec::new();
        let mut queried_fixed: Vec<FixedQuery> = Vec::new();
        let mut queried_challenges: Vec<Challenge> = Vec::new();
        let mut queried_instance: Vec<InstanceQuery> = Vec::new();
        let mut queried_advice: Vec<AdviceQuery> = Vec::new();
        let mut i: usize = 0;
        while i < n
            invariant
                i <= n,
                n == polys@.len(),
                sources@.len() == n,
                forall|k: int| 0 <= k < n ==> sources@[k] == spec_source_poly(polys@, k),
                sorted_unique(queried_selectors@),
                sorted_unique(queried_fixed@),
                sorted_unique(queried_challenges@),
                sorted_unique(queried_instance@),
                sorted_unique(queried_advice@),
                forall|x: Selector|
                    queried_selectors@.contains(x) <==> exists|k: int|
                        0 <= k < i && spec_sel_leaf(#[trigger] sources@[k], x),
                forall|x: FixedQuery|
                    queried_fixed@.contains(x) <==> exists|k: int|
                        0 <= k < i && spec_fixed_leaf(#[trigger] sources@[k], x),
                forall|x: Challenge|
                    queried_challenges@.contains(x) <==> exists|k: int|
                        0 <= k < i && spec_challenge_leaf(#[trigger] sources@[k], x),
                forall|x: InstanceQuery|
                    queried_instance@.contains(x) <==> exists|k: int|
                        0 <= k < i && spec_instance_leaf(#[trigger] sources@[k], x),
                forall|x: AdviceQuery|
                    queried_advice@.contains(x) <==> exists|k: int|
                        0 <= k < i && spec_advice_leaf(#[trigger] sources@[k], x),
            decreases n - i,
        {
            collect_queries(
                &sources[i],
                &mut queried_selectors,
                &mut queried_fixed,
                &mut queried_challenges,
                &mut queried_instance,
                &mut queried_advice,
            );
            i = i + 1;
        }

        // Step 5: rewrite each constraint over the tables.
        let mut exprs: Vec<Expr> = Vec::new();
        let mut i: usize = 0;
        while i < n
            invariant
                i <= n,
                n == polys@.len(),
                sources@.len() == n,
                forall|k: int| 0 <= k < n ==> sources@[k] == spec_source_poly(polys@, k),
                sorted_unique(queried_selectors@),
                sorted_unique(queried_fixed@),
                sorted_unique(queried_challenges@),
                sorted_unique(queried_instance@),
                sorted_unique(queried_advice@),
                forall|x: Selector|
                    queried_selectors@.contains(x) <==> exists|k: int|
                        0 <= k < n && spec_sel_leaf(#[trigger] sources@[k], x),
                forall|x: FixedQuery|
                    queried_fixed@.contains(x) <==> exists|k: int|
                        0 <= k < n && spec_fixed_leaf(#[trigger] sources@[k], x),
                forall|x: Challenge|
                    queried_challenges@.contains(x) <==> exists|k: int|
                        0 <= k < n && spec_challenge_leaf(#[trigger] sources@[k], x),
                forall|x: InstanceQuery|
                    queried_instance@.contains(x) <==> exists|k: int|
                        0 <= k < n && spec_instance_leaf(#[trigger] sources@[k], x),
                forall|x: AdviceQuery|
                    queried_advice@.contains(x) <==> exists|k: int|
                        0 <= k < n && spec_advice_leaf(#[trigger] sources@[k], x),
                exprs@.len() == i,
                forall|k: int|
                    0 <= k < i ==> exprs@[k] == spec_to_expr(
                        spec_source_poly(polys@, k),
                        queried_selectors@,
                        queried_fixed@,
                        queried_challenges@,
                        queried_instance@,
                        queried_advice@,
                    ),
            decreases n - i,
        {
            proof {
                lemma_leaves_in(
                    sources@[i as int],
                    queried_selectors@,
                    queried_fixed@,
                    queried_challenges@,
                    queried_instance@,
                    queried_advice@,
                );
            }
            let x = sources[i].to_expr(
                &queried_selectors,
                &queried_fixed,
                &queried_challenges,
                &queried_instance,
                &queried_advice,
            );
            exprs.push(x);
            i = i + 1;
        }

        Gate {
            polys: exprs,
            simple_selector,
            degrees,
            queried_selectors,
            queried_fixed,
            queried_challenges,
            queried_instance,
            queried_advice,
        }
    }
}

/// Compilation is a function of the source constraints alone: two gates
/// compiled from the same constraints are structurally identical, field by
/// field and table by table.
pub proof fn lemma_compile_deterministic(polys: Seq<Expression>, g1: Gate, g2: Gate)
    requires
        compiled_from(g1, polys),
        compiled_from(g2, polys),
    ensures
        g1.simple_selector == g2.simple_selector,
        g1.polys@ == g2.polys@,
        g1.degrees@ == g2.degrees@,
        g1.queried_selectors@ == g2.queried_selectors@,
        g1.queried_fixed@ == g2.queried_fixed@,
        g1.queried_challenges@ == g2.queried_challenges@,
        g1.queried_instance@ == g2.queried_instance@,
        g1.queried_advice@ == g2.queried_advice@,
{
    lemma_sorted_unique_canonical(g1.queried_selectors@, g2.queried_selectors@);
    lemma_sorted_unique_canonical(g1.queried_fixed@, g2.queried_fixed@);
    lemma_sorted_unique_canonical(g1.queried_challenges@, g2.queried_challenges@);
    lemma_sorted_unique_canonical(g1.queried_instance@, g2.queried_instance@);
    lemma_sorted_unique_canonical(g1.queried_advice@, g2.queried_advice@);
    assert forall|j: int| 0 <= j < polys.len() implies g1.polys@[j] == g2.polys@[j] by {
    }
    assert(g1.polys@ =~= g2.polys@);
    assert forall|j: int| 0 <= j < polys.len() implies g1.degrees@[j] == g2.degrees@[j] by {
    }
    assert(g1.degrees@ =~= g2.degrees@);
}

/// Challenge-product merging keeps every challenge power at least 1 when the
/// source powers are.
proof fn lemma_merge_power_positive(e: Expression)
    requires
        spec_sum_powers(e) <= usize::MAX,
        forall|c: Challenge| spec_challenge_leaf(e, c) ==> c.power >= 1,
    ensures
        forall|c: Challenge| spec_challenge_leaf(spec_merge(e), c) ==> c.power >= 1,
    decreases e,
{
    match e {
        Expression::Negated(x) => {
            assert forall|c: Challenge| spec_challenge_leaf(*x, c) implies c.power >= 1 by {
                assert(spec_challenge_leaf(e, c));
            }
            lemma_merge_power_positive(*x);
            assert forall|c: Challenge| spec_challenge_leaf(spec_merge(e), c) implies c.power
                >= 1 by {
                assert(spec_merge(e) == Expression::Negated(Box::new(spec_merge(*x))));
                assert(spec_challenge_leaf(spec_merge(*x), c));
            }
        },
        Expression::Scaled(x, f) => {
            assert forall|c: Challenge| spec_challenge_leaf(*x, c) implies c.power >= 1 by {
                assert(spec_challenge_leaf(e, c));
            }
            lemma_merge_power_positive(*x);
            assert forall|c: Challenge| spec_challenge_leaf(spec_merge(e), c) implies c.power
                >= 1 by {
                assert(spec_merge(e) == Expression::Scaled(Box::new(spec_merge(*x)), f));
                assert(spec_challenge_leaf(spec_merge(*x), c));
            }
        },
        Expression::Sum(a, b) => {
            assert forall|c: Challenge| spec_challenge_leaf(*a, c) implies c.power >= 1 by {
                assert(spec_challenge_leaf(e, c));
            }
            assert forall|c: Challenge| spec_challenge_leaf(*b, c) implies c.power >= 1 by {
                assert(spec_challenge_leaf(e, c));
            }
            lemma_merge_power_positive(*a);
            lemma_merge_power_positive(*b);
            assert forall|c: Challenge| spec_challenge_leaf(spec_merge(e), c) implies c.power
                >= 1 by {
                assert(spec_merge(e) == Expression::Sum(
                    Box::new(spec_merge(*a)),
                    Box::new(spec_merge(*b)),
                ));
                assert(spec_challenge_leaf(spec_merge(*a), c) || spec_challenge_leaf(
                    spec_merge(*b),
                    c,
                ));
            }
        },
        Expression::Product(a, b) => {
            assert forall|c: Challenge| spec_challenge_leaf(*a, c) implies c.power >= 1 by {
                assert(spec_challenge_leaf(e, c));
            }
            assert forall|c: Challenge| spec_challenge_leaf(*b, c) implies c.power >= 1 by {
                assert(spec_challenge_leaf(e, c));
            }
            lemma_merge_power_positive(*a);
            lemma_merge_power_positive(*b);
            // When both factors merged into powers of one challenge, the
            // combined leaf's power is the sum of two positive powers, which
            // stays below the total power budget, so the sum does not wrap.
            assert forall|c: Challenge| spec_challenge_leaf(spec_merge(e), c) implies c.power
                >= 1 by {
                match (spec_merge(*a), spec_merge(*b)) {
                    (Expression::Challenge(c1), Expression::Challenge(c2)) => {
                        if c1.index == c2.index {
                            assert(spec_challenge_leaf(spec_merge(*a), c1));
                            assert(spec_challenge_leaf(spec_merge(*b), c2));
                            crate::expr::lemma_merge_sum_powers(*a);
                            crate::expr::lemma_merge_sum_powers(*b);
                            assert(c1.power + c2.power <= spec_sum_powers(e));
                            assert(c == Challenge {
                                index: c1.index,
                                power: (c1.power + c2.power) as usize,
                            });
                        } else {
                            assert(spec_challenge_leaf(spec_merge(*a), c) || spec_challenge_leaf(
                                spec_merge(*b),
                                c,
                            ));
                        }
                    },
                    (x, y) => {
                        assert(spec_merge(e) == Expression::Product(Box::new(x), Box::new(y)));
                        assert(spec_challenge_leaf(x, c) || spec_challenge_leaf(y, c));
                    },
                }
            }
        },
        _ => {
            assert(spec_merge(e) == e);
        },
    }
}

/// A compiled gate satisfies the well-formedness the row evaluator relies on,
/// whenever the source constraints query only positive challenge powers and
/// their folding degrees fit the machine.
pub proof fn lemma_compiled_gate_shape_wf(g: Gate, polys: Seq<Expression>)
    requires
        compiled_from(g, polys),
        polys.len() > 0,
        forall|j: int, c: Challenge|
            0 <= j < polys.len() && #[trigger] spec_challenge_leaf(polys[j], c) ==> c.power >= 1,
        forall|j: int| 0 <= j < polys.len() ==> spec_sum_powers(#[trigger] polys[j]) <= usize::MAX,
        forall|j: int|
            0 <= j < polys.len() ==> spec_folding_degree(spec_source_poly(polys, j)) < usize::MAX,
    ensures
        crate::keygen::gate_shape_wf(g),
{
    assert forall|j: int| 0 <= j < g.polys@.len() implies crate::expr::spec_expr_wf(
        #[trigger] g.polys@[j],
        g.queried_selectors@.len(),
        g.queried_fixed@.len(),
        g.queried_advice@.len(),
        g.queried_instance@.len(),
        g.queried_challenges@.len(),
    ) by {
        let src = spec_source_poly(polys, j);
        assert forall|x: Selector| spec_sel_leaf(src, x) implies g.queried_selectors@.contains(
            x,
        ) by {
            assert(exists|k: int| 0 <= k < polys.len() && spec_sel_leaf(spec_source_poly(polys, k), x));
        }
        assert forall|x: FixedQuery| spec_fixed_leaf(src, x) implies g.queried_fixed@.contains(
            x,
        ) by {
            assert(exists|k: int|
                0 <= k < polys.len() && spec_fixed_leaf(spec_source_poly(polys, k), x));
        }
        assert forall|x: Challenge| spec_challenge_leaf(src, x)
            implies g.queried_challenges@.contains(x) by {
            assert(exists|k: int|
                0 <= k < polys.len() && spec_challenge_leaf(spec_source_poly(polys, k), x));
        }
        assert forall|x: InstanceQuery| spec_instance_leaf(src, x)
            implies g.queried_instance@.contains(x) by {
            assert(exists|k: int|
                0 <= k < polys.len() && spec_instance_leaf(spec_source_poly(polys, k), x));
        }
        assert forall|x: AdviceQuery| spec_advice_leaf(src, x) implies g.queried_advice@.contains(
            x,
        ) by {
            assert(exists|k: int|
                0 <= k < polys.len() && spec_advice_leaf(spec_source_poly(polys, k), x));
        }
        lemma_leaves_in(
            src,
            g.queried_selectors@,
            g.queried_fixed@,
            g.queried_challenges@,
            g.queried_instance@,
            g.queried_advice@,
        );
        lemma_to_expr_wf(
            src,
            g.queried_selectors@,
            g.queried_fixed@,
            g.queried_challenges@,
            g.queried_instance@,
            g.queried_advice@,
        );
    }
    assert forall|q: int| 0 <= q < g.queried_challenges@.len() implies (
    #[trigger] g.queried_challenges@[q]).power >= 1 by {
        let x = g.queried_challenges@[q];
        assert(g.queried_challenges@.contains(x));
        let j = choose|j: int|
            0 <= j < polys.len() && spec_challenge_leaf(spec_source_poly(polys, j), x);
        let base = if spec_common_selector(polys) is Some {
            spec_strip_top(polys[j])
        } else {
            polys[j]
        };
        assert forall|c: Challenge| spec_challenge_leaf(base, c) implies c.power >= 1 by {
            assert(spec_challenge_leaf(polys[j], c));
        }
        assert(spec_sum_powers(base) <= spec_sum_powers(polys[j]));
        lemma_merge_power_positive(base);
    }
}

/// The factored-out simple selector is not re-queried inside the compiled
/// constraints: whenever the peeled sources query it nowhere, it is absent
/// from the selector table.
pub proof fn lemma_simple_selector_not_requeried(g: Gate, polys: Seq<Expression>, s: Selector)
    requires
        compiled_from(g, polys),
        g.simple_selector == Some(s),
        forall|j: int| 0 <= j < polys.len() ==> !spec_sel_leaf(spec_source_poly(polys, j), s),
    ensures
        !g.queried_selectors@.contains(s),
{
}

/// After compilation every query table is strictly increasing in the leaf
/// order, and therefore duplicate-free.
pub proof fn lemma_query_tables_sorted(g: Gate, polys: Seq<Expression>)
    requires
        compiled_from(g, polys),
    ensures
        sorted_unique(g.queried_selectors@),
        sorted_unique(g.queried_fixed@),
        sorted_unique(g.queried_challenges@),
        sorted_unique(g.queried_instance@),
        sorted_unique(g.queried_advice@),
{
}

} // verus!
