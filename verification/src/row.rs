//! Row buffers driven by per-expression query sets.
//!
//! `Queries` collects the sorted, duplicate-free query tables of a list of
//! constraints without compiling a full gate; `QueriedExpression` is the
//! matching index-rewritten constraint; `Row` holds the row buffers and can
//! either load a single assignment or walk the whole fold line between two
//! assignments.

use vstd::prelude::*;

use halo2curves::bn256::Fr;

use crate::error_check::{line_buf, rot_index, rotation_index, zero_scalar_vec};
use crate::expr::{spec_eval_expr, spec_expr_wf, spec_leaves_in, spec_to_expr, Expr, Expression};
use crate::gate::{
    collect_queries, spec_advice_leaf, spec_challenge_leaf, spec_fixed_leaf, spec_instance_leaf,
    spec_sel_leaf,
};
use crate::queries::{
    sorted_unique, AdviceQuery, Challenge, FixedQuery, InstanceQuery, Selector,
};
use crate::queries::find_index;
use crate::scalar::{fr_u64, scalar_add, scalar_from_u64, scalar_sub};

verus! {

/// The sorted query tables of a list of constraints.
pub struct Queries {
    /// Queried selectors.
    pub selectors: Vec<Selector>,
    /// Queried fixed columns with rotations.
    pub fixed: Vec<FixedQuery>,
    /// Queried instance columns with rotations.
    pub instance: Vec<InstanceQuery>,
    /// Queried advice columns with rotations.
    pub advice: Vec<AdviceQuery>,
    /// Queried challenge powers.
    pub challenges: Vec<Challenge>,
}

/// A constraint whose leaves are indices into a `Queries` table; structurally
/// the indexed constraint form, kept as its own type so row evaluation can be
/// driven without a compiled gate.
pub enum QueriedExpression {
    /// A constant scalar.
    Constant(Fr),
    /// Index into the selector table.
    Selector(usize),
    /// Index into the fixed table.
    Fixed(usize),
    /// Index into the advice table.
    Advice(usize),
    /// Index into the instance table.
    Instance(usize),
    /// Index into the challenge table.
    Challenge(usize),
    /// Negation.
    Negated(Box<QueriedExpression>),
    /// Sum of two subtrees.
    Sum(Box<QueriedExpression>, Box<QueriedExpression>),
    /// Product of two subtrees.
    Product(Box<QueriedExpression>, Box<QueriedExpression>),
    /// A subtree scaled by a constant.
    Scaled(Box<QueriedExpression>, Fr),
}

/// The indexed constraint a `QueriedExpression` stands for.
pub open spec fn qexpr_as_expr(e: QueriedExpression) -> Expr
    decreases e,
{
    match e {
        QueriedExpression::Constant(v) => Expr::Constant(v),
        QueriedExpression::Selector(i) => Expr::Selector(i),
        QueriedExpression::Fixed(i) => Expr::Fixed(i),
        QueriedExpression::Advice(i) => Expr::Advice(i),
        QueriedExpression::Instance(i) => Expr::Instance(i),
        QueriedExpression::Challenge(i) => Expr::Challenge(i),
        QueriedExpression::Negated(x) => Expr::Negated(Box::new(qexpr_as_expr(*x))),
        QueriedExpression::Sum(a, b) => Expr::Sum(
            Box::new(qexpr_as_expr(*a)),
            Box::new(qexpr_as_expr(*b)),
        ),
        QueriedExpression::Product(a, b) => Expr::Product(
            Box::new(qexpr_as_expr(*a)),
            Box::new(qexpr_as_expr(*b)),
        ),
        QueriedExpression::Scaled(x, f) => Expr::Scaled(Box::new(qexpr_as_expr(*x)), f),
    }
}

impl QueriedExpression {
    /// Evaluate the constraint against row buffers, exactly as the indexed
    /// constraint it stands for evaluates.
    pub fn evaluate(
        &self,
        selectors: &Vec<Fr>,
        fixed: &Vec<Fr>,
        advice: &Vec<Fr>,
        instance: &Vec<Fr>,
        challenges: &Vec<Fr>,
    ) -> (r: Fr)
        requires
            spec_expr_wf(
                qexpr_as_expr(*self),
                selectors@.len(),
                fixed@.len(),
                advice@.len(),
                instance@.len(),
                challenges@.len(),
            ),
        ensures
            r == spec_eval_expr(
                qexpr_as_expr(*self),
                selectors@,
                fixed@,
                advice@,
                instance@,
                challenges@,
            ),
        decreases *self,
    {
        match self {
            QueriedExpression::Constant(v) => *v,
            QueriedExpression::Selector(i) => selectors[*i],
            QueriedExpression::Fixed(i) => fixed[*i],
            QueriedExpression::Advice(i) => advice[*i],
            QueriedExpression::Instance(i) => instance[*i],
            QueriedExpression::Challenge(i) => challenges[*i],
            QueriedExpression::Negated(x) => crate::scalar::scalar_neg(
                x.evaluate(selectors, fixed, advice, instance, challenges),
            ),
            QueriedExpression::Sum(a, b) => {
                let va = a.evaluate(selectors, fixed, advice, instance, challenges);
                let vb = b.evaluate(selectors, fixed, advice, instance, challenges);
                scalar_add(va, vb)
            },
            QueriedExpression::Product(a, b) => {
                let va = a.evaluate(selectors, fixed, advice, instance, challenges);
                let vb = b.evaluate(selectors, fixed, advice, instance, challenges);
                crate::scalar::scalar_mul(va, vb)
            },
            QueriedExpression::Scaled(x, f) => {
                let vx = x.evaluate(selectors, fixed, advice, instance, challenges);
                crate::scalar::scalar_mul(vx, *f)
            },
        }
    }
}

impl Queries {
    /// Collect the sorted query tables of a list of constraints.
    pub fn from_polys(polys: &Vec<Expression>) -> (r: Queries)
        ensures
            sorted_unique(r.selectors@),
            sorted_unique(r.fixed@),
            sorted_unique(r.instance@),
            sorted_unique(r.advice@),
            sorted_unique(r.challenges@),
            forall|x: Selector|
                r.selectors@.contains(x) <==> exists|j: int|
                    0 <= j < polys@.len() && spec_sel_leaf(#[trigger] polys@[j], x),
            forall|x: FixedQuery|
                r.fixed@.contains(x) <==> exists|j: int|
                    0 <= j < polys@.len() && spec_fixed_leaf(#[trigger] polys@[j], x),
            forall|x: InstanceQuery|
                r.instance@.contains(x) <==> exists|j: int|
                    0 <= j < polys@.len() && spec_instance_leaf(#[trigger] polys@[j], x),
            forall|x: AdviceQuery|
                r.advice@.contains(x) <==> exists|j: int|
                    0 <= j < polys@.len() && spec_advice_leaf(#[trigger] polys@[j], x),
            forall|x: Challenge|
                r.challenges@.contains(x) <==> exists|j: int|
                    0 <= j < polys@.len() && spec_challenge_leaf(#[trigger] polys@[j], x),
    {
        let n = polys.len();
        let mut selectors: Vec<Selector> = Vec::new();
        let mut fixed: Vec<FixedQuery> = Vec::new();
        let mut challenges: Vec<Challenge> = Vec::new();
        let mut instance: Vec<InstanceQuery> = Vec::new();
        let mut advice: Vec<AdviceQuery> = Vec::new();
        let mut j: usize = 0;
        while j < n
            invariant
                j <= n,
                n == polys@.len(),
                sorted_unique(selectors@),
                sorted_unique(fixed@),
                sorted_unique(challenges@),
                sorted_unique(instance@),
                sorted_unique(advice@),
                forall|x: Selector|
                    selectors@.contains(x) <==> exists|i: int|
                        0 <= i < j && spec_sel_leaf(#[trigger] polys@[i], x),
                forall|x: FixedQuery|
                    fixed@.contains(x) <==> exists|i: int|
                        0 <= i < j && spec_fixed_leaf(#[trigger] polys@[i], x),
                forall|x: Challenge|
                    challenges@.contains(x) <==> exists|i: int|
                        0 <= i < j && spec_challenge_leaf(#[trigger] polys@[i], x),
                forall|x: InstanceQuery|
                    instance@.contains(x) <==> exists|i: int|
                        0 <= i < j && spec_instance_leaf(#[trigger] polys@[i], x),
                forall|x: AdviceQuery|
                    advice@.contains(x) <==> exists|i: int|
                        0 <= i < j && spec_advice_leaf(#[trigger] polys@[i], x),
            decreases n - j,
        {
            collect_queries(
                &polys[j],
                &mut selectors,
                &mut fixed,
                &mut challenges,
                &mut instance,
                &mut advice,
            );
            j = j + 1;
        }
        Queries { selectors, fixed, instance, advice, challenges }
    }

    /// Rewrite a constraint over this query set's tables.
    pub fn queried_expression(&self, poly: &Expression) -> (r: QueriedExpression)
        requires
            sorted_unique(self.selectors@),
            sorted_unique(self.fixed@),
            sorted_unique(self.challenges@),
            sorted_unique(self.instance@),
            sorted_unique(self.advice@),
            spec_leaves_in(
                *poly,
                self.selectors@,
                self.fixed@,
                self.challenges@,
                self.instance@,
                self.advice@,
            ),
        ensures
            qexpr_as_expr(r) == spec_to_expr(
                *poly,
                self.selectors@,
                self.fixed@,
                self.challenges@,
                self.instance@,
                self.advice@,
            ),
        decreases *poly,
    {
        match poly {
            Expression::Constant(v) => QueriedExpression::Constant(*v),
            Expression::Selector(s) => QueriedExpression::Selector(find_index(&self.selectors, s)),
            Expression::Fixed(q) => QueriedExpression::Fixed(find_index(&self.fixed, q)),
            Expression::Advice(q) => QueriedExpression::Advice(find_index(&self.advice, q)),
            Expression::Instance(q) => QueriedExpression::Instance(find_index(&self.instance, q)),
            Expression::Challenge(c) => QueriedExpression::Challenge(
                find_index(&self.challenges, c),
            ),
            Expression::Negated(x) => QueriedExpression::Negated(
                Box::new(self.queried_expression(x)),
            ),
            Expression::Sum(a, b) => QueriedExpression::Sum(
                Box::new(self.queried_expression(a)),
                Box::new(self.queried_expression(b)),
            ),
            Expression::Product(a, b) => QueriedExpression::Product(
                Box::new(self.queried_expression(a)),
                Box::new(self.queried_expression(b)),
            ),
            Expression::Scaled(x, f) => QueriedExpression::Scaled(
                Box::new(self.queried_expression(x)),
                *f,
            ),
        }
    }

    /// Look the queried challenge powers up in a power table.
    pub fn queried_challenges(&self, challenges: &Vec<Vec<Fr>>) -> (r: Vec<Fr>)
        requires
            forall|q: int|
                0 <= q < self.challenges@.len() ==> {
                    let c = #[trigger] self.challenges@[q];
                    &&& c.index < challenges@.len()
                    &&& 1 <= c.power <= challenges@[c.index as int]@.len()
                },
        ensures
            r@.len() == self.challenges@.len(),
            forall|q: int|
                0 <= q < r@.len() ==> r@[q] == challenges@[self.challenges@[q].index as int]@[
                    self.challenges@[q].power - 1],
    {
        let n = self.challenges.len();
        let mut out: Vec<Fr> = Vec::new();
        let mut q: usize = 0;
        while q < n
            invariant
                q <= n,
                n == self.challenges@.len(),
                out@.len() == q,
                forall|i: int|
                    0 <= i < q ==> {
                        let c = #[trigger] self.challenges@[i];
                        &&& c.index < challenges@.len()
                        &&& 1 <= c.power <= challenges@[c.index as int]@.len()
                    },
                forall|i: int|
                    0 <= i < q ==> out@[i] == challenges@[self.challenges@[i].index as int]@[
                        self.challenges@[i].power - 1],
                forall|i: int|
                    0 <= i < n ==> {
                        let c = #[trigger] self.challenges@[i];
                        &&& c.index < challenges@.len()
                        &&& 1 <= c.power <= challenges@[c.index as int]@.len()
                    },
            decreases n - q,
        {
            let c = self.challenges[q];
            out.push(challenges[c.index][c.power - 1]);
            q = q + 1;
        }
        out
    }
}

/// The row's selector values, as 0/1 scalars, parallel to a selector table.
pub open spec fn qsel_buf(qs: Seq<Selector>, columns: Seq<Vec<bool>>, row: int) -> Seq<Fr> {
    Seq::new(
        qs.len(),
        |i: int|
            if columns[qs[i].index as int]@[row] {
                fr_u64(1)
            } else {
                fr_u64(0)
            },
    )
}

/// The row's fixed values at the queried rotations.
pub open spec fn qfix_buf(qs: Seq<FixedQuery>, columns: Seq<Vec<Fr>>, row: int, n: int) -> Seq<Fr> {
    Seq::new(
        qs.len(),
        |i: int| columns[qs[i].column_index as int]@[rot_index(row, qs[i].rotation as int, n)],
    )
}

/// The row's instance values at the queried rotations.
pub open spec fn qinst_buf(qs: Seq<InstanceQuery>, columns: Seq<Vec<Fr>>, row: int, n: int) -> Seq<
    Fr,
> {
    Seq::new(
        qs.len(),
        |i: int| columns[qs[i].column_index as int]@[rot_index(row, qs[i].rotation as int, n)],
    )
}

/// The row's advice values at the queried rotations.
pub open spec fn qadv_buf(qs: Seq<AdviceQuery>, columns: Seq<Vec<Fr>>, row: int, n: int) -> Seq<
    Fr,
> {
    Seq::new(
        qs.len(),
        |i: int| columns[qs[i].column_index as int]@[rot_index(row, qs[i].rotation as int, n)],
    )
}

/// Every column of the set has the domain's length.
pub open spec fn cols_len<T>(columns: Seq<Vec<T>>, n: int) -> bool {
    forall|c: int| 0 <= c < columns.len() ==> (#[trigger] columns[c])@.len() == n
}

/// Load the row's selector values as 0/1 scalars.
fn load_sel_row(qs: &Vec<Selector>, columns: &Vec<Vec<bool>>, row: usize) -> (r: Vec<Fr>)
    requires
        forall|i: int| 0 <= i < qs@.len() ==> (#[trigger] qs@[i]).index < columns@.len(),
        forall|c: int| 0 <= c < columns@.len() ==> row < (#[trigger] columns@[c])@.len(),
    ensures
        r@ == qsel_buf(qs@, columns@, row as int),
{
    let n = qs.len();
    let mut out: Vec<Fr> = Vec::new();
    let mut i: usize = 0;
    while i < n
        invariant
            i <= n,
            n == qs@.len(),
            forall|t: int| 0 <= t < qs@.len() ==> (#[trigger] qs@[t]).index < columns@.len(),
            forall|c: int| 0 <= c < columns@.len() ==> row < (#[trigger] columns@[c])@.len(),
            out@.len() == i,
            forall|t: int| 0 <= t < i ==> out@[t] == qsel_buf(qs@, columns@, row as int)[t],
        decreases n - i,
    {
        let v = if columns[qs[i].index][row] {
            scalar_from_u64(1)
        } else {
            scalar_from_u64(0)
        };
        out.push(v);
        i = i + 1;
    }
    proof {
        assert(out@ =~= qsel_buf(qs@, columns@, row as int));
    }
    out
}

/// Load the row's fixed values at the queried rotations.
fn load_fix_row(qs: &Vec<FixedQuery>, columns: &Vec<Vec<Fr>>, row: usize, n: usize) -> (r: Vec<Fr>)
    requires
        1 <= n <= i32::MAX as usize,
        row < n,
        forall|i: int| 0 <= i < qs@.len() ==> (#[trigger] qs@[i]).column_index < columns@.len(),
        cols_len(columns@, n as int),
    ensures
        r@ == qfix_buf(qs@, columns@, row as int, n as int),
{
    let nq = qs.len();
    let mut out: Vec<Fr> = Vec::new();
    let mut i: usize = 0;
    while i < nq
        invariant
            i <= nq,
            nq == qs@.len(),
            1 <= n <= i32::MAX as usize,
            row < n,
            forall|t: int| 0 <= t < qs@.len() ==> (#[trigger] qs@[t]).column_index < columns@.len(),
            cols_len(columns@, n as int),
            out@.len() == i,
            forall|t: int|
                0 <= t < i ==> out@[t] == qfix_buf(qs@, columns@, row as int, n as int)[t],
        decreases nq - i,
    {
        let q = qs[i];
        let ridx = rotation_index(row, q.rotation, n);
        out.push(columns[q.column_index][ridx]);
        i = i + 1;
    }
    proof {
        assert(out@ =~= qfix_buf(qs@, columns@, row as int, n as int));
    }
    out
}

/// Load the row's instance values at the queried rotations.
fn load_inst_row(qs: &Vec<InstanceQuery>, columns: &Vec<Vec<Fr>>, row: usize, n: usize) -> (r: Vec<
    Fr,
>)
    requires
        1 <= n <= i32::MAX as usize,
        row < n,
        forall|i: int| 0 <= i < qs@.len() ==> (#[trigger] qs@[i]).column_index < columns@.len(),
        cols_len(columns@, n as int),
    ensures
        r@ == qinst_buf(qs@, columns@, row as int, n as int),
{
    let nq = qs.len();
    let mut out: Vec<Fr> = Vec::new();
    let mut i: usize = 0;
    while i < nq
        invariant
            i <= nq,
            nq == qs@.len(),
            1 <= n <= i32::MAX as usize,
            row < n,
            forall|t: int| 0 <= t < qs@.len() ==> (#[trigger] qs@[t]).column_index < columns@.len(),
            cols_len(columns@, n as int),
            out@.len() == i,
            forall|t: int|
                0 <= t < i ==> out@[t] == qinst_buf(qs@, columns@, row as int, n as int)[t],
        decreases nq - i,
    {
        let q = qs[i];
        let ridx = rotation_index(row, q.rotation, n);
        out.push(columns[q.column_index][ridx]);
        i = i + 1;
    }
    proof {
        assert(out@ =~= qinst_buf(qs@, columns@, row as int, n as int));
    }
    out
}

/// Load the row's advice values at the queried rotations.
fn load_adv_row(qs: &Vec<AdviceQuery>, columns: &Vec<Vec<Fr>>, row: usize, n: usize) -> (r: Vec<
    Fr,
>)
    requires
        1 <= n <= i32::MAX as usize,
        row < n,
        forall|i: int| 0 <= i < qs@.len() ==> (#[trigger] qs@[i]).column_index < columns@.len(),
        cols_len(columns@, n as int),
    ensures
        r@ == qadv_buf(qs@, columns@, row as int, n as int),
{
    let nq = qs.len();
    let mut out: Vec<Fr> = Vec::new();
    let mut i: usize = 0;
    while i < nq
        invariant
            i <= nq,
            nq == qs@.len(),
            1 <= n <= i32::MAX as usize,
            row < n,
            forall|t: int| 0 <= t < qs@.len() ==> (#[trigger] qs@[t]).column_index < columns@.len(),
            cols_len(columns@, n as int),
            out@.len() == i,
            forall|t: int|
                0 <= t < i ==> out@[t] == qadv_buf(qs@, columns@, row as int, n as int)[t],
        decreases nq - i,
    {
        let q = qs[i];
        let ridx = rotation_index(row, q.rotation, n);
        out.push(columns[q.column_index][ridx]);
        i = i + 1;
    }
    proof {
        assert(out@ =~= qadv_buf(qs@, columns@, row as int, n as int));
    }
    out
}

/// Row buffers for evaluating queried constraints, either at one assignment
/// or along the whole fold line between two assignments.
pub struct Row {
    /// Selector values of the row, as 0/1 scalars.
    pub selectors: Vec<Fr>,
    /// Fixed values of the row at the queried rotations.
    pub fixed: Vec<Fr>,
    /// Instance values at each sample point of the fold line.
    pub instance_evals: Vec<Vec<Fr>>,
    /// Instance differences between the two endpoints.
    pub instance_diff: Vec<Fr>,
    /// Advice values at each sample point of the fold line.
    pub advice_evals: Vec<Vec<Fr>>,
    /// Advice differences between the two endpoints.
    pub advice_diff: Vec<Fr>,
    /// The query set the buffers are parallel to.
    pub queries: Queries,
    /// Number of sample points kept.
    pub num_evals: usize,
}

impl Row {
    /// Buffer sizes agree with the query tables.
    pub open spec fn wf(self) -> bool {
        &&& self.selectors@.len() == self.queries.selectors@.len()
        &&& self.fixed@.len() == self.queries.fixed@.len()
        &&& self.instance_evals@.len() == self.num_evals
        &&& forall|x: int|
            0 <= x < self.instance_evals@.len() ==> (#[trigger] self.instance_evals@[x])@.len()
                == self.queries.instance@.len()
        &&& self.instance_diff@.len() == self.queries.instance@.len()
        &&& self.advice_evals@.len() == self.num_evals
        &&& forall|x: int|
            0 <= x < self.advice_evals@.len() ==> (#[trigger] self.advice_evals@[x])@.len()
                == self.queries.advice@.len()
        &&& self.advice_diff@.len() == self.queries.advice@.len()
    }

    /// Fresh zeroed buffers sized for the query set, with room for `num_evals`
    /// sample points. Every buffer entry starts as zero; a later single-sample
    /// load writes only sample row 0 and leaves the rest at zero.
    pub fn new(queries: Queries, num_evals: usize) -> (r: Row)
        ensures
            r.wf(),
            r.queries == queries,
            r.num_evals == num_evals,
            forall|i: int| 0 <= i < r.selectors@.len() ==> r.selectors@[i] == fr_u64(0),
            forall|i: int| 0 <= i < r.fixed@.len() ==> r.fixed@[i] == fr_u64(0),
            forall|i: int| 0 <= i < r.instance_diff@.len() ==> r.instance_diff@[i] == fr_u64(0),
            forall|i: int| 0 <= i < r.advice_diff@.len() ==> r.advice_diff@[i] == fr_u64(0),
            forall|x: int, i: int|
                0 <= x < r.instance_evals@.len() && 0 <= i < r.instance_evals@[x]@.len()
                    ==> r.instance_evals@[x]@[i] == fr_u64(0),
            forall|x: int, i: int|
                0 <= x < r.advice_evals@.len() && 0 <= i < r.advice_evals@[x]@.len()
                    ==> r.advice_evals@[x]@[i] == fr_u64(0),
    {
        let selectors = zero_scalar_vec(queries.selectors.len());
        let fixed = zero_scalar_vec(queries.fixed.len());
        let instance_diff = zero_scalar_vec(queries.instance.len());
        let advice_diff = zero_scalar_vec(queries.advice.len());
        let mut instance_evals: Vec<Vec<Fr>> = Vec::new();
        let mut advice_evals: Vec<Vec<Fr>> = Vec::new();
        let mut x: usize = 0;
        while x < num_evals
            invariant
                x <= num_evals,
                instance_evals@.len() == x,
                advice_evals@.len() == x,
                forall|i: int|
                    0 <= i < x ==> (#[trigger] instance_evals@[i])@.len()
                        == queries.instance@.len(),
                forall|i: int|
                    0 <= i < x ==> (#[trigger] advice_evals@[i])@.len() == queries.advice@.len(),
                forall|i: int, t: int|
                    0 <= i < x && 0 <= t < instance_evals@[i]@.len() ==> instance_evals@[i]@[t]
                        == fr_u64(0),
                forall|i: int, t: int|
                    0 <= i < x && 0 <= t < advice_evals@[i]@.len() ==> advice_evals@[i]@[t]
                        == fr_u64(0),
            decreases num_evals - x,
        {
            instance_evals.push(zero_scalar_vec(queries.instance.len()));
            advice_evals.push(zero_scalar_vec(queries.advice.len()));
            x = x + 1;
        }
        Row {
            selectors,
            fixed,
            instance_evals,
            instance_diff,
            advice_evals,
            advice_diff,
            queries,
            num_evals,
        }
    }

    /// Load one assignment's row data into sample point 0, applying the
    /// queried rotations modulo the domain size `n`.
    pub fn populate_all(
        &mut self,
        row_idx: usize,
        n: usize,
        selectors: &Vec<Vec<bool>>,
        fixed: &Vec<Vec<Fr>>,
        instance: &Vec<Vec<Fr>>,
        advice: &Vec<Vec<Fr>>,
    )
        requires
            old(self).wf(),
            old(self).num_evals >= 1,
            1 <= n <= i32::MAX as usize,
            row_idx < n,
            forall|i: int|
                0 <= i < old(self).queries.selectors@.len()
                    ==> (#[trigger] old(self).queries.selectors@[i]).index < selectors@.len(),
            forall|c: int| 0 <= c < selectors@.len() ==> (#[trigger] selectors@[c])@.len() == n,
            forall|i: int|
                0 <= i < old(self).queries.fixed@.len()
                    ==> (#[trigger] old(self).queries.fixed@[i]).column_index < fixed@.len(),
            cols_len(fixed@, n as int),
            forall|i: int|
                0 <= i < old(self).queries.instance@.len()
                    ==> (#[trigger] old(self).queries.instance@[i]).column_index
                    < instance@.len(),
            cols_len(instance@, n as int),
            forall|i: int|
                0 <= i < old(self).queries.advice@.len()
                    ==> (#[trigger] old(self).queries.advice@[i]).column_index < advice@.len(),
            cols_len(advice@, n as int),
        ensures
            final(self).wf(),
            final(self).queries == old(self).queries,
            final(self).num_evals == old(self).num_evals,
            final(self).selectors@ == qsel_buf(old(self).queries.selectors@, selectors@, row_idx as int),
            final(self).fixed@ == qfix_buf(
                old(self).queries.fixed@,
                fixed@,
                row_idx as int,
                n as int,
            ),
            final(self).instance_evals@[0]@ == qinst_buf(
                old(self).queries.instance@,
                instance@,
                row_idx as int,
                n as int,
            ),
            final(self).advice_evals@[0]@ == qadv_buf(
                old(self).queries.advice@,
                advice@,
                row_idx as int,
                n as int,
            ),
            forall|x: int|
                1 <= x < final(self).instance_evals@.len() ==> final(self).instance_evals@[x]
                    == old(self).instance_evals@[x],
            forall|x: int|
                1 <= x < final(self).advice_evals@.len() ==> final(self).advice_evals@[x] == old(
                    self,
                ).advice_evals@[x],
            final(self).instance_diff == old(self).instance_diff,
            final(self).advice_diff == old(self).advice_diff,
    {
        let sel_row = load_sel_row(&self.queries.selectors, selectors, row_idx);
        let fix_row = load_fix_row(&self.queries.fixed, fixed, row_idx, n);
        let inst_row = load_inst_row(&self.queries.instance, instance, row_idx, n);
        let adv_row = load_adv_row(&self.queries.advice, advice, row_idx, n);
        self.selectors = sel_row;
        self.fixed = fix_row;
        self.instance_evals[0] = inst_row;
        self.advice_evals[0] = adv_row;
    }

    /// Load the row data of both endpoints and walk the fold line through all
    /// sample points: sample `x` of every instance and advice entry is the
    /// first endpoint plus `x` times the difference, so sample 1 is exactly
    /// the second endpoint.
    pub fn populate_all_evaluated(
        &mut self,
        row_idx: usize,
        n: usize,
        selectors: &Vec<Vec<bool>>,
        fixed: &Vec<Vec<Fr>>,
        instance_0: &Vec<Vec<Fr>>,
        instance_1: &Vec<Vec<Fr>>,
        advice_0: &Vec<Vec<Fr>>,
        advice_1: &Vec<Vec<Fr>>,
    )
        requires
            old(self).wf(),
            old(self).num_evals >= 2,
            1 <= n <= i32::MAX as usize,
            row_idx < n,
            forall|i: int|
                0 <= i < old(self).queries.selectors@.len()
                    ==> (#[trigger] old(self).queries.selectors@[i]).index < selectors@.len(),
            forall|c: int| 0 <= c < selectors@.len() ==> (#[trigger] selectors@[c])@.len() == n,
            forall|i: int|
                0 <= i < old(self).queries.fixed@.len()
                    ==> (#[trigger] old(self).queries.fixed@[i]).column_index < fixed@.len(),
            cols_len(fixed@, n as int),
            forall|i: int|
                0 <= i < old(self).queries.instance@.len()
                    ==> (#[trigger] old(self).queries.instance@[i]).column_index
                    < instance_0@.len(),
            instance_0@.len() == instance_1@.len(),
            cols_len(instance_0@, n as int),
            cols_len(instance_1@, n as int),
            forall|i: int|
                0 <= i < old(self).queries.advice@.len()
                    ==> (#[trigger] old(self).queries.advice@[i]).column_index < advice_0@.len(),
            advice_0@.len() == advice_1@.len(),
            cols_len(advice_0@, n as int),
            cols_len(advice_1@, n as int),
        ensures
            final(self).wf(),
            final(self).queries == old(self).queries,
            final(self).num_evals == old(self).num_evals,
            final(self).selectors@ == qsel_buf(old(self).queries.selectors@, selectors@, row_idx as int),
            final(self).fixed@ == qfix_buf(
                old(self).queries.fixed@,
                fixed@,
                row_idx as int,
                n as int,
            ),
            forall|x: int|
                0 <= x < final(self).instance_evals@.len()
                    ==> (#[trigger] final(self).instance_evals@[x])@ == line_buf(
                    qinst_buf(old(self).queries.instance@, instance_0@, row_idx as int, n as int),
                    qinst_buf(old(self).queries.instance@, instance_1@, row_idx as int, n as int),
                    x as nat,
                ),
            final(self).instance_evals@[1]@ == qinst_buf(
                old(self).queries.instance@,
                instance_1@,
                row_idx as int,
                n as int,
            ),
            forall|x: int|
                0 <= x < final(self).advice_evals@.len()
                    ==> (#[trigger] final(self).advice_evals@[x])@ == line_buf(
                    qadv_buf(old(self).queries.advice@, advice_0@, row_idx as int, n as int),
                    qadv_buf(old(self).queries.advice@, advice_1@, row_idx as int, n as int),
                    x as nat,
                ),
            final(self).advice_evals@[1]@ == qadv_buf(
                old(self).queries.advice@,
                advice_1@,
                row_idx as int,
                n as int,
            ),
            crate::error_check::diff_links(
                qinst_buf(old(self).queries.instance@, instance_0@, row_idx as int, n as int),
                qinst_buf(old(self).queries.instance@, instance_1@, row_idx as int, n as int),
                final(self).instance_diff@,
            ),
            crate::error_check::diff_links(
                qadv_buf(old(self).queries.advice@, advice_0@, row_idx as int, n as int),
                qadv_buf(old(self).queries.advice@, advice_1@, row_idx as int, n as int),
                final(self).advice_diff@,
            ),
    {
        let sel_row = load_sel_row(&self.queries.selectors, selectors, row_idx);
        let fix_row = load_fix_row(&self.queries.fixed, fixed, row_idx, n);
        self.selectors = sel_row;
        self.fixed = fix_row;

        let inst0 = load_inst_row(&self.queries.instance, instance_0, row_idx, n);
        let inst1 = load_inst_row(&self.queries.instance, instance_1, row_idx, n);
        let num_evals = self.num_evals;
        let inst_table = crate::error_check::challenge_line_table(&inst0, &inst1, num_evals);
        let mut inst_diff: Vec<Fr> = Vec::new();
        let mut i: usize = 0;
        while i < inst0.len()
            invariant
                i <= inst0@.len(),
                inst1@.len() == inst0@.len(),
                inst_diff@.len() == i,
                forall|t: int|
                    0 <= t < i ==> #[trigger] inst_diff@[t] == crate::scalar::fsub(
                        inst1@[t],
                        inst0@[t],
                    ) && crate::scalar::fadd(inst0@[t], inst_diff@[t]) == inst1@[t],
            decreases inst0@.len() - i,
        {
            inst_diff.push(scalar_sub(inst1[i], inst0[i]));
            i = i + 1;
        }
        self.instance_evals = inst_table;
        self.instance_diff = inst_diff;

        let adv0 = load_adv_row(&self.queries.advice, advice_0, row_idx, n);
        let adv1 = load_adv_row(&self.queries.advice, advice_1, row_idx, n);
        let adv_table = crate::error_check::challenge_line_table(&adv0, &adv1, num_evals);
        let mut adv_diff: Vec<Fr> = Vec::new();
        let mut i: usize = 0;
        while i < adv0.len()
            invariant
                i <= adv0@.len(),
                adv1@.len() == adv0@.len(),
                adv_diff@.len() == i,
                forall|t: int|
                    0 <= t < i ==> #[trigger] adv_diff@[t] == crate::scalar::fsub(
                        adv1@[t],
                        adv0@[t],
                    ) && crate::scalar::fadd(adv0@[t], adv_diff@[t]) == adv1@[t],
            decreases adv0@.len() - i,
        {
            adv_diff.push(scalar_sub(adv1[i], adv0[i]));
            i = i + 1;
        }
        self.advice_evals = adv_table;
        self.advice_diff = adv_diff;
    }

    /// Evaluate a queried constraint against the buffers at one sample point.
    pub fn evaluate_at(&self, eval_idx: usize, poly: &QueriedExpression, challenges: &Vec<Fr>) -> (r:
        Fr)
        requires
            self.wf(),
            eval_idx < self.num_evals,
            spec_expr_wf(
                qexpr_as_expr(*poly),
                self.selectors@.len(),
                self.fixed@.len(),
                self.advice_evals@[eval_idx as int]@.len(),
                self.instance_evals@[eval_idx as int]@.len(),
                challenges@.len(),
            ),
        ensures
            r == spec_eval_expr(
                qexpr_as_expr(*poly),
                self.selectors@,
                self.fixed@,
                self.advice_evals@[eval_idx as int]@,
                self.instance_evals@[eval_idx as int]@,
                challenges@,
            ),
    {
        poly.evaluate(
            &self.selectors,
            &self.fixed,
            &self.advice_evals[eval_idx],
            &self.instance_evals[eval_idx],
            challenges,
        )
    }
}

} // verus!
