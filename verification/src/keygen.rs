//! The proving key: the fixed data of a circuit that folding reads.
//!
//! It carries the selector and fixed column assignments, the shape of the
//! constraint system (column counts, phases, lookup arguments) and the
//! compiled gates. The two derived quantities the protocol needs are the
//! maximum folding degree, which sets how many error samples a fold takes,
//! and the total constraint count, which sets the length of the `ys` vector.

use vstd::prelude::*;

use halo2curves::bn256::Fr;

use crate::expr::spec_expr_wf;
use crate::gate::Gate;

verus! {

/// Fixed per-circuit data consumed by folding.
pub struct ProvingKey {
    /// Domain size: the number of rows of every column.
    pub num_rows: usize,
    /// Selector assignments, indexed `[column][row]`.
    pub selectors: Vec<Vec<bool>>,
    /// Fixed column values, indexed `[column][row]`.
    pub fixed: Vec<Vec<Fr>>,
    /// Number of instance columns.
    pub num_instance_columns: usize,
    /// Number of advice columns.
    pub num_advice_columns: usize,
    /// Number of challenges.
    pub num_challenges: usize,
    /// The phase in which each advice column is committed.
    pub advice_column_phase: Vec<u8>,
    /// The phase after which each challenge is squeezed.
    pub challenge_phase: Vec<u8>,
    /// One entry per lookup argument: the number of its input expressions.
    pub lookups: Vec<usize>,
    /// Rows at the tail of the domain reserved for blinding.
    pub blinding_factors: usize,
    /// The compiled gates.
    pub gates: Vec<Gate>,
}

/// Internal consistency of a compiled gate on its own: parallel constraint and
/// degree lists, every leaf index inside its table, and every challenge power
/// at least 1.
pub open spec fn gate_shape_wf(g: Gate) -> bool {
    &&& g.polys@.len() > 0
    &&& g.degrees@.len() == g.polys@.len()
    &&& forall|j: int|
        0 <= j < g.polys@.len() ==> spec_expr_wf(
            #[trigger] g.polys@[j],
            g.queried_selectors@.len(),
            g.queried_fixed@.len(),
            g.queried_advice@.len(),
            g.queried_instance@.len(),
            g.queried_challenges@.len(),
        )
    &&& forall|q: int|
        0 <= q < g.queried_challenges@.len() ==> (#[trigger] g.queried_challenges@[q]).power >= 1
    &&& forall|j: int| 0 <= j < g.degrees@.len() ==> (#[trigger] g.degrees@[j]) < usize::MAX
}

/// A gate's queries all refer to columns and challenges that the key has.
pub open spec fn gate_in_pk(g: Gate, pk: ProvingKey) -> bool {
    &&& gate_shape_wf(g)
    &&& (g.simple_selector matches Some(s) ==> s.index < pk.selectors@.len())
    &&& forall|i: int|
        0 <= i < g.queried_selectors@.len() ==> (#[trigger] g.queried_selectors@[i]).index
            < pk.selectors@.len()
    &&& forall|i: int|
        0 <= i < g.queried_fixed@.len() ==> (#[trigger] g.queried_fixed@[i]).column_index
            < pk.fixed@.len()
    &&& forall|i: int|
        0 <= i < g.queried_advice@.len() ==> (#[trigger] g.queried_advice@[i]).column_index
            < pk.num_advice_columns
    &&& forall|i: int|
        0 <= i < g.queried_instance@.len() ==> (#[trigger] g.queried_instance@[i]).column_index
            < pk.num_instance_columns
    &&& forall|i: int|
        0 <= i < g.queried_challenges@.len() ==> (#[trigger] g.queried_challenges@[i]).index
            < pk.num_challenges
}

/// The largest folding degree over a list of degree tags.
pub open spec fn spec_seq_max(s: Seq<usize>) -> nat
    decreases s.len(),
{
    if s.len() == 0 {
        0
    } else {
        let rest = spec_seq_max(s.drop_last());
        if s.last() as nat >= rest {
            s.last() as nat
        } else {
            rest
        }
    }
}

/// The largest folding degree over all constraints of all gates.
pub open spec fn spec_gates_max_degree(gates: Seq<Gate>) -> nat
    decreases gates.len(),
{
    if gates.len() == 0 {
        0
    } else {
        let rest = spec_gates_max_degree(gates.drop_last());
        let last = spec_seq_max(gates.last().degrees@);
        if last >= rest {
            last
        } else {
            rest
        }
    }
}

/// Total number of folding constraints: every gate constraint, plus one per
/// lookup argument.
pub open spec fn spec_num_folding_constraints(pk: ProvingKey) -> nat
    decreases pk.gates@.len(),
{
    spec_gate_constraints(pk.gates@) + pk.lookups@.len()
}

/// Number of constraints contributed by gates alone.
pub open spec fn spec_gate_constraints(gates: Seq<Gate>) -> nat
    decreases gates.len(),
{
    if gates.len() == 0 {
        0
    } else {
        spec_gate_constraints(gates.drop_last()) + gates.last().polys@.len()
    }
}

/// Well-formedness of the key: column shapes agree with the domain, phase
/// lists agree with the column counts, every gate fits the key, and the
/// derived counts fit a `usize`.
pub open spec fn pk_wf(pk: ProvingKey) -> bool {
    &&& 1 <= pk.num_rows
    &&& pk.num_rows <= i32::MAX
    &&& pk.blinding_factors + 1 <= pk.num_rows
    &&& forall|c: int|
        0 <= c < pk.selectors@.len() ==> (#[trigger] pk.selectors@[c])@.len() == pk.num_rows
    &&& forall|c: int| 0 <= c < pk.fixed@.len() ==> (#[trigger] pk.fixed@[c])@.len() == pk.num_rows
    &&& pk.advice_column_phase@.len() == pk.num_advice_columns
    &&& pk.challenge_phase@.len() == pk.num_challenges
    &&& forall|g: int| 0 <= g < pk.gates@.len() ==> gate_in_pk(#[trigger] pk.gates@[g], pk)
    &&& spec_num_folding_constraints(pk) <= usize::MAX
    &&& spec_gates_max_degree(pk.gates@) + 2 < u32::MAX
}

impl ProvingKey {
    /// The largest folding degree of any constraint once the random-linear-
    /// combination coefficient `y`, itself linear along the fold line, is
    /// counted: one more than the largest gate constraint degree. The summed
    /// error polynomial of a fold has this degree, so the quotient sent in the
    /// transcript has two coefficients fewer.
    pub fn max_folding_constraints_degree(&self) -> (r: usize)
        requires
            pk_wf(*self),
        ensures
            r as nat == spec_gates_max_degree(self.gates@) + 1,
    {
        let mut best: usize = 0;
        let mut g: usize = 0;
        while g < self.gates.len()
            invariant
                g <= self.gates@.len(),
                best as nat == spec_gates_max_degree(self.gates@.subrange(0, g as int)),
                spec_gates_max_degree(self.gates@) + 2 < u32::MAX,
                pk_wf(*self),
            decreases self.gates@.len() - g,
        {
            let degrees = &self.gates[g].degrees;
            let mut j: usize = 0;
            let ghost prev = best as nat;
            proof {
                lemma_gates_max_subrange(self.gates@, g as int);
                lemma_gate_degrees_le(self.gates@, g as int);
            }
            while j < degrees.len()
                invariant
                    j <= degrees@.len(),
                    best as nat == if spec_seq_max(degrees@.subrange(0, j as int)) >= prev {
                        spec_seq_max(degrees@.subrange(0, j as int))
                    } else {
                        prev
                    },
                    spec_seq_max(degrees@.subrange(0, j as int)) <= spec_seq_max(degrees@),
                    spec_seq_max(degrees@) < usize::MAX,
                    forall|k: int| 0 <= k < degrees@.len() ==> (#[trigger] degrees@[k]) < usize::MAX,
                    prev < usize::MAX,
                decreases degrees@.len() - j,
            {
                proof {
                    assert(degrees@.subrange(0, j + 1).drop_last() =~= degrees@.subrange(
                        0,
                        j as int,
                    ));
                    assert(degrees@.subrange(0, j + 1).last() == degrees@[j as int]);
                    lemma_seq_max_subrange(degrees@, j + 1);
                }
                if degrees[j] > best {
                    best = degrees[j];
                }
                j = j + 1;
            }
            proof {
                assert(degrees@.subrange(0, degrees@.len() as int) =~= degrees@);
                assert(self.gates@.subrange(0, g + 1).drop_last() =~= self.gates@.subrange(
                    0,
                    g as int,
                ));
                assert(self.gates@.subrange(0, g + 1).last() == self.gates@[g as int]);
                lemma_gates_max_subrange(self.gates@, g + 1);
            }
            g = g + 1;
        }
        proof {
            assert(self.gates@.subrange(0, self.gates@.len() as int) =~= self.gates@);
        }
        best + 1
    }

    /// The largest power of any challenge queried by any gate: the number of
    /// accumulated powers a fresh accumulator must carry per challenge.
    pub fn max_queried_challenge_power(&self) -> (r: usize)
        requires
            pk_wf(*self),
        ensures
            r as nat == spec_gates_chal_max(self.gates@),
    {
        let mut best: usize = 0;
        let mut g: usize = 0;
        while g < self.gates.len()
            invariant
                g <= self.gates@.len(),
                best as nat == spec_gates_chal_max(self.gates@.subrange(0, g as int)),
                pk_wf(*self),
            decreases self.gates@.len() - g,
        {
            let chs = &self.gates[g].queried_challenges;
            let mut j: usize = 0;
            let ghost prev = best as nat;
            proof {
                lemma_gates_chal_subrange(self.gates@, g as int);
                lemma_gate_chal_le(self.gates@, g as int);
            }
            while j < chs.len()
                invariant
                    j <= chs@.len(),
                    best as nat == if spec_chal_powers_max(chs@.subrange(0, j as int)) >= prev {
                        spec_chal_powers_max(chs@.subrange(0, j as int))
                    } else {
                        prev
                    },
                decreases chs@.len() - j,
            {
                proof {
                    assert(chs@.subrange(0, j + 1).drop_last() =~= chs@.subrange(0, j as int));
                    assert(chs@.subrange(0, j + 1).last() == chs@[j as int]);
                }
                if chs[j].power > best {
                    best = chs[j].power;
                }
                j = j + 1;
            }
            proof {
                assert(chs@.subrange(0, chs@.len() as int) =~= chs@);
                assert(self.gates@.subrange(0, g + 1).drop_last() =~= self.gates@.subrange(
                    0,
                    g as int,
                ));
                assert(self.gates@.subrange(0, g + 1).last() == self.gates@[g as int]);
                lemma_gates_chal_subrange(self.gates@, g + 1);
            }
            g = g + 1;
        }
        proof {
            assert(self.gates@.subrange(0, self.gates@.len() as int) =~= self.gates@);
        }
        best
    }

    /// Total number of folding constraints: the length of the `ys` vector.
    pub fn num_folding_constraints(&self) -> (r: usize)
        requires
            pk_wf(*self),
        ensures
            r as nat == spec_num_folding_constraints(*self),
    {
        let mut total: usize = 0;
        let mut g: usize = 0;
        while g < self.gates.len()
            invariant
                g <= self.gates@.len(),
                total as nat == spec_gate_constraints(self.gates@.subrange(0, g as int)),
                pk_wf(*self),
            decreases self.gates@.len() - g,
        {
            proof {
                assert(self.gates@.subrange(0, g + 1).drop_last() =~= self.gates@.subrange(
                    0,
                    g as int,
                ));
                assert(self.gates@.subrange(0, g + 1).last() == self.gates@[g as int]);
                lemma_gate_constraints_prefix_bound(self.gates@, g + 1);
                lemma_num_constraints_bound(*self);
            }
            total = total + self.gates[g].polys.len();
            g = g + 1;
        }
        proof {
            assert(self.gates@.subrange(0, self.gates@.len() as int) =~= self.gates@);
            lemma_num_constraints_bound(*self);
        }
        total + self.lookups.len()
    }
}

/// The max over a prefix never exceeds the max over the whole list.
pub proof fn lemma_seq_max_subrange(s: Seq<usize>, n: int)
    requires
        0 <= n <= s.len(),
    ensures
        spec_seq_max(s.subrange(0, n)) <= spec_seq_max(s),
    decreases s.len() - n,
{
    if n == s.len() {
        assert(s.subrange(0, n) =~= s);
    } else {
        lemma_seq_max_subrange(s, n + 1);
        assert(s.subrange(0, n + 1).drop_last() =~= s.subrange(0, n));
    }
}

/// The per-gate max over a prefix never exceeds the max over all gates.
pub proof fn lemma_gates_max_subrange(s: Seq<Gate>, n: int)
    requires
        0 <= n <= s.len(),
    ensures
        spec_gates_max_degree(s.subrange(0, n)) <= spec_gates_max_degree(s),
    decreases s.len() - n,
{
    if n == s.len() {
        assert(s.subrange(0, n) =~= s);
    } else {
        lemma_gates_max_subrange(s, n + 1);
        assert(s.subrange(0, n + 1).drop_last() =~= s.subrange(0, n));
    }
}

/// Every element is at most the maximum.
pub proof fn lemma_seq_max_ge(s: Seq<usize>, i: int)
    requires
        0 <= i < s.len(),
    ensures
        s[i] as nat <= spec_seq_max(s),
    decreases s.len(),
{
    if i == s.len() - 1 {
    } else {
        lemma_seq_max_ge(s.drop_last(), i);
    }
}

/// The largest power of any challenge queried by a gate's challenge table.
pub open spec fn spec_chal_powers_max(ch: Seq<crate::queries::Challenge>) -> nat
    decreases ch.len(),
{
    if ch.len() == 0 {
        0
    } else {
        let rest = spec_chal_powers_max(ch.drop_last());
        if ch.last().power as nat >= rest {
            ch.last().power as nat
        } else {
            rest
        }
    }
}

/// The largest challenge power queried by any gate.
pub open spec fn spec_gates_chal_max(gates: Seq<Gate>) -> nat
    decreases gates.len(),
{
    if gates.len() == 0 {
        0
    } else {
        let rest = spec_gates_chal_max(gates.drop_last());
        let last = spec_chal_powers_max(gates.last().queried_challenges@);
        if last >= rest {
            last
        } else {
            rest
        }
    }
}

/// Every queried power is at most the per-gate maximum.
pub proof fn lemma_chal_powers_ge(ch: Seq<crate::queries::Challenge>, i: int)
    requires
        0 <= i < ch.len(),
    ensures
        ch[i].power as nat <= spec_chal_powers_max(ch),
    decreases ch.len(),
{
    if i == ch.len() - 1 {
    } else {
        lemma_chal_powers_ge(ch.drop_last(), i);
    }
}

/// Any one gate's largest queried power is at most the overall maximum.
pub proof fn lemma_gate_chal_le(s: Seq<Gate>, g: int)
    requires
        0 <= g < s.len(),
    ensures
        spec_chal_powers_max(s[g].queried_challenges@) <= spec_gates_chal_max(s),
    decreases s.len(),
{
    if g == s.len() - 1 {
    } else {
        lemma_gate_chal_le(s.drop_last(), g);
    }
}

/// The prefix maximum of queried powers never exceeds the overall maximum.
pub proof fn lemma_gates_chal_subrange(s: Seq<Gate>, n: int)
    requires
        0 <= n <= s.len(),
    ensures
        spec_gates_chal_max(s.subrange(0, n)) <= spec_gates_chal_max(s),
    decreases s.len() - n,
{
    if n == s.len() {
        assert(s.subrange(0, n) =~= s);
    } else {
        lemma_gates_chal_subrange(s, n + 1);
        assert(s.subrange(0, n + 1).drop_last() =~= s.subrange(0, n));
    }
}

/// Any one gate's largest degree is no more than the largest over all gates.
pub proof fn lemma_gate_degrees_le(s: Seq<Gate>, g: int)
    requires
        0 <= g < s.len(),
    ensures
        spec_seq_max(s[g].degrees@) <= spec_gates_max_degree(s),
    decreases s.len(),
{
    if g == s.len() - 1 {
    } else {
        lemma_gate_degrees_le(s.drop_last(), g);
    }
}

/// A prefix contributes no more constraints than the whole list.
pub proof fn lemma_gate_constraints_prefix_bound(s: Seq<Gate>, n: int)
    requires
        0 <= n <= s.len(),
    ensures
        spec_gate_constraints(s.subrange(0, n)) <= spec_gate_constraints(s),
    decreases s.len() - n,
{
    if n == s.len() {
        assert(s.subrange(0, n) =~= s);
    } else {
        lemma_gate_constraints_prefix_bound(s, n + 1);
        assert(s.subrange(0, n + 1).drop_last() =~= s.subrange(0, n));
    }
}

/// A well-formed key's constraint count fits a `usize`.
proof fn lemma_num_constraints_bound(pk: ProvingKey)
    requires
        pk_wf(pk),
    ensures
        spec_gate_constraints(pk.gates@) + pk.lookups@.len() <= usize::MAX,
{
}

} // verus!
