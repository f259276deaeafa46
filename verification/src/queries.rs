//! The query leaves of gate expressions, and the ordered, duplicate-free
//! tables a compiled gate keeps them in.
//!
//! Each leaf kind carries the plain values the folding logic reads: a column
//! index together with a row rotation, or a challenge index together with a
//! power. Every kind has a natural total order (column index then rotation;
//! challenge index then power), under which the per-gate query tables are kept
//! strictly sorted and free of duplicates.

use vstd::prelude::*;

verus! {

/// A selector column reference. Only simple selectors can be factored out of a
/// gate's top level.
#[derive(Clone, Copy, Debug, PartialEq, Eq, Structural)]
pub struct Selector {
    pub index: usize,
    pub is_simple: bool,
}

/// A fixed column queried at a row rotation.
#[derive(Clone, Copy, Debug, PartialEq, Eq, Structural)]
pub struct FixedQuery {
    pub column_index: usize,
    pub rotation: i32,
}

/// An advice (witness) column queried at a row rotation.
#[derive(Clone, Copy, Debug, PartialEq, Eq, Structural)]
pub struct AdviceQuery {
    pub column_index: usize,
    pub rotation: i32,
}

/// An instance (public input) column queried at a row rotation.
#[derive(Clone, Copy, Debug, PartialEq, Eq, Structural)]
pub struct InstanceQuery {
    pub column_index: usize,
    pub rotation: i32,
}

/// A power of a challenge. `power` is at least 1; products of equal challenges
/// compile to a single leaf with the summed power.
#[derive(Clone, Copy, Debug, PartialEq, Eq, Structural)]
pub struct Challenge {
    pub index: usize,
    pub power: usize,
}

/// Lexicographic order on the two-integer keys of query leaves.
pub open spec fn key_lt(a: (int, int), b: (int, int)) -> bool {
    a.0 < b.0 || (a.0 == b.0 && a.1 < b.1)
}

/// A leaf kind with a total order given by a two-integer key that determines
/// the leaf completely.
pub trait QueryOrd: Sized + Copy {
    /// The leaf's order key.
    spec fn qkey(self) -> (int, int);

    /// The key determines the leaf.
    proof fn lemma_qkey_injective(a: Self, b: Self)
        requires
            a.qkey() == b.qkey(),
        ensures
            a == b,
    ;

    /// Strict order in the sense of `key_lt` over `qkey`.
    fn qlt(&self, other: &Self) -> (r: bool)
        ensures
            r == key_lt(self.qkey(), other.qkey()),
    ;
}

impl QueryOrd for Selector {
    open spec fn qkey(self) -> (int, int) {
        (self.index as int, if self.is_simple { 1int } else { 0int })
    }

    proof fn lemma_qkey_injective(a: Self, b: Self) {
    }

    fn qlt(&self, other: &Self) -> (r: bool) {
        if self.index != other.index {
            self.index < other.index
        } else {
            !self.is_simple && other.is_simple
        }
    }
}

impl QueryOrd for FixedQuery {
    open spec fn qkey(self) -> (int, int) {
        (self.column_index as int, self.rotation as int)
    }

    proof fn lemma_qkey_injective(a: Self, b: Self) {
    }

    fn qlt(&self, other: &Self) -> (r: bool) {
        if self.column_index != other.column_index {
            self.column_index < other.column_index
        } else {
            self.rotation < other.rotation
        }
    }
}

impl QueryOrd for AdviceQuery {
    open spec fn qkey(self) -> (int, int) {
        (self.column_index as int, self.rotation as int)
    }

    proof fn lemma_qkey_injective(a: Self, b: Self) {
    }

    fn qlt(&self, other: &Self) -> (r: bool) {
        if self.column_index != other.column_index {
            self.column_index < other.column_index
        } else {
            self.rotation < other.rotation
        }
    }
}

impl QueryOrd for InstanceQuery {
    open spec fn qkey(self) -> (int, int) {
        (self.column_index as int, self.rotation as int)
    }

    proof fn lemma_qkey_injective(a: Self, b: Self) {
    }

    fn qlt(&self, other: &Self) -> (r: bool) {
        if self.column_index != other.column_index {
            self.column_index < other.column_index
        } else {
            self.rotation < other.rotation
        }
    }
}

impl QueryOrd for Challenge {
    open spec fn qkey(self) -> (int, int) {
        (self.index as int, self.power as int)
    }

    proof fn lemma_qkey_injective(a: Self, b: Self) {
    }

    fn qlt(&self, other: &Self) -> (r: bool) {
        if self.index != other.index {
            self.index < other.index
        } else {
            self.power < other.power
        }
    }
}

/// A query table: strictly increasing in the leaf order, hence duplicate-free.
pub open spec fn sorted_unique<T: QueryOrd>(s: Seq<T>) -> bool {
    forall|i: int, j: int| 0 <= i < j < s.len() ==> key_lt(s[i].qkey(), s[j].qkey())
}

/// A strictly sorted table holds each element at most once, so any index that
/// holds `x` is the only one.
pub proof fn lemma_sorted_unique_index<T: QueryOrd>(s: Seq<T>, i: int, j: int)
    requires
        sorted_unique(s),
        0 <= i < s.len(),
        0 <= j < s.len(),
        s[i] == s[j],
    ensures
        i == j,
{
    if i < j {
        assert(key_lt(s[i].qkey(), s[j].qkey()));
    }
    if j < i {
        assert(key_lt(s[j].qkey(), s[i].qkey()));
    }
}

/// Two strictly sorted tables with the same members are equal: the sorted form
/// is canonical.
pub proof fn lemma_sorted_unique_canonical<T: QueryOrd>(s1: Seq<T>, s2: Seq<T>)
    requires
        sorted_unique(s1),
        sorted_unique(s2),
        forall|e: T| s1.contains(e) <==> s2.contains(e),
    ensures
        s1 == s2,
    decreases s1.len(),
{
    if s1.len() == 0 {
        if s2.len() > 0 {
            assert(s2.contains(s2[0]));
            assert(false);
        }
        assert(s1 =~= s2);
    } else {
        assert(s1.contains(s1[0]));
        assert(s2.contains(s1[0]));
        let j = choose|j: int| 0 <= j < s2.len() && s2[j] == s1[0];
        assert(s2.contains(s2[0]));
        assert(s1.contains(s2[0]));
        let i = choose|i: int| 0 <= i < s1.len() && s1[i] == s2[0];
        // The heads are mutual lower bounds, so they are equal.
        if j > 0 {
            assert(key_lt(s2[0].qkey(), s2[j].qkey()));
            if i > 0 {
                assert(key_lt(s1[0].qkey(), s1[i].qkey()));
                assert(false);
            }
            assert(false);
        }
        assert(s1[0] == s2[0]);
        let t1 = s1.subrange(1, s1.len() as int);
        let t2 = s2.subrange(1, s2.len() as int);
        assert forall|e: T| t1.contains(e) implies t2.contains(e) by {
            let k = choose|k: int| 0 <= k < t1.len() && t1[k] == e;
            assert(s1[k + 1] == e);
            assert(s1.contains(e));
            assert(s2.contains(e));
            let m = choose|m: int| 0 <= m < s2.len() && s2[m] == e;
            if m == 0 {
                lemma_sorted_unique_index(s1, 0, k + 1);
                assert(false);
            }
            assert(t2[m - 1] == e);
        }
        assert forall|e: T| t2.contains(e) implies t1.contains(e) by {
            let k = choose|k: int| 0 <= k < t2.len() && t2[k] == e;
            assert(s2[k + 1] == e);
            assert(s2.contains(e));
            assert(s1.contains(e));
            let m = choose|m: int| 0 <= m < s1.len() && s1[m] == e;
            if m == 0 {
                lemma_sorted_unique_index(s2, 0, k + 1);
                assert(false);
            }
            assert(t1[m - 1] == e);
        }
        lemma_sorted_unique_canonical(t1, t2);
        assert forall|k: int| 0 <= k < s1.len() implies s1[k] == s2[k] by {
            if k > 0 {
                assert(s1[k] == t1[k - 1]);
                assert(s2[k] == t2[k - 1]);
            }
        }
        assert(s1 =~= s2);
    }
}

/// Insert a leaf into a sorted table, keeping it sorted and duplicate-free.
pub fn insert_sorted<T: QueryOrd>(v: &mut Vec<T>, x: T)
    requires
        sorted_unique(old(v)@),
    ensures
        sorted_unique(final(v)@),
        forall|e: T| #[trigger] final(v)@.contains(e) <==> (old(v)@.contains(e) || e == x),
{
    let ghost orig = v@;
    let mut i: usize = 0;
    while i < v.len() && v[i].qlt(&x)
        invariant
            sorted_unique(v@),
            v@ == orig,
            i <= v@.len(),
            forall|k: int| 0 <= k < i ==> key_lt(v@[k].qkey(), x.qkey()),
        decreases v@.len() - i,
    {
        i = i + 1;
    }
    if i < v.len() && !x.qlt(&v[i]) {
        // Neither strictly smaller nor strictly larger: the keys are equal,
        // so the element is already present.
        proof {
            let a = v@[i as int].qkey();
            let b = x.qkey();
            assert(a == b);
            T::lemma_qkey_injective(v@[i as int], x);
            assert(v@.contains(x));
        }
    } else {
        proof {
            if i < v@.len() {
                assert(key_lt(x.qkey(), v@[i as int].qkey()));
            }
        }
        v.insert(i, x);
        proof {
            assert forall|p: int, q: int| 0 <= p < q < v@.len() implies key_lt(
                v@[p].qkey(),
                v@[q].qkey(),
            ) by {
                if p < i && q > i {
                    assert(v@[p] == orig[p]);
                    assert(v@[q] == orig[q - 1]);
                } else if p == i && q > i {
                    assert(v@[q] == orig[q - 1]);
                    if q - 1 > i {
                        assert(key_lt(orig[i as int].qkey(), orig[q - 1].qkey()));
                    }
                } else if q == i {
                    assert(v@[p] == orig[p]);
                } else if q < i {
                    assert(v@[p] == orig[p]);
                    assert(v@[q] == orig[q]);
                } else {
                    assert(v@[p] == orig[p - 1]);
                    assert(v@[q] == orig[q - 1]);
                }
            }
            assert forall|e: T| v@.contains(e) implies (orig.contains(e) || e == x) by {
                let k = choose|k: int| 0 <= k < v@.len() && v@[k] == e;
                if k < i {
                    assert(orig[k] == e);
                } else if k == i {
                } else {
                    assert(orig[k - 1] == e);
                }
            }
            assert forall|e: T| orig.contains(e) implies v@.contains(e) by {
                let k = choose|k: int| 0 <= k < orig.len() && orig[k] == e;
                if k < i {
                    assert(v@[k] == e);
                } else {
                    assert(v@[k + 1] == e);
                }
            }
            assert(v@.contains(x)) by {
                assert(v@[i as int] == x);
            }
        }
    }
}

/// Find the index of a leaf known to be in a sorted table.
pub fn find_index<T: QueryOrd>(v: &Vec<T>, x: &T) -> (r: usize)
    requires
        sorted_unique(v@),
        v@.contains(*x),
    ensures
        r < v@.len(),
        v@[r as int] == *x,
        r as int == v@.index_of(*x),
{
    let n = v.len();
    let mut i: usize = 0;
    loop
        invariant
            sorted_unique(v@),
            v@.contains(*x),
            n == v@.len(),
            i < n,
            forall|k: int| 0 <= k < i ==> v@[k] != *x,
        decreases v@.len() - i,
    {
        let hit = !v[i].qlt(x) && !x.qlt(&v[i]);
        if hit {
            proof {
                T::lemma_qkey_injective(v@[i as int], *x);
                let w = choose|w: int| 0 <= w < v@.len() && v@[w] == *x;
                let c = v@.index_of(*x);
                assert(0 <= c < v@.len() && v@[c] == *x);
                lemma_sorted_unique_index(v@, i as int, c);
            }
            return i;
        }
        proof {
            let w = choose|w: int| 0 <= w < v@.len() && v@[w] == *x;
            if w == i {
                assert(false);
            }
            assert(i + 1 < v@.len()) by {
                if w < i {
                    assert(v@[w] != *x);
                }
            }
        }
        i = i + 1;
    }
}

} // verus!
