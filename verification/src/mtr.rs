//! The method-traversal record: the priority vector of a plan.
//!
//! Every `Select` decision made while a plan was decomposed appends the
//! chosen branch index, in the order the decisions were made from the
//! root down. Vectors are ranked lexicographically, lower meaning higher
//! priority; a proper prefix outranks its extensions. A plan that never
//! decomposed — an empty or cleared plan — carries no record at all:
//! nothing is running that could be defended, so no candidate is ever
//! rejected against it.

use vstd::prelude::*;

verus! {

/// `a` is an initial segment of `b`.
pub open spec fn is_prefix(a: Seq<usize>, b: Seq<usize>) -> bool {
    a.len() <= b.len() && a == b.subrange(0, a.len() as int)
}

/// `a` falls below `b` at some position, the two agreeing before it.
pub open spec fn dominated(a: Seq<usize>, b: Seq<usize>) -> bool {
    exists|j: int|
        0 <= j < a.len() && j < b.len() && a.subrange(0, j) == b.subrange(0, j) && a[j] < b[j]
}

/// Lexicographic order on priority vectors, a proper prefix ranking
/// before its extensions. Lower means higher priority.
pub open spec fn lex_le(a: Seq<usize>, b: Seq<usize>) -> bool {
    is_prefix(a, b) || dominated(a, b)
}

/// Whether a candidate vector must be rejected against the record of the
/// running plan: it must when the running plan has a record and the
/// candidate ranks strictly after it.
pub open spec fn mtr_rejects(prev: Option<Seq<usize>>, cand: Seq<usize>) -> bool {
    match prev {
        None => false,
        Some(p) => !lex_le(cand, p),
    }
}

pub proof fn lemma_lex_le_refl(a: Seq<usize>)
    ensures
        lex_le(a, a),
{
    assert(a =~= a.subrange(0, a.len() as int));
}

pub proof fn lemma_lex_le_trans(a: Seq<usize>, b: Seq<usize>, c: Seq<usize>)
    requires
        lex_le(a, b),
        lex_le(b, c),
    ensures
        lex_le(a, c),
{
    if is_prefix(a, b) && is_prefix(b, c) {
        assert(a =~= c.subrange(0, a.len() as int));
    } else if is_prefix(a, b) && dominated(b, c) {
        let j = choose|j: int|
            0 <= j < b.len() && j < c.len() && b.subrange(0, j) == c.subrange(0, j) && b[j] < c[j];
        if j < a.len() {
            assert(a[j] == b[j]);
            assert(a.subrange(0, j) =~= c.subrange(0, j));
            assert(dominated(a, c));
        } else {
            assert forall|i: int| 0 <= i < a.len() implies a[i] == c[i] by {
                assert(a[i] == b[i]);
                assert(b.subrange(0, j)[i] == c.subrange(0, j)[i]);
            }
            assert(a =~= c.subrange(0, a.len() as int));
        }
    } else if dominated(a, b) && is_prefix(b, c) {
        let j = choose|j: int|
            0 <= j < a.len() && j < b.len() && a.subrange(0, j) == b.subrange(0, j) && a[j] < b[j];
        assert(b[j] == c[j]);
        assert forall|i: int| 0 <= i < j implies a[i] == c[i] by {
            assert(a.subrange(0, j)[i] == b.subrange(0, j)[i]);
            assert(b[i] == c[i]);
        }
        assert(a.subrange(0, j) =~= c.subrange(0, j));
        assert(dominated(a, c));
    } else {
        let j1 = choose|j: int|
            0 <= j < a.len() && j < b.len() && a.subrange(0, j) == b.subrange(0, j) && a[j] < b[j];
        let j2 = choose|j: int|
            0 <= j < b.len() && j < c.len() && b.subrange(0, j) == c.subrange(0, j) && b[j] < c[j];
        let j = if j1 <= j2 {
            j1
        } else {
            j2
        };
        assert forall|i: int| 0 <= i < j implies a[i] == b[i] && b[i] == c[i] by {
            assert(a.subrange(0, j1)[i] == b.subrange(0, j1)[i]);
            assert(b.subrange(0, j2)[i] == c.subrange(0, j2)[i]);
        }
        assert(a.subrange(0, j) =~= c.subrange(0, j));
        if j1 < j2 {
            assert(b.subrange(0, j2)[j1] == c.subrange(0, j2)[j1]);
            assert(a[j1] < c[j1]);
        } else if j2 < j1 {
            assert(a.subrange(0, j1)[j2] == b.subrange(0, j1)[j2]);
            assert(a[j2] < c[j2]);
        } else {
            assert(a[j] < b[j] < c[j]);
        }
        assert(dominated(a, c));
    }
}

/// A vector that falls below `p` somewhere keeps doing so however it is
/// extended.
pub proof fn lemma_dominated_extend(a: Seq<usize>, p: Seq<usize>, b: Seq<usize>)
    requires
        dominated(a, p),
        is_prefix(a, b),
    ensures
        dominated(b, p),
{
    let j = choose|j: int|
        0 <= j < a.len() && j < p.len() && a.subrange(0, j) == p.subrange(0, j) && a[j] < p[j];
    assert forall|i: int| 0 <= i <= j implies b[i] == a[i] by {
        assert(a.subrange(0, a.len() as int)[i] == b.subrange(0, a.len() as int)[i]);
    }
    assert(b.subrange(0, j) =~= p.subrange(0, j));
}

/// Extending the common prefix of `m` with a branch index below the one
/// `m` took lands strictly below any `p` that ranks at or after `m`.
pub proof fn lemma_push_dominated(acc: Seq<usize>, m: Seq<usize>, p: Seq<usize>, k: usize)
    requires
        is_prefix(acc, m),
        acc.len() < m.len(),
        k < m[acc.len() as int],
        lex_le(m, p),
    ensures
        dominated(acc.push(k), p),
{
    let l = acc.len() as int;
    assert forall|i: int| 0 <= i < l implies acc[i] == m[i] by {
        assert(acc[i] == m.subrange(0, l)[i]);
    }
    if dominated(m, p) {
        let j = choose|j: int|
            0 <= j < m.len() && j < p.len() && m.subrange(0, j) == p.subrange(0, j) && m[j] < p[j];
        assert forall|i: int| 0 <= i < j implies m[i] == p[i] by {
            assert(m.subrange(0, j)[i] == p.subrange(0, j)[i]);
        }
        if j < l {
            assert(acc.push(k).subrange(0, j) =~= p.subrange(0, j));
            assert(acc.push(k)[j] == acc[j] == m[j]);
            assert(dominated(acc.push(k), p));
        } else {
            assert(acc.push(k).subrange(0, l) =~= p.subrange(0, l));
            assert(acc.push(k)[l] == k);
            assert(m[l] <= p[l]);
            assert(dominated(acc.push(k), p));
        }
    } else {
        assert forall|i: int| 0 <= i < m.len() implies m[i] == p[i] by {
            assert(m[i] == p.subrange(0, m.len() as int)[i]);
        }
        assert(acc.push(k).subrange(0, l) =~= p.subrange(0, l));
        assert(acc.push(k)[l] == k);
        assert(k < p[l]);
        assert(dominated(acc.push(k), p));
    }
}

/// A prefix of a vector that ranks at or before `p` also ranks at or
/// before `p`.
pub proof fn lemma_prefix_lex_le(a: Seq<usize>, m: Seq<usize>, p: Seq<usize>)
    requires
        is_prefix(a, m),
        lex_le(m, p),
    ensures
        lex_le(a, p),
{
    assert(lex_le(a, m));
    lemma_lex_le_trans(a, m, p);
}

/// What ranking at or before `p` means decision by decision: wherever
/// the two records agree through depth `d`, the earlier one did not
/// commit to a later branch at depth `d`.
pub proof fn lemma_lex_le_at_depth(q: Seq<usize>, p: Seq<usize>, d: int)
    requires
        lex_le(q, p),
        0 <= d < q.len(),
        d < p.len(),
        q.subrange(0, d) == p.subrange(0, d),
    ensures
        q[d] <= p[d],
{
    if is_prefix(q, p) {
        assert(q[d] == p.subrange(0, q.len() as int)[d]);
    } else {
        assert(dominated(q, p));
        let j = choose|j: int|
            0 <= j < q.len() && j < p.len() && q.subrange(0, j) == p.subrange(0, j) && q[j] < p[j];
        assert(q.subrange(0, j) == p.subrange(0, j) && q[j] < p[j]);
        if j < d {
            assert(q.subrange(0, d)[j] == q[j]);
            assert(p.subrange(0, d)[j] == p[j]);
            assert(false);
        } else if j > d {
            assert(q.subrange(0, j)[d] == q[d]);
            assert(p.subrange(0, j)[d] == p[d]);
        } else {
            assert(q[d] < p[d]);
        }
    }
}

/// The priority record of a plan. `None` means the plan never made a
/// `Select` decision — an empty or cleared plan: with no running
/// decisions to defend, it rejects nothing.
#[derive(Debug)]
pub struct Mtr {
    choices: Option<Vec<usize>>,
}

impl View for Mtr {
    type V = Option<Seq<usize>>;

    closed spec fn view(&self) -> Option<Seq<usize>> {
        match self.choices {
            Some(v) => Some(v@),
            None => None,
        }
    }
}

fn copy_usize_vec(v: &Vec<usize>) -> (r: Vec<usize>)
    ensures
        r@ == v@,
{
    let mut r: Vec<usize> = Vec::new();
    let n = v.len();
    let mut i: usize = 0;
    while i < n
        invariant
            n == v.len(),
            i <= n,
            r@ == v@.subrange(0, i as int),
        decreases n - i,
    {
        r.push(v[i]);
        proof {
            assert(r@ =~= v@.subrange(0, i + 1 as int));
        }
        i += 1;
    }
    proof {
        assert(r@ =~= v@);
    }
    r
}

impl Clone for Mtr {
    fn clone(&self) -> (res: Self)
        ensures
            res@ == self@,
    {
        match &self.choices {
            Some(v) => Mtr { choices: Some(copy_usize_vec(v)) },
            None => Mtr { choices: None },
        }
    }
}

impl Mtr {
    /// The record of a plan that never decomposed: no priority at all.
    pub fn none() -> (r: Mtr)
        ensures
            r@ is None,
    {
        Mtr { choices: None }
    }

    /// The record of a plan decomposed with the given decisions.
    pub fn from_choices(choices: Vec<usize>) -> (r: Mtr)
        ensures
            r@ == Some(choices@),
    {
        Mtr { choices: Some(choices) }
    }

    /// Whether this record is absent.
    pub fn is_none(&self) -> (r: bool)
        ensures
            r == (self@ is None),
    {
        match self.choices {
            None => true,
            Some(_) => false,
        }
    }

    /// Equality of records.
    pub fn eq_mtr(&self, other: &Mtr) -> (r: bool)
        ensures
            r == (self@ == other@),
    {
        match (&self.choices, &other.choices) {
            (None, None) => true,
            (Some(a), Some(b)) => {
                if eq_usize_vec(a, b) {
                    proof {
                        assert(self@ == other@);
                    }
                    true
                } else {
                    false
                }
            },
            _ => false,
        }
    }

    /// Whether a candidate decision vector must be rejected against this
    /// record, taken from the running plan.
    pub fn rejects(&self, cand: &Vec<usize>) -> (r: bool)
        ensures
            r == mtr_rejects(self@, cand@),
    {
        match &self.choices {
            None => false,
            Some(p) => !lex_le_exec(cand, p),
        }
    }
}

fn eq_usize_vec(a: &Vec<usize>, b: &Vec<usize>) -> (r: bool)
    ensures
        r == (a@ == b@),
{
    if a.len() != b.len() {
        return false;
    }
    let n = a.len();
    let mut i: usize = 0;
    while i < n
        invariant
            n == a.len() == b.len(),
            i <= n,
            forall|j: int| 0 <= j < i ==> a@[j] == b@[j],
        decreases n - i,
    {
        if a[i] != b[i] {
            return false;
        }
        i += 1;
    }
    proof {
        assert(a@ =~= b@);
    }
    true
}

/// Decides [`lex_le`] on two decision vectors.
fn lex_le_exec(a: &Vec<usize>, b: &Vec<usize>) -> (r: bool)
    ensures
        r == lex_le(a@, b@),
{
    let na = a.len();
    let nb = b.len();
    let n = if na < nb {
        na
    } else {
        nb
    };
    let mut i: usize = 0;
    while i < n
        invariant
            na == a.len(),
            nb == b.len(),
            n == if na < nb {
                na
            } else {
                nb
            },
            i <= n,
            forall|j: int| 0 <= j < i ==> a@[j] == b@[j],
        decreases n - i,
    {
        if a[i] < b[i] {
            proof {
                assert(a@.subrange(0, i as int) =~= b@.subrange(0, i as int));
                assert(dominated(a@, b@));
            }
            return true;
        }
        if a[i] > b[i] {
            proof {
                assert forall|j: int|
                    0 <= j < a@.len() && j < b@.len() && a@.subrange(0, j) == b@.subrange(0, j)
                        implies !(a@[j] < b@[j]) by {
                    if j < i {
                        assert(a@[j] == b@[j]);
                    } else {
                        assert(a@.subrange(0, j)[i as int] == b@.subrange(0, j)[i as int]);
                    }
                }
                assert(!dominated(a@, b@));
                if is_prefix(a@, b@) {
                    assert(a@[i as int] == b@.subrange(0, a@.len() as int)[i as int]);
                }
            }
            return false;
        }
        i += 1;
    }
    if na <= nb {
        proof {
            assert(a@ =~= b@.subrange(0, a@.len() as int));
        }
        true
    } else {
        proof {
            assert(!is_prefix(a@, b@));
            assert forall|j: int|
                0 <= j < a@.len() && j < b@.len() && a@.subrange(0, j) == b@.subrange(0, j)
                    implies !(a@[j] < b@[j]) by {
                assert(a@[j] == b@[j]);
            }
            assert(!dominated(a@, b@));
        }
        false
    }
}

} // verus!
