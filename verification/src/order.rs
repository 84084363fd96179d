//! The order in which project names are kept and listed.
//!
//! Names are ordered character by character, by Unicode scalar value; a name
//! that is a proper prefix of another comes first.

use vstd::prelude::*;
use vstd::std_specs::iter::IteratorSpec;

verus! {

/// The first `k` characters of `a` and of `b` are the same.
pub open spec fn common_prefix(a: Seq<char>, b: Seq<char>, k: int) -> bool {
    &&& 0 <= k <= a.len()
    &&& k <= b.len()
    &&& forall|j: int| 0 <= j < k ==> a[j] == b[j]
}

/// `a` differs from `b` at position `k`, after a common prefix, in favour of `a`:
/// either `a` ends there and `b` goes on, or `a` holds the smaller character.
pub open spec fn decides_at(a: Seq<char>, b: Seq<char>, k: int) -> bool {
    &&& common_prefix(a, b, k)
    &&& k < b.len()
    &&& (k == a.len() || a[k] < b[k])
}

/// `a` comes strictly before `b`.
pub open spec fn name_lt(a: Seq<char>, b: Seq<char>) -> bool {
    exists|k: int| #[trigger] decides_at(a, b, k)
}

/// The names of `names` stand in strictly increasing order.
pub open spec fn strictly_sorted(names: Seq<Seq<char>>) -> bool {
    forall|i: int, j: int| 0 <= i < j < names.len() ==> name_lt(names[i], names[j])
}

/// How one name stands to another.
#[derive(Clone, Copy, Debug, PartialEq, Eq, Structural)]
pub enum NameOrder {
    Before,
    Same,
    After,
}

/// No name comes before itself.
pub proof fn lemma_name_lt_irreflexive(a: Seq<char>)
    ensures
        !name_lt(a, a),
{
}

/// If `a` comes before `b` and `b` before `c`, then `a` comes before `c`.
pub proof fn lemma_name_lt_transitive(a: Seq<char>, b: Seq<char>, c: Seq<char>)
    requires
        name_lt(a, b),
        name_lt(b, c),
    ensures
        name_lt(a, c),
{
    let k1 = choose|k: int| #[trigger] decides_at(a, b, k);
    let k2 = choose|k: int| #[trigger] decides_at(b, c, k);
    let k = if k1 <= k2 {
        k1
    } else {
        k2
    };
    assert(decides_at(a, c, k));
}

/// Two names cannot each come before the other.
pub proof fn lemma_name_lt_asymmetric(a: Seq<char>, b: Seq<char>)
    requires
        name_lt(a, b),
    ensures
        !name_lt(b, a),
{
    if name_lt(b, a) {
        lemma_name_lt_transitive(a, b, a);
        lemma_name_lt_irreflexive(a);
    }
}

proof fn lemma_total_from(a: Seq<char>, b: Seq<char>, k: int)
    requires
        common_prefix(a, b, k),
    ensures
        a == b || name_lt(a, b) || name_lt(b, a),
    decreases a.len() - k,
{
    if k == a.len() && k == b.len() {
        assert(a =~= b);
    } else if k == a.len() {
        assert(decides_at(a, b, k));
    } else if k == b.len() {
        assert(decides_at(b, a, k));
    } else if a[k] == b[k] {
        lemma_total_from(a, b, k + 1);
    } else if a[k] < b[k] {
        assert(decides_at(a, b, k));
    } else {
        assert(decides_at(b, a, k));
    }
}

/// Of two different names, one comes before the other.
pub proof fn lemma_name_lt_total(a: Seq<char>, b: Seq<char>)
    ensures
        a == b || name_lt(a, b) || name_lt(b, a),
{
    lemma_total_from(a, b, 0);
}

/// Compares two names.
pub fn order_of(a: &str, b: &str) -> (r: NameOrder)
    ensures
        r is Before <==> name_lt(a@, b@),
        r is Same <==> a@ == b@,
        r is After <==> name_lt(b@, a@),
{
    broadcast use vstd::string::group_string_axioms;

    let mut ia = a.chars();
    let mut ib = b.chars();
    let ghost mut k: int = 0;
    loop
        invariant
            common_prefix(a@, b@, k),
            ia.remaining() == a@.skip(k),
            ib.remaining() == b@.skip(k),
        decreases a@.len() - k,
    {
        let ca = ia.next();
        let cb = ib.next();
        match (ca, cb) {
            (None, None) => {
                proof {
                    assert(a@ =~= b@);
                    lemma_name_lt_irreflexive(a@);
                }
                return NameOrder::Same;
            },
            (None, Some(_)) => {
                proof {
                    assert(decides_at(a@, b@, k));
                    lemma_name_lt_asymmetric(a@, b@);
                }
                return NameOrder::Before;
            },
            (Some(_), None) => {
                proof {
                    assert(decides_at(b@, a@, k));
                    lemma_name_lt_asymmetric(b@, a@);
                }
                return NameOrder::After;
            },
            (Some(x), Some(y)) => {
                assert(x == a@[k] && y == b@[k]);
                if x < y {
                    proof {
                        assert(decides_at(a@, b@, k));
                        lemma_name_lt_asymmetric(a@, b@);
                    }
                    return NameOrder::Before;
                } else if y < x {
                    proof {
                        assert(decides_at(b@, a@, k));
                        lemma_name_lt_asymmetric(b@, a@);
                    }
                    return NameOrder::After;
                }
                proof {
                    k = k + 1;
                }
            },
        }
    }
}

} // verus!
