//! The executable registry: a vector of chain names abstracted to the set
//! of their character sequences.

use vstd::prelude::*;

verus! {

/// The set of names a sequence of strings stands for.
pub open spec fn chain_set(s: Seq<String>) -> Set<Seq<char>>
    decreases s.len(),
{
    if s.len() == 0 {
        Set::empty()
    } else {
        chain_set(s.drop_last()).insert(s.last()@)
    }
}

/// No two entries spell the same name.
pub open spec fn chain_names_unique(s: Seq<String>) -> bool {
    forall|i: int, j: int| 0 <= i < j < s.len() ==> s[i]@ != s[j]@
}

/// A name is in the set exactly when some entry spells it.
pub proof fn lemma_chain_set_contains(s: Seq<String>, x: Seq<char>)
    ensures
        chain_set(s).contains(x) <==> exists|i: int| 0 <= i < s.len() && s[i]@ == x,
    decreases s.len(),
{
    if s.len() > 0 {
        lemma_chain_set_contains(s.drop_last(), x);
        if s.last()@ == x {
            assert(s[s.len() - 1]@ == x);
        } else if chain_set(s).contains(x) {
            let i = choose|i: int| 0 <= i < s.drop_last().len() && s.drop_last()[i]@ == x;
            assert(s[i]@ == x);
        } else if exists|i: int| 0 <= i < s.len() && s[i]@ == x {
            let i = choose|i: int| 0 <= i < s.len() && s[i]@ == x;
            assert(i < s.len() - 1);
            assert(s.drop_last()[i]@ == x);
        }
    }
}

/// Appending an entry inserts its name into the set.
pub proof fn lemma_chain_set_push(s: Seq<String>, v: String)
    ensures
        chain_set(s.push(v)) == chain_set(s).insert(v@),
{
    assert(s.push(v).drop_last() =~= s);
    assert(s.push(v).last() == v);
}

/// Appending a fresh name keeps the entries distinct.
pub proof fn lemma_chain_names_unique_push(s: Seq<String>, v: String)
    requires
        chain_names_unique(s),
        forall|i: int| 0 <= i < s.len() ==> s[i]@ != v@,
    ensures
        chain_names_unique(s.push(v)),
{
    let s2 = s.push(v);
    assert forall|i: int, j: int| 0 <= i < j < s2.len() implies s2[i]@ != s2[j]@ by {
        if j < s.len() {
            assert(s2[i] == s[i] && s2[j] == s[j]);
        } else {
            assert(s2[j] == v && s2[i] == s[i]);
        }
    }
}

/// Whether `name` is already registered.
pub(crate) fn registry_contains(chains: &Vec<String>, name: &String) -> (r: bool)
    ensures
        r == chain_set(chains@).contains(name@),
{
    let n = chains.len();
    let mut idx: usize = 0;
    while idx < n
        invariant
            n == chains@.len(),
            idx <= n,
            forall|i: int| 0 <= i < idx ==> chains@[i]@ != name@,
        decreases n - idx,
    {
        if chains[idx] == *name {
            proof {
                lemma_chain_set_contains(chains@, name@);
            }
            return true;
        }
        idx += 1;
    }
    proof {
        lemma_chain_set_contains(chains@, name@);
    }
    false
}

} // verus!
