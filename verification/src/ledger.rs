//! The executable ledger: a flat vector of grant records keyed by the
//! (requester, chain) pair, abstracted to the `LedgerModel` map. The
//! lemmas here relate vector operations to map operations, given that the
//! keys in the vector are pairwise distinct.

use vstd::prelude::*;
use crate::model::LedgerModel;

verus! {

/// One recorded grant: the last time `requester` was granted for `chain`.
pub struct Grant {
    pub requester: String,
    pub chain: String,
    pub time: u64,
}

/// The key a grant is looked up by.
pub open spec fn grant_key(g: Grant) -> (Seq<char>, Seq<char>) {
    (g.requester@, g.chain@)
}

/// The map a sequence of grants stands for; later records overwrite
/// earlier ones with the same key.
pub open spec fn ledger_of(s: Seq<Grant>) -> LedgerModel
    decreases s.len(),
{
    if s.len() == 0 {
        Map::empty()
    } else {
        ledger_of(s.drop_last()).insert(grant_key(s.last()), s.last().time)
    }
}

/// No two records share a key.
pub open spec fn grant_keys_unique(s: Seq<Grant>) -> bool {
    forall|i: int, j: int| 0 <= i < j < s.len() ==> grant_key(s[i]) != grant_key(s[j])
}

/// A key is in the ledger exactly when some record carries it.
pub proof fn lemma_ledger_contains(s: Seq<Grant>, k: (Seq<char>, Seq<char>))
    ensures
        ledger_of(s).contains_key(k) <==> exists|i: int|
            0 <= i < s.len() && grant_key(s[i]) == k,
    decreases s.len(),
{
    if s.len() > 0 {
        lemma_ledger_contains(s.drop_last(), k);
        if grant_key(s.last()) == k {
            assert(grant_key(s[s.len() - 1]) == k);
        } else if ledger_of(s).contains_key(k) {
            let i = choose|i: int| 0 <= i < s.drop_last().len() && grant_key(
                s.drop_last()[i],
            ) == k;
            assert(grant_key(s[i]) == k);
        } else if exists|i: int| 0 <= i < s.len() && grant_key(s[i]) == k {
            let i = choose|i: int| 0 <= i < s.len() && grant_key(s[i]) == k;
            assert(i < s.len() - 1);
            assert(grant_key(s.drop_last()[i]) == k);
        }
    }
}

/// With distinct keys, the record at index `i` gives its key's entry.
pub proof fn lemma_ledger_at(s: Seq<Grant>, i: int)
    requires
        grant_keys_unique(s),
        0 <= i < s.len(),
    ensures
        ledger_of(s).contains_key(grant_key(s[i])),
        ledger_of(s)[grant_key(s[i])] == s[i].time,
    decreases s.len(),
{
    if i < s.len() - 1 {
        assert(grant_keys_unique(s.drop_last())) by {
            assert(forall|x: int, y: int|
                0 <= x < y < s.drop_last().len() ==> grant_key(s.drop_last()[x]) != grant_key(
                    s.drop_last()[y],
                )) by {
                assert(forall|x: int|
                    0 <= x < s.drop_last().len() ==> s.drop_last()[x] == s[x]);
            }
        }
        lemma_ledger_at(s.drop_last(), i);
        assert(grant_key(s[i]) != grant_key(s.last()));
    }
}

/// A key carried by no record is absent from the ledger.
pub proof fn lemma_ledger_absent(s: Seq<Grant>, k: (Seq<char>, Seq<char>))
    requires
        forall|i: int| 0 <= i < s.len() ==> grant_key(s[i]) != k,
    ensures
        !ledger_of(s).contains_key(k),
{
    lemma_ledger_contains(s, k);
}

/// Appending a record inserts its key into the ledger.
pub proof fn lemma_ledger_push(s: Seq<Grant>, g: Grant)
    ensures
        ledger_of(s.push(g)) == ledger_of(s).insert(grant_key(g), g.time),
{
    assert(s.push(g).drop_last() =~= s);
    assert(s.push(g).last() == g);
}

/// Appending a record with a fresh key keeps the keys distinct.
pub proof fn lemma_unique_push(s: Seq<Grant>, g: Grant)
    requires
        grant_keys_unique(s),
        forall|i: int| 0 <= i < s.len() ==> grant_key(s[i]) != grant_key(g),
    ensures
        grant_keys_unique(s.push(g)),
{
    let s2 = s.push(g);
    assert forall|i: int, j: int| 0 <= i < j < s2.len() implies grant_key(s2[i]) != grant_key(
        s2[j],
    ) by {
        if j < s.len() {
            assert(s2[i] == s[i] && s2[j] == s[j]);
        } else {
            assert(s2[j] == g && s2[i] == s[i]);
        }
    }
}

/// Overwriting the record at index `i` with one of the same key inserts
/// the new time under that key, and keeps the keys distinct.
pub proof fn lemma_ledger_update(s: Seq<Grant>, i: int, g: Grant)
    requires
        grant_keys_unique(s),
        0 <= i < s.len(),
        grant_key(g) == grant_key(s[i]),
    ensures
        ledger_of(s.update(i, g)) == ledger_of(s).insert(grant_key(g), g.time),
        grant_keys_unique(s.update(i, g)),
    decreases s.len(),
{
    let s2 = s.update(i, g);
    let k = grant_key(g);
    assert forall|x: int, y: int| 0 <= x < y < s2.len() implies grant_key(s2[x]) != grant_key(
        s2[y],
    ) by {
        assert(grant_key(s2[x]) == grant_key(s[x]));
        assert(grant_key(s2[y]) == grant_key(s[y]));
    }
    assert(grant_keys_unique(s.drop_last())) by {
        assert(forall|x: int| 0 <= x < s.drop_last().len() ==> s.drop_last()[x] == s[x]);
    }
    if i == s.len() - 1 {
        assert(s2.drop_last() =~= s.drop_last());
        assert(s2.last() == g);
        assert(ledger_of(s2) == ledger_of(s.drop_last()).insert(k, g.time));
        assert(ledger_of(s).insert(k, g.time) =~= ledger_of(s.drop_last()).insert(k, g.time));
    } else {
        assert(s2.drop_last() =~= s.drop_last().update(i, g));
        assert(s2.last() == s.last());
        lemma_ledger_update(s.drop_last(), i, g);
        assert(ledger_of(s2) == ledger_of(s.drop_last()).insert(k, g.time).insert(
            grant_key(s.last()),
            s.last().time,
        ));
        assert(grant_key(s.last()) != k);
        assert(ledger_of(s.drop_last()).insert(k, g.time).insert(grant_key(s.last()), s.last().time)
            =~= ledger_of(s.drop_last()).insert(grant_key(s.last()), s.last().time).insert(
            k,
            g.time,
        ));
    }
}

/// Finds the index of the record for (requester, chain), if any.
pub(crate) fn find_grant(grants: &Vec<Grant>, requester: &String, chain: &String) -> (r: Option<
    usize,
>)
    ensures
        match r {
            Some(i) => i < grants@.len() && grant_key(grants@[i as int]) == (requester@, chain@),
            None => forall|i: int|
                0 <= i < grants@.len() ==> grant_key(grants@[i]) != (requester@, chain@),
        },
{
    let n = grants.len();
    let mut idx: usize = 0;
    while idx < n
        invariant
            n == grants@.len(),
            idx <= n,
            forall|i: int| 0 <= i < idx ==> grant_key(grants@[i]) != (requester@, chain@),
        decreases n - idx,
    {
        let g = &grants[idx];
        if g.requester == *requester && g.chain == *chain {
            return Some(idx);
        }
        idx += 1;
    }
    None
}

} // verus!
