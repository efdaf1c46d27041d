//! Key/value lists in which a later pair replaces an earlier one with the same key.
use vstd::prelude::*;

verus! {

/// The value of the last pair whose key is `k`.
pub open spec fn lookup(pairs: Seq<(Seq<char>, Seq<char>)>, k: Seq<char>) -> Option<Seq<char>>
    decreases pairs.len(),
{
    if pairs.len() == 0 {
        None
    } else if pairs.last().0 == k {
        Some(pairs.last().1)
    } else {
        lookup(pairs.drop_last(), k)
    }
}

pub open spec fn pairs_view(v: Seq<(String, String)>) -> Seq<(Seq<char>, Seq<char>)> {
    v.map_values(|p: (String, String)| (p.0@, p.1@))
}

/// Index of the last pair whose key is `key`.
pub fn find_last(v: &Vec<(String, String)>, key: &str) -> (r: Option<usize>)
    ensures
        match r {
            Some(i) => i < v@.len() && lookup(pairs_view(v@), key@) == Some(v@[i as int].1@),
            None => lookup(pairs_view(v@), key@) is None,
        },
{
    let k = key.to_owned();
    let mut n: usize = v.len();
    proof {
        assert(v@.subrange(0, n as int) =~= v@);
    }
    while n > 0
        invariant
            n <= v@.len(),
            k@ == key@,
            lookup(pairs_view(v@), key@) == lookup(pairs_view(v@.subrange(0, n as int)), key@),
        decreases n,
    {
        proof {
            let p = pairs_view(v@.subrange(0, n as int));
            assert(p.drop_last() =~= pairs_view(v@.subrange(0, n - 1)));
        }
        if v[n - 1].0 == k {
            return Some(n - 1);
        }
        n = n - 1;
    }
    proof {
        assert(pairs_view(v@.subrange(0, 0)) =~= Seq::empty());
    }
    None
}

} // verus!
