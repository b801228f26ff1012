//! Vectors with a length bound, as the pallet's stored lists are.
use vstd::prelude::*;
use crate::types::{nested, AccountId, Proposal};

verus! {

/// Appends `x` to `v` where `v` holds fewer than `bound` items; otherwise
/// leaves `v` as it is and hands `x` back.
pub fn try_push<T>(v: &mut Vec<T>, bound: u32, x: T) -> (r: Result<(), T>)
    ensures
        old(v)@.len() < bound ==> r is Ok && final(v)@ == old(v)@.push(x),
        old(v)@.len() >= bound ==> r == Err::<(), T>(x) && final(v)@ == old(v)@,
{
    if v.len() < bound as usize {
        v.push(x);
        Ok(())
    } else {
        Err(x)
    }
}

/// Whether `who` is in `v`.
pub fn contains_account(v: &Vec<AccountId>, who: AccountId) -> (b: bool)
    ensures
        b == v@.contains(who),
{
    let n = v.len();
    let mut i: usize = 0;
    while i < n
        invariant
            n == v@.len(),
            0 <= i <= n,
            forall|j: int| 0 <= j < i ==> v@[j] != who,
        decreases n - i,
    {
        if v[i] == who {
            return true;
        }
        i = i + 1;
    }
    false
}

/// A copy of `v`.
pub fn copy_vec<T: Copy>(v: &Vec<T>) -> (r: Vec<T>)
    ensures
        r@ == v@,
{
    let n = v.len();
    let mut r: Vec<T> = Vec::new();
    let mut i: usize = 0;
    while i < n
        invariant
            n == v@.len(),
            0 <= i <= n,
            r@ =~= v@.take(i as int),
        decreases n - i,
    {
        r.push(v[i]);
        i = i + 1;
    }
    assert(v@.take(n as int) =~= v@);
    r
}

/// A copy of `v` and of each vector in it.
pub fn copy_nested<T: Copy>(v: &Vec<Vec<T>>) -> (r: Vec<Vec<T>>)
    ensures
        nested(r@) == nested(v@),
{
    let n = v.len();
    let mut r: Vec<Vec<T>> = Vec::new();
    let mut i: usize = 0;
    while i < n
        invariant
            n == v@.len(),
            0 <= i <= n,
            nested(r@) =~= nested(v@).take(i as int),
        decreases n - i,
    {
        let row = copy_vec(&v[i]);
        let ghost before = r@;
        r.push(row);
        assert(nested(r@) =~= nested(before).push(v@[i as int]@));
        assert(nested(v@).take(i + 1) =~= nested(v@).take(i as int).push(v@[i as int]@));
        i = i + 1;
    }
    assert(nested(v@).take(n as int) =~= nested(v@));
    r
}

/// A copy of the proposal `p`.
pub fn copy_proposal(p: &Proposal) -> (q: Proposal)
    ensures
        q@ == p@,
{
    Proposal {
        text: p.text,
        id: p.id,
        percentage_quorum: p.percentage_quorum,
        progress: p.progress,
        who: copy_vec(&p.who),
        subjects: copy_vec(&p.subjects),
        alternatives: copy_nested(&p.alternatives),
    }
}

} // verus!
