//! Helpers of the database queries.
use vstd::prelude::*;

use crate::text::{nat_digits, push_str, push_u64_digits, string_from_chars};

verus! {

broadcast use vstd::string::group_string_axioms;

/// `?1,?2,...,?count`: the numbered parameters of an `IN (...)` clause.
pub open spec fn spec_in_clause(count: nat) -> Seq<char>
    decreases count,
{
    if count == 0 {
        Seq::empty()
    } else if count == 1 {
        seq!['?', '1']
    } else {
        spec_in_clause((count - 1) as nat) + seq![','] + seq!['?'] + nat_digits(count)
    }
}

/// The numbered parameters `?1,?2,...` of an `IN (...)` clause with `count` values.
pub fn parameterized_in_clause(count: usize) -> (r: String)
    requires
        count > 0,
    ensures
        r@ == spec_in_clause(count as nat),
{
    let mut v: Vec<char> = Vec::new();
    let mut i: usize = 1;
    while i <= count
        invariant
            1 <= i <= count + 1,
            count > 0,
            v@ == spec_in_clause((i - 1) as nat),
        decreases count + 1 - i,
    {
        if i > 1 {
            v.push(',');
        }
        v.push('?');
        push_u64_digits(&mut v, i as u64);
        proof {
            if i == 1 {
                assert(nat_digits(1) =~= seq!['1']);
            }
        }
        assert(v@ =~= spec_in_clause(i as nat));
        if i == count {
            return string_from_chars(&v);
        }
        i = i + 1;
    }
    string_from_chars(&v)
}

/// Index of the largest value (the last of several equal ones), 0 when there are none.
pub fn max_index(values: &Vec<u32>) -> (r: usize)
    ensures
        values.len() == 0 ==> r == 0,
        values.len() > 0 ==> {
            &&& r < values.len()
            &&& forall|j: int| 0 <= j < values.len() ==> values[j] <= values[r as int]
            &&& forall|j: int| r < j < values.len() ==> values[j] < values[r as int]
        },
{
    if values.len() == 0 {
        return 0;
    }
    let mut best: usize = 0;
    let mut i: usize = 1;
    while i < values.len()
        invariant
            1 <= i <= values.len(),
            best < i,
            forall|j: int| 0 <= j < i ==> values[j] <= values[best as int],
            forall|j: int| best < j < i ==> values[j] < values[best as int],
        decreases values.len() - i,
    {
        if values[i] >= values[best] {
            best = i;
        }
        i = i + 1;
    }
    best
}

/// The current Unix time in seconds, as decimal text.
pub fn now_unix_secs() -> (r: String)
    ensures
        exists|secs: nat| r@ == nat_digits(secs),
{
    let secs = crate::date_util::current_unix_secs();
    let mut v: Vec<char> = Vec::new();
    push_u64_digits(&mut v, secs);
    assert(v@ =~= nat_digits(secs as nat));
    string_from_chars(&v)
}

} // verus!
