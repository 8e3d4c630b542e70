use vstd::prelude::*;

use crate::funs::{
    lemma_iter_i32_sum, lemma_running_totals_prefix, lemma_sum_take_next, iter_i32, running_totals_fit,
    spec_iter_i32, sum, State,
};

verus! {

/// The sequential computation that the process network distributes: start an
/// accumulator at `i`, add each value of the stream `1..=10`, then add 5.
pub fn test(i: i32) -> (r: i32)
    requires
        i <= i32::MAX - 60,
    ensures
        r == i + sum(spec_iter_i32()) + 5,
        r == i + 60,
{
    let mut s: State = State::new_state(i);
    let stream: Vec<i32> = iter_i32();
    proof {
        lemma_iter_i32_sum(i as int);
    }
    let mut k: usize = 0;
    while k < stream.len()
        invariant
            stream@ == spec_iter_i32(),
            k <= stream.len(),
            s.val == i + sum(stream@.take(k as int)),
            running_totals_fit(i as int, stream@),
        decreases stream.len() - k,
    {
        let e1: i32 = stream[k];
        proof {
            lemma_sum_take_next(stream@, k as int);
            lemma_running_totals_prefix(i as int, stream@, k as int);
        }
        s.gs(e1);
        k = k + 1;
    }
    proof {
        assert(stream@.take(stream.len() as int) =~= stream@);
    }
    s.gs(5)
}

} // verus!
