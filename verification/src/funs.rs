use vstd::prelude::*;

verus! {

/// An accumulator carried between the tasks of the network.
#[derive(Copy, Clone, Debug, PartialEq, Eq, Structural)]
pub struct State {
    pub val: i32,
}

impl State {
    pub fn new(val: i32) -> (s: Self)
        ensures
            s.val == val,
    {
        State { val }
    }

    pub fn new_state(val: i32) -> (s: Self)
        ensures
            s.val == val,
    {
        State { val }
    }

    pub fn do_stuff(&self, i: i32) -> (r: i32)
        ensures
            r == 23,
    {
        23
    }

    /// Adds `num` to the accumulator and returns the new value.
    pub fn gs(&mut self, num: i32) -> (r: i32)
        requires
            i32::MIN <= old(self).val + num <= i32::MAX,
        ensures
            final(self).val == old(self).val + num,
            r == final(self).val,
    {
        self.val = self.val + num;
        self.val
    }
}


pub fn a(arg: u32) -> (r: u32)
    requires
        arg + 3 <= u32::MAX,
    ensures
        r == arg + 3,
{
    arg + 3
}

pub fn b(arg: u32) -> (r: u32)
    requires
        arg * 2 <= u32::MAX,
    ensures
        r == arg * 2,
{
    arg * 2
}

pub fn c() -> (r: u32)
    ensures
        r == 4,
{
    4
}

/// Keeps 23 as it is and moves every other value one up.
pub fn h(i: i32) -> (r: i32)
    requires
        i != i32::MAX,
    ensures
        r == (if i == 23 { i as int } else { i + 1 }),
{
    let the_answer = if i == 23 {
        i
    } else {
        i + 1
    };
    the_answer
}

pub fn check(i: i32) -> (r: bool)
    ensures
        r == (i < 23),
{
    i < 23
}

pub fn host_id(i: bool) -> (r: (bool, bool))
    ensures
        r == (i, i),
{
    (i, i)
}

/// The stream `1, 2, ..., 10` as a sequence.
pub open spec fn spec_iter_i32() -> Seq<i32> {
    Seq::new(10, |k: int| (k + 1) as i32)
}

pub fn iter_i32() -> (v: Vec<i32>)
    ensures
        v@ == spec_iter_i32(),
{
    let mut v: Vec<i32> = Vec::new();
    let mut k: i32 = 1;
    while k < 11
        invariant
            1 <= k <= 11,
            v@ == Seq::new((k - 1) as nat, |j: int| (j + 1) as i32),
        decreases 11 - k,
    {
        v.push(k);
        k = k + 1;
    }
    v
}

pub fn make_unit() -> (r: ())
    ensures
        r == (),
{
    ()
}

/// The difference between the accumulated value and `i`.
pub fn f_s(state: State, i: i32) -> (r: i32)
    requires
        i32::MIN <= state.val - i <= i32::MAX,
    ensures
        r == state.val - i,
{
    state.val - i
}


/// The sum of a stream of values.
pub open spec fn sum(s: Seq<i32>) -> int
    decreases s.len(),
{
    if s.len() == 0 {
        0
    } else {
        s[0] + sum(s.drop_first())
    }
}

/// Every running total of `acc` plus a prefix of `s` fits in an `i32`: adding the
/// values of `s` one by one to an accumulator that starts at `acc` never overflows.
pub open spec fn running_totals_fit(acc: int, s: Seq<i32>) -> bool
    decreases s.len(),
{
    if s.len() == 0 {
        true
    } else {
        &&& i32::MIN <= acc + s[0] <= i32::MAX
        &&& running_totals_fit(acc + s[0], s.drop_first())
    }
}

/// Appending one value adds it to the sum.
pub proof fn lemma_sum_push(s: Seq<i32>, x: i32)
    ensures
        sum(s.push(x)) == sum(s) + x,
    decreases s.len(),
{
    if s.len() > 0 {
        assert(s.push(x).drop_first() =~= s.drop_first().push(x));
        assert(s.push(x)[0] == s[0]);
        lemma_sum_push(s.drop_first(), x);
    } else {
        assert(s.push(x).drop_first() =~= s);
        assert(s.push(x)[0] == x);
    }
}

/// The sum of a prefix one longer is the shorter sum plus the next value.
pub proof fn lemma_sum_take_next(s: Seq<i32>, k: int)
    requires
        0 <= k < s.len(),
    ensures
        sum(s.take(k + 1)) == sum(s.take(k)) + s[k],
{
    assert(s.take(k + 1) =~= s.take(k).push(s[k]));
    lemma_sum_push(s.take(k), s[k]);
}

/// The running totals fit up to a prefix when they fit for the whole stream.
pub proof fn lemma_running_totals_prefix(acc: int, s: Seq<i32>, k: int)
    requires
        running_totals_fit(acc, s),
        0 <= k < s.len(),
    ensures
        i32::MIN <= acc + sum(s.take(k + 1)) <= i32::MAX,
    decreases s.len(),
{
    assert(s.take(k + 1)[0] == s[0]);
    if k > 0 {
        lemma_running_totals_prefix(acc + s[0], s.drop_first(), k - 1);
        assert(s.drop_first().take(k) =~= s.take(k + 1).drop_first());
        assert(sum(s.take(k + 1)) == s[0] + sum(s.drop_first().take(k)));
    } else {
        assert(s.take(1).drop_first() =~= Seq::<i32>::empty());
        assert(sum(s.take(1)) == s[0] + sum(Seq::<i32>::empty()));
    }
}

/// With no negative values the running totals only grow, so they fit when the
/// start and the final total do.
pub proof fn lemma_running_totals_nonneg(acc: int, s: Seq<i32>)
    requires
        i32::MIN <= acc,
        acc + sum(s) <= i32::MAX,
        forall|j: int| 0 <= j < s.len() ==> s[j] >= 0,
    ensures
        running_totals_fit(acc, s),
    decreases s.len(),
{
    if s.len() > 0 {
        lemma_sum_nonneg(s.drop_first());
        lemma_running_totals_nonneg(acc + s[0], s.drop_first());
    }
}

/// A stream of non-negative values has a non-negative sum.
pub proof fn lemma_sum_nonneg(s: Seq<i32>)
    requires
        forall|j: int| 0 <= j < s.len() ==> s[j] >= 0,
    ensures
        sum(s) >= 0,
    decreases s.len(),
{
    if s.len() > 0 {
        lemma_sum_nonneg(s.drop_first());
    }
}

/// The stream `1, ..., 10` sums to 55, and its running totals from `acc` fit
/// whenever `acc + 55` does.
pub proof fn lemma_iter_i32_sum(acc: int)
    requires
        i32::MIN <= acc,
        acc + 55 <= i32::MAX,
    ensures
        sum(spec_iter_i32()) == 55,
        running_totals_fit(acc, spec_iter_i32()),
{
    assert(spec_iter_i32() =~= seq![1i32, 2, 3, 4, 5, 6, 7, 8, 9, 10]);
    reveal_with_fuel(sum, 11);
    lemma_running_totals_nonneg(acc, spec_iter_i32());
}

} // verus!
