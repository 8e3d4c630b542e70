use vstd::prelude::*;
use vstd::std_specs::iter::IteratorSpec;

use crate::funs::{
    iter_i32, lemma_iter_i32_sum, lemma_running_totals_prefix, lemma_sum_take_next,
    running_totals_fit, spec_iter_i32, sum, State,
};

verus! {

/// What the sequential computation gives for a start value `i` and a stream:
/// the start, plus every value of the stream, plus 5.
pub open spec fn sequential_result(i: int, stream: Seq<i32>) -> int {
    i + sum(stream) + 5
}

/// The sequential computation of the program: the accumulator starts at `y`,
/// takes in each value of `1..=10`, then 5.
pub fn input_fun(y: i32) -> (r: i32)
    requires
        y <= i32::MAX - 60,
    ensures
        r == sequential_result(y as int, spec_iter_i32()),
        r == y + 60,
{
    let mut s: State = State::new_state(y);
    let stream: Vec<i32> = iter_i32();
    proof {
        lemma_iter_i32_sum(y as int);
    }
    let mut k: usize = 0;
    while k < stream.len()
        invariant
            stream@ == spec_iter_i32(),
            k <= stream.len(),
            s.val == y + sum(stream@.take(k as int)),
            running_totals_fit(y as int, stream@),
        decreases stream.len() - k,
    {
        let e1: i32 = stream[k];
        proof {
            lemma_sum_take_next(stream@, k as int);
            lemma_running_totals_prefix(y as int, stream@, k as int);
        }
        s.gs(e1);
        k = k + 1;
    }
    proof {
        assert(stream@.take(stream.len() as int) =~= stream@);
    }
    s.gs(5)
}

/// Task 0: the accumulated state that it receives, plus 5, is what it sends on.
pub fn task_0_step(state: State) -> (r: i32)
    requires
        state.val + 5 <= i32::MAX,
    ensures
        r == state.val + 5,
{
    let mut var_0 = state;
    var_0.gs(5)
}

/// A message that task 1 sends: on the control channel, whether the accumulator
/// is complete after the announced data and how many data values follow; on the
/// data channel, one value of the stream.
#[derive(Copy, Clone, Debug, PartialEq, Eq, Structural)]
pub enum Task1Msg {
    Ctrl(bool, usize),
    Data(i32),
}

/// The messages of task 1, in the order it sends them, when it does not know the
/// length of the stream: each value, each followed by a control message that
/// announces it, and at the end a control message that completes the round.
pub open spec fn spec_unsized_plan(stream: Seq<i32>) -> Seq<Task1Msg>
    decreases stream.len(),
{
    if stream.len() == 0 {
        seq![Task1Msg::Ctrl(true, 0)]
    } else {
        seq![Task1Msg::Data(stream[0]), Task1Msg::Ctrl(false, 1)] + spec_unsized_plan(
            stream.drop_first(),
        )
    }
}

/// The messages of task 1, in the order it sends them. When the length of the
/// stream is known, one control message announces all of it and completes the
/// round, and the values follow.
pub open spec fn spec_task_1_plan(stream: Seq<i32>, has_size: bool) -> Seq<Task1Msg> {
    if has_size {
        seq![Task1Msg::Ctrl(true, stream.len() as usize)] + stream.map_values(
            |d: i32| Task1Msg::Data(d),
        )
    } else {
        spec_unsized_plan(stream)
    }
}

/// Builds the messages of task 1 for a stream, in sending order.
pub fn task_1_plan(stream: &Vec<i32>, has_size: bool) -> (r: Vec<Task1Msg>)
    ensures
        r@ == spec_task_1_plan(stream@, has_size),
{
    let mut out: Vec<Task1Msg> = Vec::new();
    if has_size {
        let size = stream.len();
        out.push(Task1Msg::Ctrl(true, size));
        let mut k: usize = 0;
        while k < stream.len()
            invariant
                k <= stream.len(),
                size == stream.len(),
                out@ =~= seq![Task1Msg::Ctrl(true, size)] + stream@.take(k as int).map_values(
                    |d: i32| Task1Msg::Data(d),
                ),
            decreases stream.len() - k,
        {
            out.push(Task1Msg::Data(stream[k]));
            proof {
                assert(stream@.take(k + 1).map_values(|d: i32| Task1Msg::Data(d))
                    =~= stream@.take(k as int).map_values(|d: i32| Task1Msg::Data(d)).push(
                    Task1Msg::Data(stream@[k as int]),
                ));
            }
            k = k + 1;
        }
        proof {
            assert(stream@.take(stream.len() as int) =~= stream@);
        }
    } else {
        let mut k: usize = 0;
        proof {
            assert(stream@.skip(0) =~= stream@);
        }
        while k < stream.len()
            invariant
                k <= stream.len(),
                spec_unsized_plan(stream@) =~= out@ + spec_unsized_plan(stream@.skip(k as int)),
            decreases stream.len() - k,
        {
            let d = stream[k];
            out.push(Task1Msg::Data(d));
            out.push(Task1Msg::Ctrl(false, 1));
            proof {
                assert(stream@.skip(k as int).drop_first() =~= stream@.skip(k + 1));
                assert(stream@.skip(k as int)[0] == d);
            }
            k = k + 1;
        }
        out.push(Task1Msg::Ctrl(true, 0));
        proof {
            assert(stream@.skip(k as int) =~= Seq::<i32>::empty());
        }
    }
    out
}


/// `Iterator::size_hint` of an iterator over the items of a slice. That
/// iterator is an `ExactSizeIterator`, whose documentation requires both bounds
/// to be the exact number of items left.
#[verifier::external_body]
fn slice_iter_size_hint(it: &std::slice::Iter<'_, i32>) -> (r: (usize, Option<usize>))
    ensures
        r.0 == it.remaining().len(),
        r.1 == Some(r.0),
{
    it.size_hint()
}

/// Task 1: the messages it sends for the stream `1..=10`, in sending order.
/// The iterator over the stream reports an upper bound on its length, so one
/// control message announces the whole stream.
pub fn task_1_messages() -> (r: Vec<Task1Msg>)
    ensures
        r@ == spec_task_1_plan(spec_iter_i32(), true),
{
    let stream_0_0_0 = iter_i32();
    let has_size = {
        let tmp_has_size = slice_iter_size_hint(&stream_0_0_0.as_slice().iter());
        tmp_has_size.1.is_some()
    };
    task_1_plan(&stream_0_0_0, has_size)
}

/// Where task 3 waits for its next message.
#[derive(Copy, Clone, Debug, PartialEq, Eq, Structural)]
pub enum Inbox {
    /// The channel that brings the initial accumulator.
    StateIn,
    /// The control channel.
    CtrlIn,
    /// The data channel.
    DataIn,
}

/// The state of task 3 between two messages.
#[derive(Copy, Clone, Debug, PartialEq, Eq, Structural)]
pub enum Task3Phase {
    /// Waiting for a new accumulator.
    AwaitState,
    /// Waiting for a control message, with the accumulator so far.
    AwaitCtrl { acc: State },
    /// Waiting for `left` more data values; `renew` says whether the
    /// accumulator is sent on once they are in.
    AwaitData { acc: State, left: usize, renew: bool },
}

/// A message that task 3 received.
#[derive(Copy, Clone, Debug, PartialEq, Eq, Structural)]
pub enum Task3Event {
    GotState(State),
    GotCtrl(bool, usize),
    GotData(i32),
}

/// After a control message announced `n` values (or after the last of them came
/// in): wait for the values, or send the accumulator on, or wait for the next
/// control message.
pub open spec fn spec_after_count(acc: State, n: usize, renew: bool) -> (Task3Phase, Option<State>) {
    if n > 0 {
        (Task3Phase::AwaitData { acc, left: n, renew }, None)
    } else if renew {
        (Task3Phase::AwaitState, Some(acc))
    } else {
        (Task3Phase::AwaitCtrl { acc }, None)
    }
}

impl Task3Phase {
    /// A phase that waits for data waits for at least one value.
    pub open spec fn wf(self) -> bool {
        match self {
            Task3Phase::AwaitData { left, .. } => left > 0,
            _ => true,
        }
    }

    pub open spec fn spec_inbox(self) -> Inbox {
        match self {
            Task3Phase::AwaitState => Inbox::StateIn,
            Task3Phase::AwaitCtrl { .. } => Inbox::CtrlIn,
            Task3Phase::AwaitData { .. } => Inbox::DataIn,
        }
    }

    /// The event is one the phase waits for, and adding a data value to the
    /// accumulator does not overflow.
    pub open spec fn spec_accepts(self, event: Task3Event) -> bool {
        match (self, event) {
            (Task3Phase::AwaitState, Task3Event::GotState(_)) => true,
            (Task3Phase::AwaitCtrl { .. }, Task3Event::GotCtrl(_, _)) => true,
            (Task3Phase::AwaitData { acc, .. }, Task3Event::GotData(v)) => i32::MIN <= acc.val + v
                <= i32::MAX,
            _ => false,
        }
    }

    /// The next phase, and the accumulator to send on if the round is complete.
    pub open spec fn spec_step(self, event: Task3Event) -> (Task3Phase, Option<State>) {
        match (self, event) {
            (Task3Phase::AwaitState, Task3Event::GotState(s)) => (
                Task3Phase::AwaitCtrl { acc: s },
                None,
            ),
            (Task3Phase::AwaitCtrl { acc }, Task3Event::GotCtrl(renew, n)) => spec_after_count(
                acc,
                n,
                renew,
            ),
            (Task3Phase::AwaitData { acc, left, renew }, Task3Event::GotData(v)) => spec_after_count(
                State { val: (acc.val + v) as i32 },
                (left - 1) as usize,
                renew,
            ),
            _ => (self, None),
        }
    }

    /// Task 3 starts by waiting for an accumulator.
    pub open spec fn start_spec() -> Task3Phase {
        Task3Phase::AwaitState
    }

    /// Task 3 starts by waiting for an accumulator.
    pub fn start() -> (p: Task3Phase)
        ensures
            p == Task3Phase::start_spec(),
            p.wf(),
    {
        Task3Phase::AwaitState
    }

    /// The channel that task 3 reads next.
    pub fn inbox(&self) -> (r: Inbox)
        ensures
            r == self.spec_inbox(),
    {
        match self {
            Task3Phase::AwaitState => Inbox::StateIn,
            Task3Phase::AwaitCtrl { .. } => Inbox::CtrlIn,
            Task3Phase::AwaitData { .. } => Inbox::DataIn,
        }
    }

    /// Whether `event` can be taken in this phase without overflow.
    pub fn accepts(&self, event: &Task3Event) -> (r: bool)
        ensures
            r == self.spec_accepts(*event),
    {
        match (self, event) {
            (Task3Phase::AwaitState, Task3Event::GotState(_)) => true,
            (Task3Phase::AwaitCtrl { .. }, Task3Event::GotCtrl(_, _)) => true,
            (Task3Phase::AwaitData { acc, .. }, Task3Event::GotData(v)) => {
                let a = acc.val as i64 + *v as i64;
                i32::MIN as i64 <= a && a <= i32::MAX as i64
            },
            _ => false,
        }
    }
}

fn after_count(acc: State, n: usize, renew: bool) -> (r: (Task3Phase, Option<State>))
    ensures
        r == spec_after_count(acc, n, renew),
        r.0.wf(),
{
    if n > 0 {
        (Task3Phase::AwaitData { acc, left: n, renew }, None)
    } else if renew {
        (Task3Phase::AwaitState, Some(acc))
    } else {
        (Task3Phase::AwaitCtrl { acc }, None)
    }
}

/// Task 3: takes in one message. It starts a round with the accumulator it
/// receives, adds every announced data value to it, and sends it on after the
/// data of a control message that completes the round.
pub fn task_3_step(phase: Task3Phase, event: Task3Event) -> (r: (Task3Phase, Option<State>))
    requires
        phase.wf(),
        phase.spec_accepts(event),
    ensures
        r == phase.spec_step(event),
        r.0.wf(),
{
    match (phase, event) {
        (Task3Phase::AwaitState, Task3Event::GotState(s)) => (Task3Phase::AwaitCtrl { acc: s }, None),
        (Task3Phase::AwaitCtrl { acc }, Task3Event::GotCtrl(renew, n)) => after_count(acc, n, renew),
        (Task3Phase::AwaitData { acc, left, renew }, Task3Event::GotData(v)) => {
            let mut acc = acc;
            acc.gs(v);
            after_count(acc, left - 1, renew)
        },
        _ => (phase, None),
    }
}


/// The control messages among `msgs`, in order: what the control channel carries.
pub open spec fn ctrl_part(msgs: Seq<Task1Msg>) -> Seq<(bool, usize)>
    decreases msgs.len(),
{
    if msgs.len() == 0 {
        seq![]
    } else {
        match msgs[0] {
            Task1Msg::Ctrl(renew, n) => seq![(renew, n)] + ctrl_part(msgs.drop_first()),
            Task1Msg::Data(_) => ctrl_part(msgs.drop_first()),
        }
    }
}

/// The data values among `msgs`, in order: what the data channel carries.
pub open spec fn data_part(msgs: Seq<Task1Msg>) -> Seq<i32>
    decreases msgs.len(),
{
    if msgs.len() == 0 {
        seq![]
    } else {
        match msgs[0] {
            Task1Msg::Ctrl(_, _) => data_part(msgs.drop_first()),
            Task1Msg::Data(d) => seq![d] + data_part(msgs.drop_first()),
        }
    }
}

/// What task 3 sends on when it is in `phase` and its three channels hold
/// `states`, `ctrls` and `data`: it reads the channel that its phase waits for,
/// one message at a time, until that channel is empty or a value would overflow
/// the accumulator.
pub open spec fn spec_drive(
    phase: Task3Phase,
    states: Seq<State>,
    ctrls: Seq<(bool, usize)>,
    data: Seq<i32>,
) -> Seq<State>
    decreases states.len() + ctrls.len() + data.len(),
{
    match phase.spec_inbox() {
        Inbox::StateIn => {
            if states.len() == 0 {
                seq![]
            } else {
                let r = phase.spec_step(Task3Event::GotState(states[0]));
                sent(r.1) + spec_drive(r.0, states.drop_first(), ctrls, data)
            }
        },
        Inbox::CtrlIn => {
            if ctrls.len() == 0 {
                seq![]
            } else {
                let r = phase.spec_step(Task3Event::GotCtrl(ctrls[0].0, ctrls[0].1));
                sent(r.1) + spec_drive(r.0, states, ctrls.drop_first(), data)
            }
        },
        Inbox::DataIn => {
            if data.len() == 0 || !phase.spec_accepts(Task3Event::GotData(data[0])) {
                seq![]
            } else {
                let r = phase.spec_step(Task3Event::GotData(data[0]));
                sent(r.1) + spec_drive(r.0, states, ctrls, data.drop_first())
            }
        },
    }
}

/// What one step sends: nothing, or the accumulator.
pub open spec fn sent(o: Option<State>) -> Seq<State> {
    match o {
        Some(s) => seq![s],
        None => seq![],
    }
}

/// The control messages of the plan for a stream of unknown length.
pub open spec fn spec_unsized_ctrls(stream: Seq<i32>) -> Seq<(bool, usize)>
    decreases stream.len(),
{
    if stream.len() == 0 {
        seq![(true, 0usize)]
    } else {
        seq![(false, 1usize)] + spec_unsized_ctrls(stream.drop_first())
    }
}

proof fn lemma_parts_of_data(s: Seq<i32>)
    ensures
        ctrl_part(s.map_values(|d: i32| Task1Msg::Data(d))) == Seq::<(bool, usize)>::empty(),
        data_part(s.map_values(|d: i32| Task1Msg::Data(d))) == s,
    decreases s.len(),
{
    let m = s.map_values(|d: i32| Task1Msg::Data(d));
    if s.len() > 0 {
        assert(m.drop_first() =~= s.drop_first().map_values(|d: i32| Task1Msg::Data(d)));
        lemma_parts_of_data(s.drop_first());
        assert(m[0] == Task1Msg::Data(s[0]));
        assert(data_part(m) =~= seq![s[0]] + s.drop_first());
        assert(s =~= seq![s[0]] + s.drop_first());
    } else {
        assert(m.len() == 0);
        assert(s =~= Seq::<i32>::empty());
    }
}

proof fn lemma_parts_of_sized_plan(s: Seq<i32>)
    requires
        s.len() <= usize::MAX,
    ensures
        ctrl_part(spec_task_1_plan(s, true)) == seq![(true, s.len() as usize)],
        data_part(spec_task_1_plan(s, true)) == s,
{
    let m = s.map_values(|d: i32| Task1Msg::Data(d));
    let p = spec_task_1_plan(s, true);
    lemma_parts_of_data(s);
    assert(p.drop_first() =~= m);
    assert(p[0] == Task1Msg::Ctrl(true, s.len() as usize));
    assert(ctrl_part(p) =~= seq![(true, s.len() as usize)] + ctrl_part(m));
}

proof fn lemma_parts_of_unsized_plan(s: Seq<i32>)
    ensures
        ctrl_part(spec_unsized_plan(s)) == spec_unsized_ctrls(s),
        data_part(spec_unsized_plan(s)) == s,
    decreases s.len(),
{
    let p = spec_unsized_plan(s);
    if s.len() == 0 {
        assert(p.drop_first() =~= Seq::<Task1Msg>::empty());
        assert(p[0] == Task1Msg::Ctrl(true, 0));
        assert(p.len() == 1);
        assert(ctrl_part(p.drop_first()) =~= Seq::<(bool, usize)>::empty());
        assert(ctrl_part(p) == seq![(true, 0usize)] + ctrl_part(p.drop_first()));
        assert(ctrl_part(p) =~= seq![(true, 0usize)]);
        assert(data_part(p.drop_first()) =~= Seq::<i32>::empty());
        assert(data_part(p) == data_part(p.drop_first()));
        assert(data_part(p) =~= s);
    } else {
        let rest = spec_unsized_plan(s.drop_first());
        lemma_parts_of_unsized_plan(s.drop_first());
        assert(p[0] == Task1Msg::Data(s[0]));
        assert(p.drop_first() =~= seq![Task1Msg::Ctrl(false, 1)] + rest);
        assert(p.drop_first()[0] == Task1Msg::Ctrl(false, 1));
        assert(p.drop_first().drop_first() =~= rest);
        assert(ctrl_part(p) == ctrl_part(p.drop_first()));
        assert(ctrl_part(p.drop_first()) == seq![(false, 1usize)] + ctrl_part(rest));
        assert(data_part(p) == seq![s[0]] + data_part(p.drop_first()));
        assert(data_part(p.drop_first()) == data_part(rest));
        assert(ctrl_part(p) =~= seq![(false, 1usize)] + spec_unsized_ctrls(s.drop_first()));
        assert(data_part(p) =~= seq![s[0]] + s.drop_first());
        assert(s =~= seq![s[0]] + s.drop_first());
    }
}


proof fn lemma_drive_announced(acc: State, d: Seq<i32>)
    requires
        0 < d.len() <= usize::MAX,
        running_totals_fit(acc.val as int, d),
    ensures
        spec_drive(
            Task3Phase::AwaitData { acc, left: d.len() as usize, renew: true },
            seq![],
            seq![],
            d,
        ) == seq![State { val: (acc.val + sum(d)) as i32 }],
    decreases d.len(),
{
    let phase = Task3Phase::AwaitData { acc, left: d.len() as usize, renew: true };
    let acc2 = State { val: (acc.val + d[0]) as i32 };
    let rest = d.drop_first();
    assert(phase.spec_accepts(Task3Event::GotData(d[0])));
    if d.len() == 1 {
        assert(rest.len() == 0);
        assert(sum(rest) == 0);
        assert(phase.spec_step(Task3Event::GotData(d[0])) == (Task3Phase::AwaitState, Some(acc2)));
        assert(spec_drive(Task3Phase::AwaitState, seq![], seq![], rest) == Seq::<State>::empty());
        assert(spec_drive(phase, seq![], seq![], d) =~= seq![acc2] + Seq::<State>::empty());
    } else {
        let next = Task3Phase::AwaitData { acc: acc2, left: rest.len() as usize, renew: true };
        assert(phase.spec_step(Task3Event::GotData(d[0])) == (next, None::<State>));
        lemma_drive_announced(acc2, rest);
        assert(spec_drive(phase, seq![], seq![], d) =~= Seq::<State>::empty() + spec_drive(
            next,
            seq![],
            seq![],
            rest,
        ));
    }
}

proof fn lemma_drive_unsized(acc: State, d: Seq<i32>)
    requires
        running_totals_fit(acc.val as int, d),
    ensures
        spec_drive(Task3Phase::AwaitCtrl { acc }, seq![], spec_unsized_ctrls(d), d) == seq![
            State { val: (acc.val + sum(d)) as i32 },
        ],
    decreases d.len(),
{
    let phase = Task3Phase::AwaitCtrl { acc };
    let ctrls = spec_unsized_ctrls(d);
    if d.len() == 0 {
        assert(ctrls[0] == (true, 0usize));
        assert(ctrls.drop_first() =~= Seq::<(bool, usize)>::empty());
        assert(phase.spec_step(Task3Event::GotCtrl(true, 0)) == (Task3Phase::AwaitState, Some(acc)));
        assert(spec_drive(Task3Phase::AwaitState, seq![], ctrls.drop_first(), d) == Seq::<
            State,
        >::empty());
        assert(spec_drive(phase, seq![], ctrls, d) =~= seq![acc] + Seq::<State>::empty());
    } else {
        let rest = d.drop_first();
        let acc2 = State { val: (acc.val + d[0]) as i32 };
        let waiting = Task3Phase::AwaitData { acc, left: 1, renew: false };
        let after = Task3Phase::AwaitCtrl { acc: acc2 };
        assert(ctrls[0] == (false, 1usize));
        assert(ctrls.drop_first() =~= spec_unsized_ctrls(rest));
        assert(phase.spec_step(Task3Event::GotCtrl(false, 1)) == (waiting, None::<State>));
        assert(waiting.spec_accepts(Task3Event::GotData(d[0])));
        assert(waiting.spec_step(Task3Event::GotData(d[0])) == (after, None::<State>));
        lemma_drive_unsized(acc2, rest);
        assert(spec_drive(waiting, seq![], spec_unsized_ctrls(rest), d) =~= Seq::<State>::empty()
            + spec_drive(after, seq![], spec_unsized_ctrls(rest), rest));
        assert(spec_drive(phase, seq![], ctrls, d) =~= Seq::<State>::empty() + spec_drive(
            waiting,
            seq![],
            spec_unsized_ctrls(rest),
            d,
        ));
    }
}

/// The process network computes what the sequential computation computes.
///
/// Task 2 turns the start value `i` into an accumulator; task 1 sends the values
/// of a stream with its control messages, whether or not it knows the length of
/// the stream; task 3, reading its channels as its phases direct, sends on
/// exactly one accumulator, which holds `i` plus the sum of the stream; and task
/// 0 adds 5 to it, which is the sequential result. This holds whenever the
/// sequential computation does not overflow.
pub proof fn lemma_network_computes_sequential(i: i32, stream: Seq<i32>, has_size: bool)
    requires
        stream.len() <= usize::MAX,
        running_totals_fit(i as int, stream),
        i + sum(stream) + 5 <= i32::MAX,
    ensures
        ({
            let plan = spec_task_1_plan(stream, has_size);
            let out = spec_drive(
                Task3Phase::start_spec(),
                seq![State { val: i }],
                ctrl_part(plan),
                data_part(plan),
            );
            &&& out == seq![State { val: (i + sum(stream)) as i32 }]
            &&& out[0].val + 5 == sequential_result(i as int, stream)
        }),
{
    let plan = spec_task_1_plan(stream, has_size);
    let s0 = State { val: i };
    let start = Task3Phase::AwaitState;
    let first = Task3Phase::AwaitCtrl { acc: s0 };
    assert(start.spec_step(Task3Event::GotState(s0)) == (first, None::<State>));
    assert(seq![s0].drop_first() =~= Seq::<State>::empty());
    if stream.len() > 0 {
        lemma_running_totals_prefix(i as int, stream, stream.len() - 1);
        assert(stream.take(stream.len() as int) =~= stream);
    }
    if has_size {
        lemma_parts_of_sized_plan(stream);
        let n = stream.len() as usize;
        let ctrls = ctrl_part(plan);
        assert(ctrls.drop_first() =~= Seq::<(bool, usize)>::empty());
        if n > 0 {
            let waiting = Task3Phase::AwaitData { acc: s0, left: n, renew: true };
            assert(first.spec_step(Task3Event::GotCtrl(true, n)) == (waiting, None::<State>));
            lemma_drive_announced(s0, stream);
            assert(spec_drive(first, seq![], ctrls, stream) =~= Seq::<State>::empty() + spec_drive(
                waiting,
                seq![],
                seq![],
                stream,
            ));
        } else {
            assert(stream =~= Seq::<i32>::empty());
            assert(sum(stream) == 0);
            assert(first.spec_step(Task3Event::GotCtrl(true, n)) == (
                Task3Phase::AwaitState,
                Some(s0),
            ));
            assert(spec_drive(Task3Phase::AwaitState, seq![], seq![], stream) == Seq::<
                State,
            >::empty());
            assert(spec_drive(first, seq![], ctrls, stream) =~= seq![s0] + Seq::<State>::empty());
        }
        assert(spec_drive(start, seq![s0], ctrls, stream) =~= Seq::<State>::empty() + spec_drive(
            first,
            seq![],
            ctrls,
            stream,
        ));
    } else {
        lemma_parts_of_unsized_plan(stream);
        lemma_drive_unsized(s0, stream);
        assert(spec_drive(start, seq![s0], ctrl_part(plan), data_part(plan)) =~= Seq::<
            State,
        >::empty() + spec_drive(first, seq![], ctrl_part(plan), data_part(plan)));
    }
}


/// For the stream that the program uses, the network answers `i + 60`, which is
/// what `input_fun(i)` returns.
pub proof fn lemma_program_network_result(i: i32)
    requires
        i <= i32::MAX - 60,
    ensures
        ({
            let plan = spec_task_1_plan(spec_iter_i32(), true);
            let out = spec_drive(
                Task3Phase::start_spec(),
                seq![State { val: i }],
                ctrl_part(plan),
                data_part(plan),
            );
            &&& out == seq![State { val: (i + 55) as i32 }]
            &&& out[0].val + 5 == i + 60
            &&& out[0].val + 5 == sequential_result(i as int, spec_iter_i32())
        }),
{
    lemma_iter_i32_sum(i as int);
    lemma_network_computes_sequential(i, spec_iter_i32(), true);
}

} // verus!
