use pipe_dataflow::funs::State;
use pipe_dataflow::tasks::{
    task_0_step, task_1_messages, task_1_plan, task_3_step, Inbox, Task1Msg, Task3Event,
    Task3Phase,
};

/// Runs task 3 over queued channel contents as the process does: it reads the
/// channel its phase names until that channel is empty.
fn run_task_3(states: Vec<State>, ctrls: Vec<(bool, usize)>, data: Vec<i32>) -> Vec<State> {
    let (mut si, mut ci, mut di) = (0, 0, 0);
    let mut phase = Task3Phase::start();
    let mut out = Vec::new();
    loop {
        let event = match phase.inbox() {
            Inbox::StateIn => {
                if si == states.len() {
                    break;
                }
                si += 1;
                Task3Event::GotState(states[si - 1])
            }
            Inbox::CtrlIn => {
                if ci == ctrls.len() {
                    break;
                }
                ci += 1;
                Task3Event::GotCtrl(ctrls[ci - 1].0, ctrls[ci - 1].1)
            }
            Inbox::DataIn => {
                if di == data.len() {
                    break;
                }
                di += 1;
                Task3Event::GotData(data[di - 1])
            }
        };
        if !phase.accepts(&event) {
            break;
        }
        let (next, sent) = task_3_step(phase, event);
        if let Some(s) = sent {
            out.push(s);
        }
        phase = next;
    }
    out
}

fn split(plan: &[Task1Msg]) -> (Vec<(bool, usize)>, Vec<i32>) {
    let mut ctrls = Vec::new();
    let mut data = Vec::new();
    for m in plan {
        match *m {
            Task1Msg::Ctrl(r, n) => ctrls.push((r, n)),
            Task1Msg::Data(d) => data.push(d),
        }
    }
    (ctrls, data)
}

#[test]
fn task_0_adds_five() {
    assert_eq!(task_0_step(State::new(97)), 102);
    assert_eq!(task_0_step(State::new(-5)), 0);
}

#[test]
fn task_1_plan_with_known_length() {
    let plan = task_1_plan(&vec![4, 5, 6], true);
    assert_eq!(
        plan,
        vec![Task1Msg::Ctrl(true, 3), Task1Msg::Data(4), Task1Msg::Data(5), Task1Msg::Data(6)]
    );
    assert_eq!(task_1_plan(&vec![], true), vec![Task1Msg::Ctrl(true, 0)]);
}

#[test]
fn task_1_plan_without_known_length() {
    let plan = task_1_plan(&vec![4, 5], false);
    assert_eq!(
        plan,
        vec![
            Task1Msg::Data(4),
            Task1Msg::Ctrl(false, 1),
            Task1Msg::Data(5),
            Task1Msg::Ctrl(false, 1),
            Task1Msg::Ctrl(true, 0),
        ]
    );
    assert_eq!(task_1_plan(&vec![], false), vec![Task1Msg::Ctrl(true, 0)]);
}

#[test]
fn task_1_announces_the_whole_stream() {
    let plan = task_1_messages();
    let mut expected = vec![Task1Msg::Ctrl(true, 10)];
    for d in 1..11 {
        expected.push(Task1Msg::Data(d));
    }
    assert_eq!(plan, expected);
}

#[test]
fn task_3_steps_through_a_round() {
    let p0 = Task3Phase::start();
    assert_eq!(p0, Task3Phase::AwaitState);
    assert_eq!(p0.inbox(), Inbox::StateIn);
    let (p1, o1) = task_3_step(p0, Task3Event::GotState(State::new(42)));
    assert_eq!(p1, Task3Phase::AwaitCtrl { acc: State::new(42) });
    assert_eq!(o1, None);
    assert_eq!(p1.inbox(), Inbox::CtrlIn);
    let (p2, _) = task_3_step(p1, Task3Event::GotCtrl(false, 2));
    assert_eq!(p2, Task3Phase::AwaitData { acc: State::new(42), left: 2, renew: false });
    assert_eq!(p2.inbox(), Inbox::DataIn);
    let (p3, _) = task_3_step(p2, Task3Event::GotData(1));
    let (p4, o4) = task_3_step(p3, Task3Event::GotData(2));
    assert_eq!(p4, Task3Phase::AwaitCtrl { acc: State::new(45) });
    assert_eq!(o4, None);
    let (p5, o5) = task_3_step(p4, Task3Event::GotCtrl(true, 0));
    assert_eq!(p5, Task3Phase::AwaitState);
    assert_eq!(o5, Some(State::new(45)));
}

#[test]
fn task_3_refuses_overflow_and_wrong_channel() {
    let p = Task3Phase::AwaitData { acc: State::new(i32::MAX), left: 1, renew: true };
    assert!(!p.accepts(&Task3Event::GotData(1)));
    assert!(p.accepts(&Task3Event::GotData(-1)));
    assert!(!p.accepts(&Task3Event::GotState(State::new(0))));
    assert!(Task3Phase::AwaitState.accepts(&Task3Event::GotState(State::new(0))));
    assert!(!Task3Phase::AwaitState.accepts(&Task3Event::GotCtrl(true, 0)));
}

#[test]
fn network_matches_sequential_result() {
    for has_size in [true, false] {
        let plan = task_1_plan(&(1..11).collect(), has_size);
        let (ctrls, data) = split(&plan);
        let out = run_task_3(vec![State::new_state(42)], ctrls, data);
        assert_eq!(out, vec![State::new(97)]);
        assert_eq!(task_0_step(out[0]), 102);
    }
    let (ctrls, data) = split(&task_1_messages());
    let out = run_task_3(vec![State::new_state(42)], ctrls, data);
    assert_eq!(task_0_step(out[0]), pipe_dataflow::tasks::input_fun(42));
}

#[test]
fn network_on_an_empty_stream_passes_the_start_on() {
    for has_size in [true, false] {
        let (ctrls, data) = split(&task_1_plan(&vec![], has_size));
        assert_eq!(run_task_3(vec![State::new(8)], ctrls, data), vec![State::new(8)]);
    }
}
