use pipe_dataflow::network::{
    receive_pipes, send_pipes, str_eq, task_from_name, task_name, try_dispatch, Args, Dispatch,
    Pipe, TaskId,
};

fn args(command: Option<&str>, function: Option<&str>) -> Args {
    Args {
        command: command.map(|s| s.to_string()),
        function: function.map(|s| s.to_string()),
        receive_channels: vec![],
        send_channels: vec![],
    }
}

#[test]
fn str_eq_compares_characters() {
    assert!(str_eq("spawn", "spawn"));
    assert!(!str_eq("spawn", "spawm"));
    assert!(!str_eq("spawn", "spaw"));
    assert!(str_eq("", ""));
    assert!(str_eq("ä€", "ä€"));
}

#[test]
fn task_names_round_trip() {
    for t in [TaskId::Task0, TaskId::Task1, TaskId::Task2, TaskId::Task3] {
        assert_eq!(task_from_name(task_name(t)), Some(t));
    }
    assert_eq!(task_name(TaskId::Task2), "task_2");
    assert_eq!(task_from_name("task_4"), None);
    assert_eq!(task_from_name("task_"), None);
}

#[test]
fn dispatch_decisions() {
    assert_eq!(try_dispatch(&args(None, Some("task_0"))), Dispatch::Continue);
    assert_eq!(try_dispatch(&args(Some("run"), Some("task_0"))), Dispatch::Continue);
    assert_eq!(try_dispatch(&args(Some("spawn"), None)), Dispatch::Exit);
    assert_eq!(try_dispatch(&args(Some("spawn"), Some("task_3"))), Dispatch::Run(TaskId::Task3));
    assert_eq!(try_dispatch(&args(Some("spawn"), Some("task_9"))), Dispatch::UnknownTask);
}

#[test]
fn network_wiring() {
    assert_eq!(receive_pipes(TaskId::Task0), vec![Pipe::S011]);
    assert_eq!(send_pipes(TaskId::Task0), vec![Pipe::B00]);
    assert_eq!(receive_pipes(TaskId::Task1), vec![]);
    assert_eq!(send_pipes(TaskId::Task1), vec![Pipe::Ctrl00, Pipe::D1]);
    assert_eq!(receive_pipes(TaskId::Task2), vec![Pipe::EnvI]);
    assert_eq!(send_pipes(TaskId::Task2), vec![Pipe::S001]);
    assert_eq!(receive_pipes(TaskId::Task3), vec![Pipe::S001, Pipe::Ctrl00, Pipe::D1]);
    assert_eq!(send_pipes(TaskId::Task3), vec![Pipe::S011]);
}

#[test]
fn every_pipe_has_one_task_reader_or_writer_each() {
    let tasks = [TaskId::Task0, TaskId::Task1, TaskId::Task2, TaskId::Task3];
    for p in [Pipe::EnvI, Pipe::B00, Pipe::S001, Pipe::Ctrl00, Pipe::D1, Pipe::S011] {
        let readers = tasks.iter().filter(|t| receive_pipes(**t).contains(&p)).count();
        let writers = tasks.iter().filter(|t| send_pipes(**t).contains(&p)).count();
        let main_side = matches!(p, Pipe::EnvI | Pipe::B00);
        assert_eq!(readers + writers, if main_side { 1 } else { 2 });
    }
}
