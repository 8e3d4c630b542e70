use vstd::prelude::*;
use vstd::string::StrSliceExecFns;

verus! {

/// The tasks of the process network.
#[derive(Copy, Clone, Debug, PartialEq, Eq, Structural)]
pub enum TaskId {
    Task0,
    Task1,
    Task2,
    Task3,
}

/// Whether two strings hold the same characters.
pub fn str_eq(a: &str, b: &str) -> (r: bool)
    ensures
        r == (a@ == b@),
{
    let n = a.unicode_len();
    if n != b.unicode_len() {
        return false;
    }
    let mut k: usize = 0;
    while k < n
        invariant
            n == a@.len() == b@.len(),
            k <= n,
            a@.take(k as int) =~= b@.take(k as int),
        decreases n - k,
    {
        if a.get_char(k) != b.get_char(k) {
            return false;
        }
        assert(a@.take(k + 1) =~= a@.take(k as int).push(a@[k as int]));
        assert(b@.take(k + 1) =~= b@.take(k as int).push(b@[k as int]));
        k = k + 1;
    }
    assert(a@ =~= a@.take(n as int));
    assert(b@ =~= b@.take(n as int));
    true
}

pub open spec fn spec_task_name(t: TaskId) -> Seq<char> {
    match t {
        TaskId::Task0 => "task_0"@,
        TaskId::Task1 => "task_1"@,
        TaskId::Task2 => "task_2"@,
        TaskId::Task3 => "task_3"@,
    }
}

/// The task that a name on the command line stands for.
pub open spec fn spec_task_from_name(name: Seq<char>) -> Option<TaskId> {
    if name == "task_0"@ {
        Some(TaskId::Task0)
    } else if name == "task_1"@ {
        Some(TaskId::Task1)
    } else if name == "task_2"@ {
        Some(TaskId::Task2)
    } else if name == "task_3"@ {
        Some(TaskId::Task3)
    } else {
        None
    }
}

/// The name by which a task is started.
pub fn task_name(t: TaskId) -> (r: &'static str)
    ensures
        r@ == spec_task_name(t),
{
    match t {
        TaskId::Task0 => "task_0",
        TaskId::Task1 => "task_1",
        TaskId::Task2 => "task_2",
        TaskId::Task3 => "task_3",
    }
}

/// The task that `name` stands for, if any.
pub fn task_from_name(name: &str) -> (r: Option<TaskId>)
    ensures
        r == spec_task_from_name(name@),
{
    if str_eq(name, "task_0") {
        Some(TaskId::Task0)
    } else if str_eq(name, "task_1") {
        Some(TaskId::Task1)
    } else if str_eq(name, "task_2") {
        Some(TaskId::Task2)
    } else if str_eq(name, "task_3") {
        Some(TaskId::Task3)
    } else {
        None
    }
}

/// A task started by its name is the task that the name stands for: a process
/// told to spawn it runs it.
pub proof fn lemma_task_name_roundtrip(t: TaskId)
    ensures
        spec_task_from_name(spec_task_name(t)) == Some(t),
        spec_dispatch(Some("spawn"@), Some(spec_task_name(t))) == Dispatch::Run(t),
{
    reveal_strlit("task_0");
    reveal_strlit("task_1");
    reveal_strlit("task_2");
    reveal_strlit("task_3");
    assert("task_1"@[5] != "task_0"@[5]);
    assert("task_2"@[5] != "task_0"@[5] && "task_2"@[5] != "task_1"@[5]);
    assert("task_3"@[5] != "task_0"@[5] && "task_3"@[5] != "task_1"@[5] && "task_3"@[5] != "task_2"@[5]);
}


/// The command line of a process of the network.
pub struct Args {
    /// `spawn` in a process that runs one task of the network.
    pub command: Option<String>,
    /// The name of the task to run.
    pub function: Option<String>,
    /// The descriptors of the channels that the task receives on.
    pub receive_channels: Vec<i32>,
    /// The descriptors of the channels that the task sends on.
    pub send_channels: Vec<i32>,
}

/// What a process does with its command line.
#[derive(Copy, Clone, Debug, PartialEq, Eq, Structural)]
pub enum Dispatch {
    /// Not a task process: go on as the main process.
    Continue,
    /// A task process without a task: exit.
    Exit,
    /// Run the task, then exit.
    Run(TaskId),
    /// A task name that no task has.
    UnknownTask,
}

pub open spec fn spec_dispatch(command: Option<Seq<char>>, function: Option<Seq<char>>) -> Dispatch {
    match command {
        None => Dispatch::Continue,
        Some(c) => if c != "spawn"@ {
            Dispatch::Continue
        } else {
            match function {
                None => Dispatch::Exit,
                Some(f) => match spec_task_from_name(f) {
                    Some(t) => Dispatch::Run(t),
                    None => Dispatch::UnknownTask,
                },
            }
        },
    }
}

pub open spec fn opt_view(s: Option<String>) -> Option<Seq<char>> {
    match s {
        Some(s) => Some(s@),
        None => None,
    }
}

/// Decides from the command line whether this process runs a task, and which.
pub fn try_dispatch(args: &Args) -> (r: Dispatch)
    ensures
        r == spec_dispatch(opt_view(args.command), opt_view(args.function)),
{
    let command = if let Some(command) = &args.command {
        command
    } else {
        return Dispatch::Continue;
    };
    if !str_eq(command.as_str(), "spawn") {
        return Dispatch::Continue;
    }
    if let Some(function) = &args.function {
        match task_from_name(function.as_str()) {
            Some(t) => Dispatch::Run(t),
            None => Dispatch::UnknownTask,
        }
    } else {
        Dispatch::Exit
    }
}

/// What a process does with its command line, case by case: without a command it
/// goes on as the main process, whatever task is named; with a command other than
/// `spawn` it also goes on as the main process; told to spawn without a task it
/// exits; told to spawn one of `task_0` to `task_3` it runs that task; told to
/// spawn any other name it reports an unknown task.
pub proof fn lemma_dispatch_cases(c: Seq<char>, f: Option<Seq<char>>, name: Seq<char>)
    ensures
        spec_dispatch(None, f) == Dispatch::Continue,
        c != "spawn"@ ==> spec_dispatch(Some(c), f) == Dispatch::Continue,
        spec_dispatch(Some("spawn"@), None) == Dispatch::Exit,
        spec_dispatch(Some("spawn"@), Some("task_0"@)) == Dispatch::Run(TaskId::Task0),
        spec_dispatch(Some("spawn"@), Some("task_1"@)) == Dispatch::Run(TaskId::Task1),
        spec_dispatch(Some("spawn"@), Some("task_2"@)) == Dispatch::Run(TaskId::Task2),
        spec_dispatch(Some("spawn"@), Some("task_3"@)) == Dispatch::Run(TaskId::Task3),
        (name != "task_0"@ && name != "task_1"@ && name != "task_2"@ && name != "task_3"@)
            ==> spec_dispatch(Some("spawn"@), Some(name)) == Dispatch::UnknownTask,
{
    lemma_task_name_roundtrip(TaskId::Task0);
    lemma_task_name_roundtrip(TaskId::Task1);
    lemma_task_name_roundtrip(TaskId::Task2);
    lemma_task_name_roundtrip(TaskId::Task3);
}

/// The pipes of the network.
#[derive(Copy, Clone, Debug, PartialEq, Eq, Structural)]
pub enum Pipe {
    /// The start value, from the main process to task 2.
    EnvI,
    /// The result, from task 0 to the main process.
    B00,
    /// The initial accumulator, from task 2 to task 3.
    S001,
    /// Control messages, from task 1 to task 3.
    Ctrl00,
    /// Data values, from task 1 to task 3.
    D1,
    /// The complete accumulator, from task 3 to task 0.
    S011,
}

/// A process of the network: the main process or one of the tasks.
#[derive(Copy, Clone, Debug, PartialEq, Eq, Structural)]
pub enum Endpoint {
    Main,
    Task(TaskId),
}

/// The process that writes into a pipe.
pub open spec fn spec_writer(p: Pipe) -> Endpoint {
    match p {
        Pipe::EnvI => Endpoint::Main,
        Pipe::B00 => Endpoint::Task(TaskId::Task0),
        Pipe::S001 => Endpoint::Task(TaskId::Task2),
        Pipe::Ctrl00 => Endpoint::Task(TaskId::Task1),
        Pipe::D1 => Endpoint::Task(TaskId::Task1),
        Pipe::S011 => Endpoint::Task(TaskId::Task3),
    }
}

/// The process that reads from a pipe.
pub open spec fn spec_reader(p: Pipe) -> Endpoint {
    match p {
        Pipe::EnvI => Endpoint::Task(TaskId::Task2),
        Pipe::B00 => Endpoint::Main,
        Pipe::S001 => Endpoint::Task(TaskId::Task3),
        Pipe::Ctrl00 => Endpoint::Task(TaskId::Task3),
        Pipe::D1 => Endpoint::Task(TaskId::Task3),
        Pipe::S011 => Endpoint::Task(TaskId::Task0),
    }
}

pub open spec fn spec_receive_pipes(t: TaskId) -> Seq<Pipe> {
    match t {
        TaskId::Task0 => seq![Pipe::S011],
        TaskId::Task1 => seq![],
        TaskId::Task2 => seq![Pipe::EnvI],
        TaskId::Task3 => seq![Pipe::S001, Pipe::Ctrl00, Pipe::D1],
    }
}

pub open spec fn spec_send_pipes(t: TaskId) -> Seq<Pipe> {
    match t {
        TaskId::Task0 => seq![Pipe::B00],
        TaskId::Task1 => seq![Pipe::Ctrl00, Pipe::D1],
        TaskId::Task2 => seq![Pipe::S001],
        TaskId::Task3 => seq![Pipe::S011],
    }
}

/// The pipes a task receives on, in the order of its receive descriptors.
pub fn receive_pipes(t: TaskId) -> (r: Vec<Pipe>)
    ensures
        r@ == spec_receive_pipes(t),
{
    match t {
        TaskId::Task0 => vec![Pipe::S011],
        TaskId::Task1 => vec![],
        TaskId::Task2 => vec![Pipe::EnvI],
        TaskId::Task3 => vec![Pipe::S001, Pipe::Ctrl00, Pipe::D1],
    }
}

/// The pipes a task sends on, in the order of its send descriptors.
pub fn send_pipes(t: TaskId) -> (r: Vec<Pipe>)
    ensures
        r@ == spec_send_pipes(t),
{
    match t {
        TaskId::Task0 => vec![Pipe::B00],
        TaskId::Task1 => vec![Pipe::Ctrl00, Pipe::D1],
        TaskId::Task2 => vec![Pipe::S001],
        TaskId::Task3 => vec![Pipe::S011],
    }
}

/// Every pipe joins two different processes: a task receives on a pipe exactly
/// when it is the pipe's reader, sends on it exactly when it is its writer, and
/// no process writes into a pipe it reads from.
pub proof fn lemma_pipes_point_to_point(p: Pipe, t: TaskId)
    ensures
        spec_receive_pipes(t).contains(p) <==> spec_reader(p) == Endpoint::Task(t),
        spec_send_pipes(t).contains(p) <==> spec_writer(p) == Endpoint::Task(t),
        spec_reader(p) != spec_writer(p),
{
    let rx = spec_receive_pipes(t);
    let tx = spec_send_pipes(t);
    if spec_reader(p) == Endpoint::Task(t) {
        match t {
            TaskId::Task0 => assert(rx[0] == p),
            TaskId::Task1 => {},
            TaskId::Task2 => assert(rx[0] == p),
            TaskId::Task3 => {
                assert(rx[0] == Pipe::S001 && rx[1] == Pipe::Ctrl00 && rx[2] == Pipe::D1);
            },
        }
    }
    if spec_writer(p) == Endpoint::Task(t) {
        match t {
            TaskId::Task1 => assert(tx[0] == Pipe::Ctrl00 && tx[1] == Pipe::D1),
            _ => assert(tx[0] == p),
        }
    }
}

} // verus!
