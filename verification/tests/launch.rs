use pipe_dataflow::launch::{decimal, launch_plan, FdMap, PipeFds};

#[test]
fn decimal_writes_like_format() {
    for n in [0i32, 7, 10, 42, 99, 100, 1234567, -1, -7, -10, i32::MAX, i32::MIN] {
        assert_eq!(decimal(n), format!("{}", n));
    }
}

#[test]
fn launch_plan_names_and_maps_the_pipes() {
    let rx = vec![PipeFds { read_fd: 3, write_fd: 4 }, PipeFds { read_fd: 5, write_fd: 6 }];
    let tx = vec![PipeFds { read_fd: 7, write_fd: 8 }];
    let plan = launch_plan("task_3", &rx, &tx);
    assert_eq!(
        plan.args,
        vec!["--command", "spawn", "--function", "task_3", "-R", "4", "-R", "6", "-S", "7"]
    );
    assert_eq!(
        plan.fd_mappings,
        vec![
            FdMap { parent_fd: 3, child_fd: 4 },
            FdMap { parent_fd: 5, child_fd: 6 },
            FdMap { parent_fd: 8, child_fd: 7 },
        ]
    );
}

#[test]
fn launch_plan_without_pipes() {
    let plan = launch_plan("task_1", &vec![], &vec![]);
    assert_eq!(plan.args, vec!["--command", "spawn", "--function", "task_1"]);
    assert!(plan.fd_mappings.is_empty());
}
