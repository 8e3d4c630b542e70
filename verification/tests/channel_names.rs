use pipe_dataflow::channel_names::{get_channel_name_arg, spawn_args};

fn strings(v: &[&str]) -> Vec<String> {
    v.iter().map(|s| s.to_string()).collect()
}

#[test]
fn spawn_args_name_each_channel() {
    let pairs = vec![("server".to_string(), "abc".to_string()), ("x".to_string(), "".to_string())];
    assert_eq!(
        spawn_args("cross_process_spawn", &pairs),
        strings(&["cross_process_spawn", "channel_name-server:abc", "channel_name-x:"])
    );
}

#[test]
fn child_finds_the_channel_it_was_handed() {
    let pairs = vec![("server".to_string(), "/tmp/sock-1".to_string())];
    let mut args = strings(&["/proc/self/exe"]);
    args.extend(spawn_args("cross_process_spawn", &pairs));
    assert_eq!(get_channel_name_arg(&args, "server"), Some("/tmp/sock-1".to_string()));
    assert_eq!(get_channel_name_arg(&args, "client"), None);
}

#[test]
fn first_matching_argument_wins() {
    let args = strings(&["prog", "channel_name-a:one", "channel_name-a:two", "channel_name-ab:3"]);
    assert_eq!(get_channel_name_arg(&args, "a"), Some("one".to_string()));
    assert_eq!(get_channel_name_arg(&args, "ab"), Some("3".to_string()));
    assert_eq!(get_channel_name_arg(&vec![], "a"), None);
}
