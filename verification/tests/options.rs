use lsp_muxd::options::{MissingInstanceId, Options};

fn args(list: &[&str]) -> Vec<String> {
    list.iter().map(|text| text.to_string()).collect()
}

#[test]
fn the_command_and_its_arguments_are_read() {
    let options = Options::from_args(&args(&["clangd", "--log", "verbose"])).unwrap();
    assert_eq!(options.instance_id, None);
    assert_eq!(options.server_command, "clangd");
    assert_eq!(options.server_args, args(&["--log", "verbose"]));
    assert_eq!(options.socket_path(), "/tmp/lsp-multiplexer.sock");
}

#[test]
fn the_instance_id_names_the_socket() {
    let options = Options::from_args(&args(&["--instance-id", "work", "clangd"])).unwrap();
    assert_eq!(options.instance_id, Some("work".to_string()));
    assert_eq!(options.server_command, "clangd");
    assert_eq!(options.server_args, args(&[]));
    assert_eq!(options.socket_path(), "/tmp/lsp-multiplexer-work.sock");
}

#[test]
fn rust_analyzer_is_run_where_no_command_is_given() {
    let options = Options::from_args(&args(&[])).unwrap();
    assert_eq!(options.server_command, "rust-analyzer");
    assert_eq!(options.server_args, args(&[]));
    let options = Options::from_args(&args(&["--instance-id", "x"])).unwrap();
    assert_eq!(options.server_command, "rust-analyzer");
    assert_eq!(options.instance_id, Some("x".to_string()));
}

#[test]
fn the_flag_needs_an_id() {
    assert_eq!(
        Options::from_args(&args(&["--instance-id"])).err(),
        Some(MissingInstanceId)
    );
}

#[test]
fn behind_the_command_the_flag_is_an_argument() {
    let options = Options::from_args(&args(&["clangd", "--instance-id"])).unwrap();
    assert_eq!(options.instance_id, None);
    assert_eq!(options.server_args, args(&["--instance-id"]));
}

#[test]
fn instances_have_sockets_of_their_own() {
    let paths: Vec<String> = [&["c"][..], &["--instance-id", "a"][..], &["--instance-id", ""][..]]
        .iter()
        .map(|list| Options::from_args(&args(list)).unwrap().socket_path())
        .collect();
    assert_ne!(paths[0], paths[1]);
    assert_ne!(paths[0], paths[2]);
    assert_ne!(paths[1], paths[2]);
}
