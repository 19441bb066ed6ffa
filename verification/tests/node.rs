use secure_channel::cli_state::{CliState, CliStateError, NodeInfo};
use secure_channel::command::node::{
    check_default, deletion_outcome, get_default_node_name, get_node_name,
    initialize_node_if_default,
    node_list_outputs, run_ockam, spawn_args, spawn_node, DefaultCommand, ListCommand,
    NodeCommand, NodeListOutput, NodeManagerDefaults, NodeOpts, NodeSubcommand, StartCommand,
};
use secure_channel::command::{
    CommandError, CommandGlobalOpts, Effect, GlobalArgs, LineKind, OutputLine,
};
use secure_channel::identity::Identifier;

fn node(name: &str, pid: Option<u32>, is_default: bool) -> NodeInfo {
    NodeInfo {
        name: name.into(),
        identifier: Identifier(vec![1, 2, 3]),
        verbosity: 2,
        is_authority_node: false,
        api_transport_address: Some("127.0.0.1:4000".into()),
        default_vault_name: "vault".into(),
        pid,
        is_default,
        stdout_log: format!("/s/nodes/{}/stdout.log", name),
        stderr_log: format!("/s/nodes/{}/stderr.log", name),
    }
}

fn options_with(nodes: Vec<NodeInfo>) -> CommandGlobalOpts {
    let mut state = CliState::new("/s");
    state.nodes = nodes;
    CommandGlobalOpts::new_for_test(GlobalArgs::default(), state)
}

fn texts(args: &[&str]) -> Vec<String> {
    args.iter().map(|arg| arg.to_string()).collect()
}

#[test]
fn node_list_entry_shows_process_and_default() {
    let up = NodeListOutput::new("n1".into(), Some(42), true);
    assert_eq!(up.node_name, "n1");
    assert_eq!(up.pid, Some(42));
    assert!(up.is_default);
    assert_eq!(up.output(), "Node n1 (default) UP\nProcess id 42");
    let down = NodeListOutput::new("n2".into(), None, false);
    assert_eq!(down.output(), "Node n2 DOWN\nNo process running");
}

#[test]
fn nodes_are_listed_in_order() {
    let mut opts = options_with(vec![node("n1", Some(7), false), node("n2", None, true)]);
    assert_eq!(
        node_list_outputs(&opts.state),
        vec![
            NodeListOutput::new("n1".into(), Some(7), false),
            NodeListOutput::new("n2".into(), None, true)
        ]
    );
    let command = NodeCommand { subcommand: NodeSubcommand::List(ListCommand {}) };
    assert_eq!(command.run(&mut opts, Identifier(vec![7])), Ok(()));
    let line = |plain: &str, machine: Option<&str>| OutputLine {
        kind: LineKind::Plain,
        plain: plain.into(),
        machine: machine.map(|m| m.to_string()),
    };
    assert_eq!(
        opts.terminal.lines,
        vec![
            line("Nodes", None),
            line("Node n1 UP\nProcess id 7", Some("n1")),
            line("Node n2 (default) DOWN\nNo process running", Some("n2")),
        ]
    );
}

#[test]
fn empty_list_says_so() {
    let mut opts = options_with(Vec::new());
    assert_eq!(ListCommand {}.run(&mut opts), Ok(()));
    assert_eq!(opts.terminal.lines.len(), 1);
    assert_eq!(opts.terminal.lines[0].plain, "No nodes found on this system.");
}

#[test]
fn node_becomes_the_only_default() {
    let mut opts = options_with(vec![node("n1", None, true), node("n2", None, false)]);
    let command =
        NodeCommand { subcommand: NodeSubcommand::Default(DefaultCommand { node_name: "n2".into() }) };
    assert_eq!(command.run(&mut opts, Identifier(vec![7])), Ok(()));
    assert!(opts.state.is_default_node("n2"));
    assert!(!opts.state.is_default_node("n1"));
    assert_eq!(opts.terminal.lines[0].kind, LineKind::Success);
    assert_eq!(opts.terminal.lines[0].plain, "The node 'n2' is now the default");
    assert_eq!(opts.terminal.lines[0].machine, Some("n2".to_string()));

    assert_eq!(
        DefaultCommand { node_name: "n2".into() }.run(&mut opts),
        Err(CommandError::Message("The node 'n2' is already the default".into()))
    );
    assert_eq!(
        DefaultCommand { node_name: "n3".into() }.run(&mut opts),
        Err(CommandError::State(CliStateError::ResourceNotFound {
            resource: "node".into(),
            name: "n3".into()
        }))
    );
    assert!(opts.state.is_default_node("n2"));
    assert_eq!(opts.terminal.lines.len(), 1);
}

#[test]
fn test_initialize_of_the_default_node() {
    let mut opts = options_with(vec![node("n1", None, true)]).set_quiet();
    assert!(opts.global_args.quiet);
    let identifier = || Identifier(vec![7, 7]);

    // on start-up there is no default node
    opts.state.delete_default_node();
    assert!(opts.state.get_default_node().is_err());

    // if no name is given then the default node is initialized
    assert!(initialize_node_if_default(&mut opts, &None, identifier()));
    assert!(opts.state.get_default_node().is_ok());
    assert_eq!(opts.state.get_default_node().unwrap().name(), "default");

    // if "default" is given as a name the default node is initialized
    opts.state.delete_default_node();
    assert!(initialize_node_if_default(&mut opts, &Some("default".into()), identifier()));
    assert!(opts.state.get_default_node().is_ok());

    // if the name of another node is given then the default node is not initialized
    opts.state.delete_default_node();
    assert!(!initialize_node_if_default(&mut opts, &Some("other".into()), identifier()));
    assert!(opts.state.get_default_node().is_err());

    // with a default node nothing is initialized
    assert!(opts.state.set_default_node("n1"));
    assert!(!initialize_node_if_default(&mut opts, &None, identifier()));
    assert!(!opts.state.set_default_node("missing"));
}

#[test]
fn created_default_node_is_stored_and_started() {
    let mut opts = options_with(Vec::new());
    assert!(initialize_node_if_default(&mut opts, &None, Identifier(vec![7, 7])));
    assert_eq!(
        opts.state.nodes,
        vec![NodeInfo {
            name: "default".into(),
            identifier: Identifier(vec![7, 7]),
            verbosity: 0,
            is_authority_node: false,
            api_transport_address: None,
            default_vault_name: "default".into(),
            pid: None,
            is_default: true,
            stdout_log: "/s/nodes/default/stdout.log".into(),
            stderr_log: "/s/nodes/default/stderr.log".into(),
        }]
    );
    assert_eq!(
        opts.effects,
        vec![Effect::Spawn {
            args: texts(&[
                "-vv",
                "node",
                "create",
                "--tcp-listener-address",
                "127.0.0.1:0",
                "--foreground",
                "--child-process",
                "--no-color",
                "default"
            ]),
            stdout_log: Some("/s/nodes/default/stdout.log".into()),
            stderr_log: Some("/s/nodes/default/stderr.log".into()),
        }]
    );
    assert_eq!(
        opts.parser_logs,
        texts(&[
            "There is no node, on this machine, marked as your default.",
            "Creating a new Ockam node for you...",
            "Created a new node named default",
            "Marked this node as your default, on this machine.\n",
        ])
    );
}

#[test]
fn node_called_default_becomes_the_default_instead_of_a_second_one() {
    let mut opts = options_with(vec![node("n1", None, false), node("default", None, false)]);
    assert!(initialize_node_if_default(&mut opts, &None, Identifier(vec![7, 7])));
    assert_eq!(opts.state.nodes.len(), 2);
    assert!(opts.state.is_default_node("default"));
    assert_eq!(opts.state.get_default_node().unwrap().identifier(), Identifier(vec![1, 2, 3]));
    assert_eq!(opts.effects.len(), 1);
}

#[test]
fn node_names_fall_back_to_the_default() {
    let state = options_with(vec![node("n1", None, false), node("n2", None, true)]).state;
    assert_eq!(get_default_node_name(&state), "n2");
    assert_eq!(get_node_name(&state, &None), "n2");
    assert_eq!(get_node_name(&state, &Some("n1".into())), "n1");
    assert_eq!(get_default_node_name(&CliState::new("/s")), "default");
    assert_eq!(state.get_nodes().len(), 2);
    assert_eq!(state.get_node("n1"), Ok(&node("n1", None, false)));
    let opts = options_with(vec![node("n1", None, false), node("n2", None, true)]);
    assert_eq!(check_default(&opts, "n2"), Ok(true));
    assert_eq!(check_default(&opts, "n1"), Ok(false));
    assert!(check_default(&opts, "n3").is_err());
    assert_eq!(NodeOpts { at_node: None }.at_node, None);
}

#[test]
fn spawn_arguments_follow_the_options() {
    assert_eq!(
        spawn_args(
            0, true, "n1", "127.0.0.1:4000", None, None, None, None, None, None, None, None,
            None, false
        ),
        texts(&[
            "-vv",
            "node",
            "create",
            "--tcp-listener-address",
            "127.0.0.1:4000",
            "--foreground",
            "--child-process",
            "n1"
        ])
    );
    let text = |value: &str| value.to_string();
    let (project, trusted, file, reload, launch, authority, credential, context, name) = (
        text("/p/project.json"),
        text("I1,I2"),
        text("/p/trusted.json"),
        text("/p/reload.json"),
        text("{}"),
        text("81a2"),
        text("cred"),
        text("/p/context.json"),
        text("default"),
    );
    assert_eq!(
        spawn_args(
            3,
            true,
            "n1",
            "addr",
            Some(&project),
            Some(&trusted),
            Some(&file),
            Some(&reload),
            Some(&launch),
            Some(&authority),
            Some(&credential),
            Some(&context),
            Some(&name),
            true
        ),
        texts(&[
            "-vvv",
            "node",
            "create",
            "--tcp-listener-address",
            "addr",
            "--foreground",
            "--child-process",
            "--no-color",
            "--project-path",
            "/p/project.json",
            "--launch-config",
            "{}",
            "--trusted-identities",
            "I1,I2",
            "--authority-identity",
            "81a2",
            "--credential",
            "cred",
            "--trust-context",
            "/p/context.json",
            "--project",
            "default",
            "n1"
        ])
    );
    // Without a terminal the colors go, and the file of trusted identities
    // counts only where the identities themselves are not given.
    assert_eq!(
        spawn_args(
            1, false, "n", "a", None, None, Some(&file), Some(&reload), None, None, None, None,
            None, false
        ),
        texts(&[
            "-v",
            "node",
            "create",
            "--tcp-listener-address",
            "a",
            "--foreground",
            "--child-process",
            "--no-color",
            "--trusted-identities-file",
            "/p/trusted.json",
            "n"
        ])
    );
    assert_eq!(
        spawn_args(
            1, true, "n", "a", None, None, None, Some(&reload), None, None, None, None, None,
            false
        )[7..],
        texts(&["--reload-from-trusted-identities-file", "/p/reload.json", "n"])[..]
    );
}

#[test]
fn spawning_records_the_process_to_start() {
    let mut opts = options_with(vec![node("n1", None, false)]);
    assert_eq!(
        spawn_node(
            &mut opts, "n1", "addr", None, None, None, None, None, None, None, None, None, true
        ),
        Ok(())
    );
    assert_eq!(
        opts.effects,
        vec![Effect::Spawn {
            args: texts(&[
                "-vv",
                "node",
                "create",
                "--tcp-listener-address",
                "addr",
                "--foreground",
                "--child-process",
                "--no-color",
                "n1"
            ]),
            stdout_log: Some("/s/nodes/n1/stdout.log".into()),
            stderr_log: Some("/s/nodes/n1/stderr.log".into()),
        }]
    );
    assert_eq!(run_ockam(&mut opts, "n1", texts(&["x"]), false), Ok(()));
    assert_eq!(
        opts.effects[1],
        Effect::Spawn { args: texts(&["x"]), stdout_log: None, stderr_log: None }
    );
    assert!(run_ockam(&mut opts, "n2", texts(&["x"]), false).is_err());
    assert_eq!(opts.effects.len(), 2);
}

#[test]
fn stopped_node_is_restarted() {
    let mut opts = options_with(vec![node("n1", None, true)]);
    opts.terminal.is_tty = true;
    let command = NodeCommand {
        subcommand: NodeSubcommand::Start(StartCommand { node_name: None, aws_kms: false }),
    };
    assert_eq!(command.run(&mut opts, Identifier(vec![7])), Ok(()));
    assert_eq!(opts.global_args.verbose, 2);
    assert!(opts.terminal.lines.is_empty());
    assert_eq!(
        opts.effects,
        vec![
            Effect::KillNode { node_name: "n1".into(), force: false },
            Effect::Spawn {
                args: texts(&[
                    "-vv",
                    "node",
                    "create",
                    "--tcp-listener-address",
                    "127.0.0.1:4000",
                    "--foreground",
                    "--child-process",
                    "--no-color",
                    "n1"
                ]),
                stdout_log: Some("/s/nodes/n1/stdout.log".into()),
                stderr_log: Some("/s/nodes/n1/stderr.log".into()),
            },
            Effect::ShowNodeStatus { node_name: "n1".into(), is_default: true },
        ]
    );
}

#[test]
fn running_node_is_left_alone() {
    let mut opts = options_with(vec![node("n1", Some(9), false)]);
    let command = StartCommand { node_name: Some("n1".into()), aws_kms: false };
    assert_eq!(command.run(&mut opts, Identifier(vec![7])), Ok(()));
    assert!(opts.effects.is_empty());
    assert_eq!(opts.terminal.lines.len(), 1);
    assert_eq!(opts.terminal.lines[0].kind, LineKind::Failure);
    assert_eq!(
        opts.terminal.lines[0].plain,
        "The node 'n1' is already running. If you want to restart it you can call `ockam node stop n1` and then `ockam node start n1`"
    );
}

#[test]
fn starting_an_unknown_node_fails() {
    let mut opts = options_with(vec![node("n1", None, true)]);
    let result = StartCommand { node_name: Some("n9".into()), aws_kms: false }
        .run(&mut opts, Identifier(vec![7]));
    assert_eq!(
        result,
        Err(CommandError::State(CliStateError::ResourceNotFound {
            resource: "node".into(),
            name: "n9".into()
        }))
    );
    assert!(opts.parser_logs.is_empty());
    assert!(opts.effects.is_empty());
}

fn default_node_start() -> Effect {
    Effect::Spawn {
        args: texts(&[
            "-vv",
            "node",
            "create",
            "--tcp-listener-address",
            "127.0.0.1:0",
            "--foreground",
            "--child-process",
            "--no-color",
            "default",
        ]),
        stdout_log: Some("/s/nodes/default/stdout.log".into()),
        stderr_log: Some("/s/nodes/default/stderr.log".into()),
    }
}

#[test]
fn starting_the_default_node_creates_it_and_goes_on() {
    let mut opts = options_with(vec![node("n1", None, false)]);
    let result =
        StartCommand { node_name: None, aws_kms: false }.run(&mut opts, Identifier(vec![7]));
    assert_eq!(result, Ok(()));
    assert_eq!(opts.state.get_default_node().unwrap().name(), "default");
    assert_eq!(opts.state.nodes.len(), 2);
    assert_eq!(opts.parser_logs.len(), 4);
    // The node was created, and as it does not run yet it is restarted.
    assert_eq!(
        opts.effects,
        vec![
            default_node_start(),
            Effect::KillNode { node_name: "default".into(), force: false },
            Effect::Spawn {
                args: texts(&[
                    "-vv",
                    "node",
                    "create",
                    "--tcp-listener-address",
                    "no transport address",
                    "--foreground",
                    "--child-process",
                    "--no-color",
                    "default",
                ]),
                stdout_log: Some("/s/nodes/default/stdout.log".into()),
                stderr_log: Some("/s/nodes/default/stderr.log".into()),
            },
            Effect::ShowNodeStatus { node_name: "default".into(), is_default: true },
        ]
    );
    assert!(opts.terminal.lines.is_empty());
}

#[test]
fn node_called_default_that_is_not_marked_is_marked_and_restarted() {
    let mut opts = options_with(vec![node("default", None, false)]);
    let command = StartCommand { node_name: Some("default".into()), aws_kms: false };
    assert_eq!(command.run(&mut opts, Identifier(vec![7])), Ok(()));
    assert!(opts.state.is_default_node("default"));
    assert_eq!(opts.global_args.verbose, 2);
    assert_eq!(opts.effects.len(), 4);
    assert_eq!(opts.effects[1], Effect::KillNode { node_name: "default".into(), force: false });
    assert_eq!(
        opts.effects[2],
        Effect::Spawn {
            args: texts(&[
                "-vv",
                "node",
                "create",
                "--tcp-listener-address",
                "127.0.0.1:4000",
                "--foreground",
                "--child-process",
                "--no-color",
                "default",
            ]),
            stdout_log: Some("/s/nodes/default/stdout.log".into()),
            stderr_log: Some("/s/nodes/default/stderr.log".into()),
        }
    );
    assert_eq!(
        opts.effects[3],
        Effect::ShowNodeStatus { node_name: "default".into(), is_default: true }
    );
}

#[test]
fn node_called_default_that_runs_is_marked_and_told_that_it_runs() {
    let mut opts = options_with(vec![node("default", Some(5), false)]);
    let command = StartCommand { node_name: None, aws_kms: false };
    assert_eq!(command.run(&mut opts, Identifier(vec![7])), Ok(()));
    assert!(opts.state.is_default_node("default"));
    assert_eq!(opts.effects.len(), 1);
    assert_eq!(opts.terminal.lines.len(), 1);
    assert_eq!(opts.terminal.lines[0].kind, LineKind::Failure);
    assert_eq!(
        opts.terminal.lines[0].plain,
        "The node 'default' is already running. If you want to restart it you can call `ockam node stop default` and then `ockam node start default`"
    );
}

#[test]
fn failed_stops_are_listed() {
    let outcome = |name: &str, error: Option<&str>| (name.to_string(), error.map(|e| e.to_string()));
    assert_eq!(deletion_outcome(&Vec::new()), Ok(()));
    assert_eq!(deletion_outcome(&vec![outcome("n1", None), outcome("n2", None)]), Ok(()));
    assert_eq!(
        deletion_outcome(&vec![outcome("n1", Some("busy")), outcome("n2", None)]),
        Err(CommandError::Message("errors while deleting nodes: [(\"n1\", busy)]".into()))
    );
    assert_eq!(
        deletion_outcome(&vec![
            outcome("n1", Some("busy")),
            outcome("n2", None),
            outcome("n3", Some("gone"))
        ]),
        Err(CommandError::Message(
            "errors while deleting nodes: [(\"n1\", busy), (\"n3\", gone)]".into()
        ))
    );
}

#[test]
fn node_manager_defaults_have_a_random_hex_name() {
    let defaults = NodeManagerDefaults::default();
    assert_eq!(defaults.node_name.len(), 8);
    assert!(defaults.node_name.chars().all(|c| "0123456789abcdef".contains(c)));
    assert_eq!(defaults.tcp_listener_address, "127.0.0.1:0");
    assert_eq!(defaults.trust_context_opts.trust_context, None);
    assert_eq!(defaults.trust_context_opts.project, None);
}
