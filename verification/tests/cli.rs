use secure_channel::cli_state::{
    CliState, CliStateError, Enrollment, IdentityEnrollment, NodeInfo, Removal,
};
use secure_channel::command::identity::{
    initialize_identity_if_default, DefaultCommand, EncodeFormat, IdentityCommand,
    IdentitySubcommand, ShowCommand,
};
use secure_channel::command::status::{
    get_identities_details, NodeDetails, OrchestratorVersionInfo, StatusCommand, StatusData,
};
use secure_channel::command::{CommandError, CommandGlobalOpts, GlobalArgs, LineKind};
use secure_channel::identity::{verify_change_history, Change, ChangeHistory, Identifier, Identity};
use secure_channel::migration::{all_migrations, FromSql, TimestampInSeconds};
use secure_channel::model_state::{
    load, parse_worker_address, ModelState, ModelStateError, ParsedRow, SocketAddress,
    TcpOutletRow, WorkerAddress,
};
use secure_channel::model_vault::ModelVault;
use secure_channel::text::{decimal, join_path, name_or_hex, random_name, verbosity_flag};
use secure_channel::vault::XXVault;

fn identity_of(signing_key: &[u8]) -> Identity {
    let vault = ModelVault;
    let mut change = Change {
        previous_change: None,
        public_key: vault.verifying_key(signing_key),
        signature: Vec::new(),
        previous_signature: None,
    };
    change.signature = vault.sign(signing_key, &change.hash(&vault));
    verify_change_history(&vault, ChangeHistory(vec![change])).unwrap()
}

fn test_options() -> CommandGlobalOpts {
    CommandGlobalOpts::new_for_test(GlobalArgs::default(), CliState::test("/home/user"))
}

fn hex(bytes: &[u8]) -> String {
    bytes.iter().map(|byte| format!("{:02x}", byte)).collect()
}

#[test]
fn mod_test_initialize() {
    let state = CliState::test("/home/user");
    let mut opts = CommandGlobalOpts::new_for_test(GlobalArgs::default(), state);

    // on start-up there is no default identity
    assert!(opts.state.get_default_identity_name().is_err());

    // if no name is given then the default identity is initialized
    assert!(initialize_identity_if_default(&mut opts, &None, identity_of(b"one")));
    assert!(opts.state.get_default_identity_name().is_ok());

    // if "default" is given as a name the default identity is initialized
    opts.state.identities.clear();
    assert!(initialize_identity_if_default(
        &mut opts,
        &Some("default".into()),
        identity_of(b"two")
    ));
    assert!(opts.state.get_default_identity_name().is_ok());

    // if the name of another identity is given then the default identity is not initialized
    opts.state.identities.clear();
    assert!(!initialize_identity_if_default(
        &mut opts,
        &Some("other".into()),
        identity_of(b"three")
    ));
    assert!(opts.state.get_default_identity_name().is_err());
}

#[test]
fn default_identity_is_made_once() {
    let mut opts = test_options();
    assert!(initialize_identity_if_default(&mut opts, &None, identity_of(b"one")));
    assert_eq!(opts.parser_logs.len(), 4);
    assert_eq!(
        opts.parser_logs[0],
        "There is no identity, on this machine, marked as your default."
    );
    assert_eq!(opts.state.identities.len(), 1);
    assert_eq!(opts.state.identities[0].name(), "default");
    assert!(opts.state.identities[0].is_default());
    assert_eq!(opts.state.identities[0].identifier(), *identity_of(b"one").identifier());
    assert!(!initialize_identity_if_default(&mut opts, &None, identity_of(b"two")));
    assert_eq!(opts.state.identities.len(), 1);
    assert_eq!(opts.parser_logs.len(), 4);
}

#[test]
fn database_path_is_below_the_state_directory() {
    assert_eq!(
        CliState::new("/home/user/.ockam").database_path(),
        "/home/user/.ockam/database.sqlite3"
    );
    assert_eq!(CliState::new("/").database_path(), "/database.sqlite3");
    assert_eq!(CliState::new("").database_path(), "database.sqlite3");
    assert_eq!(CliState::defaults_dir("state/"), "state/defaults");
    assert_eq!(CliState::new("/s").stdout_logs("n1"), "/s/nodes/n1/stdout.log");
}

#[test]
fn paths_join_with_one_separator() {
    assert_eq!(join_path("a", "b"), "a/b");
    assert_eq!(join_path("a/", "b"), "a/b");
    assert_eq!(join_path("", "b"), "b");
    assert_eq!(join_path("/", ""), "/");
    assert_eq!(join_path("é", "ü"), "é/ü");
}

#[test]
fn test_state_lives_below_the_tests_directory() {
    assert_eq!(CliState::test_dir_named("/home/user", "fast-fox"), "/home/user/.ockam/.tests/fast-fox");
    let state = CliState::test("/home/user");
    let name = state.dir.strip_prefix("/home/user/.ockam/.tests/").unwrap();
    assert!(!name.is_empty());
    assert!(!name.contains('/'));
    assert!(state.identities.is_empty());
    assert!(state.nodes.is_empty());
    assert!(CliState::test_dir("/home/user").starts_with("/home/user/.ockam/.tests/"));
}

#[test]
fn deleting_the_state_removes_every_directory_of_it() {
    let expected = vec![
        Removal::DirectoryTree("/s/nodes".into()),
        Removal::DirectoryTree("/s/vaults".into()),
        Removal::DirectoryTree("/s/spaces".into()),
        Removal::DirectoryTree("/s/projects".into()),
        Removal::DirectoryTree("/s/credentials".into()),
        Removal::DirectoryTree("/s/trust_contexts".into()),
        Removal::DirectoryTree("/s/users_info".into()),
        Removal::DirectoryTree("/s/defaults".into()),
        Removal::File("/s/config.json".into()),
        Removal::DirectoryIfEmpty("/s".into()),
    ];
    assert_eq!(CliState::delete_at("/s"), expected);
    assert_eq!(CliState::delete("/s"), expected);
}

#[test]
fn hex_names_have_two_digits_per_byte() {
    assert_eq!(name_or_hex(None, &[1, 2, 3, 15, 16]), "0102030f10");
    assert_eq!(name_or_hex(None, &[0x00, 0xff, 0xa9]), "00ffa9");
    assert_eq!(name_or_hex(None, &[]), "");
    assert_eq!(name_or_hex(Some("fast-fox".into()), &[1, 2]), "fast-fox");
}

#[test]
fn random_names_are_not_empty() {
    let name = random_name();
    assert!(!name.is_empty());
}

#[test]
fn numbers_are_written_in_decimal() {
    assert_eq!(decimal(0), "0");
    assert_eq!(decimal(9), "9");
    assert_eq!(decimal(10), "10");
    assert_eq!(decimal(4096), "4096");
    assert_eq!(decimal(u32::MAX), "4294967295");
}

#[test]
fn verbosity_flag_counts_the_level() {
    assert_eq!(verbosity_flag(0), "-vv");
    assert_eq!(verbosity_flag(1), "-v");
    assert_eq!(verbosity_flag(3), "-vvv");
}

#[test]
fn identity_becomes_the_default_once() {
    let mut opts = test_options();
    opts.state.store_named_identity("alice", identity_of(b"alice"), false);
    opts.state.store_named_identity("bob", identity_of(b"bob"), true);

    assert!(!opts.state.is_default_identity_by_name("alice"));
    let command = IdentityCommand {
        subcommand: IdentitySubcommand::Default(DefaultCommand { name: "alice".into() }),
    };
    assert_eq!(command.run(&mut opts), Ok(()));
    assert!(opts.state.is_default_identity_by_name("alice"));
    // The mark of the others stays.
    assert!(opts.state.is_default_identity_by_name("bob"));
    assert_eq!(opts.terminal.lines.len(), 1);
    assert_eq!(opts.terminal.lines[0].kind, LineKind::Success);
    assert_eq!(opts.terminal.lines[0].plain, "The identity 'alice' is now the default");
    assert_eq!(opts.terminal.lines[0].machine, Some("alice".to_string()));

    let again = DefaultCommand { name: "alice".into() }.run(&mut opts);
    assert_eq!(
        again,
        Err(CommandError::Message("The identity 'alice' is already the default".into()))
    );
    assert_eq!(opts.terminal.lines.len(), 1);
}

#[test]
fn identity_is_shown_as_asked() {
    let mut opts = test_options();
    let alice = identity_of(b"alice");
    opts.state.store_named_identity("alice", alice.clone(), false);
    let identifier = format!("I{}", hex(&alice.identifier().0));

    let show = |name: Option<&str>, full: bool, encoding: Option<EncodeFormat>| ShowCommand {
        name: name.map(|n| n.to_string()),
        full,
        encoding,
    };
    assert_eq!(show(Some("alice"), false, None).run(&mut opts), Ok(()));
    assert_eq!(opts.terminal.lines[0].plain, identifier);
    assert_eq!(opts.terminal.lines[0].kind, LineKind::Plain);
    assert_eq!(opts.terminal.lines[0].machine, None);

    let mut exported = 1u64.to_le_bytes().to_vec();
    let change = &alice.change_history().0[0];
    exported.push(0);
    exported.extend_from_slice(&(change.public_key.len() as u64).to_le_bytes());
    exported.extend_from_slice(&change.public_key);
    exported.extend_from_slice(&(change.signature.len() as u64).to_le_bytes());
    exported.extend_from_slice(&change.signature);
    exported.push(0);
    assert_eq!(show(Some("alice"), true, Some(EncodeFormat::Hex)).run(&mut opts), Ok(()));
    assert_eq!(opts.terminal.lines[1].plain, hex(&exported));

    assert_eq!(show(Some("alice"), true, Some(EncodeFormat::Plain)).run(&mut opts), Ok(()));
    assert_eq!(
        opts.terminal.lines[2].plain,
        format!("Identifier: {}\nChange history: {}", identifier, hex(&exported))
    );

    // No identity is the default, and nobody is called bob.
    assert_eq!(
        show(None, false, None).run(&mut opts),
        Err(CommandError::State(CliStateError::NotFound("no default identifier found".into())))
    );
    assert_eq!(
        show(Some("bob"), false, None).run(&mut opts),
        Err(CommandError::State(CliStateError::NotFound(
            "no identifier found with name bob".into()
        )))
    );
    assert_eq!(opts.terminal.lines.len(), 3);
}

#[test]
fn identity_names_fall_back_to_the_default() {
    let mut state = CliState::new("/s");
    assert_eq!(state.get_identity_name_or_default(&None), "default");
    assert_eq!(state.get_identity_name_or_default(&Some("x".into())), "x");
    assert_eq!(
        state.get_default_identity_name(),
        Err(CliStateError::NotFound("no default identity found".into()))
    );
    state.store_named_identity("alice", identity_of(b"alice"), false);
    state.store_named_identity("bob", identity_of(b"bob"), true);
    assert_eq!(state.get_identity_name_or_default(&None), "bob");
    assert_eq!(state.get_default_identity_name(), Ok("bob".to_string()));
    assert_eq!(
        state.get_identifier_by_optional_name(&None),
        Ok(identity_of(b"bob").identifier().clone())
    );
    assert_eq!(
        state.get_identity_by_optional_name(&Some("alice".into())),
        Ok(identity_of(b"alice"))
    );
}

#[test]
fn enrolled_identities_are_selected() {
    let mut state = CliState::new("/s");
    let entry = |byte: u8, enrolled_at: Option<Enrollment>| IdentityEnrollment {
        identifier: Identifier(vec![byte]),
        name: Some(format!("identity{}", byte)),
        enrolled_at,
    };
    let seen = Some(Enrollment { enrolled: true, enrolled_at: 1_700_000_000 });
    state.enrollments = vec![entry(1, seen), entry(2, None), entry(3, seen)];
    assert_eq!(get_identities_details(&state, true), state.enrollments);
    assert_eq!(get_identities_details(&state, false), vec![entry(1, seen), entry(3, seen)]);
    assert_eq!(state.enrollments[1].identifier(), Identifier(vec![2]));
    let all = StatusCommand { all: true, timeout: 30 };
    assert_eq!(all.enrollment_status(), secure_channel::cli_state::EnrollmentStatus::Any);
}

#[test]
fn nodes_are_linked_to_identities_in_turn() {
    let node = |byte: u8, name: &str| NodeDetails {
        identifier: Identifier(vec![byte]),
        name: name.into(),
        status: "Running".into(),
    };
    let identity = |byte: u8| IdentityEnrollment {
        identifier: Identifier(vec![byte]),
        name: None,
        enrolled_at: None,
    };
    let version = OrchestratorVersionInfo { version: Some("1.0".into()), project_version: None };
    let status = StatusData::from_parts(
        version,
        vec![identity(1), identity(1), identity(2)],
        vec![node(1, "a"), node(2, "b"), node(1, "c")],
    );
    assert_eq!(status.orchestrator_version.version, Some("1.0".to_string()));
    assert_eq!(status.identities.len(), 3);
    assert_eq!(status.identities[0].nodes, vec![node(1, "a"), node(1, "c")]);
    assert_eq!(status.identities[1].nodes, vec![node(1, "a"), node(1, "c")]);
    // The nodes of the second identity were dropped when the first kept its own.
    assert_eq!(status.identities[2].nodes, Vec::new());
    assert_eq!(status.identities[2].identifier(), Identifier(vec![2]));
}

fn outlet_row(socket_addr: &str, worker_addr: &str) -> TcpOutletRow {
    TcpOutletRow {
        socket_addr: socket_addr.into(),
        worker_addr: worker_addr.into(),
        alias: "web".into(),
        payload: Some("notes".into()),
    }
}

#[test]
fn outlet_is_made_of_a_row_whose_addresses_were_read() {
    let row = outlet_row("127.0.0.1:1000", "0#outlet");
    let socket = SocketAddress { ip: vec![127, 0, 0, 1], port: 1000 };
    let worker = WorkerAddress { transport_type: 0, value: "outlet".into() };
    let status = row
        .tcp_outlet_status(
            &Some(SocketAddress { ip: vec![127, 0, 0, 1], port: 1000 }),
            &Some(WorkerAddress { transport_type: 0, value: "outlet".into() }),
        )
        .unwrap();
    assert_eq!(status.socket_addr, socket);
    assert_eq!(status.worker_addr, worker);
    assert_eq!(status.alias, "web");
    assert_eq!(status.payload, Some("notes".to_string()));
    assert_eq!(row.alias(), "web");
    assert_eq!(row.payload(), Some("notes".to_string()));
}

#[test]
fn row_with_an_unparsable_address_is_an_error() {
    let worker = || Some(WorkerAddress { transport_type: 0, value: "outlet".into() });
    let socket = || Some(SocketAddress { ip: vec![127, 0, 0, 1], port: 1000 });
    let row = outlet_row("not-an-address", "0#outlet");
    assert_eq!(
        row.tcp_outlet_status(&None, &worker()),
        Err(ModelStateError::InvalidSocketAddress("not-an-address".into()))
    );
    // The address of the socket is looked at first.
    assert_eq!(
        row.tcp_outlet_status(&None, &None),
        Err(ModelStateError::InvalidSocketAddress("not-an-address".into()))
    );
    let row = outlet_row("127.0.0.1:1000", "a#b#c");
    assert_eq!(
        row.tcp_outlet_status(&socket(), &None),
        Err(ModelStateError::InvalidWorkerAddress("a#b#c".into()))
    );
}

#[test]
fn worker_addresses_name_a_transport_and_a_worker() {
    let address = |transport_type: u8, value: &str| {
        Some(WorkerAddress { transport_type, value: value.to_string() })
    };
    assert_eq!(parse_worker_address("outlet"), address(0, "outlet"));
    assert_eq!(parse_worker_address(""), address(0, ""));
    assert_eq!(parse_worker_address("0#outlet"), address(0, "outlet"));
    assert_eq!(parse_worker_address("1#127.0.0.1:4000"), address(1, "127.0.0.1:4000"));
    assert_eq!(parse_worker_address("255#x"), address(255, "x"));
    assert_eq!(parse_worker_address("007#ü"), address(7, "ü"));
    assert_eq!(parse_worker_address("5#"), address(5, ""));
    assert_eq!(parse_worker_address("256#x"), None);
    assert_eq!(parse_worker_address("99999999999999999999#x"), None);
    assert_eq!(parse_worker_address("#x"), None);
    assert_eq!(parse_worker_address("a#x"), None);
    assert_eq!(parse_worker_address("1a#x"), None);
    assert_eq!(parse_worker_address("a#b#c"), None);
    assert_eq!(parse_worker_address("1#b#"), None);
    let read = ParsedRow::read(outlet_row("127.0.0.1:1000", "a#b#c"), None);
    assert_eq!(read.worker_addr, None);
    assert_eq!(read.socket_addr, None);
    let read = ParsedRow::read(outlet_row("127.0.0.1:1000", "3#w"), None);
    assert_eq!(read.worker_addr, address(3, "w"));
}

#[test]
fn outlets_are_loaded_from_rows() {
    let parsed = |socket_addr: &str, read: bool| ParsedRow {
        row: outlet_row(socket_addr, "0#outlet"),
        socket_addr: if read {
            Some(SocketAddress { ip: vec![10, 0, 0, 1], port: 80 })
        } else {
            None
        },
        worker_addr: Some(WorkerAddress { transport_type: 0, value: "outlet".into() }),
    };
    let state = load(&vec![parsed("10.0.0.1:80", true), parsed("10.0.0.1:80", true)]).unwrap();
    assert_eq!(state.tcp_outlets.len(), 2);
    assert_eq!(state.tcp_outlets[1].socket_addr.port, 80);
    assert_eq!(
        load(&vec![parsed("10.0.0.1:80", true), parsed("first", false), parsed("second", false)]),
        Err(ModelStateError::InvalidSocketAddress("first".into()))
    );
    assert_eq!(load(&Vec::new()), Ok(ModelState::new(Vec::new())));
    assert!(ModelState::default().tcp_outlets.is_empty());
}

#[test]
fn first_migration_creates_the_tables() {
    let migrations = all_migrations();
    assert_eq!(migrations.len(), 1);
    assert!(migrations[0].up_statements.contains("CREATE TABLE identity ("));
    assert!(migrations[0].up_statements.contains("CREATE TABLE identity_attributes ("));
    assert_eq!(migrations[0].down_statements, None);
    assert_eq!(migrations[0].clone(), migrations[0]);
    assert_eq!(1100u64.from_sql(), TimestampInSeconds(1100));
}

#[test]
fn node_info_answers_for_its_fields() {
    let node = NodeInfo {
        name: "n1".into(),
        identifier: Identifier(vec![1]),
        verbosity: 2,
        is_authority_node: false,
        api_transport_address: Some("127.0.0.1:4000".into()),
        default_vault_name: "vault".into(),
        pid: Some(42),
        is_default: true,
        stdout_log: "/s/nodes/n1/stdout.log".into(),
        stderr_log: "/s/nodes/n1/stderr.log".into(),
    };
    assert_eq!(node.name(), "n1");
    assert_eq!(node.identifier(), Identifier(vec![1]));
    assert!(node.is_default());
    assert!(node.is_running());
    assert_eq!(node.pid(), Some(42));
    assert_eq!(node.verbosity(), 2);
    assert_eq!(node.api_transport_address(), Some("127.0.0.1:4000".to_string()));
    assert!(!node.is_authority_node());
    assert_eq!(node.stdout_log(), "/s/nodes/n1/stdout.log");
    assert_eq!(node.stderr_log(), "/s/nodes/n1/stderr.log");
}
