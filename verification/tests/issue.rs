use secure_channel::cli_state::{CliState, CliStateError, IdentityEnrollment};
use secure_channel::codec::Wire;
use secure_channel::command::credential::{credential_text, IssueCommand};
use secure_channel::command::identity::EncodeFormat;
use secure_channel::command::kafka::{AddonConfigureKafkaSubcommand, KafkaRequest};
use secure_channel::command::status::{
    build_plain_output, IdentityWithLinkedNodes, NodeDetails, OrchestratorVersionInfo,
    StatusCommand, StatusData,
};
use secure_channel::command::{CommandError, CommandGlobalOpts, GlobalArgs, LineKind};
use secure_channel::credential::{
    issue_credential, verify_credential, Attribute, Credential, TrustContext,
    MAX_CREDENTIAL_VALIDITY,
};
use secure_channel::identity::{create_identity, Identifier};
use secure_channel::model_vault::ModelVault;

const NOW: u64 = 1_700_000_000;
const AUTHORITY: &[u8] = b"authority signing key";

fn hex(bytes: &[u8]) -> String {
    bytes.iter().map(|byte| format!("{:02x}", byte)).collect()
}

fn options() -> CommandGlobalOpts {
    let mut state = CliState::new("/s");
    state.create_identity_with_name(&ModelVault, AUTHORITY, "authority").unwrap();
    state.set_as_default_identity("authority");
    CommandGlobalOpts::new_for_test(GlobalArgs::default(), state)
}

fn issue(attributes: &[&str], encode_format: EncodeFormat) -> IssueCommand {
    IssueCommand {
        as_identity: None,
        identity_identifier: Identifier(vec![5, 6]),
        attributes: attributes.iter().map(|a| a.to_string()).collect(),
        vault: None,
        encode_format,
    }
}

fn expected(attributes: &[(&str, &str)]) -> Credential {
    let authority = create_identity(&ModelVault, AUTHORITY).unwrap();
    let mut all = vec![Attribute {
        name: b"trust_context_id".to_vec(),
        value: format!("I{}", hex(&authority.identifier().0)).into_bytes(),
    }];
    for (name, value) in attributes {
        all.push(Attribute { name: name.as_bytes().to_vec(), value: value.as_bytes().to_vec() });
    }
    issue_credential(
        &ModelVault,
        authority.identifier(),
        AUTHORITY,
        &Identifier(vec![5, 6]),
        all,
        NOW,
        MAX_CREDENTIAL_VALIDITY,
    )
}

fn encoded(credential: &Credential) -> Vec<u8> {
    let mut bytes = Vec::new();
    credential.encode(&mut bytes);
    bytes
}

#[test]
fn issued_credential_is_shown_in_hex() {
    let mut opts = options();
    let command = issue(&["role=member", "team=ä"], EncodeFormat::Hex);
    assert_eq!(command.run(&ModelVault, AUTHORITY, NOW, &mut opts), Ok(()));
    let credential = expected(&[("role", "member"), ("team", "ä")]);
    assert_eq!(opts.terminal.lines.len(), 1);
    assert_eq!(opts.terminal.lines[0].kind, LineKind::Plain);
    assert_eq!(opts.terminal.lines[0].plain, hex(&encoded(&credential)));
    // What was shown is a credential that the authority's peers accept.
    let (parsed, end) = Credential::parse(&encoded(&credential), 0).unwrap();
    assert_eq!(end, encoded(&credential).len());
    let context = Some(TrustContext::new(vec![create_identity(&ModelVault, AUTHORITY).unwrap()]));
    assert!(verify_credential(&ModelVault, &parsed, &Identifier(vec![5, 6]), &context, NOW).is_ok());
}

#[test]
fn issued_credential_is_shown_in_plain() {
    let mut opts = options();
    let command = issue(&[], EncodeFormat::Plain);
    assert_eq!(command.run(&ModelVault, AUTHORITY, NOW, &mut opts), Ok(()));
    let credential = expected(&[]);
    let authority = create_identity(&ModelVault, AUTHORITY).unwrap();
    assert_eq!(
        opts.terminal.lines[0].plain,
        format!(
            "Subject: I0506\nIssuer: I{}\nCredential: {}",
            hex(&authority.identifier().0),
            hex(&encoded(&credential))
        )
    );
    assert_eq!(
        credential_text(EncodeFormat::Hex, &credential),
        hex(&encoded(&credential))
    );
}

#[test]
fn credential_is_not_issued_without_an_issuer_or_with_a_bad_attribute() {
    let mut opts = options();
    let mut command = issue(&["role=member"], EncodeFormat::Hex);
    command.as_identity = Some("nobody".to_string());
    assert_eq!(
        command.run(&ModelVault, AUTHORITY, NOW, &mut opts),
        Err(CommandError::State(CliStateError::NotFound(
            "no identifier found with name nobody".to_string()
        )))
    );
    assert_eq!(
        issue(&["role"], EncodeFormat::Hex).run(&ModelVault, AUTHORITY, NOW, &mut opts),
        Err(CommandError::Message("value expected)".to_string()))
    );
    assert!(opts.terminal.lines.is_empty());
}

fn status(identities: Vec<IdentityWithLinkedNodes>) -> StatusData {
    StatusData {
        orchestrator_version: OrchestratorVersionInfo {
            version: Some("1.2".to_string()),
            project_version: None,
        },
        identities,
    }
}

#[test]
fn status_without_identities_says_so() {
    let all = StatusCommand { all: true, timeout: 30 };
    let enrolled = StatusCommand { all: false, timeout: 30 };
    assert_eq!(
        build_plain_output(&all, &status(Vec::new())),
        vec![
            "Controller version: 1.2".to_string(),
            "Project version: N/A".to_string(),
            "No identities found!".to_string()
        ]
    );
    assert_eq!(
        build_plain_output(&enrolled, &status(Vec::new()))[2],
        "No enrolled identities could be found. Try passing the `--all` argument to see all identities, and not just the enrolled ones. Also consider running `ockam enroll` to enroll an identity."
    );
}

#[test]
fn status_lists_identities_with_their_nodes() {
    let identity = |byte: u8, nodes: Vec<NodeDetails>| IdentityWithLinkedNodes {
        identity: IdentityEnrollment {
            identifier: Identifier(vec![byte]),
            name: None,
            enrolled_at: None,
        },
        nodes,
    };
    let node = |name: &str, status: &str| NodeDetails {
        identifier: Identifier(vec![1]),
        name: name.to_string(),
        status: status.to_string(),
    };
    let all = StatusCommand { all: true, timeout: 30 };
    assert_eq!(
        build_plain_output(
            &all,
            &status(vec![
                identity(1, vec![node("n1", "Running"), node("n2", "Stopped")]),
                identity(2, Vec::new())
            ])
        ),
        vec![
            "Controller version: 1.2".to_string(),
            "Project version: N/A".to_string(),
            "Identity: I01".to_string(),
            "  Node: n1 Running".to_string(),
            "  Node: n2 Stopped".to_string(),
            "Identity: I02".to_string(),
        ]
    );
}

#[test]
fn status_command_writes_the_status() {
    let mut state = CliState::new("/s");
    let entry = |byte: u8, enrolled: bool| IdentityEnrollment {
        identifier: Identifier(vec![byte]),
        name: None,
        enrolled_at: if enrolled {
            Some(secure_channel::cli_state::Enrollment { enrolled: true, enrolled_at: 1 })
        } else {
            None
        },
    };
    state.enrollments = vec![entry(1, false), entry(2, true)];
    let mut opts = CommandGlobalOpts::new_for_test(GlobalArgs::default(), state);
    let version = || OrchestratorVersionInfo { version: None, project_version: Some("7".into()) };
    let nodes = || {
        vec![NodeDetails {
            identifier: Identifier(vec![2]),
            name: "n1".to_string(),
            status: "Running".to_string(),
        }]
    };
    assert_eq!(StatusCommand { all: false, timeout: 30 }.run(&mut opts, version(), nodes()), Ok(()));
    let written: Vec<&str> = opts.terminal.lines.iter().map(|l| l.plain.as_str()).collect();
    assert_eq!(
        written,
        vec!["Controller version: N/A", "Project version: 7", "Identity: I02", "  Node: n1 Running"]
    );
    assert!(opts.terminal.lines.iter().all(|l| l.kind == LineKind::Plain && l.machine.is_none()));
    // With all identities, the first keeps no node, and so does the second after it.
    opts.terminal.lines.clear();
    StatusCommand { all: true, timeout: 30 }.run(&mut opts, version(), nodes()).unwrap();
    let written: Vec<&str> = opts.terminal.lines.iter().map(|l| l.plain.as_str()).collect();
    assert_eq!(
        written,
        vec!["Controller version: N/A", "Project version: 7", "Identity: I01", "Identity: I02"]
    );
}

#[test]
fn kafka_addon_is_configured_at_its_endpoint() {
    let command = || AddonConfigureKafkaSubcommand {
        project_name: "default".to_string(),
        bootstrap_server: "broker:9092".to_string(),
    };
    assert_eq!(
        command().request("/v0/project/addons"),
        KafkaRequest {
            endpoint: "/v0/project/addons/confluent".to_string(),
            bootstrap_server: "broker:9092".to_string()
        }
    );
    let mut opts = options();
    assert_eq!(command().run(&mut opts, Ok(())), Ok(()));
    assert_eq!(opts.terminal.lines.len(), 1);
    assert_eq!(opts.terminal.lines[0].kind, LineKind::Success);
    assert_eq!(opts.terminal.lines[0].plain, "Apache Kafka addon configured successfully");
    assert_eq!(
        command().run(&mut opts, Err("no such project".to_string())),
        Err(CommandError::Message("no such project".to_string()))
    );
    assert_eq!(opts.terminal.lines.len(), 1);
}
