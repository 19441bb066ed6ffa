use secure_channel::cli_state::{
    file_stem, CliState, CliStateError, Enrollment, EnrollmentStatus, IdentityEnrollment,
    NodeInfo,
};
use secure_channel::command::node::{delete_all_nodes, delete_node};
use secure_channel::command::{CommandGlobalOpts, Effect, GlobalArgs};
use secure_channel::identity::{create_identity, Identifier};
use secure_channel::model_vault::ModelVault;
use std::path::Path;
use secure_channel::path;
use secure_channel::vault_sync::{
    hkdf_sha256, sha256, VaultRequestMessage, VaultResponseMessage, VaultSyncCoreError,
};

#[test]
fn identity_is_created_under_its_name() {
    let mut state = CliState::new("/s");
    let alice = create_identity(&ModelVault, b"alice").unwrap();
    assert_eq!(
        state.create_identity_with_name(&ModelVault, b"alice", "alice"),
        Ok(alice.identifier().clone())
    );
    assert_eq!(state.get_named_identities().len(), 1);
    assert_eq!(state.get_named_identities()[0].name(), "alice");
    assert!(!state.get_named_identities()[0].is_default());
    assert_eq!(state.get_identifier_by_name("alice"), Some(alice.identifier().clone()));
    assert_eq!(state.get_identifier_by_name("bob"), None);
}

#[test]
fn identity_is_found_or_created() {
    let mut state = CliState::new("/s");
    let vault = ModelVault;
    let alice = create_identity(&vault, b"alice").unwrap().identifier().clone();
    let bob = create_identity(&vault, b"bob").unwrap().identifier().clone();

    // Nobody is the default: an identity is made, without a name and
    // without becoming the default, and so again the next time.
    let first =
        state.get_identifier_by_optional_name_or_create_identity(&vault, b"alice", &None);
    assert_eq!(first, Ok(alice.clone()));
    assert!(state.identities.is_empty());
    assert_eq!(state.unnamed_identities.len(), 1);
    assert!(state.get_default_identity_name().is_err());
    let again = state.get_identifier_by_optional_name_or_create_identity(&vault, b"bob", &None);
    assert_eq!(again, Ok(bob.clone()));
    assert_eq!(state.unnamed_identities.len(), 2);
    assert_eq!(state.create_identity(&vault, b"alice"), Ok(alice.clone()));
    assert_eq!(state.unnamed_identities.len(), 3);

    let named = Some("bob".to_string());
    assert_eq!(
        state.get_identifier_by_optional_name_or_create_identity(&vault, b"bob", &named),
        Ok(bob.clone())
    );
    assert_eq!(state.identities.len(), 1);
    assert!(!state.is_default_identity_by_name("bob"));
    assert_eq!(
        state.get_identifier_by_optional_name_or_create_identity(&vault, b"carol", &named),
        Ok(bob.clone())
    );
    assert_eq!(state.identities.len(), 1);

    // With a default identity nothing is made.
    state.set_as_default_identity("bob");
    assert_eq!(
        state.get_identifier_by_optional_name_or_create_identity(&vault, b"dave", &None),
        Ok(bob)
    );
    assert_eq!(state.unnamed_identities.len(), 3);
}

#[test]
fn identity_is_deleted_with_its_namesakes_by_identifier() {
    let mut state = CliState::new("/s");
    let vault = ModelVault;
    state.create_identity_with_name(&vault, b"alice", "alice").unwrap();
    state.create_identity_with_name(&vault, b"bob", "bob").unwrap();
    state.create_identity_with_name(&vault, b"alice", "alias").unwrap();
    state.create_identity_with_name(&vault, b"carol", "carol").unwrap();

    assert_eq!(
        state.delete_identity_by_name("dave"),
        Err(CliStateError::NotFound("no identifier found with name dave".to_string()))
    );
    assert_eq!(state.identities.len(), 4);

    assert_eq!(state.delete_identity_by_name("alias"), Ok(()));
    let names: Vec<String> = state.identities.iter().map(|i| i.name()).collect();
    assert_eq!(names, vec!["bob".to_string(), "carol".to_string()]);
}

#[test]
fn default_identity_is_enrolled_when_its_enrollment_says_so() {
    let mut state = CliState::new("/s");
    let vault = ModelVault;
    assert!(!state.is_default_identity_enrolled());
    let alice = state.create_identity_with_name(&vault, b"alice", "alice").unwrap();
    state.set_as_default_identity("alice");
    assert!(!state.is_default_identity_enrolled());
    state.enrollments.push(IdentityEnrollment {
        identifier: Identifier(vec![9]),
        name: None,
        enrolled_at: Some(Enrollment { enrolled: true, enrolled_at: 5 }),
    });
    state.enrollments.push(IdentityEnrollment {
        identifier: alice.clone(),
        name: Some("alice".to_string()),
        enrolled_at: None,
    });
    assert!(!state.is_default_identity_enrolled());
    assert_eq!(state.is_enrolled(false, false), Ok(false));
    state.enrollments[1].enrolled_at = Some(Enrollment { enrolled: true, enrolled_at: 7 });
    assert!(state.is_default_identity_enrolled());
    assert_eq!(state.is_enrolled(true, true), Ok(true));
    assert_eq!(
        state.is_enrolled(false, true),
        Err(CliStateError::InvalidOperation(
            "There should be a default space set for the current user. Please re-enroll"
                .to_string()
        ))
    );
    assert_eq!(
        state.is_enrolled(true, false),
        Err(CliStateError::InvalidOperation(
            "There should be a default project set for the current user. Please re-enroll"
                .to_string()
        ))
    );
}

#[test]
fn deleting_all_nodes_stops_each_of_them() {
    let node = |name: &str| NodeInfo {
        name: name.to_string(),
        identifier: Identifier(vec![1]),
        verbosity: 0,
        is_authority_node: false,
        api_transport_address: None,
        default_vault_name: "vault".to_string(),
        pid: None,
        is_default: false,
        stdout_log: String::new(),
        stderr_log: String::new(),
    };
    let mut state = CliState::new("/s");
    state.nodes = vec![node("n1"), node("n2")];
    let mut opts = CommandGlobalOpts::new_for_test(GlobalArgs::default(), state);
    assert_eq!(delete_all_nodes(&mut opts, true), Ok(()));
    assert!(opts.state.nodes.is_empty());
    assert_eq!(
        opts.effects,
        vec![
            Effect::KillNode { node_name: "n1".to_string(), force: true },
            Effect::KillNode { node_name: "n2".to_string(), force: true },
        ]
    );
}

#[test]
fn answer_to_another_question_is_refused() {
    assert_eq!(sha256(VaultResponseMessage::Sha256(vec![1, 2])), Ok(vec![1, 2]));
    assert_eq!(
        sha256(VaultResponseMessage::HkdfSha256(Vec::new())),
        Err(VaultSyncCoreError::InvalidResponseType)
    );
    assert_eq!(
        hkdf_sha256(VaultResponseMessage::HkdfSha256(vec![vec![3]])),
        Ok(vec![vec![3]])
    );
    assert_eq!(
        hkdf_sha256(VaultResponseMessage::Sha256(vec![1])),
        Err(VaultSyncCoreError::InvalidResponseType)
    );
    let request = VaultRequestMessage::Sha256 { data: vec![1] };
    assert_eq!(request, VaultRequestMessage::Sha256 { data: vec![1] });
}

#[test]
fn identity_under_a_random_name_is_stored() {
    let mut state = CliState::new("/s");
    let expected = create_identity(&ModelVault, b"key").unwrap().identifier().clone();
    assert_eq!(state.create_identity_with_random_name(&ModelVault, b"key"), Ok(expected.clone()));
    assert_eq!(state.identities.len(), 1);
    assert!(!state.identities[0].name().is_empty());
    assert_eq!(state.identities[0].identifier(), expected);
}

#[test]
fn enrollments_are_listed_by_status() {
    let mut state = CliState::new("/s");
    let entry = |byte: u8, enrolled: bool| IdentityEnrollment {
        identifier: Identifier(vec![byte]),
        name: None,
        enrolled_at: if enrolled { Some(Enrollment { enrolled: true, enrolled_at: 1 }) } else { None },
    };
    state.enrollments = vec![entry(1, false), entry(2, true)];
    assert_eq!(
        state.get_identity_enrollments(EnrollmentStatus::Any),
        vec![entry(1, false), entry(2, true)]
    );
    assert_eq!(state.get_identity_enrollments(EnrollmentStatus::Enrolled), vec![entry(2, true)]);
}

#[test]
fn deleted_node_is_stopped_and_forgotten() {
    let node = |name: &str| NodeInfo {
        name: name.to_string(),
        identifier: Identifier(vec![1]),
        verbosity: 0,
        is_authority_node: false,
        api_transport_address: None,
        default_vault_name: "vault".to_string(),
        pid: None,
        is_default: false,
        stdout_log: String::new(),
        stderr_log: String::new(),
    };
    let mut state = CliState::new("/s");
    state.nodes = vec![node("n1"), node("n2"), node("n3")];
    let mut opts = CommandGlobalOpts::new_for_test(GlobalArgs::default(), state);
    assert_eq!(delete_node(&mut opts, "n2", false), Ok(()));
    assert_eq!(opts.state.nodes, vec![node("n1"), node("n3")]);
    assert_eq!(opts.effects, vec![Effect::KillNode { node_name: "n2".to_string(), force: false }]);
    assert_eq!(delete_node(&mut opts, "n2", false), Ok(()));
    assert_eq!(opts.effects.len(), 1);
    assert!(!opts.state.delete_node("n9"));
    assert!(opts.state.delete_node("n1"));
}

#[test]
fn change_history_of_an_unknown_identity_is_not_found() {
    let mut state = CliState::new("/s");
    let alice = state.create_identity_with_name(&ModelVault, b"alice", "alice").unwrap();
    let history = create_identity(&ModelVault, b"alice").unwrap().change_history().clone();
    assert_eq!(state.get_change_history_optional(&alice), Some(history.clone()));
    assert_eq!(state.get_change_history(&alice), Ok(history));
    let unknown = Identifier(vec![0xab, 0x01]);
    assert_eq!(state.get_change_history_optional(&unknown), None);
    assert_eq!(
        state.get_change_history(&unknown),
        Err(CliStateError::NotFound("identity not found for identifier Iab01".to_string()))
    );
}

#[test]
fn backup_directory_stands_beside_the_state_directory() {
    assert_eq!(
        CliState::backup_default_dir("/home/user/.ockam"),
        Ok("/home/user/.ockam.bak".to_string())
    );
    assert_eq!(CliState::backup_default_dir("/home/user/.ockam/"), Ok("/home/user/.ockam.bak".to_string()));
    assert_eq!(CliState::backup_default_dir("state"), Ok("state.bak".to_string()));
    assert_eq!(CliState::backup_default_dir("/state"), Ok("/state.bak".to_string()));
    for nameless in ["", "/", "..", "/home/.."] {
        assert_eq!(
            CliState::backup_default_dir(nameless),
            Err(CliStateError::InvalidOperation(
                "The $OCKAM_HOME directory does not have a valid name".to_string()
            ))
        );
    }
}

#[test]
fn stem_of_a_path_names_a_state() {
    assert_eq!(file_stem("/s/vaults/v1.json"), Ok("v1".to_string()));
    assert_eq!(file_stem("/s/vaults/data/v1-storage.json"), Ok("v1-storage".to_string()));
    assert_eq!(file_stem("/s/nodes/n1"), Ok("n1".to_string()));
    assert_eq!(file_stem("/s/nodes/"), Ok("nodes".to_string()));
    assert_eq!(file_stem("/"), Err(CliStateError::InvalidPath("/".to_string())));
    assert_eq!(file_stem("a/.."), Err(CliStateError::InvalidPath("a/..".to_string())));
    assert_eq!(file_stem(""), Err(CliStateError::InvalidPath(String::new())));
}

const PATHS: [&str; 40] = [
    "", "/", "//", ".", "..", "./", "../", "/.", "/..", "a", "a/", "a//", "a/.", "a/./", "a/..",
    "/a", "//a", "/a/b", "a/b", "a//b", "a/./b", "./a", "./a/b", "../a", "a.b", "a.b.c", ".a",
    ".a.b", "a.", "..a", "...", "/x/.hidden", "/x/y.tar.gz", "x/y.z/", "x/y.z/.", "/./a", "/a/./",
    "ä/ö.ü", "a/.b/c", "//a//b//",
];

#[test]
fn paths_are_read_as_the_system_reads_them() {
    for path in PATHS {
        let system = Path::new(path);
        let name = system.file_name().and_then(|n| n.to_str()).map(String::from);
        let stem = system.file_stem().and_then(|n| n.to_str()).map(String::from);
        let above = system.parent().and_then(|p| p.to_str()).map(String::from);
        assert_eq!(path::file_name(path), name, "name of {:?}", path);
        assert_eq!(path::file_stem(path), stem, "stem of {:?}", path);
        assert_eq!(path::parent(path), above, "parent of {:?}", path);
    }
}
