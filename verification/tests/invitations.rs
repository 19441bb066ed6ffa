use secure_channel::command::credential::{parse_attribute, IssueCommand};
use secure_channel::command::identity::EncodeFormat;
use secure_channel::command::CommandError;
use secure_channel::identity::Identifier;
use secure_channel::invitations::{
    accept_invitation, accept_outcome, begin_accepting, default_project_id, find_inlet,
    inlet_calls, record_refresh, refresh_step, relay_step, AcceptStep, Inlet, InletCall,
    InletDataFromInvitation, InletStep, InvitationWithAccess, RefreshedInlet, RelayStep,
    ReceivedInvitationStatus, ServiceAccessDetails,
};

#[test]
fn test_inlet_data_from_invitation() {
    let mut inlets = Vec::new();
    let mut invitation = InvitationWithAccess {
        id: "invitation_id".to_string(),
        expires_at: "2020-09-12T15:07:14.00".to_string(),
        owner_email: "owner_email".to_string(),
        target_id: "target_id".to_string(),
        service_access_details: None,
    };

    // InletDataFromInvitation will be none because `service_access_details` is none
    assert!(InletDataFromInvitation::new(&invitation, true, &inlets).is_none());

    invitation.service_access_details = Some(ServiceAccessDetails {
        service_name: "shared_node_route".to_string(),
        project_id: Some("project_identity".to_string()),
        enrollment_ticket_hex: "a1b2".to_string(),
    });

    // Validate the inlet data, with no prior inlet data
    let inlet_data = InletDataFromInvitation::new(&invitation, true, &inlets).unwrap();
    assert!(inlet_data.socket_addr.is_none());

    // Validate the inlet data, with prior inlet data
    inlets.push((
        "invitation_id".to_string(),
        Inlet {
            node_name: "local_node_name".to_string(),
            alias: "alias".to_string(),
            socket_addr: "127.0.0.1:1000".to_string(),
            enabled: true,
        },
    ));
    let inlet_data = InletDataFromInvitation::new(&invitation, true, &inlets).unwrap();
    assert!(inlet_data.socket_addr.is_some());
}

fn other_inlet() -> Inlet {
    Inlet {
        node_name: "m".to_string(),
        alias: "b".to_string(),
        socket_addr: "127.0.0.1:2000".to_string(),
        enabled: false,
    }
}

#[test]
fn inlet_data_names_node_and_route_after_the_project() {
    let invitation = InvitationWithAccess {
        id: "i1".to_string(),
        expires_at: "2030-01-01T00:00:00.00".to_string(),
        owner_email: "owner@example.com".to_string(),
        target_id: "t1".to_string(),
        service_access_details: Some(ServiceAccessDetails {
            service_name: "web".to_string(),
            project_id: Some("p42".to_string()),
            enrollment_ticket_hex: "a1b2".to_string(),
        }),
    };
    let mut inlet = Inlet {
        node_name: "n".to_string(),
        alias: "a".to_string(),
        socket_addr: "127.0.0.1:1000".to_string(),
        enabled: true,
    };
    inlet.disable();
    let inlets = vec![("other".to_string(), other_inlet()), ("i1".to_string(), inlet)];
    let data = InletDataFromInvitation::new(&invitation, false, &inlets).unwrap();
    assert_eq!(
        data,
        InletDataFromInvitation {
            enabled: false,
            local_node_name: "ockam_app_p42_web".to_string(),
            service_name: "web".to_string(),
            service_route: "/project/p42/service/forward_to_ockam_app/secure/api/service/web"
                .to_string(),
            enrollment_ticket_hex: Some("a1b2".to_string()),
            socket_addr: Some("127.0.0.1:1000".to_string()),
        }
    );
    let mut inlet = other_inlet();
    inlet.enable();
    assert!(inlet.enabled);
    // An expired invitation keeps no ticket; a new inlet is enabled.
    let data = InletDataFromInvitation::new(&invitation, true, &Vec::new()).unwrap();
    assert_eq!(data.enrollment_ticket_hex, None);
    assert!(data.enabled);
}

#[test]
fn ticket_without_a_project_gives_no_inlet() {
    let invitation = InvitationWithAccess {
        id: "i1".to_string(),
        expires_at: String::new(),
        owner_email: String::new(),
        target_id: String::new(),
        service_access_details: Some(ServiceAccessDetails {
            service_name: "web".to_string(),
            project_id: None,
            enrollment_ticket_hex: "a1b2".to_string(),
        }),
    };
    assert_eq!(InletDataFromInvitation::new(&invitation, false, &Vec::new()), None);
}

#[test]
fn invitation_is_accepted_once() {
    let mut statuses = vec![("a".to_string(), ReceivedInvitationStatus::Accepted)];
    assert!(!begin_accepting(&mut statuses, "a"));
    assert_eq!(statuses.len(), 1);
    assert!(begin_accepting(&mut statuses, "b"));
    assert_eq!(statuses[1], ("b".to_string(), ReceivedInvitationStatus::Accepting));
    assert!(!begin_accepting(&mut statuses, "b"));
    assert_eq!(statuses.len(), 2);
}

fn issue(attributes: &[&str]) -> IssueCommand {
    IssueCommand {
        as_identity: None,
        identity_identifier: Identifier(vec![1, 2]),
        attributes: attributes.iter().map(|a| a.to_string()).collect(),
        vault: None,
        encode_format: EncodeFormat::Plain,
    }
}

fn pair(key: &str, value: &str) -> (String, String) {
    (key.to_string(), value.to_string())
}

#[test]
fn attributes_split_at_the_first_equals_sign() {
    assert_eq!(parse_attribute("role=member"), Some(pair("role", "member")));
    assert_eq!(parse_attribute("a=b=c"), Some(pair("a", "b=c")));
    assert_eq!(parse_attribute("=x"), Some(pair("", "x")));
    assert_eq!(parse_attribute("x="), Some(pair("x", "")));
    assert_eq!(parse_attribute("ä=ö"), Some(pair("ä", "ö")));
    assert_eq!(parse_attribute("novalue"), None);
    assert_eq!(parse_attribute(""), None);
}

#[test]
fn later_attribute_replaces_the_earlier_of_its_key() {
    assert_eq!(
        issue(&["role=member", "team=a", "role=admin"]).attributes(),
        Ok(vec![pair("role", "admin"), pair("team", "a")])
    );
    assert_eq!(issue(&[]).attributes(), Ok(Vec::new()));
    assert_eq!(
        issue(&["role=member", "broken", "team=a"]).attributes(),
        Err(CommandError::Message("value expected)".to_string()))
    );
    assert_eq!(issue(&[]).identity_identifier(), &Identifier(vec![1, 2]));
}

#[test]
fn inlet_is_disconnected_and_reconnected_once() {
    let mut inlet = Inlet {
        node_name: "n".to_string(),
        alias: "a".to_string(),
        socket_addr: "127.0.0.1:1000".to_string(),
        enabled: true,
    };
    assert!(inlet.disconnect());
    assert!(!inlet.enabled);
    assert!(!inlet.disconnect());
    assert!(inlet.reconnect());
    assert!(inlet.enabled);
    assert!(!inlet.reconnect());
}

#[test]
fn refresh_keeps_what_runs_and_recreates_the_rest() {
    let data = |enabled: bool| InletDataFromInvitation {
        enabled,
        local_node_name: "n".to_string(),
        service_name: "s".to_string(),
        service_route: "r".to_string(),
        enrollment_ticket_hex: None,
        socket_addr: None,
    };
    let served = "127.0.0.1:2000".to_string();
    assert_eq!(refresh_step(&data(false), true, Some(&served)), InletStep::Skip);
    assert_eq!(refresh_step(&data(true), true, Some(&served)), InletStep::Keep(served.clone()));
    assert_eq!(refresh_step(&data(true), false, Some(&served)), InletStep::Recreate);
    assert_eq!(refresh_step(&data(true), true, None), InletStep::Recreate);
}

#[test]
fn relay_is_created_once_for_the_default_project() {
    let project = "default".to_string();
    assert_eq!(relay_step(false, Some(&project), false), RelayStep::Skip);
    assert_eq!(relay_step(true, None, false), RelayStep::Skip);
    assert_eq!(relay_step(true, Some(&project), true), RelayStep::Existing);
    assert_eq!(
        relay_step(true, Some(&project), false),
        RelayStep::Create("/project/default".to_string())
    );
}

#[test]
fn user_who_is_not_enrolled_accepts_nothing() {
    let mut statuses = Vec::new();
    assert_eq!(accept_invitation(&mut statuses, "a", false), AcceptStep::Nothing);
    assert!(statuses.is_empty());
    assert_eq!(accept_outcome(&AcceptStep::Nothing, None), Ok(()));
}

#[test]
fn enrolled_user_accepts_an_invitation_once() {
    let mut statuses = Vec::new();
    let step = accept_invitation(&mut statuses, "a", true);
    assert_eq!(step, AcceptStep::Accept("a".to_string()));
    assert_eq!(statuses, vec![("a".to_string(), ReceivedInvitationStatus::Accepting)]);
    assert_eq!(accept_outcome(&step, Some(Ok(()))), Ok(()));
    assert_eq!(accept_outcome(&step, Some(Err("refused".to_string()))), Err("refused".to_string()));
    assert_eq!(accept_invitation(&mut statuses, "a", true), AcceptStep::Nothing);
    assert_eq!(statuses.len(), 1);
}

#[test]
fn default_project_is_found_by_its_name() {
    let projects = vec![
        ("other".to_string(), "first-id".to_string()),
        ("default".to_string(), "second-id".to_string()),
        ("default".to_string(), "third-id".to_string()),
    ];
    assert_eq!(default_project_id(&projects, "default"), Ok("second-id".to_string()));
    assert_eq!(
        default_project_id(&projects, "missing"),
        Err("could not find default project".to_string())
    );
    assert_eq!(
        default_project_id(&Vec::new(), "default"),
        Err("could not find default project".to_string())
    );
}

#[test]
fn inlet_is_set_up_by_enrolling_creating_the_node_and_the_inlet() {
    let data = |enabled: bool, ticket: Option<&str>, socket_addr: Option<&str>| {
        InletDataFromInvitation {
            enabled,
            local_node_name: "n".to_string(),
            service_name: "s".to_string(),
            service_route: "r".to_string(),
            enrollment_ticket_hex: ticket.map(|t| t.to_string()),
            socket_addr: socket_addr.map(|a| a.to_string()),
        }
    };
    let node = || InletCall::CreateNode { node_name: "n".to_string() };
    let inlet = |from: &str| InletCall::CreateInlet {
        node_name: "n".to_string(),
        from: from.to_string(),
        service_route: "r".to_string(),
        service_name: "s".to_string(),
    };
    assert_eq!(
        inlet_calls(&data(false, Some("a1"), None), "127.0.0.1:5000"),
        Err("TCP inlet is disabled by the user".to_string())
    );
    assert_eq!(
        inlet_calls(&data(true, Some("a1"), None), "127.0.0.1:5000"),
        Ok(vec![
            InletCall::Enroll {
                node_name: "n".to_string(),
                enrollment_ticket_hex: "a1".to_string()
            },
            node(),
            inlet("127.0.0.1:5000"),
        ])
    );
    assert_eq!(
        inlet_calls(&data(true, None, Some("127.0.0.1:1000")), "127.0.0.1:5000"),
        Ok(vec![node(), inlet("127.0.0.1:1000")])
    );
}

fn found(id: &str, enabled: bool, socket_addr: Option<&str>) -> RefreshedInlet {
    RefreshedInlet {
        invitation_id: id.to_string(),
        data: InletDataFromInvitation {
            enabled,
            local_node_name: format!("node_{id}"),
            service_name: format!("service_{id}"),
            service_route: "r".to_string(),
            enrollment_ticket_hex: None,
            socket_addr: None,
        },
        socket_addr: socket_addr.map(|a| a.to_string()),
    }
}

fn recorded(id: &str, socket_addr: &str) -> (String, Inlet) {
    (
        id.to_string(),
        Inlet {
            node_name: format!("node_{id}"),
            alias: format!("service_{id}"),
            socket_addr: socket_addr.to_string(),
            enabled: true,
        },
    )
}

#[test]
fn refresh_records_the_inlets_that_run() {
    let mut inlets = vec![("old".to_string(), other_inlet()), recorded("a", "127.0.0.1:1")];
    record_refresh(
        &mut inlets,
        &vec![
            found("a", true, Some("127.0.0.1:2")),
            found("b", true, None),
            found("c", false, Some("127.0.0.1:3")),
            found("d", true, Some("127.0.0.1:4")),
            found("d", true, Some("127.0.0.1:5")),
        ],
    );
    assert_eq!(
        inlets,
        vec![
            ("old".to_string(), other_inlet()),
            recorded("a", "127.0.0.1:2"),
            recorded("d", "127.0.0.1:5"),
        ]
    );
    assert_eq!(find_inlet(&inlets, "d"), Some(&recorded("d", "127.0.0.1:5").1));
    assert_eq!(find_inlet(&inlets, "old"), Some(&other_inlet()));
    assert_eq!(find_inlet(&inlets, "b"), None);
}

#[test]
fn refresh_that_found_nothing_changes_nothing() {
    let mut inlets = vec![("old".to_string(), other_inlet())];
    record_refresh(&mut inlets, &Vec::new());
    assert_eq!(inlets, vec![("old".to_string(), other_inlet())]);
    record_refresh(&mut inlets, &vec![found("a", false, None)]);
    assert_eq!(inlets.len(), 1);
}
