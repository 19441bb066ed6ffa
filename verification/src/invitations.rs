//! Invitations to shared services and the inlets that accepted invitations
//! are reached through.

use vstd::prelude::*;
use crate::codec::views;
use crate::text::same_text;

verus! {

/// How far the acceptance of a received invitation has come.
#[derive(Clone, Copy, Debug, PartialEq, Eq, Structural)]
pub enum ReceivedInvitationStatus {
    Accepting,
    Accepted,
}

/// The position of the first status, from `from` on, of the invitation `id`.
pub open spec fn spec_status_position(
    statuses: Seq<(String, ReceivedInvitationStatus)>,
    id: Seq<char>,
    from: int,
) -> Option<int>
    decreases statuses.len() - from,
{
    if from < 0 || from >= statuses.len() {
        None
    } else if statuses[from].0@ == id {
        Some(from)
    } else {
        spec_status_position(statuses, id, from + 1)
    }
}

/// Whether `after` is `before` with exactly one more status, at the end:
/// that the invitation `id` is being accepted.
pub open spec fn spec_marked_accepting(
    before: Seq<(String, ReceivedInvitationStatus)>,
    after: Seq<(String, ReceivedInvitationStatus)>,
    id: Seq<char>,
) -> bool {
    &&& after.len() == before.len() + 1
    &&& after.drop_last() == before
    &&& after.last().0@ == id
    &&& after.last().1 == ReceivedInvitationStatus::Accepting
}

/// Marks the invitation `id` as being accepted, unless it is being accepted
/// or was accepted already. Returns whether the acceptance is to go ahead.
pub fn begin_accepting(statuses: &mut Vec<(String, ReceivedInvitationStatus)>, id: &str) -> (go:
    bool)
    ensures
        go == spec_status_position(old(statuses)@, id@, 0) is None,
        !go ==> *final(statuses) == *old(statuses),
        go ==> spec_marked_accepting(old(statuses)@, final(statuses)@, id@),
{
    let mut i: usize = 0;
    while i < statuses.len()
        invariant
            0 <= i <= statuses@.len(),
            *statuses == *old(statuses),
            spec_status_position(statuses@, id@, 0) == spec_status_position(
                statuses@,
                id@,
                i as int,
            ),
        decreases statuses@.len() - i,
    {
        if same_text(statuses[i].0.as_str(), id) {
            return false;
        }
        i += 1;
    }
    statuses.push((String::from_str(id), ReceivedInvitationStatus::Accepting));
    assert(statuses@.drop_last() =~= old(statuses)@);
    true
}

/// What is left to do about an invitation that the user accepts.
#[derive(Debug, PartialEq, Eq)]
pub enum AcceptStep {
    /// Nothing: the user is not enrolled, or the invitation is being
    /// accepted or was accepted already.
    Nothing,
    /// Ask the controller, once, to accept the invitation with this
    /// identifier. What the controller answers is the outcome.
    Accept(String),
}

/// Decides what accepting the invitation `id` comes to. For a user who is
/// not enrolled nothing is marked and nothing is asked of the controller.
/// For an enrolled user the invitation is marked as being accepted and the
/// controller is asked, unless the invitation has a status already.
pub fn accept_invitation(
    statuses: &mut Vec<(String, ReceivedInvitationStatus)>,
    id: &str,
    is_enrolled: bool,
) -> (step: AcceptStep)
    ensures
        match step {
            AcceptStep::Nothing => *final(statuses) == *old(statuses) && !(is_enrolled
                && spec_status_position(old(statuses)@, id@, 0) is None),
            AcceptStep::Accept(asked) => is_enrolled && spec_status_position(
                old(statuses)@,
                id@,
                0,
            ) is None && asked@ == id@ && spec_marked_accepting(
                old(statuses)@,
                final(statuses)@,
                id@,
            ),
        },
{
    if !is_enrolled {
        return AcceptStep::Nothing;
    }
    if begin_accepting(statuses, id) {
        AcceptStep::Accept(String::from_str(id))
    } else {
        AcceptStep::Nothing
    }
}

/// The outcome of accepting an invitation, given what the controller
/// answered where it was asked: its error where it failed, else success.
pub fn accept_outcome(step: &AcceptStep, answer: Option<Result<(), String>>) -> (r: Result<
    (),
    String,
>)
    ensures
        r == match (*step, answer) {
            (AcceptStep::Accept(_), Some(Err(error))) => Err::<(), String>(error),
            _ => Ok::<(), String>(()),
        },
{
    match step {
        AcceptStep::Nothing => Ok(()),
        AcceptStep::Accept(_) => match answer {
            Some(Err(error)) => Err(error),
            _ => Ok(()),
        },
    }
}

/// An inlet on this machine to a service that someone shared.
#[derive(Debug, PartialEq, Eq)]
pub struct Inlet {
    pub node_name: String,
    pub alias: String,
    pub socket_addr: String,
    pub enabled: bool,
}

impl Inlet {
    /// Disconnects the inlet. Returns whether the inlet was connected, so
    /// that it is to be deleted on its node.
    pub fn disconnect(&mut self) -> (delete: bool)
        ensures
            delete == old(self).enabled,
            *final(self) == (Inlet { enabled: false, ..*old(self) }),
    {
        if !self.enabled {
            return false;
        }
        self.disable();
        true
    }

    /// Connects the inlet again. Returns whether that changed anything.
    pub fn reconnect(&mut self) -> (changed: bool)
        ensures
            changed == !old(self).enabled,
            *final(self) == (Inlet { enabled: true, ..*old(self) }),
    {
        if self.enabled {
            return false;
        }
        self.enable();
        true
    }

    pub fn disable(&mut self)
        ensures
            *final(self) == (Inlet { enabled: false, ..*old(self) }),
    {
        self.enabled = false;
    }

    pub fn enable(&mut self)
        ensures
            *final(self) == (Inlet { enabled: true, ..*old(self) }),
    {
        self.enabled = true;
    }
}

/// What an accepted invitation says of the service it gives access to.
#[derive(Debug, PartialEq, Eq)]
pub struct ServiceAccessDetails {
    pub service_name: String,
    /// The project that the enrollment ticket is for, where it names one.
    pub project_id: Option<String>,
    /// The enrollment ticket, in hexadecimal, with the project's name
    /// replaced by its identifier.
    pub enrollment_ticket_hex: String,
}

/// An invitation as the application holds it.
#[derive(Debug, PartialEq, Eq)]
pub struct InvitationWithAccess {
    pub id: String,
    pub expires_at: String,
    pub owner_email: String,
    pub target_id: String,
    pub service_access_details: Option<ServiceAccessDetails>,
}

/// What is needed to set up the inlet of an accepted invitation.
#[derive(Debug, PartialEq, Eq)]
pub struct InletDataFromInvitation {
    pub enabled: bool,
    pub local_node_name: String,
    pub service_name: String,
    pub service_route: String,
    pub enrollment_ticket_hex: Option<String>,
    pub socket_addr: Option<String>,
}

/// The name of the node that serves the inlet to a service of a project.
pub open spec fn spec_local_node_name(project_id: Seq<char>, service_name: Seq<char>) -> Seq<
    char,
> {
    "ockam_app_"@ + project_id + "_"@ + service_name
}

/// The route to a service of a project through the relay of the
/// application that shares it.
pub open spec fn spec_service_route(project_id: Seq<char>, service_name: Seq<char>) -> Seq<char> {
    "/project/"@ + project_id + "/service/forward_to_ockam_app/secure/api/service/"@
        + service_name
}

/// The inlet that the table has for the invitation `id`, if it has one.
pub open spec fn spec_existing_inlet(inlets: Seq<(String, Inlet)>, id: Seq<char>) -> Option<Inlet> {
    match spec_inlet_position(table_view(inlets), id, 0) {
        Some(i) => Some(inlets[i].1),
        None => None,
    }
}

impl InletDataFromInvitation {
    /// The inlet data of an invitation, given whether the invitation has
    /// expired and the table of the inlets that exist already.
    ///
    /// There is none where the invitation gives no access to a service or
    /// its ticket names no project. The ticket is kept only while the
    /// invitation has not expired. An existing inlet decides whether the
    /// inlet is enabled and where it listens; without one the inlet is
    /// enabled and its address is open.
    pub fn new(
        invitation: &InvitationWithAccess,
        is_expired: bool,
        inlets: &Vec<(String, Inlet)>,
    ) -> (data: Option<Self>)
        ensures
            match (invitation.service_access_details, data) {
                (None, None) => true,
                (Some(details), None) => details.project_id is None,
                (Some(details), Some(d)) => match details.project_id {
                    None => false,
                    Some(project_id) => {
                        &&& d.service_name@ == details.service_name@
                        &&& d.local_node_name@ == spec_local_node_name(
                            project_id@,
                            details.service_name@,
                        )
                        &&& d.service_route@ == spec_service_route(
                            project_id@,
                            details.service_name@,
                        )
                        &&& match d.enrollment_ticket_hex {
                            Some(ticket) => !is_expired && ticket@
                                == details.enrollment_ticket_hex@,
                            None => is_expired,
                        }
                        &&& match spec_existing_inlet(inlets@, invitation.id@) {
                            Some(existing) => d.enabled == existing.enabled && (
                            d.socket_addr matches Some(address) && address@
                                == existing.socket_addr@),
                            None => d.enabled && d.socket_addr is None,
                        }
                    },
                },
                (None, Some(_)) => false,
            },
    {
        let inlet = find_inlet(inlets, invitation.id.as_str());
        let details = match &invitation.service_access_details {
            None => {
                return None;
            },
            Some(details) => details,
        };
        let project_id = match &details.project_id {
            None => {
                return None;
            },
            Some(project_id) => project_id,
        };
        let enrollment_ticket_hex = if is_expired {
            None
        } else {
            Some(details.enrollment_ticket_hex.clone())
        };
        let mut local_node_name = String::from_str("ockam_app_");
        local_node_name.append(project_id.as_str());
        local_node_name.append("_");
        local_node_name.append(details.service_name.as_str());
        let mut service_route = String::from_str("/project/");
        service_route.append(project_id.as_str());
        service_route.append("/service/forward_to_ockam_app/secure/api/service/");
        service_route.append(details.service_name.as_str());
        let (enabled, socket_addr) = match inlet {
            Some(existing) => (existing.enabled, Some(existing.socket_addr.clone())),
            None => (true, None),
        };
        Some(
            InletDataFromInvitation {
                enabled,
                local_node_name,
                service_name: details.service_name.clone(),
                service_route,
                enrollment_ticket_hex,
                socket_addr,
            },
        )
    }
}

/// What to do about the inlet of an accepted invitation when the inlets
/// are refreshed.
#[derive(Debug, PartialEq, Eq)]
pub enum InletStep {
    /// The user has disabled the inlet: leave it.
    Skip,
    /// The node runs and serves the inlet at this address: keep it.
    Keep(String),
    /// Delete the node, if any, and set the inlet up anew.
    Recreate,
}

/// Decides what to do about an inlet, given whether its node runs and the
/// address at which the node serves the inlet, if it does.
pub fn refresh_step(data: &InletDataFromInvitation, node_is_running: bool, bind_addr: Option<
    &String,
>) -> (step: InletStep)
    ensures
        match step {
            InletStep::Skip => !data.enabled,
            InletStep::Keep(address) => data.enabled && node_is_running && (
            bind_addr matches Some(served) && served@ == address@),
            InletStep::Recreate => data.enabled && !(node_is_running && bind_addr is Some),
        },
{
    if !data.enabled {
        return InletStep::Skip;
    }
    if node_is_running {
        match bind_addr {
            Some(served) => {
                return InletStep::Keep(served.clone());
            },
            None => {},
        }
    }
    InletStep::Recreate
}

/// What to do about the relay of the application.
#[derive(Debug, PartialEq, Eq)]
pub enum RelayStep {
    /// The user is not enrolled, or has no default project: no relay.
    Skip,
    /// The relay exists: use it.
    Existing,
    /// Create the relay at the project with this route.
    Create(String),
}

/// Decides what to do about the relay, given whether the user is enrolled,
/// the name of the default project if there is one, and whether the relay
/// exists already.
pub fn relay_step(is_enrolled: bool, default_project: Option<&String>, relay_exists: bool) -> (step:
    RelayStep)
    ensures
        match step {
            RelayStep::Skip => !is_enrolled || default_project is None,
            RelayStep::Existing => is_enrolled && default_project is Some && relay_exists,
            RelayStep::Create(route) => is_enrolled && !relay_exists && (
            default_project matches Some(project) && route@ == "/project/"@ + project@),
        },
{
    if !is_enrolled {
        return RelayStep::Skip;
    }
    match default_project {
        None => RelayStep::Skip,
        Some(project) => {
            if relay_exists {
                RelayStep::Existing
            } else {
                let mut route = String::from_str("/project/");
                route.append(project.as_str());
                RelayStep::Create(route)
            }
        },
    }
}

/// The position of the first project, from `from` on, called `name`. A
/// project is its name and its identifier.
pub open spec fn spec_project_position(
    projects: Seq<(String, String)>,
    name: Seq<char>,
    from: int,
) -> Option<int>
    decreases projects.len() - from,
{
    if from < 0 || from >= projects.len() {
        None
    } else if projects[from].0@ == name {
        Some(from)
    } else {
        spec_project_position(projects, name, from + 1)
    }
}

/// The identifier of the first project called `name`, for which a service
/// invitation is created; an error where there is no such project.
pub fn default_project_id(projects: &Vec<(String, String)>, name: &str) -> (r: Result<
    String,
    String,
>)
    ensures
        match spec_project_position(projects@, name@, 0) {
            Some(i) => r matches Ok(id) && id@ == projects@[i].1@,
            None => r matches Err(message) && message@ == "could not find default project"@,
        },
{
    let mut i: usize = 0;
    while i < projects.len()
        invariant
            0 <= i <= projects@.len(),
            spec_project_position(projects@, name@, 0) == spec_project_position(
                projects@,
                name@,
                i as int,
            ),
        decreases projects@.len() - i,
    {
        if same_text(projects[i].0.as_str(), name) {
            return Ok(projects[i].1.clone());
        }
        i += 1;
    }
    Err(String::from_str("could not find default project"))
}

/// Something to ask of the background node when an inlet is set up.
#[derive(Debug, PartialEq, Eq)]
pub enum InletCall {
    /// Enroll the node with the ticket.
    Enroll { node_name: String, enrollment_ticket_hex: String },
    /// Create the node.
    CreateNode { node_name: String },
    /// Create the inlet on the node, listening at `from`.
    CreateInlet { node_name: String, from: String, service_route: String, service_name: String },
}

pub enum InletCallView {
    Enroll { node_name: Seq<char>, enrollment_ticket_hex: Seq<char> },
    CreateNode { node_name: Seq<char> },
    CreateInlet {
        node_name: Seq<char>,
        from: Seq<char>,
        service_route: Seq<char>,
        service_name: Seq<char>,
    },
}

impl View for InletCall {
    type V = InletCallView;

    open spec fn view(&self) -> InletCallView {
        match self {
            InletCall::Enroll { node_name, enrollment_ticket_hex } => InletCallView::Enroll {
                node_name: node_name@,
                enrollment_ticket_hex: enrollment_ticket_hex@,
            },
            InletCall::CreateNode { node_name } => InletCallView::CreateNode {
                node_name: node_name@,
            },
            InletCall::CreateInlet {
                node_name,
                from,
                service_route,
                service_name,
            } => InletCallView::CreateInlet {
                node_name: node_name@,
                from: from@,
                service_route: service_route@,
                service_name: service_name@,
            },
        }
    }
}

/// The address at which the inlet listens: the one it had, else the free
/// one.
pub open spec fn spec_inlet_address(data: InletDataFromInvitation, free_address: Seq<char>) -> Seq<
    char,
> {
    match data.socket_addr {
        Some(address) => address@,
        None => free_address,
    }
}

/// The calls that set up an enabled inlet, in order: the node is enrolled
/// first exactly when there is a ticket, then the node is created, then
/// the inlet.
pub open spec fn spec_inlet_calls(data: InletDataFromInvitation, free_address: Seq<char>) -> Seq<
    InletCallView,
> {
    (match data.enrollment_ticket_hex {
        Some(ticket) => seq![
            InletCallView::Enroll {
                node_name: data.local_node_name@,
                enrollment_ticket_hex: ticket@,
            },
        ],
        None => Seq::empty(),
    }) + seq![
        InletCallView::CreateNode { node_name: data.local_node_name@ },
        InletCallView::CreateInlet {
            node_name: data.local_node_name@,
            from: spec_inlet_address(data, free_address),
            service_route: data.service_route@,
            service_name: data.service_name@,
        },
    ]
}

/// The calls that create the inlet of an accepted invitation, given an
/// address that is free on this machine. An inlet that the user has
/// disabled is refused.
pub fn inlet_calls(data: &InletDataFromInvitation, free_address: &str) -> (r: Result<
    Vec<InletCall>,
    String,
>)
    ensures
        !data.enabled ==> (r matches Err(message) && message@
            == "TCP inlet is disabled by the user"@),
        data.enabled ==> (r matches Ok(calls) && views(calls@) == spec_inlet_calls(
            *data,
            free_address@,
        )),
{
    if !data.enabled {
        return Err(String::from_str("TCP inlet is disabled by the user"));
    }
    let from = match &data.socket_addr {
        Some(address) => address.clone(),
        None => String::from_str(free_address),
    };
    let mut calls: Vec<InletCall> = Vec::new();
    match &data.enrollment_ticket_hex {
        Some(ticket) => {
            calls.push(
                InletCall::Enroll {
                    node_name: data.local_node_name.clone(),
                    enrollment_ticket_hex: ticket.clone(),
                },
            );
        },
        None => {},
    }
    calls.push(InletCall::CreateNode { node_name: data.local_node_name.clone() });
    calls.push(
        InletCall::CreateInlet {
            node_name: data.local_node_name.clone(),
            from,
            service_route: data.service_route.clone(),
            service_name: data.service_name.clone(),
        },
    );
    assert(views(calls@) =~= spec_inlet_calls(*data, free_address@));
    Ok(calls)
}

pub struct InletView {
    pub node_name: Seq<char>,
    pub alias: Seq<char>,
    pub socket_addr: Seq<char>,
    pub enabled: bool,
}

impl View for Inlet {
    type V = InletView;

    open spec fn view(&self) -> InletView {
        InletView {
            node_name: self.node_name@,
            alias: self.alias@,
            socket_addr: self.socket_addr@,
            enabled: self.enabled,
        }
    }
}

/// The table of inlets as plain values: for each invitation that has one,
/// its identifier and its inlet.
pub open spec fn table_view(inlets: Seq<(String, Inlet)>) -> Seq<(Seq<char>, InletView)> {
    Seq::new(inlets.len(), |i: int| (inlets[i].0@, inlets[i].1@))
}

/// The position of the first entry of the table, from `from` on, for the
/// invitation `id`.
pub open spec fn spec_inlet_position(
    table: Seq<(Seq<char>, InletView)>,
    id: Seq<char>,
    from: int,
) -> Option<int>
    decreases table.len() - from,
{
    if from < 0 || from >= table.len() {
        None
    } else if table[from].0 == id {
        Some(from)
    } else {
        spec_inlet_position(table, id, from + 1)
    }
}

/// The table with `inlet` as the inlet of the invitation `id`: in place of
/// the inlet that the invitation had, else at the end.
pub open spec fn spec_insert_inlet(
    table: Seq<(Seq<char>, InletView)>,
    id: Seq<char>,
    inlet: InletView,
) -> Seq<(Seq<char>, InletView)> {
    match spec_inlet_position(table, id, 0) {
        Some(at) => table.update(at, (id, inlet)),
        None => table.push((id, inlet)),
    }
}

/// What a refresh found of the inlet of one accepted invitation: the data
/// of the inlet and the address at which it runs now, if it does.
#[derive(Debug, PartialEq, Eq)]
pub struct RefreshedInlet {
    pub invitation_id: String,
    pub data: InletDataFromInvitation,
    pub socket_addr: Option<String>,
}

/// Whether the inlet is enabled and runs.
pub open spec fn spec_runs(refreshed: RefreshedInlet) -> bool {
    refreshed.data.enabled && refreshed.socket_addr is Some
}

/// The inlet that a refresh records for an inlet that runs.
pub open spec fn spec_inlet_of(refreshed: RefreshedInlet) -> InletView {
    InletView {
        node_name: refreshed.data.local_node_name@,
        alias: refreshed.data.service_name@,
        socket_addr: refreshed.socket_addr->Some_0@,
        enabled: true,
    }
}

/// The table after the first `count` findings of a refresh are recorded:
/// each inlet that is enabled and runs is entered under its invitation,
/// the others leave the table as it is.
pub open spec fn spec_refreshed(
    table: Seq<(Seq<char>, InletView)>,
    refreshed: Seq<RefreshedInlet>,
    count: nat,
) -> Seq<(Seq<char>, InletView)>
    decreases count,
{
    if count == 0 {
        table
    } else {
        let before = spec_refreshed(table, refreshed, (count - 1) as nat);
        if spec_runs(refreshed[count - 1]) {
            spec_insert_inlet(
                before,
                refreshed[count - 1].invitation_id@,
                spec_inlet_of(refreshed[count - 1]),
            )
        } else {
            before
        }
    }
}

/// The inlet of the invitation `id`, if the table has one.
pub fn find_inlet<'a>(inlets: &'a Vec<(String, Inlet)>, id: &str) -> (found: Option<&'a Inlet>)
    ensures
        match found {
            Some(inlet) => spec_inlet_position(table_view(inlets@), id@, 0) matches Some(i)
                && *inlet == inlets@[i].1,
            None => spec_inlet_position(table_view(inlets@), id@, 0) is None,
        },
{
    match inlet_position(inlets, id) {
        Some(i) => Some(&inlets[i].1),
        None => None,
    }
}

fn inlet_position(inlets: &Vec<(String, Inlet)>, id: &str) -> (position: Option<usize>)
    ensures
        match position {
            Some(i) => spec_inlet_position(table_view(inlets@), id@, 0) == Some(i as int) && i
                < inlets@.len(),
            None => spec_inlet_position(table_view(inlets@), id@, 0) is None,
        },
{
    let mut i: usize = 0;
    while i < inlets.len()
        invariant
            0 <= i <= inlets@.len(),
            spec_inlet_position(table_view(inlets@), id@, 0) == spec_inlet_position(
                table_view(inlets@),
                id@,
                i as int,
            ),
        decreases inlets@.len() - i,
    {
        if same_text(inlets[i].0.as_str(), id) {
            return Some(i);
        }
        i += 1;
    }
    None
}

/// Records what a refresh found: every inlet that is enabled and runs is
/// entered in the table under its invitation, in place of the inlet that
/// the invitation had, if it had one. Where nothing was found the table
/// stays as it is.
pub fn record_refresh(inlets: &mut Vec<(String, Inlet)>, refreshed: &Vec<RefreshedInlet>)
    ensures
        table_view(final(inlets)@) == spec_refreshed(
            table_view(old(inlets)@),
            refreshed@,
            refreshed@.len(),
        ),
        refreshed@.len() == 0 ==> *final(inlets) == *old(inlets),
{
    let mut i: usize = 0;
    while i < refreshed.len()
        invariant
            0 <= i <= refreshed@.len(),
            i == 0 ==> *inlets == *old(inlets),
            table_view(inlets@) == spec_refreshed(table_view(old(inlets)@), refreshed@, i as nat),
        decreases refreshed@.len() - i,
    {
        let found = &refreshed[i];
        match &found.socket_addr {
            Some(address) => {
                if found.data.enabled {
                    let ghost before = table_view(inlets@);
                    let inlet = Inlet {
                        node_name: found.data.local_node_name.clone(),
                        alias: found.data.service_name.clone(),
                        socket_addr: address.clone(),
                        enabled: true,
                    };
                    let id = found.invitation_id.clone();
                    match inlet_position(inlets, id.as_str()) {
                        Some(at) => {
                            inlets[at] = (id, inlet);
                            assert(table_view(inlets@) =~= before.update(
                                at as int,
                                (id@, inlet@),
                            ));
                        },
                        None => {
                            inlets.push((id, inlet));
                            assert(table_view(inlets@) =~= before.push((id@, inlet@)));
                        },
                    }
                }
            },
            None => {},
        }
        i += 1;
    }
}

/// An entry of the table is found where it stands, under its invitation.
pub proof fn lemma_inlet_position_is_of_id(
    table: Seq<(Seq<char>, InletView)>,
    id: Seq<char>,
    from: int,
)
    requires
        0 <= from,
    ensures
        spec_inlet_position(table, id, from) matches Some(i) ==> from <= i < table.len()
            && table[i].0 == id,
    decreases table.len() - from,
{
    if from < table.len() && table[from].0 != id {
        lemma_inlet_position_is_of_id(table, id, from + 1);
    }
}

/// After an inlet is entered under `id`, an invitation has an inlet
/// exactly if it is `id` or had one before.
pub proof fn lemma_insert_inlet_finds(
    table: Seq<(Seq<char>, InletView)>,
    id: Seq<char>,
    inlet: InletView,
    key: Seq<char>,
)
    ensures
        spec_inlet_position(spec_insert_inlet(table, id, inlet), key, 0) is Some <==> key == id
            || spec_inlet_position(table, key, 0) is Some,
{
    lemma_inlet_position_is_of_id(table, id, 0);
    match spec_inlet_position(table, id, 0) {
        Some(at) => {
            lemma_same_keys_same_position(table, table.update(at, (id, inlet)), key, 0);
        },
        None => {
            lemma_pushed_inlet_is_found(table, (id, inlet), key, 0);
        },
    }
}

proof fn lemma_same_keys_same_position(
    table: Seq<(Seq<char>, InletView)>,
    other: Seq<(Seq<char>, InletView)>,
    key: Seq<char>,
    from: int,
)
    requires
        0 <= from,
        table.len() == other.len(),
        forall|i: int| 0 <= i < table.len() ==> (#[trigger] table[i]).0 == other[i].0,
    ensures
        spec_inlet_position(table, key, from) == spec_inlet_position(other, key, from),
    decreases table.len() - from,
{
    if from < table.len() {
        assert(table[from].0 == other[from].0);
        lemma_same_keys_same_position(table, other, key, from + 1);
    }
}

proof fn lemma_pushed_inlet_is_found(
    table: Seq<(Seq<char>, InletView)>,
    entry: (Seq<char>, InletView),
    key: Seq<char>,
    from: int,
)
    requires
        0 <= from <= table.len(),
    ensures
        spec_inlet_position(table.push(entry), key, from) is Some <==> entry.0 == key
            || spec_inlet_position(table, key, from) is Some,
    decreases table.len() - from,
{
    let longer = table.push(entry);
    if from < table.len() {
        assert(longer[from] == table[from]);
        lemma_pushed_inlet_is_found(table, entry, key, from + 1);
    } else {
        assert(longer[from] == entry);
        assert(spec_inlet_position(longer, key, from + 1) is None);
    }
}

/// A refresh keeps every invitation that had an inlet, and gives an inlet
/// to an invitation that had none only where it found an inlet of that
/// invitation that is enabled and runs.
pub proof fn lemma_refresh_keeps_and_adds_only_running(
    table: Seq<(Seq<char>, InletView)>,
    refreshed: Seq<RefreshedInlet>,
    count: nat,
    key: Seq<char>,
)
    requires
        count <= refreshed.len(),
    ensures
        spec_inlet_position(table, key, 0) is Some ==> spec_inlet_position(
            spec_refreshed(table, refreshed, count),
            key,
            0,
        ) is Some,
        spec_inlet_position(spec_refreshed(table, refreshed, count), key, 0) is Some
            && spec_inlet_position(table, key, 0) is None ==> exists|j: int|
            0 <= j < count && (#[trigger] refreshed[j]).invitation_id@ == key && spec_runs(
                refreshed[j],
            ),
    decreases count,
{
    if count > 0 {
        lemma_refresh_keeps_and_adds_only_running(table, refreshed, (count - 1) as nat, key);
        let before = spec_refreshed(table, refreshed, (count - 1) as nat);
        let found = refreshed[count - 1];
        if spec_runs(found) {
            lemma_insert_inlet_finds(before, found.invitation_id@, spec_inlet_of(found), key);
        }
    }
}

} // verus!
