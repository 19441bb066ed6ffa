//! What the status of this machine is made of: the identities, each with
//! the nodes that run under it.

use vstd::prelude::*;
use crate::cli_state::{
    spec_enrolled, CliState, EnrollmentStatus, IdentityEnrollment, IdentityEnrollmentView,
};
use crate::codec::views;
use crate::command::{spec_wrote_lines, CommandError, CommandGlobalOpts};
use crate::identity::Identifier;
use crate::text::{hex_encode, spec_hex};

verus! {

/// Shows the status of this machine.
#[derive(Clone, Copy, Debug, PartialEq, Eq, Structural)]
pub struct StatusCommand {
    /// Show status for all identities; default: enrolled only.
    pub all: bool,
    /// Seconds to wait for an answer.
    pub timeout: u64,
}

impl StatusCommand {
    /// Which identities this command reports on.
    pub fn enrollment_status(&self) -> (status: EnrollmentStatus)
        ensures
            status == if self.all {
                EnrollmentStatus::Any
            } else {
                EnrollmentStatus::Enrolled
            },
    {
        if self.all {
            EnrollmentStatus::Any
        } else {
            EnrollmentStatus::Enrolled
        }
    }
}

/// A node with the identity it runs under and what it answered when asked
/// for its status.
#[derive(Debug, PartialEq, Eq)]
pub struct NodeDetails {
    pub identifier: Identifier,
    pub name: String,
    pub status: String,
}

pub struct NodeDetailsView {
    pub identifier: Seq<u8>,
    pub name: Seq<char>,
    pub status: Seq<char>,
}

impl View for NodeDetails {
    type V = NodeDetailsView;

    open spec fn view(&self) -> NodeDetailsView {
        NodeDetailsView { identifier: self.identifier@, name: self.name@, status: self.status@ }
    }
}

impl Clone for NodeDetails {
    fn clone(&self) -> (copy: Self)
        ensures
            copy@ == self@,
    {
        NodeDetails {
            identifier: self.identifier.clone(),
            name: self.name.clone(),
            status: self.status.clone(),
        }
    }
}

/// An identity with the nodes linked to it.
#[derive(Debug, PartialEq, Eq)]
pub struct IdentityWithLinkedNodes {
    pub identity: IdentityEnrollment,
    pub nodes: Vec<NodeDetails>,
}

impl IdentityWithLinkedNodes {
    pub fn identifier(&self) -> (identifier: Identifier)
        ensures
            identifier@ == self.identity.identifier@,
    {
        self.identity.identifier()
    }
}

/// The versions that the orchestrator reports.
#[derive(Debug, PartialEq, Eq)]
pub struct OrchestratorVersionInfo {
    pub version: Option<String>,
    pub project_version: Option<String>,
}

/// The status of this machine.
#[derive(Debug, PartialEq, Eq)]
pub struct StatusData {
    pub orchestrator_version: OrchestratorVersionInfo,
    pub identities: Vec<IdentityWithLinkedNodes>,
}

/// The first `count` of `nodes` that run under `identifier`, in order.
pub open spec fn spec_retained(
    nodes: Seq<NodeDetailsView>,
    identifier: Seq<u8>,
    count: nat,
) -> Seq<NodeDetailsView>
    decreases count,
{
    if count == 0 {
        Seq::empty()
    } else {
        let before = spec_retained(nodes, identifier, (count - 1) as nat);
        if nodes[count - 1].identifier == identifier {
            before.push(nodes[count - 1])
        } else {
            before
        }
    }
}

/// The nodes that are left when the first `count` identities have each, in
/// turn, kept of the nodes only their own.
pub open spec fn spec_left(
    identities: Seq<IdentityEnrollmentView>,
    nodes: Seq<NodeDetailsView>,
    count: nat,
) -> Seq<NodeDetailsView>
    decreases count,
{
    if count == 0 {
        nodes
    } else {
        let before = spec_left(identities, nodes, (count - 1) as nat);
        spec_retained(before, identities[count - 1].identifier, before.len())
    }
}

/// Keeps of `nodes` those that run under `identifier`.
fn retain(nodes: &Vec<NodeDetails>, identifier: &Identifier) -> (kept: Vec<NodeDetails>)
    ensures
        views(kept@) == spec_retained(views(nodes@), identifier@, nodes@.len()),
{
    let mut kept: Vec<NodeDetails> = Vec::new();
    let mut i: usize = 0;
    while i < nodes.len()
        invariant
            0 <= i <= nodes@.len(),
            views(kept@) == spec_retained(views(nodes@), identifier@, i as nat),
        decreases nodes@.len() - i,
    {
        if nodes[i].identifier.same_as(identifier) {
            let ghost before = views(kept@);
            let node = nodes[i].clone();
            kept.push(node);
            assert(views(kept@) =~= before.push(node@));
        }
        i += 1;
    }
    kept
}

fn clone_nodes(nodes: &Vec<NodeDetails>) -> (copy: Vec<NodeDetails>)
    ensures
        views(copy@) == views(nodes@),
{
    let mut copy: Vec<NodeDetails> = Vec::new();
    let mut i: usize = 0;
    while i < nodes.len()
        invariant
            0 <= i <= nodes@.len(),
            views(copy@) == views(nodes@).take(i as int),
        decreases nodes@.len() - i,
    {
        let ghost before = views(copy@);
        let node = nodes[i].clone();
        copy.push(node);
        assert(views(copy@) =~= before.push(node@));
        assert(views(nodes@).take(i + 1) =~= views(nodes@).take(i as int).push(
            views(nodes@)[i as int],
        ));
        i += 1;
    }
    assert(views(nodes@).take(nodes@.len() as int) =~= views(nodes@));
    copy
}

/// Whether `status` is what linking the nodes to the identities gives,
/// with the versions given.
pub open spec fn spec_linked(
    status: StatusData,
    orchestrator_version: OrchestratorVersionInfo,
    identities: Seq<IdentityEnrollmentView>,
    nodes: Seq<NodeDetailsView>,
) -> bool {
    &&& status.orchestrator_version == orchestrator_version
    &&& status.identities@.len() == identities.len()
    &&& forall|i: int|
        0 <= i < identities.len() ==> {
            let linked = #[trigger] status.identities@[i];
            &&& linked.identity@ == identities[i]
            &&& views(linked.nodes@) == spec_left(identities, nodes, (i + 1) as nat)
        }
}

impl StatusData {
    /// Links the nodes to the identities. Each identity in turn keeps of the
    /// nodes that are left only those that run under it, so that an identity
    /// is linked to the nodes that run under it and under every identity
    /// before it.
    pub fn from_parts(
        orchestrator_version: OrchestratorVersionInfo,
        identities_details: Vec<IdentityEnrollment>,
        nodes_details: Vec<NodeDetails>,
    ) -> (status: Self)
        ensures
            spec_linked(
                status,
                orchestrator_version,
                views(identities_details@),
                views(nodes_details@),
            ),
    {
        let mut nodes = nodes_details;
        let mut identities: Vec<IdentityWithLinkedNodes> = Vec::new();
        let mut i: usize = 0;
        while i < identities_details.len()
            invariant
                0 <= i <= identities_details@.len(),
                identities@.len() == i,
                views(nodes@) == spec_left(
                    views(identities_details@),
                    views(nodes_details@),
                    i as nat,
                ),
                forall|j: int|
                    0 <= j < i ==> {
                        let linked = #[trigger] identities@[j];
                        &&& linked.identity@ == views(identities_details@)[j]
                        &&& views(linked.nodes@) == spec_left(
                            views(identities_details@),
                            views(nodes_details@),
                            (j + 1) as nat,
                        )
                    },
            decreases identities_details@.len() - i,
        {
            let identity = identities_details[i].clone();
            nodes = retain(&nodes, &identity.identifier);
            let linked = clone_nodes(&nodes);
            identities.push(IdentityWithLinkedNodes { identity, nodes: linked });
            i += 1;
        }
        StatusData { orchestrator_version, identities }
    }
}

/// The identities to report on: all of them, or the enrolled ones.
pub fn get_identities_details(state: &CliState, all: bool) -> (details: Vec<IdentityEnrollment>)
    ensures
        views(details@) == if all {
            views(state.enrollments@)
        } else {
            spec_enrolled(views(state.enrollments@), state.enrollments@.len())
        },
{
    let enrollment_status = if all {
        EnrollmentStatus::Any
    } else {
        EnrollmentStatus::Enrolled
    };
    state.get_identity_enrollments(enrollment_status)
}

/// A version as it is shown: itself, or `N/A` where it is not known.
pub open spec fn spec_version_text(version: Option<String>) -> Seq<char> {
    match version {
        Some(known) => known@,
        None => "N/A"@,
    }
}

/// What is said where there is no identity to report on.
pub open spec fn spec_no_identities(all: bool) -> Seq<char> {
    if all {
        "No identities found!"@
    } else {
        "No enrolled identities could be found. Try passing the `--all` argument to see all identities, and not just the enrolled ones. Also consider running `ockam enroll` to enroll an identity."@
    }
}

/// The lines on the first `count` of the nodes linked to an identity.
pub open spec fn spec_node_lines(nodes: Seq<NodeDetails>, count: nat) -> Seq<Seq<char>>
    decreases count,
{
    if count == 0 {
        Seq::empty()
    } else {
        spec_node_lines(nodes, (count - 1) as nat).push(
            "  Node: "@ + nodes[count - 1].name@ + " "@ + nodes[count - 1].status@,
        )
    }
}

/// The lines on the first `count` identities: for each its identifier and
/// then its linked nodes.
pub open spec fn spec_identity_lines(identities: Seq<IdentityWithLinkedNodes>, count: nat) -> Seq<
    Seq<char>,
>
    decreases count,
{
    if count == 0 {
        Seq::empty()
    } else {
        let identity = identities[count - 1];
        spec_identity_lines(identities, (count - 1) as nat).push(
            "Identity: I"@ + spec_hex(identity.identity.identifier@),
        ) + spec_node_lines(identity.nodes@, identity.nodes@.len())
    }
}

/// The status as lines of text: the two versions, and then the
/// identities, or the sentence that says that there are none.
pub open spec fn spec_plain_output(all: bool, status: StatusData) -> Seq<Seq<char>> {
    seq![
        "Controller version: "@ + spec_version_text(status.orchestrator_version.version),
        "Project version: "@ + spec_version_text(status.orchestrator_version.project_version),
    ] + if status.identities@.len() == 0 {
        seq![spec_no_identities(all)]
    } else {
        spec_identity_lines(status.identities@, status.identities@.len())
    }
}

fn version_line(label: &str, version: &Option<String>) -> (line: String)
    ensures
        line@ == label@ + spec_version_text(*version),
{
    let mut line = String::from_str(label);
    match version {
        Some(known) => line.append(known.as_str()),
        None => line.append("N/A"),
    }
    line
}

/// The status as lines of text.
pub fn build_plain_output(cmd: &StatusCommand, status: &StatusData) -> (lines: Vec<String>)
    ensures
        views(lines@) == spec_plain_output(cmd.all, *status),
{
    let mut lines: Vec<String> = Vec::new();
    lines.push(version_line("Controller version: ", &status.orchestrator_version.version));
    lines.push(version_line("Project version: ", &status.orchestrator_version.project_version));
    let ghost head = views(lines@);
    assert(head =~= seq![
        "Controller version: "@ + spec_version_text(status.orchestrator_version.version),
        "Project version: "@ + spec_version_text(status.orchestrator_version.project_version),
    ]);
    if status.identities.len() == 0 {
        if cmd.all {
            lines.push(String::from_str("No identities found!"));
        } else {
            lines.push(
                String::from_str(
                    "No enrolled identities could be found. Try passing the `--all` argument to see all identities, and not just the enrolled ones. Also consider running `ockam enroll` to enroll an identity.",
                ),
            );
        }
        assert(views(lines@) =~= head + seq![spec_no_identities(cmd.all)]);
        return lines;
    }
    let mut i: usize = 0;
    while i < status.identities.len()
        invariant
            0 <= i <= status.identities@.len(),
            views(lines@) == head + spec_identity_lines(status.identities@, i as nat),
        decreases status.identities@.len() - i,
    {
        let identity = &status.identities[i];
        let digits = hex_encode(identity.identity.identifier.0.as_slice());
        let mut line = String::from_str("Identity: I");
        line.append(digits.as_str());
        let ghost before = views(lines@);
        let ghost shown = line@;
        lines.push(line);
        let ghost first = head + spec_identity_lines(status.identities@, i as nat).push(
            "Identity: I"@ + spec_hex(identity.identity.identifier@),
        );
        assert(views(lines@) =~= before.push(shown));
        assert(shown =~= "Identity: I"@ + spec_hex(identity.identity.identifier@));
        assert(views(lines@) =~= first);
        let mut j: usize = 0;
        while j < identity.nodes.len()
            invariant
                0 <= j <= identity.nodes@.len(),
                views(lines@) == first + spec_node_lines(identity.nodes@, j as nat),
            decreases identity.nodes@.len() - j,
        {
            let node = &identity.nodes[j];
            let mut text = String::from_str("  Node: ");
            text.append(node.name.as_str());
            text.append(" ");
            text.append(node.status.as_str());
            let ghost before = views(lines@);
            let ghost shown = text@;
            lines.push(text);
            assert(views(lines@) =~= before.push(shown));
            assert(shown =~= "  Node: "@ + node.name@ + " "@ + node.status@);
            assert(views(lines@) =~= first + spec_node_lines(identity.nodes@, (j + 1) as nat));
            j += 1;
        }
        assert(views(lines@) =~= head + spec_identity_lines(
            status.identities@,
            (i + 1) as nat,
        ));
        i += 1;
    }
    lines
}

/// The identities that a status command reports on.
pub open spec fn spec_reported(state: CliState, all: bool) -> Seq<IdentityEnrollmentView> {
    if all {
        views(state.enrollments@)
    } else {
        spec_enrolled(views(state.enrollments@), state.enrollments@.len())
    }
}

impl StatusCommand {
    /// What running this command does, given the versions that the
    /// orchestrator reported and the nodes with what each answered: it links
    /// the nodes to the identities that it reports on and writes the status
    /// as plain lines.
    pub open spec fn ran(
        self,
        before: CommandGlobalOpts,
        after: CommandGlobalOpts,
        result: Result<(), CommandError>,
        orchestrator_version: OrchestratorVersionInfo,
        nodes: Seq<NodeDetailsView>,
    ) -> bool {
        &&& result is Ok
        &&& exists|status: StatusData|
            {
                &&& spec_linked(
                    status,
                    orchestrator_version,
                    spec_reported(before.state, self.all),
                    nodes,
                )
                &&& spec_wrote_lines(before, after, spec_plain_output(self.all, status))
            }
    }

    pub fn run(
        self,
        options: &mut CommandGlobalOpts,
        orchestrator_version: OrchestratorVersionInfo,
        nodes_details: Vec<NodeDetails>,
    ) -> (result: Result<(), CommandError>)
        ensures
            self.ran(
                *old(options),
                *final(options),
                result,
                orchestrator_version,
                views(nodes_details@),
            ),
    {
        let identities_details = get_identities_details(&options.state, self.all);
        let ghost reported = views(identities_details@);
        let ghost nodes = views(nodes_details@);
        let status = StatusData::from_parts(orchestrator_version, identities_details, nodes_details);
        let lines = build_plain_output(&self, &status);
        options.write_lines(&lines);
        proof {
            assert(reported == spec_reported(old(options).state, self.all));
            assert(spec_linked(status, orchestrator_version, reported, nodes));
            assert(spec_wrote_lines(
                *old(options),
                *options,
                spec_plain_output(self.all, status),
            ));
        }
        Ok(())
    }
}

} // verus!
