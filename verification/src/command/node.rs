//! The commands on nodes.

use vstd::prelude::*;
use crate::cli_state::{
    lemma_node_by_name_has_name, spec_default_node, spec_is_no_such_node, spec_node_by_name,
    spec_node_made_default, CliState, CliStateError, NodeInfo,
};
use crate::codec::views;
use crate::command::{
    option_text, spec_line_is, spec_wrote_line, CommandError, CommandGlobalOpts, Effect,
    GlobalArgs, LineKind,
};
use crate::identity::Identifier;
use crate::text::{
    concat3, decimal, hex_encode, join_path, random_bytes, same_text, spec_decimal, spec_hex,
    spec_join, spec_verbosity_flag, verbosity_flag,
};

verus! {

/// What the list of nodes says of one node.
#[derive(Debug, PartialEq, Eq)]
pub struct NodeListOutput {
    pub node_name: String,
    pub pid: Option<u32>,
    pub is_default: bool,
}

/// A node as the list shows it: its name, whether it is the default,
/// whether it is up, and on a second line its process.
pub open spec fn spec_node_output(name: Seq<char>, pid: Option<u32>, is_default: bool) -> Seq<
    char,
> {
    "Node "@ + name + (if is_default {
        " (default)"@
    } else {
        ""@
    }) + " "@ + (match pid {
        Some(_) => "UP"@,
        None => "DOWN"@,
    }) + "\n"@ + (match pid {
        Some(process) => "Process id "@ + spec_decimal(process as nat),
        None => "No process running"@,
    })
}

impl NodeListOutput {
    pub fn new(node_name: String, pid: Option<u32>, is_default: bool) -> (output: Self)
        ensures
            output.node_name == node_name,
            output.pid == pid,
            output.is_default == is_default,
    {
        NodeListOutput { node_name, pid, is_default }
    }

    /// The text of this entry.
    pub fn output(&self) -> (text: String)
        ensures
            text@ == spec_node_output(self.node_name@, self.pid, self.is_default),
    {
        let mark = if self.is_default {
            " (default)"
        } else {
            ""
        };
        let status = match self.pid {
            Some(_) => "UP",
            None => "DOWN",
        };
        let process = match self.pid {
            Some(process) => {
                let number = decimal(process);
                let text = concat3("Process id ", number.as_str(), "");
                assert(text@ =~= "Process id "@ + spec_decimal(process as nat)) by {
                    reveal_strlit("");
                }
                text
            },
            None => String::from_str("No process running"),
        };
        let mut text = concat3("Node ", self.node_name.as_str(), mark);
        text.append(" ");
        text.append(status);
        text.append("\n");
        text.append(process.as_str());
        text
    }
}

/// The entries of the list of nodes, one per node, in order.
pub fn node_list_outputs(state: &CliState) -> (outputs: Vec<NodeListOutput>)
    ensures
        outputs@.len() == state.nodes@.len(),
        forall|i: int|
            0 <= i < outputs@.len() ==> {
                let output = #[trigger] outputs@[i];
                let node = state.nodes@[i];
                &&& output.node_name@ == node.name@
                &&& output.pid == node.pid
                &&& output.is_default == node.is_default
            },
{
    let mut outputs: Vec<NodeListOutput> = Vec::new();
    let mut i: usize = 0;
    while i < state.nodes.len()
        invariant
            0 <= i <= state.nodes@.len(),
            outputs@.len() == i,
            forall|j: int|
                0 <= j < i ==> {
                    let output = #[trigger] outputs@[j];
                    let node = state.nodes@[j];
                    &&& output.node_name@ == node.name@
                    &&& output.pid == node.pid
                    &&& output.is_default == node.is_default
                },
        decreases state.nodes@.len() - i,
    {
        let node = &state.nodes[i];
        outputs.push(NodeListOutput::new(node.name(), node.pid(), node.is_default()));
        i += 1;
    }
    outputs
}

/// Lists the nodes.
#[derive(Debug, PartialEq, Eq)]
pub struct ListCommand {}

impl ListCommand {
    /// What running this command does: it writes a title and a line for
    /// each node, with the node's name as the line's text for programs, or
    /// one line that says that there are no nodes.
    pub open spec fn ran(
        self,
        before: CommandGlobalOpts,
        after: CommandGlobalOpts,
        result: Result<(), CommandError>,
    ) -> bool {
        let nodes = before.state.nodes@;
        let lines = after.terminal.lines@;
        let start = before.terminal.lines@.len() as int;
        &&& result is Ok
        &&& after == (CommandGlobalOpts { terminal: after.terminal, ..before })
        &&& after.terminal.is_tty == before.terminal.is_tty
        &&& lines.len() == start + 1 + nodes.len()
        &&& lines.subrange(0, start) == before.terminal.lines@
        &&& spec_line_is(
            lines[start],
            LineKind::Plain,
            if nodes.len() == 0 {
                "No nodes found on this system."@
            } else {
                "Nodes"@
            },
            None,
        )
        &&& forall|i: int|
            0 <= i < nodes.len() ==> spec_line_is(
                #[trigger] lines[start + 1 + i],
                LineKind::Plain,
                spec_node_output(nodes[i].name@, nodes[i].pid, nodes[i].is_default),
                Some(nodes[i].name@),
            )
    }

    pub fn run(self, options: &mut CommandGlobalOpts) -> (result: Result<(), CommandError>)
        ensures
            self.ran(*old(options), *final(options), result),
    {
        let outputs = node_list_outputs(&options.state);
        let title = if outputs.len() == 0 {
            "No nodes found on this system."
        } else {
            "Nodes"
        };
        let ghost start = options.terminal.lines@.len() as int;
        options.write_line(LineKind::Plain, String::from_str(title), None);
        assert(options.terminal.lines@.subrange(0, start) =~= old(options).terminal.lines@);
        let mut i: usize = 0;
        while i < outputs.len()
            invariant
                0 <= i <= outputs@.len(),
                start == old(options).terminal.lines@.len(),
                outputs@.len() == old(options).state.nodes@.len(),
                forall|j: int|
                    0 <= j < outputs@.len() ==> {
                        let output = #[trigger] outputs@[j];
                        let node = old(options).state.nodes@[j];
                        &&& output.node_name@ == node.name@
                        &&& output.pid == node.pid
                        &&& output.is_default == node.is_default
                    },
                *options == (CommandGlobalOpts { terminal: options.terminal, ..*old(options) }),
                options.terminal.is_tty == old(options).terminal.is_tty,
                options.terminal.lines@.len() == start + 1 + i,
                options.terminal.lines@.subrange(0, start) == old(options).terminal.lines@,
                spec_line_is(options.terminal.lines@[start], LineKind::Plain, title@, None),
                forall|j: int|
                    0 <= j < i ==> spec_line_is(
                        #[trigger] options.terminal.lines@[start + 1 + j],
                        LineKind::Plain,
                        spec_node_output(
                            old(options).state.nodes@[j].name@,
                            old(options).state.nodes@[j].pid,
                            old(options).state.nodes@[j].is_default,
                        ),
                        Some(old(options).state.nodes@[j].name@),
                    ),
            decreases outputs@.len() - i,
        {
            let ghost lines = options.terminal.lines@;
            let text = outputs[i].output();
            let name = outputs[i].node_name.clone();
            proof {
                let output = outputs@[i as int];
            }
            options.write_line(LineKind::Plain, text, Some(name));
            proof {
                let after = options.terminal.lines@;
                assert(after.drop_last() == lines);
                assert(after.subrange(0, start) =~= lines.subrange(0, start));
                assert(after[start] == lines[start]);
                assert forall|j: int| 0 <= j < i + 1 implies spec_line_is(
                    #[trigger] after[start + 1 + j],
                    LineKind::Plain,
                    spec_node_output(
                        old(options).state.nodes@[j].name@,
                        old(options).state.nodes@[j].pid,
                        old(options).state.nodes@[j].is_default,
                    ),
                    Some(old(options).state.nodes@[j].name@),
                ) by {
                    if j < i {
                        assert(after[start + 1 + j] == lines[start + 1 + j]);
                    } else {
                        assert(after[start + 1 + j] == after.last());
                    }
                }
            }
            i += 1;
        }
        Ok(())
    }
}

/// Makes a node the default one.
#[derive(Debug, PartialEq, Eq)]
pub struct DefaultCommand {
    /// Name of the node to set as default.
    pub node_name: String,
}

/// Whether the first node called `name` is a default.
pub open spec fn spec_is_default_node(state: CliState, name: Seq<char>) -> bool {
    match spec_node_by_name(state.nodes@, name, 0) {
        Some(i) => state.nodes@[i].is_default,
        None => false,
    }
}

impl DefaultCommand {
    /// What running this command does. A node that is the default already
    /// is an error, and so is a name that no node has; neither changes
    /// anything. Otherwise the nodes of the name become the only default,
    /// and a line reports it, with the name as its text for programs.
    pub open spec fn ran(
        self,
        before: CommandGlobalOpts,
        after: CommandGlobalOpts,
        result: Result<(), CommandError>,
    ) -> bool {
        if spec_is_default_node(before.state, self.node_name@) {
            &&& after == before
            &&& result matches Err(CommandError::Message(message)) && message@ == "The node '"@
                + self.node_name@ + "' is already the default"@
        } else if spec_node_by_name(before.state.nodes@, self.node_name@, 0) is None {
            &&& after == before
            &&& result matches Err(CommandError::State(error)) && spec_is_no_such_node(
                error,
                self.node_name@,
            )
        } else {
            &&& result is Ok
            &&& exists|marked: CommandGlobalOpts|
                {
                    &&& marked == (CommandGlobalOpts { state: marked.state, ..before })
                    &&& spec_node_made_default(before.state, marked.state, self.node_name@)
                    &&& spec_wrote_line(
                        marked,
                        after,
                        LineKind::Success,
                        "The node '"@ + self.node_name@ + "' is now the default"@,
                        Some(self.node_name@),
                    )
                }
        }
    }

    pub fn run(self, options: &mut CommandGlobalOpts) -> (result: Result<(), CommandError>)
        ensures
            self.ran(*old(options), *final(options), result),
    {
        if options.state.is_default_node(self.node_name.as_str()) {
            return Err(
                CommandError::Message(
                    concat3("The node '", self.node_name.as_str(), "' is already the default"),
                ),
            );
        }
        if !options.state.set_default_node(self.node_name.as_str()) {
            return Err(
                CommandError::State(
                    CliStateError::ResourceNotFound {
                        resource: String::from_str("node"),
                        name: self.node_name,
                    },
                ),
            );
        }
        let ghost marked = *options;
        let plain = concat3("The node '", self.node_name.as_str(), "' is now the default");
        options.write_line(LineKind::Success, plain, Some(self.node_name));
        Ok(())
    }
}

/// The name of the default node, or `default` where there is none.
pub open spec fn spec_default_node_name(state: CliState) -> Seq<char> {
    match spec_default_node(state.nodes@, 0) {
        Some(i) => state.nodes@[i].name@,
        None => "default"@,
    }
}

/// The name of the default node, or `default` where there is none.
pub fn get_default_node_name(cli_state: &CliState) -> (name: String)
    ensures
        name@ == spec_default_node_name(*cli_state),
{
    match cli_state.get_default_node() {
        Ok(node) => node.name(),
        Err(_) => String::from_str("default"),
    }
}

/// The given name where there is one, else the name of the default node.
pub fn get_node_name(cli_state: &CliState, node_name: &Option<String>) -> (name: String)
    ensures
        name@ == match *node_name {
            Some(given) => given@,
            None => spec_default_node_name(*cli_state),
        },
{
    match node_name {
        Some(given) => given.clone(),
        None => get_default_node_name(cli_state),
    }
}

/// Whether a node called `default` must be started before a command on the
/// node that `node_name` selects can run: the name is `default`, given or
/// chosen for want of one, and no node is the default yet.
pub open spec fn spec_needs_default_node(state: CliState, node_name: Option<String>) -> bool {
    &&& spec_default_node(state.nodes@, 0) is None
    &&& match node_name {
        Some(given) => given@ == "default"@,
        None => true,
    }
}

/// What is remarked when the default node is created.
pub open spec fn spec_default_node_remarks() -> Seq<Seq<char>> {
    seq![
        "There is no node, on this machine, marked as your default."@,
        "Creating a new Ockam node for you..."@,
        "Created a new node named default"@,
        "Marked this node as your default, on this machine.\n"@,
    ]
}

/// Whether `node` is the node called `default` as it is created for the
/// state `state`: it runs under `identifier`, has no process yet, is the
/// default, takes its verbosity from the arguments and logs below the
/// directory of the state.
pub open spec fn spec_is_fresh_default_node(
    node: NodeInfo,
    before: CommandGlobalOpts,
    identifier: Seq<u8>,
) -> bool {
    let dir = spec_join(spec_join(before.state.dir@, "nodes"@), "default"@);
    &&& node.name@ == "default"@
    &&& node.identifier@ == identifier
    &&& node.verbosity == before.global_args.verbose
    &&& !node.is_authority_node
    &&& node.api_transport_address is None
    &&& node.default_vault_name@ == "default"@
    &&& node.pid is None
    &&& node.is_default
    &&& node.stdout_log@ == spec_join(dir, "stdout.log"@)
    &&& node.stderr_log@ == spec_join(dir, "stderr.log"@)
}

/// Whether `stored` is `before` with a default node called `default` and
/// the remarks on its creation: a node of that name that exists already
/// becomes the default, else a fresh one is added at the end.
pub open spec fn spec_default_node_stored(
    before: CommandGlobalOpts,
    stored: CommandGlobalOpts,
    identifier: Seq<u8>,
) -> bool {
    &&& stored.global_args == before.global_args
    &&& stored.terminal == before.terminal
    &&& stored.effects == before.effects
    &&& views(stored.parser_logs@) == views(before.parser_logs@) + spec_default_node_remarks()
    &&& match spec_node_by_name(before.state.nodes@, "default"@, 0) {
        Some(_) => spec_node_made_default(before.state, stored.state, "default"@),
        None => {
            &&& stored.state.dir == before.state.dir
            &&& stored.state.identities == before.state.identities
            &&& stored.state.enrollments == before.state.enrollments
            &&& stored.state.unnamed_identities == before.state.unnamed_identities
            &&& stored.state.nodes@.len() == before.state.nodes@.len() + 1
            &&& stored.state.nodes@.drop_last() == before.state.nodes@
            &&& spec_is_fresh_default_node(stored.state.nodes@.last(), before, identifier)
        },
    }
}

/// The arguments with which the default node is started.
pub open spec fn spec_default_node_args(before: CommandGlobalOpts) -> Seq<Seq<char>> {
    spec_spawn_args(
        before.global_args.verbose,
        before.terminal.is_tty,
        "default"@,
        "127.0.0.1:0"@,
        None,
        None,
        None,
        None,
        None,
        None,
        None,
        None,
        None,
        true,
    )
}

/// Whether `after` is `before` with the default node created: the state
/// has a default node, called `default`, and the start of its process is
/// recorded, logging to its files.
pub open spec fn spec_default_node_created(
    before: CommandGlobalOpts,
    after: CommandGlobalOpts,
    identifier: Seq<u8>,
) -> bool {
    &&& spec_default_node(after.state.nodes@, 0) matches Some(i) && after.state.nodes@[i].name@
        == "default"@
    &&& exists|stored: CommandGlobalOpts|
        {
            &&& spec_default_node_stored(before, stored, identifier)
            &&& spec_node_by_name(stored.state.nodes@, "default"@, 0) matches Some(i)
                && spec_spawned(stored, after, i, spec_default_node_args(before), true)
        }
}

/// A node added to nodes of which none is the default, or none has its
/// name, is the first default, or the first of its name.
pub proof fn lemma_added_node_is_found(nodes: Seq<NodeInfo>, node: NodeInfo, from: int)
    requires
        0 <= from <= nodes.len(),
    ensures
        spec_default_node(nodes, from) is None && node.is_default ==> spec_default_node(
            nodes.push(node),
            from,
        ) == Some(nodes.len() as int),
        spec_node_by_name(nodes, node.name@, from) is None ==> spec_node_by_name(
            nodes.push(node),
            node.name@,
            from,
        ) == Some(nodes.len() as int),
    decreases nodes.len() - from,
{
    let longer = nodes.push(node);
    if from < nodes.len() {
        assert(longer[from] == nodes[from]);
        lemma_added_node_is_found(nodes, node, from + 1);
    } else {
        assert(longer[from] == node);
    }
}

/// Where the nodes of a name have become the only default nodes, the first
/// default node is the first node of that name.
pub proof fn lemma_default_is_first_of_name(
    before: CliState,
    after: CliState,
    name: Seq<char>,
    from: int,
)
    requires
        spec_node_made_default(before, after, name),
        0 <= from,
    ensures
        spec_default_node(after.nodes@, from) == spec_node_by_name(before.nodes@, name, from),
        spec_node_by_name(after.nodes@, name, from) == spec_node_by_name(
            before.nodes@,
            name,
            from,
        ),
    decreases before.nodes@.len() - from,
{
    if from < before.nodes@.len() {
        let was = before.nodes@[from];
        assert(after.nodes@[from] == (NodeInfo { is_default: was.name@ == name, ..was }));
        lemma_default_is_first_of_name(before, after, name, from + 1);
    }
}

/// If the node that `node_name` selects is the default one and there is
/// none yet, creates it: a node called `default` becomes the default node
/// of the state, running under `identifier`, the start of its process is
/// recorded, and remarks say so. Returns whether it did.
pub fn initialize_node_if_default(
    options: &mut CommandGlobalOpts,
    node_name: &Option<String>,
    identifier: Identifier,
) -> (created: bool)
    ensures
        created == spec_needs_default_node(old(options).state, *node_name),
        !created ==> *final(options) == *old(options),
        created ==> spec_default_node_created(*old(options), *final(options), identifier@),
{
    let chosen = get_node_name(&options.state, node_name);
    let missing = options.state.get_default_node().is_err();
    if !(same_text(chosen.as_str(), "default") && missing) {
        return false;
    }
    if !options.state.set_default_node("default") {
        let nodes = join_path(options.state.dir.as_str(), "nodes");
        let dir = join_path(nodes.as_str(), "default");
        let node = NodeInfo {
            name: String::from_str("default"),
            identifier,
            verbosity: options.global_args.verbose,
            is_authority_node: false,
            api_transport_address: None,
            default_vault_name: String::from_str("default"),
            pid: None,
            is_default: true,
            stdout_log: join_path(dir.as_str(), "stdout.log"),
            stderr_log: join_path(dir.as_str(), "stderr.log"),
        };
        options.state.nodes.push(node);
        proof {
            assert(options.state.nodes@.drop_last() =~= old(options).state.nodes@);
            lemma_added_node_is_found(old(options).state.nodes@, node, 0);
        }
    } else {
        proof {
            lemma_default_is_first_of_name(old(options).state, options.state, "default"@, 0);
            lemma_node_by_name_has_name(old(options).state.nodes@, "default"@, 0);
        }
    }
    options.parser_logs.push(
        String::from_str("There is no node, on this machine, marked as your default."),
    );
    options.parser_logs.push(String::from_str("Creating a new Ockam node for you..."));
    options.parser_logs.push(String::from_str("Created a new node named default"));
    options.parser_logs.push(
        String::from_str("Marked this node as your default, on this machine.\n"),
    );
    assert(views(options.parser_logs@) =~= views(old(options).parser_logs@)
        + spec_default_node_remarks());
    let ghost stored = *options;
    assert(spec_default_node_stored(*old(options), stored, identifier@));
    let started = spawn_node(
        options,
        "default",
        "127.0.0.1:0",
        None,
        None,
        None,
        None,
        None,
        None,
        None,
        None,
        None,
        true,
    );
    assert(started is Ok);
    true
}

/// Whether the first node called `name` is a default; an error where there
/// is no such node.
pub fn check_default(options: &CommandGlobalOpts, name: &str) -> (r: Result<bool, CommandError>)
    ensures
        match r {
            Ok(is_default) => match spec_node_by_name(options.state.nodes@, name@, 0) {
                Some(i) => is_default == options.state.nodes@[i].is_default,
                None => false,
            },
            Err(error) => spec_node_by_name(options.state.nodes@, name@, 0) is None && (
            error matches CommandError::State(cause) && spec_is_no_such_node(cause, name@)),
        },
{
    match options.state.get_node(name) {
        Ok(node) => Ok(node.is_default()),
        Err(error) => Err(CommandError::State(error)),
    }
}

/// Deletes the first node called `name`: its process is to be stopped and
/// the state forgets it. Where there is no such node nothing happens.
pub fn delete_node(options: &mut CommandGlobalOpts, name: &str, force: bool) -> (r: Result<
    (),
    CommandError,
>)
    ensures
        r is Ok,
        final(options).global_args == old(options).global_args,
        final(options).terminal == old(options).terminal,
        final(options).parser_logs == old(options).parser_logs,
        final(options).state.dir == old(options).state.dir,
        final(options).state.identities == old(options).state.identities,
        final(options).state.enrollments == old(options).state.enrollments,
        final(options).state.unnamed_identities == old(options).state.unnamed_identities,
        match spec_node_by_name(old(options).state.nodes@, name@, 0) {
            None => *final(options) == *old(options),
            Some(i) => {
                &&& final(options).state.nodes@ == old(options).state.nodes@.remove(i)
                &&& final(options).effects@.drop_last() == old(options).effects@
                &&& final(options).effects@.len() == old(options).effects@.len() + 1
                &&& (final(options).effects@.last() matches Effect::KillNode {
                    node_name,
                    force: forced,
                } && node_name@ == name@ && forced == force)
            },
        },
{
    if options.state.delete_node(name) {
        options.effects.push(Effect::KillNode { node_name: String::from_str(name), force });
        assert(options.effects@.drop_last() =~= old(options).effects@);
    }
    Ok(())
}

/// Deletes every node: the process of each is to be stopped, in the order
/// of the nodes, and the state forgets them all.
pub fn delete_all_nodes(options: &mut CommandGlobalOpts, force: bool) -> (r: Result<
    (),
    CommandError,
>)
    ensures
        r is Ok,
        final(options).global_args == old(options).global_args,
        final(options).terminal == old(options).terminal,
        final(options).parser_logs == old(options).parser_logs,
        final(options).state.dir == old(options).state.dir,
        final(options).state.identities == old(options).state.identities,
        final(options).state.enrollments == old(options).state.enrollments,
        final(options).state.unnamed_identities == old(options).state.unnamed_identities,
        final(options).state.nodes@.len() == 0,
        final(options).effects@.len() == old(options).effects@.len() + old(
            options,
        ).state.nodes@.len(),
        final(options).effects@.subrange(0, old(options).effects@.len() as int) == old(
            options,
        ).effects@,
        forall|i: int|
            0 <= i < old(options).state.nodes@.len() ==> (
            #[trigger] final(options).effects@[old(options).effects@.len() + i]
                matches Effect::KillNode { node_name, force: forced } && node_name@ == old(
                options,
            ).state.nodes@[i].name@ && forced == force),
{
    let ghost start = options.effects@.len() as int;
    let mut i: usize = 0;
    while i < options.state.nodes.len()
        invariant
            0 <= i <= options.state.nodes@.len(),
            start == old(options).effects@.len(),
            options.global_args == old(options).global_args,
            options.terminal == old(options).terminal,
            options.parser_logs == old(options).parser_logs,
            options.state == old(options).state,
            options.effects@.len() == start + i,
            options.effects@.subrange(0, start) == old(options).effects@,
            forall|j: int|
                0 <= j < i ==> (#[trigger] options.effects@[start + j] matches Effect::KillNode {
                    node_name,
                    force: forced,
                } && node_name@ == old(options).state.nodes@[j].name@ && forced == force),
        decreases options.state.nodes@.len() - i,
    {
        let ghost before = options.effects@;
        let node_name = options.state.nodes[i].name();
        options.effects.push(Effect::KillNode { node_name, force });
        proof {
            let after = options.effects@;
            assert(after.subrange(0, start) =~= before.subrange(0, start));
            assert forall|j: int| 0 <= j < i + 1 implies (#[trigger] after[start + j]
                matches Effect::KillNode { node_name, force: forced } && node_name@ == old(
                options,
            ).state.nodes@[j].name@ && forced == force) by {
                if j < i {
                    assert(after[start + j] == before[start + j]);
                }
            }
        }
        i += 1;
    }
    options.state.nodes.clear();
    Ok(())
}

/// What is said of a node whose stop failed: its name and the error.
pub open spec fn spec_failure_text(name: Seq<char>, error: Seq<char>) -> Seq<char> {
    "(\""@ + name + "\", "@ + error + ")"@
}

/// What is said of the stops that failed among the first `count` of
/// `outcomes`, in order, with a comma between them. An outcome is the name
/// of a node and the error of its stop, if it failed.
pub open spec fn spec_failure_list(outcomes: Seq<(String, Option<String>)>, count: nat) -> Seq<
    char,
>
    decreases count,
{
    if count == 0 {
        Seq::empty()
    } else {
        let before = spec_failure_list(outcomes, (count - 1) as nat);
        match outcomes[count - 1].1 {
            None => before,
            Some(error) => (if before.len() == 0 {
                before
            } else {
                before + ", "@
            }) + spec_failure_text(outcomes[count - 1].0@, error@),
        }
    }
}

/// The outcome of deleting nodes, given for each node whether its stop
/// failed and with what error: success where none failed, else an error
/// that lists every failure.
pub fn deletion_outcome(outcomes: &Vec<(String, Option<String>)>) -> (r: Result<(), CommandError>)
    ensures
        r is Ok <==> spec_failure_list(outcomes@, outcomes@.len()).len() == 0,
        r matches Err(error) ==> (error matches CommandError::Message(message) && message@
            == "errors while deleting nodes: ["@ + spec_failure_list(
            outcomes@,
            outcomes@.len(),
        ) + "]"@),
        r is Ok <==> forall|i: int| 0 <= i < outcomes@.len() ==> (#[trigger] outcomes@[i]).1 is None,
{
    let mut list = String::new();
    let mut failed = false;
    let mut i: usize = 0;
    while i < outcomes.len()
        invariant
            0 <= i <= outcomes@.len(),
            list@ == spec_failure_list(outcomes@, i as nat),
            failed == (list@.len() > 0),
            !failed <==> forall|j: int| 0 <= j < i ==> (#[trigger] outcomes@[j]).1 is None,
        decreases outcomes@.len() - i,
    {
        match &outcomes[i].1 {
            None => {},
            Some(error) => {
                if failed {
                    list.append(", ");
                }
                proof {
                    reveal_strlit("(\"");
                }
                list.append("(\"");
                list.append(outcomes[i].0.as_str());
                list.append("\", ");
                list.append(error.as_str());
                list.append(")");
                assert(list@ =~= spec_failure_list(outcomes@, (i + 1) as nat));
                failed = true;
            },
        }
        i += 1;
    }
    if !failed {
        return Ok(());
    }
    let mut message = String::from_str("errors while deleting nodes: [");
    message.append(list.as_str());
    message.append("]");
    Err(CommandError::Message(message))
}

/// The node that a command addresses.
#[derive(Debug, PartialEq, Eq)]
pub struct NodeOpts {
    pub at_node: Option<String>,
}

/// Where a node takes its trust from.
#[derive(Debug, PartialEq, Eq)]
pub struct TrustContextOpts {
    pub trust_context: Option<String>,
    pub project: Option<String>,
}

impl Default for TrustContextOpts {
    fn default() -> (options: Self)
        ensures
            options.trust_context is None,
            options.project is None,
    {
        TrustContextOpts { trust_context: None, project: None }
    }
}

/// What a node manager starts with where nothing is said.
#[derive(Debug, PartialEq, Eq)]
pub struct NodeManagerDefaults {
    pub node_name: String,
    pub tcp_listener_address: String,
    pub trust_context_opts: TrustContextOpts,
}

impl Default for NodeManagerDefaults {
    /// A random name of eight hexadecimal digits, a listener at an address
    /// of this machine that the system picks, and no trust context.
    fn default() -> (defaults: Self)
        ensures
            exists|bytes: Seq<u8>| bytes.len() == 4 && defaults.node_name@ == spec_hex(bytes),
            defaults.tcp_listener_address@ == "127.0.0.1:0"@,
            defaults.trust_context_opts.trust_context is None,
            defaults.trust_context_opts.project is None,
    {
        let bytes = random_bytes();
        NodeManagerDefaults {
            node_name: hex_encode(bytes.as_slice()),
            tcp_listener_address: String::from_str("127.0.0.1:0"),
            trust_context_opts: TrustContextOpts::default(),
        }
    }
}

/// View of an optional borrowed text.
pub open spec fn borrowed_text(text: Option<&String>) -> Option<Seq<char>> {
    match text {
        Some(t) => Some(t@),
        None => None,
    }
}

/// A flag with its value where there is a value, nothing where there is
/// none.
pub open spec fn spec_flag_with(flag: Seq<char>, value: Option<Seq<char>>) -> Seq<Seq<char>> {
    match value {
        Some(v) => seq![flag, v],
        None => Seq::empty(),
    }
}

/// The flag that says whom the node trusts: the identities themselves, else
/// the file that lists them, else the file to reload them from.
pub open spec fn spec_trusted_flag(
    trusted_identities: Option<Seq<char>>,
    trusted_identities_file: Option<Seq<char>>,
    reload_from_trusted_identities_file: Option<Seq<char>>,
) -> Seq<Seq<char>> {
    if trusted_identities is Some {
        spec_flag_with("--trusted-identities"@, trusted_identities)
    } else if trusted_identities_file is Some {
        spec_flag_with("--trusted-identities-file"@, trusted_identities_file)
    } else {
        spec_flag_with(
            "--reload-from-trusted-identities-file"@,
            reload_from_trusted_identities_file,
        )
    }
}

/// The arguments with which the program starts a node in the foreground of
/// a process of its own.
pub open spec fn spec_spawn_args(
    verbose: u8,
    is_tty: bool,
    name: Seq<char>,
    address: Seq<char>,
    project: Option<Seq<char>>,
    trusted_identities: Option<Seq<char>>,
    trusted_identities_file: Option<Seq<char>>,
    reload_from_trusted_identities_file: Option<Seq<char>>,
    launch_config: Option<Seq<char>>,
    authority_identity: Option<Seq<char>>,
    credential: Option<Seq<char>>,
    trust_context: Option<Seq<char>>,
    project_name: Option<Seq<char>>,
    logging_to_file: bool,
) -> Seq<Seq<char>> {
    seq![
        spec_verbosity_flag(verbose),
        "node"@,
        "create"@,
        "--tcp-listener-address"@,
        address,
        "--foreground"@,
        "--child-process"@,
    ] + (if logging_to_file || !is_tty {
        seq!["--no-color"@]
    } else {
        Seq::empty()
    }) + spec_flag_with("--project-path"@, project) + spec_flag_with(
        "--launch-config"@,
        launch_config,
    ) + spec_trusted_flag(
        trusted_identities,
        trusted_identities_file,
        reload_from_trusted_identities_file,
    ) + spec_flag_with("--authority-identity"@, authority_identity) + spec_flag_with(
        "--credential"@,
        credential,
    ) + spec_flag_with("--trust-context"@, trust_context) + spec_flag_with(
        "--project"@,
        project_name,
    ) + seq![name]
}

fn push_text(args: &mut Vec<String>, text: &str)
    ensures
        views(final(args)@) == views(old(args)@) + seq![text@],
{
    args.push(String::from_str(text));
    assert(views(args@) =~= views(old(args)@) + seq![text@]);
}

fn push_flag_with(args: &mut Vec<String>, flag: &str, value: Option<&String>)
    ensures
        views(final(args)@) == views(old(args)@) + spec_flag_with(flag@, borrowed_text(value)),
{
    match value {
        Some(v) => {
            args.push(String::from_str(flag));
            args.push(v.clone());
            assert(views(args@) =~= views(old(args)@) + seq![flag@, v@]);
        },
        None => {
            assert(views(args@) =~= views(old(args)@) + Seq::<Seq<char>>::empty());
        },
    }
}

/// The arguments with which the program starts the node `name`.
pub fn spawn_args(
    verbose: u8,
    is_tty: bool,
    name: &str,
    address: &str,
    project: Option<&String>,
    trusted_identities: Option<&String>,
    trusted_identities_file: Option<&String>,
    reload_from_trusted_identities_file: Option<&String>,
    launch_config: Option<&String>,
    authority_identity: Option<&String>,
    credential: Option<&String>,
    trust_context: Option<&String>,
    project_name: Option<&String>,
    logging_to_file: bool,
) -> (args: Vec<String>)
    ensures
        views(args@) == spec_spawn_args(
            verbose,
            is_tty,
            name@,
            address@,
            borrowed_text(project),
            borrowed_text(trusted_identities),
            borrowed_text(trusted_identities_file),
            borrowed_text(reload_from_trusted_identities_file),
            borrowed_text(launch_config),
            borrowed_text(authority_identity),
            borrowed_text(credential),
            borrowed_text(trust_context),
            borrowed_text(project_name),
            logging_to_file,
        ),
{
    let mut args: Vec<String> = Vec::new();
    args.push(verbosity_flag(verbose));
    push_text(&mut args, "node");
    push_text(&mut args, "create");
    push_text(&mut args, "--tcp-listener-address");
    push_text(&mut args, address);
    push_text(&mut args, "--foreground");
    push_text(&mut args, "--child-process");
    assert(views(args@) =~= seq![
        spec_verbosity_flag(verbose),
        "node"@,
        "create"@,
        "--tcp-listener-address"@,
        address@,
        "--foreground"@,
        "--child-process"@,
    ]);
    if logging_to_file || !is_tty {
        push_text(&mut args, "--no-color");
    } else {
        assert(views(args@) =~= views(args@) + Seq::<Seq<char>>::empty());
    }
    push_flag_with(&mut args, "--project-path", project);
    push_flag_with(&mut args, "--launch-config", launch_config);
    if trusted_identities.is_some() {
        push_flag_with(&mut args, "--trusted-identities", trusted_identities);
    } else if trusted_identities_file.is_some() {
        push_flag_with(&mut args, "--trusted-identities-file", trusted_identities_file);
    } else {
        push_flag_with(
            &mut args,
            "--reload-from-trusted-identities-file",
            reload_from_trusted_identities_file,
        );
    }
    push_flag_with(&mut args, "--authority-identity", authority_identity);
    push_flag_with(&mut args, "--credential", credential);
    push_flag_with(&mut args, "--trust-context", trust_context);
    push_flag_with(&mut args, "--project", project_name);
    push_text(&mut args, name);
    args
}

/// Whether `after` is `before` with one more effect: the start of a process
/// with the given arguments, logging to the files of the node at
/// `position` where `logging_to_file` says so.
pub open spec fn spec_spawned(
    before: CommandGlobalOpts,
    after: CommandGlobalOpts,
    position: int,
    args: Seq<Seq<char>>,
    logging_to_file: bool,
) -> bool {
    let node = before.state.nodes@[position];
    &&& after == (CommandGlobalOpts { effects: after.effects, ..before })
    &&& after.effects@.len() == before.effects@.len() + 1
    &&& after.effects@.drop_last() == before.effects@
    &&& match after.effects@.last() {
        Effect::Spawn { args: spawned, stdout_log, stderr_log } => {
            &&& views(spawned@) == args
            &&& option_text(stdout_log) == if logging_to_file {
                Some(node.stdout_log@)
            } else {
                None
            }
            &&& option_text(stderr_log) == if logging_to_file {
                Some(node.stderr_log@)
            } else {
                None
            }
        },
        _ => false,
    }
}

/// Has the program started again with `args`, for the node `node_name`. An
/// error where there is no such node.
pub fn run_ockam(
    options: &mut CommandGlobalOpts,
    node_name: &str,
    args: Vec<String>,
    logging_to_file: bool,
) -> (r: Result<(), CommandError>)
    ensures
        match spec_node_by_name(old(options).state.nodes@, node_name@, 0) {
            None => *final(options) == *old(options) && (r matches Err(
                CommandError::State(error),
            ) && spec_is_no_such_node(error, node_name@)),
            Some(i) => r is Ok && spec_spawned(
                *old(options),
                *final(options),
                i,
                views(args@),
                logging_to_file,
            ),
        },
{
    let (stdout_log, stderr_log) = match options.state.get_node(node_name) {
        Err(error) => {
            return Err(CommandError::State(error));
        },
        Ok(node) => if logging_to_file {
            (Some(node.stdout_log()), Some(node.stderr_log()))
        } else {
            (None, None)
        },
    };
    options.effects.push(Effect::Spawn { args, stdout_log, stderr_log });
    assert(options.effects@.drop_last() =~= old(options).effects@);
    Ok(())
}

/// Has a node started in the foreground of a process of its own. An error
/// where the state does not know the node.
pub fn spawn_node(
    options: &mut CommandGlobalOpts,
    name: &str,
    address: &str,
    project: Option<&String>,
    trusted_identities: Option<&String>,
    trusted_identities_file: Option<&String>,
    reload_from_trusted_identities_file: Option<&String>,
    launch_config: Option<&String>,
    authority_identity: Option<&String>,
    credential: Option<&String>,
    trust_context: Option<&String>,
    project_name: Option<&String>,
    logging_to_file: bool,
) -> (r: Result<(), CommandError>)
    ensures
        match spec_node_by_name(old(options).state.nodes@, name@, 0) {
            None => *final(options) == *old(options) && (r matches Err(
                CommandError::State(error),
            ) && spec_is_no_such_node(error, name@)),
            Some(i) => r is Ok && spec_spawned(
                *old(options),
                *final(options),
                i,
                spec_spawn_args(
                    old(options).global_args.verbose,
                    old(options).terminal.is_tty,
                    name@,
                    address@,
                    borrowed_text(project),
                    borrowed_text(trusted_identities),
                    borrowed_text(trusted_identities_file),
                    borrowed_text(reload_from_trusted_identities_file),
                    borrowed_text(launch_config),
                    borrowed_text(authority_identity),
                    borrowed_text(credential),
                    borrowed_text(trust_context),
                    borrowed_text(project_name),
                    logging_to_file,
                ),
                logging_to_file,
            ),
        },
{
    let args = spawn_args(
        options.global_args.verbose,
        options.terminal.is_tty,
        name,
        address,
        project,
        trusted_identities,
        trusted_identities_file,
        reload_from_trusted_identities_file,
        launch_config,
        authority_identity,
        credential,
        trust_context,
        project_name,
        logging_to_file,
    );
    run_ockam(options, name, args, logging_to_file)
}

/// Starts a node that was stopped.
#[derive(Debug, PartialEq, Eq)]
pub struct StartCommand {
    /// Name of the node to be started; the default node where none is given.
    pub node_name: Option<String>,
    pub aws_kms: bool,
}

/// What a node that runs already is told.
pub open spec fn spec_already_running(name: Seq<char>) -> Seq<char> {
    "The node '"@ + name
        + "' is already running. If you want to restart it you can call `ockam node stop "@
        + name + "` and then `ockam node start "@ + name + "`"@
}

/// The address that a restarted node listens on.
pub open spec fn spec_restart_address(node: NodeInfo) -> Seq<char> {
    match node.api_transport_address {
        Some(address) => address@,
        None => "no transport address"@,
    }
}

/// The arguments with which the node at `position` is restarted: it
/// listens where it did, at its own verbosity, and logs to its files.
pub open spec fn spec_restart_args(before: CommandGlobalOpts, position: int) -> Seq<Seq<char>> {
    let node = before.state.nodes@[position];
    spec_spawn_args(
        node.verbosity,
        before.terminal.is_tty,
        node.name@,
        spec_restart_address(node),
        None,
        None,
        None,
        None,
        None,
        None,
        None,
        None,
        None,
        true,
    )
}

impl StartCommand {
    /// The name of the node that this command starts.
    pub open spec fn chosen(self, state: CliState) -> Seq<char> {
        match self.node_name {
            Some(given) => given@,
            None => spec_default_node_name(state),
        }
    }

    /// What running this command does. First the default node is created
    /// under `identifier`, where it is wanted and does not exist. Then, from
    /// the options as that left them, the node that the command names is
    /// started as `restarted` says.
    pub open spec fn ran(
        self,
        before: CommandGlobalOpts,
        after: CommandGlobalOpts,
        result: Result<(), CommandError>,
        identifier: Seq<u8>,
    ) -> bool {
        exists|made: CommandGlobalOpts|
            {
                &&& if spec_needs_default_node(before.state, self.node_name) {
                    spec_default_node_created(before, made, identifier)
                } else {
                    made == before
                }
                &&& self.restarted(made, after, result)
            }
    }

    /// What starting the node that the command names does. A name that no
    /// node has is an error. A node that runs is told so, on one line, and
    /// left alone: nothing is stopped or started. A node that does not run
    /// is restarted: whatever is left of its process is stopped, not by
    /// force, the program is started again for it at its own address and
    /// verbosity, logging to its files, and its status is shown.
    pub open spec fn restarted(
        self,
        before: CommandGlobalOpts,
        after: CommandGlobalOpts,
        result: Result<(), CommandError>,
    ) -> bool {
        let name = self.chosen(before.state);
        &&& after.state == before.state
        &&& after.parser_logs == before.parser_logs
        &&& after.terminal.is_tty == before.terminal.is_tty
        &&& match spec_node_by_name(before.state.nodes@, name, 0) {
            None => {
                &&& result matches Err(CommandError::State(error)) && spec_is_no_such_node(
                    error,
                    name,
                )
                &&& after.global_args == before.global_args
                &&& after.terminal == before.terminal
                &&& after.effects == before.effects
            },
            Some(i) => {
                let node = before.state.nodes@[i];
                &&& result is Ok
                &&& if node.pid is Some {
                    &&& after.global_args == before.global_args
                    &&& after.effects == before.effects
                    &&& after.terminal.lines@.drop_last() == before.terminal.lines@
                    &&& after.terminal.lines@.len() == before.terminal.lines@.len() + 1
                    &&& spec_line_is(
                        after.terminal.lines@.last(),
                        LineKind::Failure,
                        spec_already_running(node.name@),
                        None,
                    )
                } else {
                    let start = before.effects@.len() as int;
                    &&& after.terminal == before.terminal
                    &&& after.global_args == (GlobalArgs {
                        verbose: node.verbosity,
                        ..before.global_args
                    })
                    &&& after.effects@.len() == start + 3
                    &&& after.effects@.subrange(0, start) == before.effects@
                    &&& (after.effects@[start] matches Effect::KillNode { node_name, force }
                        && node_name@ == name && !force)
                    &&& (after.effects@[start + 1] matches Effect::Spawn {
                        args,
                        stdout_log,
                        stderr_log,
                    } && views(args@) == spec_restart_args(before, i) && option_text(stdout_log)
                        == Some(node.stdout_log@) && option_text(stderr_log) == Some(
                        node.stderr_log@,
                    ))
                    &&& (after.effects@[start + 2] matches Effect::ShowNodeStatus {
                        node_name,
                        is_default,
                    } && node_name@ == name && is_default == node.is_default)
                }
            },
        }
    }

    pub fn run(self, options: &mut CommandGlobalOpts, identifier: Identifier) -> (result: Result<
        (),
        CommandError,
    >)
        ensures
            self.ran(*old(options), *final(options), result, identifier@),
    {
        initialize_node_if_default(options, &self.node_name, identifier);
        let ghost made = *options;
        let result = self.restart(options);
        assert(self.restarted(made, *options, result));
        result
    }

    /// Starts the node that the command names.
    fn restart(&self, options: &mut CommandGlobalOpts) -> (result: Result<(), CommandError>)
        ensures
            self.restarted(*old(options), *final(options), result),
    {
        let node_name = get_node_name(&options.state, &self.node_name);
        proof {
            lemma_node_by_name_has_name(options.state.nodes@, node_name@, 0);
        }
        let ghost logged = *options;
        let (running, verbosity, is_default, address) = match options.state.get_node(
            node_name.as_str(),
        ) {
            Err(error) => {
                return Err(CommandError::State(error));
            },
            Ok(node) => (
                node.is_running(),
                node.verbosity(),
                node.is_default(),
                match node.api_transport_address() {
                    Some(address) => address,
                    None => String::from_str("no transport address"),
                },
            ),
        };
        if running {
            let mut text = concat3(
                "The node '",
                node_name.as_str(),
                "' is already running. If you want to restart it you can call `ockam node stop ",
            );
            text.append(node_name.as_str());
            text.append("` and then `ockam node start ");
            text.append(node_name.as_str());
            text.append("`");
            assert(text@ =~= spec_already_running(node_name@));
            options.write_line(LineKind::Failure, text, None);
            return Ok(());
        }
        let ghost start = options.effects@.len() as int;
        options.effects.push(Effect::KillNode { node_name: node_name.clone(), force: false });
        options.global_args.verbose = verbosity;
        let ghost killed = *options;
        assert(killed.effects@.drop_last() =~= logged.effects@);
        match spawn_node(
            options,
            node_name.as_str(),
            address.as_str(),
            None,
            None,
            None,
            None,
            None,
            None,
            None,
            None,
            None,
            true,
        ) {
            Err(error) => {
                return Err(error);
            },
            Ok(_) => {},
        }
        let ghost spawned = *options;
        options.effects.push(Effect::ShowNodeStatus { node_name, is_default });
        proof {
            let effects = options.effects@;
            assert(spawned.effects@.drop_last() == killed.effects@);
            assert(effects.drop_last() =~= spawned.effects@);
            assert(effects[start] == killed.effects@[start]);
            assert(effects[start + 1] == spawned.effects@.last());
            assert(effects.subrange(0, start) =~= killed.effects@.drop_last());
        }
        Ok(())
    }
}

/// The commands on nodes.
#[derive(Debug, PartialEq, Eq)]
pub enum NodeSubcommand {
    List(ListCommand),
    Start(StartCommand),
    Default(DefaultCommand),
}

/// Manages nodes.
#[derive(Debug, PartialEq, Eq)]
pub struct NodeCommand {
    pub subcommand: NodeSubcommand,
}

impl NodeCommand {
    /// Runs the subcommand. `identifier` is the identity under which the
    /// default node runs, should the command have to create it.
    pub fn run(self, options: &mut CommandGlobalOpts, identifier: Identifier) -> (result: Result<
        (),
        CommandError,
    >)
        ensures
            match self.subcommand {
                NodeSubcommand::List(c) => c.ran(*old(options), *final(options), result),
                NodeSubcommand::Start(c) => c.ran(
                    *old(options),
                    *final(options),
                    result,
                    identifier@,
                ),
                NodeSubcommand::Default(c) => c.ran(*old(options), *final(options), result),
            },
    {
        match self.subcommand {
            NodeSubcommand::List(c) => c.run(options),
            NodeSubcommand::Start(c) => c.run(options, identifier),
            NodeSubcommand::Default(c) => c.run(options),
        }
    }
}

} // verus!
