//! The local state that the commands operate on: the directory it lives in,
//! the named identities and the nodes of this machine.
//!
//! The state is held in memory. Reading it from disk and writing it back is
//! left to the program around the library.

use vstd::prelude::*;
use crate::error::HandshakeError;
use crate::identity::{
    create_identity, spec_first_change, spec_verify_change_history, ChangeHistory, Identifier,
    Identity, IdentityView,
};
use crate::path::{file_name, parent, spec_file_name, spec_file_stem, spec_parent};
use crate::vault::{vault_is_sound, XXVault};
use crate::codec::views;
use crate::text::{
    clone_option_text, concat3, hex_encode, join_path, random_name, same_text, spec_hex,
    spec_join,
};

verus! {

/// Why an operation on the local state failed.
#[derive(Debug, PartialEq, Eq)]
pub enum CliStateError {
    /// There is no resource of that kind under that name.
    ResourceNotFound { resource: String, name: String },
    /// This path has no stem to name a state by.
    InvalidPath(String),
    /// The state does not allow what was asked, for the reason given.
    InvalidOperation(String),
    /// Nothing answers to the description in the message.
    NotFound(String),
}

/// The stem of the file name of a path, by which a state is called; an
/// error with the path where it has no file name.
pub fn file_stem(path: &str) -> (r: Result<String, CliStateError>)
    ensures
        match spec_file_stem(path@) {
            Some(stem) => r matches Ok(name) && name@ == stem,
            None => r matches Err(CliStateError::InvalidPath(invalid)) && invalid@ == path@,
        },
{
    match crate::path::file_stem(path) {
        Some(stem) => Ok(stem),
        None => Err(CliStateError::InvalidPath(String::from_str(path))),
    }
}

/// Whether to list every identity or the enrolled ones only.
#[derive(Clone, Copy, Debug, PartialEq, Eq, Structural)]
pub enum EnrollmentStatus {
    Enrolled,
    Any,
}

/// Whether and when an identity was enrolled.
#[derive(Clone, Copy, Debug, PartialEq, Eq, Structural)]
pub struct Enrollment {
    pub enrolled: bool,
    /// Seconds since the epoch.
    pub enrolled_at: u64,
}

/// An identity with its name and the time of its enrollment, if any.
#[derive(Debug, PartialEq, Eq)]
pub struct IdentityEnrollment {
    pub identifier: Identifier,
    pub name: Option<String>,
    pub enrolled_at: Option<Enrollment>,
}

impl IdentityEnrollment {
    pub fn identifier(&self) -> (identifier: Identifier)
        ensures
            identifier@ == self.identifier@,
    {
        self.identifier.clone()
    }
}

pub struct IdentityEnrollmentView {
    pub identifier: Seq<u8>,
    pub name: Option<Seq<char>>,
    pub enrolled_at: Option<Enrollment>,
}

impl View for IdentityEnrollment {
    type V = IdentityEnrollmentView;

    open spec fn view(&self) -> IdentityEnrollmentView {
        IdentityEnrollmentView {
            identifier: self.identifier@,
            name: match self.name {
                Some(name) => Some(name@),
                None => None,
            },
            enrolled_at: self.enrolled_at,
        }
    }
}

impl Clone for IdentityEnrollment {
    fn clone(&self) -> (copy: Self)
        ensures
            copy@ == self@,
    {
        IdentityEnrollment {
            identifier: self.identifier.clone(),
            name: clone_option_text(&self.name),
            enrolled_at: self.enrolled_at,
        }
    }
}

/// The first `count` of `enrollments` that are of an enrolled identity, in
/// order.
pub open spec fn spec_enrolled(enrollments: Seq<IdentityEnrollmentView>, count: nat) -> Seq<
    IdentityEnrollmentView,
>
    decreases count,
{
    if count == 0 {
        Seq::empty()
    } else {
        let before = spec_enrolled(enrollments, (count - 1) as nat);
        if enrollments[count - 1].enrolled_at is Some {
            before.push(enrollments[count - 1])
        } else {
            before
        }
    }
}

/// A verified identity under the name by which the user knows it.
#[derive(Debug, PartialEq, Eq)]
pub struct NamedIdentity {
    pub name: String,
    pub identity: Identity,
    pub is_default: bool,
}

impl NamedIdentity {
    pub fn new(name: String, identity: Identity, is_default: bool) -> (named: Self)
        ensures
            named.name@ == name@,
            named.identity@ == identity@,
            named.is_default == is_default,
    {
        NamedIdentity { name, identity, is_default }
    }

    pub fn name(&self) -> (name: String)
        ensures
            name@ == self.name@,
    {
        self.name.clone()
    }

    pub fn identifier(&self) -> (identifier: Identifier)
        ensures
            identifier@ == self.identity@.identifier,
    {
        self.identity.identifier().clone()
    }

    pub fn is_default(&self) -> (is_default: bool)
        ensures
            is_default == self.is_default,
    {
        self.is_default
    }
}

/// What the state records of a node.
#[derive(Debug, PartialEq, Eq)]
pub struct NodeInfo {
    pub name: String,
    pub identifier: Identifier,
    pub verbosity: u8,
    pub is_authority_node: bool,
    /// The address of the node's API transport, once one is set.
    pub api_transport_address: Option<String>,
    pub default_vault_name: String,
    /// The process of the node, while it runs.
    pub pid: Option<u32>,
    pub is_default: bool,
    pub stdout_log: String,
    pub stderr_log: String,
}

impl NodeInfo {
    pub fn name(&self) -> (name: String)
        ensures
            name@ == self.name@,
    {
        self.name.clone()
    }

    pub fn identifier(&self) -> (identifier: Identifier)
        ensures
            identifier@ == self.identifier@,
    {
        self.identifier.clone()
    }

    pub fn is_default(&self) -> (is_default: bool)
        ensures
            is_default == self.is_default,
    {
        self.is_default
    }

    pub fn pid(&self) -> (pid: Option<u32>)
        ensures
            pid == self.pid,
    {
        self.pid
    }

    /// Whether the node has a process.
    pub fn is_running(&self) -> (running: bool)
        ensures
            running == self.pid is Some,
    {
        self.pid.is_some()
    }

    pub fn verbosity(&self) -> (verbosity: u8)
        ensures
            verbosity == self.verbosity,
    {
        self.verbosity
    }

    pub fn api_transport_address(&self) -> (address: Option<String>)
        ensures
            match (address, self.api_transport_address) {
                (Some(a), Some(b)) => a@ == b@,
                (None, None) => true,
                _ => false,
            },
    {
        match &self.api_transport_address {
            Some(address) => Some(address.clone()),
            None => None,
        }
    }

    pub fn is_authority_node(&self) -> (is_authority_node: bool)
        ensures
            is_authority_node == self.is_authority_node,
    {
        self.is_authority_node
    }

    pub fn stdout_log(&self) -> (path: String)
        ensures
            path@ == self.stdout_log@,
    {
        self.stdout_log.clone()
    }

    pub fn stderr_log(&self) -> (path: String)
        ensures
            path@ == self.stderr_log@,
    {
        self.stderr_log.clone()
    }
}

/// Something to remove from disk when the state is deleted.
#[derive(Debug, PartialEq, Eq)]
pub enum Removal {
    /// A directory with everything below it.
    DirectoryTree(String),
    /// One file.
    File(String),
    /// A directory, provided nothing is left in it.
    DirectoryIfEmpty(String),
}

pub enum RemovalView {
    DirectoryTree(Seq<char>),
    File(Seq<char>),
    DirectoryIfEmpty(Seq<char>),
}

impl View for Removal {
    type V = RemovalView;

    open spec fn view(&self) -> RemovalView {
        match self {
            Removal::DirectoryTree(path) => RemovalView::DirectoryTree(path@),
            Removal::File(path) => RemovalView::File(path@),
            Removal::DirectoryIfEmpty(path) => RemovalView::DirectoryIfEmpty(path@),
        }
    }
}

/// The position of the first identity, from `from` on, with the given name.
pub open spec fn spec_position_by_name(
    identities: Seq<NamedIdentity>,
    name: Seq<char>,
    from: int,
) -> Option<int>
    decreases identities.len() - from,
{
    if from < 0 || from >= identities.len() {
        None
    } else if identities[from].name@ == name {
        Some(from)
    } else {
        spec_position_by_name(identities, name, from + 1)
    }
}

/// The position of the first identity, from `from` on, that is a default.
pub open spec fn spec_position_of_default(identities: Seq<NamedIdentity>, from: int) -> Option<
    int,
>
    decreases identities.len() - from,
{
    if from < 0 || from >= identities.len() {
        None
    } else if identities[from].is_default {
        Some(from)
    } else {
        spec_position_of_default(identities, from + 1)
    }
}

/// The position of the identity that an optional name selects: the first of
/// that name, or the first default where no name is given.
pub open spec fn spec_position_by_optional_name(
    identities: Seq<NamedIdentity>,
    name: Option<String>,
) -> Option<int> {
    match name {
        Some(given) => spec_position_by_name(identities, given@, 0),
        None => spec_position_of_default(identities, 0),
    }
}

/// Whether `after` is `before` with every identity called `name` marked as
/// a default, and nothing else changed.
pub open spec fn spec_identity_made_default(
    before: CliState,
    after: CliState,
    name: Seq<char>,
) -> bool {
    &&& after.dir == before.dir
    &&& after.nodes == before.nodes
    &&& after.enrollments == before.enrollments
    &&& after.unnamed_identities == before.unnamed_identities
    &&& after.identities@.len() == before.identities@.len()
    &&& forall|i: int|
        0 <= i < before.identities@.len() ==> {
            let was = #[trigger] before.identities@[i];
            let is = after.identities@[i];
            &&& is.name == was.name
            &&& is.identity == was.identity
            &&& is.is_default == (was.is_default || was.name@ == name)
        }
}

/// Whether `after` is `before` with the nodes called `name` as the only
/// default nodes, and nothing else changed.
pub open spec fn spec_node_made_default(before: CliState, after: CliState, name: Seq<char>) -> bool {
    &&& after.dir == before.dir
    &&& after.identities == before.identities
    &&& after.enrollments == before.enrollments
    &&& after.unnamed_identities == before.unnamed_identities
    &&& after.nodes@.len() == before.nodes@.len()
    &&& forall|i: int|
        0 <= i < before.nodes@.len() ==> {
            let was = #[trigger] before.nodes@[i];
            after.nodes@[i] == (NodeInfo { is_default: was.name@ == name, ..was })
        }
}

/// The position of the first node, from `from` on, with the given name.
pub open spec fn spec_node_by_name(nodes: Seq<NodeInfo>, name: Seq<char>, from: int) -> Option<
    int,
>
    decreases nodes.len() - from,
{
    if from < 0 || from >= nodes.len() {
        None
    } else if nodes[from].name@ == name {
        Some(from)
    } else {
        spec_node_by_name(nodes, name, from + 1)
    }
}

/// The position of the first node, from `from` on, that is a default.
pub open spec fn spec_default_node(nodes: Seq<NodeInfo>, from: int) -> Option<int>
    decreases nodes.len() - from,
{
    if from < 0 || from >= nodes.len() {
        None
    } else if nodes[from].is_default {
        Some(from)
    } else {
        spec_default_node(nodes, from + 1)
    }
}

/// What is removed when the state rooted at `root` is deleted, in order:
/// the directory of each kind of state, the configuration file, and last the
/// root itself if that has emptied it.
pub open spec fn spec_removals(root: Seq<char>) -> Seq<RemovalView> {
    seq![
        RemovalView::DirectoryTree(spec_join(root, "nodes"@)),
        RemovalView::DirectoryTree(spec_join(root, "vaults"@)),
        RemovalView::DirectoryTree(spec_join(root, "spaces"@)),
        RemovalView::DirectoryTree(spec_join(root, "projects"@)),
        RemovalView::DirectoryTree(spec_join(root, "credentials"@)),
        RemovalView::DirectoryTree(spec_join(root, "trust_contexts"@)),
        RemovalView::DirectoryTree(spec_join(root, "users_info"@)),
        RemovalView::DirectoryTree(spec_join(root, "defaults"@)),
        RemovalView::File(spec_join(root, "config.json"@)),
        RemovalView::DirectoryIfEmpty(root),
    ]
}

/// The directory of test states below the home directory `home`, for the
/// state called `name`.
pub open spec fn spec_test_dir(home: Seq<char>, name: Seq<char>) -> Seq<char> {
    spec_join(spec_join(spec_join(home, ".ockam"@), ".tests"@), name)
}

/// The state of this machine.
#[derive(Debug, PartialEq, Eq)]
pub struct CliState {
    /// The directory that holds the state on disk.
    pub dir: String,
    pub identities: Vec<NamedIdentity>,
    pub nodes: Vec<NodeInfo>,
    pub enrollments: Vec<IdentityEnrollment>,
    /// The identities that have no name yet.
    pub unnamed_identities: Vec<Identity>,
}

impl CliState {
    /// An empty state rooted at `dir`.
    pub fn new(dir: &str) -> (state: Self)
        ensures
            state.dir@ == dir@,
            state.identities@.len() == 0,
            state.nodes@.len() == 0,
            state.enrollments@.len() == 0,
            state.unnamed_identities@.len() == 0,
    {
        CliState {
            dir: String::from_str(dir),
            identities: Vec::new(),
            nodes: Vec::new(),
            enrollments: Vec::new(),
            unnamed_identities: Vec::new(),
        }
    }

    /// The path of the database below the state directory.
    pub fn database_path(&self) -> (path: String)
        ensures
            path@ == spec_join(self.dir@, "database.sqlite3"@),
    {
        join_path(self.dir.as_str(), "database.sqlite3")
    }

    /// The file that the node called `node_name` logs its output to.
    pub fn stdout_logs(&self, node_name: &str) -> (path: String)
        ensures
            path@ == spec_join(
                spec_join(spec_join(self.dir@, "nodes"@), node_name@),
                "stdout.log"@,
            ),
    {
        let nodes = join_path(self.dir.as_str(), "nodes");
        let node = join_path(nodes.as_str(), node_name);
        join_path(node.as_str(), "stdout.log")
    }

    /// The directory that the state directory `dir` is backed up to:
    /// beside it, under its name with `.bak` added. An error where the path
    /// has no name to add to.
    pub fn backup_default_dir(dir: &str) -> (r: Result<String, CliStateError>)
        ensures
            match (spec_file_name(dir@), spec_parent(dir@)) {
                (None, _) => r matches Err(CliStateError::InvalidOperation(message)) && message@
                    == "The $OCKAM_HOME directory does not have a valid name"@,
                (Some(_), None) => r matches Err(CliStateError::InvalidOperation(message))
                    && message@
                    == "The $OCKAM_HOME directory does not a valid parent directory"@,
                (Some(name), Some(above)) => r matches Ok(path) && path@ == spec_join(
                    above,
                    name + ".bak"@,
                ),
            },
    {
        let name = match file_name(dir) {
            None => {
                return Err(
                    CliStateError::InvalidOperation(
                        String::from_str("The $OCKAM_HOME directory does not have a valid name"),
                    ),
                );
            },
            Some(name) => name,
        };
        let above = match parent(dir) {
            None => {
                return Err(
                    CliStateError::InvalidOperation(
                        String::from_str(
                            "The $OCKAM_HOME directory does not a valid parent directory",
                        ),
                    ),
                );
            },
            Some(above) => above,
        };
        let mut backup = name;
        backup.append(".bak");
        Ok(join_path(above.as_str(), backup.as_str()))
    }

    /// The directory where the default objects are stored.
    pub fn defaults_dir(dir: &str) -> (path: String)
        ensures
            path@ == spec_join(dir@, "defaults"@),
    {
        join_path(dir, "defaults")
    }

    /// The directory of the test state called `name`.
    pub fn test_dir_named(home: &str, name: &str) -> (path: String)
        ensures
            path@ == spec_test_dir(home@, name@),
    {
        let base = join_path(home, ".ockam");
        let tests = join_path(base.as_str(), ".tests");
        join_path(tests.as_str(), name)
    }

    /// A directory for a test state, under a random name.
    pub fn test_dir(home: &str) -> (path: String)
        ensures
            exists|name: Seq<char>| path@ == spec_test_dir(home@, name),
    {
        let name = random_name();
        Self::test_dir_named(home, name.as_str())
    }

    /// An empty state for a test, in a directory of its own below `home`.
    pub fn test(home: &str) -> (state: Self)
        ensures
            exists|name: Seq<char>| state.dir@ == spec_test_dir(home@, name),
            state.identities@.len() == 0,
            state.nodes@.len() == 0,
            state.enrollments@.len() == 0,
            state.unnamed_identities@.len() == 0,
    {
        let dir = Self::test_dir(home);
        Self::new(dir.as_str())
    }

    /// What to remove from disk to delete the state rooted at `root`.
    pub fn delete_at(root: &str) -> (removals: Vec<Removal>)
        ensures
            views(removals@) == spec_removals(root@),
    {
        let mut removals: Vec<Removal> = Vec::new();
        removals.push(Removal::DirectoryTree(join_path(root, "nodes")));
        removals.push(Removal::DirectoryTree(join_path(root, "vaults")));
        removals.push(Removal::DirectoryTree(join_path(root, "spaces")));
        removals.push(Removal::DirectoryTree(join_path(root, "projects")));
        removals.push(Removal::DirectoryTree(join_path(root, "credentials")));
        removals.push(Removal::DirectoryTree(join_path(root, "trust_contexts")));
        removals.push(Removal::DirectoryTree(join_path(root, "users_info")));
        removals.push(Removal::DirectoryTree(join_path(root, "defaults")));
        removals.push(Removal::File(join_path(root, "config.json")));
        removals.push(Removal::DirectoryIfEmpty(String::from_str(root)));
        assert(views(removals@) =~= spec_removals(root@));
        removals
    }

    /// What to remove from disk to delete the state in the default
    /// directory `default_dir`.
    pub fn delete(default_dir: &str) -> (removals: Vec<Removal>)
        ensures
            views(removals@) == spec_removals(default_dir@),
    {
        Self::delete_at(default_dir)
    }

    /// The position of the first identity called `name`.
    fn position_by_name(&self, name: &str) -> (position: Option<usize>)
        ensures
            match position {
                Some(i) => spec_position_by_name(self.identities@, name@, 0) == Some(i as int)
                    && i < self.identities@.len() && self.identities@[i as int].name@ == name@,
                None => spec_position_by_name(self.identities@, name@, 0) is None,
            },
    {
        let mut i: usize = 0;
        while i < self.identities.len()
            invariant
                0 <= i <= self.identities@.len(),
                spec_position_by_name(self.identities@, name@, 0) == spec_position_by_name(
                    self.identities@,
                    name@,
                    i as int,
                ),
            decreases self.identities@.len() - i,
        {
            if same_text(self.identities[i].name.as_str(), name) {
                return Some(i);
            }
            i += 1;
        }
        None
    }

    /// The position of the first identity that is a default.
    fn position_of_default(&self) -> (position: Option<usize>)
        ensures
            match position {
                Some(i) => spec_position_of_default(self.identities@, 0) == Some(i as int) && i
                    < self.identities@.len() && self.identities@[i as int].is_default,
                None => spec_position_of_default(self.identities@, 0) is None,
            },
    {
        let mut i: usize = 0;
        while i < self.identities.len()
            invariant
                0 <= i <= self.identities@.len(),
                spec_position_of_default(self.identities@, 0) == spec_position_of_default(
                    self.identities@,
                    i as int,
                ),
            decreases self.identities@.len() - i,
        {
            if self.identities[i].is_default {
                return Some(i);
            }
            i += 1;
        }
        None
    }

    /// The position of the first node called `name`.
    fn node_position(&self, name: &str) -> (position: Option<usize>)
        ensures
            match position {
                Some(i) => spec_node_by_name(self.nodes@, name@, 0) == Some(i as int) && i
                    < self.nodes@.len() && self.nodes@[i as int].name@ == name@,
                None => spec_node_by_name(self.nodes@, name@, 0) is None,
            },
    {
        let mut i: usize = 0;
        while i < self.nodes.len()
            invariant
                0 <= i <= self.nodes@.len(),
                spec_node_by_name(self.nodes@, name@, 0) == spec_node_by_name(
                    self.nodes@,
                    name@,
                    i as int,
                ),
            decreases self.nodes@.len() - i,
        {
            if same_text(self.nodes[i].name.as_str(), name) {
                return Some(i);
            }
            i += 1;
        }
        None
    }

    /// The position of the first node that is a default.
    fn default_node_position(&self) -> (position: Option<usize>)
        ensures
            match position {
                Some(i) => spec_default_node(self.nodes@, 0) == Some(i as int) && i
                    < self.nodes@.len() && self.nodes@[i as int].is_default,
                None => spec_default_node(self.nodes@, 0) is None,
            },
    {
        let mut i: usize = 0;
        while i < self.nodes.len()
            invariant
                0 <= i <= self.nodes@.len(),
                spec_default_node(self.nodes@, 0) == spec_default_node(self.nodes@, i as int),
            decreases self.nodes@.len() - i,
        {
            if self.nodes[i].is_default {
                return Some(i);
            }
            i += 1;
        }
        None
    }

    /// Whether there is an identity called `name` and the first of that name
    /// is a default.
    pub fn is_default_identity_by_name(&self, name: &str) -> (is_default: bool)
        ensures
            is_default == match spec_position_by_name(self.identities@, name@, 0) {
                Some(i) => self.identities@[i].is_default,
                None => false,
            },
    {
        match self.position_by_name(name) {
            Some(i) => self.identities[i].is_default,
            None => false,
        }
    }

    /// Marks every identity called `name` as a default. The others keep
    /// their mark.
    pub fn set_as_default_identity(&mut self, name: &str)
        ensures
            spec_identity_made_default(*old(self), *final(self), name@),
    {
        let mut i: usize = 0;
        while i < self.identities.len()
            invariant
                0 <= i <= self.identities@.len(),
                self.dir == old(self).dir,
                self.nodes == old(self).nodes,
                self.enrollments == old(self).enrollments,
                self.unnamed_identities == old(self).unnamed_identities,
                self.identities@.len() == old(self).identities@.len(),
                forall|j: int|
                    0 <= j < i ==> {
                        let before = #[trigger] old(self).identities@[j];
                        let after = self.identities@[j];
                        &&& after.name == before.name
                        &&& after.identity == before.identity
                        &&& after.is_default == (before.is_default || before.name@ == name@)
                    },
                forall|j: int|
                    i <= j < self.identities@.len() ==> self.identities@[j] == old(
                        self,
                    ).identities@[j],
            decreases self.identities@.len() - i,
        {
            if same_text(self.identities[i].name.as_str(), name) {
                self.identities[i].is_default = true;
            }
            i += 1;
        }
    }

    /// The error for an identity that an optional name does not find.
    pub fn missing_identifier(name: &Option<String>) -> (error: CliStateError)
        ensures
            spec_is_not_found(error, spec_missing_identifier(*name)),
    {
        match name {
            Some(given) => {
                let message = concat3("no identifier found with name ", given.as_str(), "");
                assert(message@ =~= "no identifier found with name "@ + given@) by {
                    reveal_strlit("");
                }
                CliStateError::NotFound(message)
            },
            None => CliStateError::NotFound(String::from_str("no default identifier found")),
        }
    }

    /// The identity that an optional name selects: the first of that name,
    /// or the first default where no name is given.
    pub fn get_identity_by_optional_name(&self, name: &Option<String>) -> (r: Result<
        Identity,
        CliStateError,
    >)
        ensures
            match r {
                Ok(identity) => match spec_position_by_optional_name(self.identities@, *name) {
                    Some(i) => identity@ == self.identities@[i].identity@,
                    None => false,
                },
                Err(error) => spec_position_by_optional_name(self.identities@, *name) is None
                    && spec_is_not_found(error, spec_missing_identifier(*name)),
            },
    {
        let position = match name {
            Some(given) => self.position_by_name(given.as_str()),
            None => self.position_of_default(),
        };
        match position {
            Some(i) => Ok(self.identities[i].identity.clone()),
            None => Err(Self::missing_identifier(name)),
        }
    }

    /// The identifier of the identity that an optional name selects.
    pub fn get_identifier_by_optional_name(&self, name: &Option<String>) -> (r: Result<
        Identifier,
        CliStateError,
    >)
        ensures
            match r {
                Ok(identifier) => match spec_position_by_optional_name(self.identities@, *name) {
                    Some(i) => identifier@ == self.identities@[i].identity@.identifier,
                    None => false,
                },
                Err(error) => spec_position_by_optional_name(self.identities@, *name) is None
                    && spec_is_not_found(error, spec_missing_identifier(*name)),
            },
    {
        match self.get_identity_by_optional_name(name) {
            Ok(identity) => Ok(identity.identifier().clone()),
            Err(error) => Err(error),
        }
    }

    /// The name of the first default identity.
    pub fn get_default_identity_name(&self) -> (r: Result<String, CliStateError>)
        ensures
            match r {
                Ok(name) => match spec_position_of_default(self.identities@, 0) {
                    Some(i) => name@ == self.identities@[i].name@,
                    None => false,
                },
                Err(error) => spec_position_of_default(self.identities@, 0) is None && (
                error matches CliStateError::NotFound(message) && message@
                    == "no default identity found"@),
            },
    {
        match self.position_of_default() {
            Some(i) => Ok(self.identities[i].name.clone()),
            None => Err(CliStateError::NotFound(String::from_str("no default identity found"))),
        }
    }

    /// The given name where there is one, else the name of the default
    /// identity, else `default`.
    pub fn get_identity_name_or_default(&self, name: &Option<String>) -> (chosen: String)
        ensures
            chosen@ == match *name {
                Some(given) => given@,
                None => match spec_position_of_default(self.identities@, 0) {
                    Some(i) => self.identities@[i].name@,
                    None => "default"@,
                },
            },
    {
        match name {
            Some(given) => given.clone(),
            None => match self.get_default_identity_name() {
                Ok(found) => found,
                Err(_) => String::from_str("default"),
            },
        }
    }

    /// Adds an identity under a name.
    pub fn store_named_identity(&mut self, name: &str, identity: Identity, is_default: bool)
        ensures
            final(self).dir == old(self).dir,
            final(self).nodes == old(self).nodes,
            final(self).enrollments == old(self).enrollments,
            final(self).unnamed_identities == old(self).unnamed_identities,
            final(self).identities@.len() == old(self).identities@.len() + 1,
            forall|i: int|
                0 <= i < old(self).identities@.len() ==> final(self).identities@[i] == old(
                    self,
                ).identities@[i],
            final(self).identities@.last().name@ == name@,
            final(self).identities@.last().identity@ == identity@,
            final(self).identities@.last().is_default == is_default,
    {
        self.identities.push(NamedIdentity::new(String::from_str(name), identity, is_default));
    }

    /// The identifier of the first identity called `name`, if there is one.
    pub fn get_identifier_by_name(&self, name: &str) -> (identifier: Option<Identifier>)
        ensures
            match identifier {
                Some(found) => match spec_position_by_name(self.identities@, name@, 0) {
                    Some(i) => found@ == self.identities@[i].identity@.identifier,
                    None => false,
                },
                None => spec_position_by_name(self.identities@, name@, 0) is None,
            },
    {
        match self.position_by_name(name) {
            Some(i) => Some(self.identities[i].identifier()),
            None => None,
        }
    }

    /// The position of the first identity with the identifier `identifier`.
    fn position_by_identifier(&self, identifier: &Identifier) -> (position: Option<usize>)
        ensures
            match position {
                Some(i) => spec_position_by_identifier(self.identities@, identifier@, 0) == Some(
                    i as int,
                ) && i < self.identities@.len(),
                None => spec_position_by_identifier(self.identities@, identifier@, 0) is None,
            },
    {
        let mut i: usize = 0;
        while i < self.identities.len()
            invariant
                0 <= i <= self.identities@.len(),
                spec_position_by_identifier(self.identities@, identifier@, 0)
                    == spec_position_by_identifier(self.identities@, identifier@, i as int),
            decreases self.identities@.len() - i,
        {
            if self.identities[i].identity.identifier().same_as(identifier) {
                return Some(i);
            }
            i += 1;
        }
        None
    }

    /// The change history of the identity `identifier`, if the state holds
    /// it.
    pub fn get_change_history_optional(&self, identifier: &Identifier) -> (history: Option<
        ChangeHistory,
    >)
        ensures
            match history {
                Some(found) => match spec_position_by_identifier(
                    self.identities@,
                    identifier@,
                    0,
                ) {
                    Some(i) => found@ == self.identities@[i].identity@.history,
                    None => false,
                },
                None => spec_position_by_identifier(self.identities@, identifier@, 0) is None,
            },
    {
        match self.position_by_identifier(identifier) {
            Some(i) => Some(self.identities[i].identity.change_history().clone()),
            None => None,
        }
    }

    /// The change history of the identity `identifier`; an error where the
    /// state does not hold it.
    pub fn get_change_history(&self, identifier: &Identifier) -> (r: Result<
        ChangeHistory,
        CliStateError,
    >)
        ensures
            match spec_position_by_identifier(self.identities@, identifier@, 0) {
                Some(i) => r matches Ok(found) && found@ == self.identities@[i].identity@.history,
                None => r matches Err(error) && spec_is_not_found(
                    error,
                    "identity not found for identifier I"@ + spec_hex(identifier@),
                ),
            },
    {
        match self.get_change_history_optional(identifier) {
            Some(history) => Ok(history),
            None => {
                let digits = hex_encode(identifier.0.as_slice());
                let message = concat3("identity not found for identifier I", digits.as_str(), "");
                assert(message@ =~= "identity not found for identifier I"@ + spec_hex(
                    identifier@,
                )) by {
                    reveal_strlit("");
                }
                Err(CliStateError::NotFound(message))
            },
        }
    }

    /// The identities that have a name.
    pub fn get_named_identities(&self) -> (identities: &Vec<NamedIdentity>)
        ensures
            identities == self.identities,
    {
        &self.identities
    }

    /// Creates an identity with the signing key `signing_key` and stores it
    /// under `name`. With a sound vault this never fails.
    pub fn create_identity_with_name<V: XXVault>(
        &mut self,
        vault: &V,
        signing_key: &[u8],
        name: &str,
    ) -> (r: Result<Identifier, HandshakeError>)
        ensures
            vault_is_sound(vault) ==> r is Ok,
            match r {
                Err(error) => *final(self) == *old(self) && spec_verify_change_history(
                    vault,
                    seq![spec_first_change(vault, signing_key@)],
                ) == Err::<IdentityView, HandshakeError>(error),
                Ok(identifier) => {
                    &&& final(self).dir == old(self).dir
                    &&& final(self).nodes == old(self).nodes
                    &&& final(self).enrollments == old(self).enrollments
                    &&& final(self).unnamed_identities == old(self).unnamed_identities
                    &&& final(self).identities@.len() == old(self).identities@.len() + 1
                    &&& final(self).identities@.drop_last() == old(self).identities@
                    &&& final(self).identities@.last().name@ == name@
                    &&& !final(self).identities@.last().is_default
                    &&& final(self).identities@.last().identity.verified_by(vault)
                    &&& final(self).identities@.last().identity@.identifier == identifier@
                },
            },
    {
        let identity = match create_identity(vault, signing_key) {
            Err(error) => {
                return Err(error);
            },
            Ok(identity) => identity,
        };
        let identifier = identity.identifier().clone();
        self.store_named_identity(name, identity, false);
        assert(self.identities@.drop_last() =~= old(self).identities@);
        Ok(identifier)
    }

    /// Creates an identity with the signing key `signing_key` and stores it
    /// without a name. With a sound vault this never fails.
    pub fn create_identity<V: XXVault>(&mut self, vault: &V, signing_key: &[u8]) -> (r: Result<
        Identifier,
        HandshakeError,
    >)
        ensures
            vault_is_sound(vault) ==> r is Ok,
            spec_unnamed_identity_created(*old(self), *final(self), vault, signing_key@, r),
    {
        let identity = match create_identity(vault, signing_key) {
            Err(error) => {
                return Err(error);
            },
            Ok(identity) => identity,
        };
        let identifier = identity.identifier().clone();
        self.unnamed_identities.push(identity);
        assert(self.unnamed_identities@.drop_last() =~= old(self).unnamed_identities@);
        Ok(identifier)
    }

    /// The identifier of the identity that an optional name selects. Where
    /// it selects none, an identity is created with the signing key
    /// `signing_key`: under the name, where one is given, else without a
    /// name and without making it the default.
    pub fn get_identifier_by_optional_name_or_create_identity<V: XXVault>(
        &mut self,
        vault: &V,
        signing_key: &[u8],
        name: &Option<String>,
    ) -> (r: Result<Identifier, HandshakeError>)
        ensures
            match spec_position_by_optional_name(old(self).identities@, *name) {
                Some(i) => *final(self) == *old(self) && (r matches Ok(identifier)
                    && identifier@ == old(self).identities@[i].identity@.identifier),
                None => {
                    &&& vault_is_sound(vault) ==> r is Ok
                    &&& match *name {
                        None => spec_unnamed_identity_created(
                            *old(self),
                            *final(self),
                            vault,
                            signing_key@,
                            r,
                        ),
                        Some(given) => match r {
                            Err(error) => *final(self) == *old(self)
                                && spec_verify_change_history(
                                vault,
                                seq![spec_first_change(vault, signing_key@)],
                            ) == Err::<IdentityView, HandshakeError>(error),
                            Ok(identifier) => {
                                &&& final(self).dir == old(self).dir
                                &&& final(self).nodes == old(self).nodes
                                &&& final(self).enrollments == old(self).enrollments
                                &&& final(self).unnamed_identities == old(
                                    self,
                                ).unnamed_identities
                                &&& final(self).identities@.len() == old(self).identities@.len()
                                    + 1
                                &&& final(self).identities@.drop_last() == old(self).identities@
                                &&& final(self).identities@.last().identity@.identifier
                                    == identifier@
                                &&& final(self).identities@.last().identity.verified_by(vault)
                                &&& final(self).identities@.last().name@ == given@
                                &&& !final(self).identities@.last().is_default
                            },
                        },
                    }
                },
            },
    {
        match name {
            Some(given) => match self.get_identifier_by_name(given.as_str()) {
                Some(identifier) => Ok(identifier),
                None => self.create_identity_with_name(vault, signing_key, given.as_str()),
            },
            None => match self.position_of_default() {
                Some(i) => Ok(self.identities[i].identifier()),
                None => self.create_identity(vault, signing_key),
            },
        }
    }

    /// Deletes the first identity called `name`, and with it every identity
    /// that has its identifier. An error where nobody is called `name`.
    pub fn delete_identity_by_name(&mut self, name: &str) -> (r: Result<(), CliStateError>)
        ensures
            match spec_position_by_name(old(self).identities@, name@, 0) {
                None => *final(self) == *old(self) && (r matches Err(error)
                    && spec_is_not_found(error, "no identifier found with name "@ + name@)),
                Some(i) => {
                    &&& r is Ok
                    &&& final(self).dir == old(self).dir
                    &&& final(self).nodes == old(self).nodes
                    &&& final(self).enrollments == old(self).enrollments
                    &&& final(self).unnamed_identities == old(self).unnamed_identities
                    &&& final(self).identities@ == spec_without(
                        old(self).identities@,
                        old(self).identities@[i].identity@.identifier,
                        old(self).identities@.len(),
                    )
                },
            },
    {
        let identifier = match self.position_by_name(name) {
            None => {
                let named = Some(String::from_str(name));
                return Err(Self::missing_identifier(&named));
            },
            Some(i) => self.identities[i].identifier(),
        };
        let mut kept: Vec<NamedIdentity> = Vec::new();
        let ghost before = self.identities@;
        while self.identities.len() > 0
            invariant
                self.dir == old(self).dir,
                self.nodes == old(self).nodes,
                self.enrollments == old(self).enrollments,
                self.unnamed_identities == old(self).unnamed_identities,
                before == old(self).identities@,
                self.identities@.len() <= before.len(),
                self.identities@ == before.subrange(0, self.identities@.len() as int),
                spec_without(before, identifier@, before.len()) == spec_without(
                    before,
                    identifier@,
                    self.identities@.len(),
                ) + kept@.reverse(),
            decreases self.identities@.len(),
        {
            let ghost shorter = self.identities@.len() - 1;
            let ghost collected = kept@;
            let last = self.identities.pop().unwrap();
            assert(self.identities@ =~= before.subrange(0, shorter));
            assert(last == before[shorter]);
            if !last.identity.identifier().same_as(&identifier) {
                kept.push(last);
                proof {
                    assert(kept@.reverse() =~= seq![last] + collected.reverse());
                    assert(spec_without(before, identifier@, (shorter + 1) as nat)
                        + collected.reverse() =~= spec_without(
                        before,
                        identifier@,
                        shorter as nat,
                    ) + kept@.reverse());
                }
            }
        }
        let ghost reversed = kept@;
        while kept.len() > 0
            invariant
                self.dir == old(self).dir,
                self.nodes == old(self).nodes,
                self.enrollments == old(self).enrollments,
                self.unnamed_identities == old(self).unnamed_identities,
                kept@.len() <= reversed.len(),
                kept@ == reversed.subrange(0, kept@.len() as int),
                self.identities@ == reversed.subrange(
                    kept@.len() as int,
                    reversed.len() as int,
                ).reverse(),
            decreases kept@.len(),
        {
            let ghost shorter = kept@.len() - 1;
            let ghost stored = self.identities@;
            let last = kept.pop().unwrap();
            self.identities.push(last);
            proof {
                assert(kept@ =~= reversed.subrange(0, shorter));
                assert(self.identities@ =~= reversed.subrange(
                    shorter,
                    reversed.len() as int,
                ).reverse());
            }
        }
        proof {
            assert(reversed.subrange(0, reversed.len() as int) =~= reversed);
            assert(spec_without(before, identifier@, 0) + reversed.reverse()
                =~= reversed.reverse());
        }
        Ok(())
    }

    /// The identities with their enrollments: all of them, or the enrolled
    /// ones.
    pub fn get_identity_enrollments(&self, enrollment_status: EnrollmentStatus) -> (details: Vec<
        IdentityEnrollment,
    >)
        ensures
            views(details@) == match enrollment_status {
                EnrollmentStatus::Any => views(self.enrollments@),
                EnrollmentStatus::Enrolled => spec_enrolled(
                    views(self.enrollments@),
                    self.enrollments@.len(),
                ),
            },
    {
        let all = match enrollment_status {
            EnrollmentStatus::Any => true,
            EnrollmentStatus::Enrolled => false,
        };
        let mut details: Vec<IdentityEnrollment> = Vec::new();
        let mut i: usize = 0;
        while i < self.enrollments.len()
            invariant
                0 <= i <= self.enrollments@.len(),
                views(details@) == if all {
                    views(self.enrollments@).take(i as int)
                } else {
                    spec_enrolled(views(self.enrollments@), i as nat)
                },
            decreases self.enrollments@.len() - i,
        {
            if all || self.enrollments[i].enrolled_at.is_some() {
                let ghost before = views(details@);
                let entry = self.enrollments[i].clone();
                details.push(entry);
                assert(views(details@) =~= before.push(entry@));
            }
            proof {
                let every = views(self.enrollments@);
                assert(every.take(i + 1) =~= every.take(i as int).push(every[i as int]));
            }
            i += 1;
        }
        assert(views(self.enrollments@).take(self.enrollments@.len() as int) =~= views(
            self.enrollments@,
        ));
        details
    }

    /// Creates an identity with the signing key `signing_key` and stores it
    /// under a random name.
    pub fn create_identity_with_random_name<V: XXVault>(
        &mut self,
        vault: &V,
        signing_key: &[u8],
    ) -> (r: Result<Identifier, HandshakeError>)
        ensures
            vault_is_sound(vault) ==> r is Ok,
            match r {
                Err(error) => *final(self) == *old(self) && spec_verify_change_history(
                    vault,
                    seq![spec_first_change(vault, signing_key@)],
                ) == Err::<IdentityView, HandshakeError>(error),
                Ok(identifier) => {
                    &&& final(self).dir == old(self).dir
                    &&& final(self).nodes == old(self).nodes
                    &&& final(self).enrollments == old(self).enrollments
                    &&& final(self).unnamed_identities == old(self).unnamed_identities
                    &&& final(self).identities@.len() == old(self).identities@.len() + 1
                    &&& final(self).identities@.drop_last() == old(self).identities@
                    &&& !final(self).identities@.last().is_default
                    &&& final(self).identities@.last().identity.verified_by(vault)
                    &&& final(self).identities@.last().identity@.identifier == identifier@
                },
            },
    {
        let name = random_name();
        self.create_identity_with_name(vault, signing_key, name.as_str())
    }

    /// Forgets the first node called `name`. Returns whether there was one.
    pub fn delete_node(&mut self, name: &str) -> (found: bool)
        ensures
            final(self).dir == old(self).dir,
            final(self).identities == old(self).identities,
            final(self).enrollments == old(self).enrollments,
            final(self).unnamed_identities == old(self).unnamed_identities,
            match spec_node_by_name(old(self).nodes@, name@, 0) {
                None => !found && final(self).nodes == old(self).nodes,
                Some(i) => found && final(self).nodes@ == old(self).nodes@.remove(i),
            },
    {
        match self.node_position(name) {
            None => false,
            Some(i) => {
                self.nodes.remove(i);
                true
            },
        }
    }

    /// Whether the user is enrolled: the default identity is enrolled, and
    /// there are a default space and a default project, as enrollment
    /// leaves them. An enrolled identity without them is an error.
    pub fn is_enrolled(&self, default_space_exists: bool, default_project_exists: bool) -> (r:
        Result<bool, CliStateError>)
        ensures
            match r {
                Ok(enrolled) => enrolled == spec_default_identity_enrolled(*self) && (enrolled
                    ==> default_space_exists && default_project_exists),
                Err(error) => spec_default_identity_enrolled(*self) && (
                error matches CliStateError::InvalidOperation(message) && message@
                    == if !default_space_exists {
                    "There should be a default space set for the current user. Please re-enroll"@
                } else {
                    "There should be a default project set for the current user. Please re-enroll"@
                }) && !(default_space_exists && default_project_exists),
            },
    {
        if !self.is_default_identity_enrolled() {
            return Ok(false);
        }
        if !default_space_exists {
            return Err(
                CliStateError::InvalidOperation(
                    String::from_str(
                        "There should be a default space set for the current user. Please re-enroll",
                    ),
                ),
            );
        }
        if !default_project_exists {
            return Err(
                CliStateError::InvalidOperation(
                    String::from_str(
                        "There should be a default project set for the current user. Please re-enroll",
                    ),
                ),
            );
        }
        Ok(true)
    }

    /// Whether the first default identity is enrolled.
    pub fn is_default_identity_enrolled(&self) -> (enrolled: bool)
        ensures
            enrolled == spec_default_identity_enrolled(*self),
    {
        let identifier = match self.position_of_default() {
            None => {
                return false;
            },
            Some(i) => self.identities[i].identifier(),
        };
        let mut j: usize = 0;
        while j < self.enrollments.len()
            invariant
                0 <= j <= self.enrollments@.len(),
                spec_position_of_default(self.identities@, 0) matches Some(i)
                    && self.identities@[i].identity@.identifier == identifier@,
                spec_enrollment_position(self.enrollments@, identifier@, 0)
                    == spec_enrollment_position(self.enrollments@, identifier@, j as int),
            decreases self.enrollments@.len() - j,
        {
            if self.enrollments[j].identifier.same_as(&identifier) {
                return self.enrollments[j].enrolled_at.is_some();
            }
            j += 1;
        }
        false
    }

    /// The nodes of this machine.
    pub fn get_nodes(&self) -> (nodes: &Vec<NodeInfo>)
        ensures
            nodes == self.nodes,
    {
        &self.nodes
    }

    /// The first node called `name`.
    pub fn get_node(&self, name: &str) -> (r: Result<&NodeInfo, CliStateError>)
        ensures
            match r {
                Ok(node) => match spec_node_by_name(self.nodes@, name@, 0) {
                    Some(i) => *node == self.nodes@[i],
                    None => false,
                },
                Err(error) => spec_node_by_name(self.nodes@, name@, 0) is None
                    && spec_is_no_such_node(error, name@),
            },
    {
        match self.node_position(name) {
            Some(i) => Ok(&self.nodes[i]),
            None => Err(
                CliStateError::ResourceNotFound {
                    resource: String::from_str("node"),
                    name: String::from_str(name),
                },
            ),
        }
    }

    /// The first node that is a default.
    pub fn get_default_node(&self) -> (r: Result<&NodeInfo, CliStateError>)
        ensures
            match r {
                Ok(node) => match spec_default_node(self.nodes@, 0) {
                    Some(i) => *node == self.nodes@[i],
                    None => false,
                },
                Err(error) => spec_default_node(self.nodes@, 0) is None && (
                error matches CliStateError::NotFound(message) && message@
                    == "no default node found"@),
            },
    {
        match self.default_node_position() {
            Some(i) => Ok(&self.nodes[i]),
            None => Err(CliStateError::NotFound(String::from_str("no default node found"))),
        }
    }

    /// Whether there is a node called `name` and the first of that name is a
    /// default.
    pub fn is_default_node(&self, name: &str) -> (is_default: bool)
        ensures
            is_default == match spec_node_by_name(self.nodes@, name@, 0) {
                Some(i) => self.nodes@[i].is_default,
                None => false,
            },
    {
        match self.node_position(name) {
            Some(i) => self.nodes[i].is_default,
            None => false,
        }
    }

    /// Makes the nodes called `name` the default and no other; returns
    /// whether there is such a node. Without one the state stays as it is.
    pub fn set_default_node(&mut self, name: &str) -> (found: bool)
        ensures
            found == spec_node_by_name(old(self).nodes@, name@, 0) is Some,
            !found ==> *final(self) == *old(self),
            found ==> spec_node_made_default(*old(self), *final(self), name@),
    {
        if self.node_position(name).is_none() {
            return false;
        }
        let mut i: usize = 0;
        while i < self.nodes.len()
            invariant
                0 <= i <= self.nodes@.len(),
                self.dir == old(self).dir,
                self.identities == old(self).identities,
                self.enrollments == old(self).enrollments,
                self.unnamed_identities == old(self).unnamed_identities,
                self.nodes@.len() == old(self).nodes@.len(),
                forall|j: int|
                    0 <= j < i ==> {
                        let before = #[trigger] old(self).nodes@[j];
                        let after = self.nodes@[j];
                        after == (NodeInfo { is_default: before.name@ == name@, ..before })
                    },
                forall|j: int|
                    i <= j < self.nodes@.len() ==> self.nodes@[j] == old(self).nodes@[j],
            decreases self.nodes@.len() - i,
        {
            let is_named = same_text(self.nodes[i].name.as_str(), name);
            self.nodes[i].is_default = is_named;
            i += 1;
        }
        true
    }

    /// Takes the default mark from every node.
    pub fn delete_default_node(&mut self)
        ensures
            final(self).dir == old(self).dir,
            final(self).identities == old(self).identities,
            final(self).enrollments == old(self).enrollments,
            final(self).unnamed_identities == old(self).unnamed_identities,
            final(self).nodes@.len() == old(self).nodes@.len(),
            forall|i: int|
                0 <= i < old(self).nodes@.len() ==> final(self).nodes@[i] == (NodeInfo {
                    is_default: false,
                    ..#[trigger] old(self).nodes@[i]
                }),
            spec_default_node(final(self).nodes@, 0) is None,
    {
        let mut i: usize = 0;
        while i < self.nodes.len()
            invariant
                0 <= i <= self.nodes@.len(),
                self.dir == old(self).dir,
                self.identities == old(self).identities,
                self.enrollments == old(self).enrollments,
                self.unnamed_identities == old(self).unnamed_identities,
                self.nodes@.len() == old(self).nodes@.len(),
                forall|j: int|
                    0 <= j < i ==> self.nodes@[j] == (NodeInfo {
                        is_default: false,
                        ..#[trigger] old(self).nodes@[j]
                    }),
                forall|j: int|
                    i <= j < self.nodes@.len() ==> self.nodes@[j] == old(self).nodes@[j],
            decreases self.nodes@.len() - i,
        {
            self.nodes[i].is_default = false;
            i += 1;
        }
        proof {
            assert forall|j: int| 0 <= j < self.nodes@.len() implies !(
            #[trigger] self.nodes@[j]).is_default by {
                let before = old(self).nodes@[j];
            }
            lemma_no_default_node(self.nodes@, 0);
        }
    }
}

/// The position of the first identity, from `from` on, with the given
/// identifier.
pub open spec fn spec_position_by_identifier(
    identities: Seq<NamedIdentity>,
    identifier: Seq<u8>,
    from: int,
) -> Option<int>
    decreases identities.len() - from,
{
    if from < 0 || from >= identities.len() {
        None
    } else if identities[from].identity@.identifier == identifier {
        Some(from)
    } else {
        spec_position_by_identifier(identities, identifier, from + 1)
    }
}

/// The first `count` of `identities` that do not have the identifier
/// `identifier`, in order.
pub open spec fn spec_without(
    identities: Seq<NamedIdentity>,
    identifier: Seq<u8>,
    count: nat,
) -> Seq<NamedIdentity>
    decreases count,
{
    if count == 0 {
        Seq::empty()
    } else {
        let before = spec_without(identities, identifier, (count - 1) as nat);
        if identities[count - 1].identity@.identifier == identifier {
            before
        } else {
            before.push(identities[count - 1])
        }
    }
}

/// The position of the first enrollment, from `from` on, of the identity
/// `identifier`.
pub open spec fn spec_enrollment_position(
    enrollments: Seq<IdentityEnrollment>,
    identifier: Seq<u8>,
    from: int,
) -> Option<int>
    decreases enrollments.len() - from,
{
    if from < 0 || from >= enrollments.len() {
        None
    } else if enrollments[from].identifier@ == identifier {
        Some(from)
    } else {
        spec_enrollment_position(enrollments, identifier, from + 1)
    }
}

/// Whether the first default identity is enrolled.
pub open spec fn spec_default_identity_enrolled(state: CliState) -> bool {
    match spec_position_of_default(state.identities@, 0) {
        None => false,
        Some(i) => match spec_enrollment_position(
            state.enrollments@,
            state.identities@[i].identity@.identifier,
            0,
        ) {
            None => false,
            Some(j) => state.enrollments@[j].enrolled_at is Some,
        },
    }
}

/// What is said of an identity that an optional name does not find.
pub open spec fn spec_missing_identifier(name: Option<String>) -> Seq<char> {
    match name {
        Some(given) => "no identifier found with name "@ + given@,
        None => "no default identifier found"@,
    }
}

/// Whether `error` says that nothing with the given message was found.
pub open spec fn spec_is_not_found(error: CliStateError, message: Seq<char>) -> bool {
    error matches CliStateError::NotFound(said) && said@ == message
}

/// Whether `error` says that there is no node called `name`.
pub open spec fn spec_is_no_such_node(error: CliStateError, name: Seq<char>) -> bool {
    error matches CliStateError::ResourceNotFound { resource, name: missing } && resource@
        == "node"@ && missing@ == name
}

/// Whether `after` and `r` are what creating an identity without a name
/// makes of `before`: where the vault makes the identity, it is the last
/// of those without a name and `r` is its identifier, and nothing else has
/// changed; else nothing has changed and `r` is the vault's error.
pub open spec fn spec_unnamed_identity_created<V: XXVault>(
    before: CliState,
    after: CliState,
    vault: &V,
    signing_key: Seq<u8>,
    r: Result<Identifier, HandshakeError>,
) -> bool {
    match r {
        Err(error) => after == before && spec_verify_change_history(
            vault,
            seq![spec_first_change(vault, signing_key)],
        ) == Err::<IdentityView, HandshakeError>(error),
        Ok(identifier) => {
            &&& after.dir == before.dir
            &&& after.nodes == before.nodes
            &&& after.enrollments == before.enrollments
            &&& after.identities == before.identities
            &&& after.unnamed_identities@.len() == before.unnamed_identities@.len() + 1
            &&& after.unnamed_identities@.drop_last() == before.unnamed_identities@
            &&& after.unnamed_identities@.last()@.identifier == identifier@
            &&& after.unnamed_identities@.last()@.history == seq![
                spec_first_change(vault, signing_key),
            ]
            &&& after.unnamed_identities@.last().verified_by(vault)
        },
    }
}

/// The node that a name finds has that name.
pub proof fn lemma_node_by_name_has_name(nodes: Seq<NodeInfo>, name: Seq<char>, from: int)
    requires
        0 <= from,
    ensures
        match spec_node_by_name(nodes, name, from) {
            Some(i) => from <= i < nodes.len() && nodes[i].name@ == name,
            None => true,
        },
    decreases nodes.len() - from,
{
    if from < nodes.len() && nodes[from].name@ != name {
        lemma_node_by_name_has_name(nodes, name, from + 1);
    }
}

/// Where no node is marked, there is no default node.
pub proof fn lemma_no_default_node(nodes: Seq<NodeInfo>, from: int)
    requires
        0 <= from,
        forall|i: int| 0 <= i < nodes.len() ==> !(#[trigger] nodes[i]).is_default,
    ensures
        spec_default_node(nodes, from) is None,
    decreases nodes.len() - from,
{
    if from < nodes.len() {
        lemma_no_default_node(nodes, from + 1);
    }
}

} // verus!
