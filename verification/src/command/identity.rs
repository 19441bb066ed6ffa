//! The commands on identities.

use vstd::prelude::*;
use crate::cli_state::{
    spec_identity_made_default, spec_is_not_found, spec_missing_identifier,
    spec_position_by_name, spec_position_by_optional_name, spec_position_of_default, CliState,
};
use crate::codec::{encode_list, spec_encode_list, views};
use crate::command::{
    spec_wrote_line, CommandError, CommandGlobalOpts, LineKind,
};
use crate::identity::{Change, Identity, IdentityView};
use crate::text::{concat3, hex_encode, same_text, spec_hex};

verus! {

/// Makes an identity the default one.
#[derive(Debug, PartialEq, Eq)]
pub struct DefaultCommand {
    /// Name of the identity to be set as default.
    pub name: String,
}

/// Whether the first identity called `name` is a default.
pub open spec fn spec_is_default_identity(state: CliState, name: Seq<char>) -> bool {
    match spec_position_by_name(state.identities@, name, 0) {
        Some(i) => state.identities@[i].is_default,
        None => false,
    }
}

impl DefaultCommand {
    /// What running this command does. An identity that is the default
    /// already is an error and changes nothing. Otherwise every identity of
    /// the name is marked, and a line reports it, with the name as its text
    /// for programs.
    pub open spec fn ran(
        self,
        before: CommandGlobalOpts,
        after: CommandGlobalOpts,
        result: Result<(), CommandError>,
    ) -> bool {
        if spec_is_default_identity(before.state, self.name@) {
            &&& after == before
            &&& result matches Err(CommandError::Message(message)) && message@
                == "The identity '"@ + self.name@ + "' is already the default"@
        } else {
            &&& result is Ok
            &&& exists|marked: CommandGlobalOpts|
                {
                    &&& marked == (CommandGlobalOpts { state: marked.state, ..before })
                    &&& spec_identity_made_default(before.state, marked.state, self.name@)
                    &&& spec_wrote_line(
                        marked,
                        after,
                        LineKind::Success,
                        "The identity '"@ + self.name@ + "' is now the default"@,
                        Some(self.name@),
                    )
                }
        }
    }

    pub fn run(self, options: &mut CommandGlobalOpts) -> (result: Result<(), CommandError>)
        ensures
            self.ran(*old(options), *final(options), result),
    {
        if options.state.is_default_identity_by_name(self.name.as_str()) {
            return Err(
                CommandError::Message(
                    concat3("The identity '", self.name.as_str(), "' is already the default"),
                ),
            );
        }
        options.state.set_as_default_identity(self.name.as_str());
        let ghost marked = *options;
        let plain = concat3("The identity '", self.name.as_str(), "' is now the default");
        options.write_line(LineKind::Success, plain, Some(self.name));
        Ok(())
    }
}

/// How the history of an identity is written out.
#[derive(Clone, Copy, Debug, PartialEq, Eq, Structural)]
pub enum EncodeFormat {
    Plain,
    Hex,
}

/// Shows an identity.
#[derive(Debug, PartialEq, Eq)]
pub struct ShowCommand {
    /// Name of the identity; the default identity where none is given.
    pub name: Option<String>,
    /// Show the full identity history, and not just the identifier.
    pub full: bool,
    pub encoding: Option<EncodeFormat>,
}

/// An identifier as it is shown: the letter I and the hexadecimal of its
/// bytes.
pub open spec fn spec_identifier_text(identifier: Seq<u8>) -> Seq<char> {
    "I"@ + spec_hex(identifier)
}

/// The history of an identity in hexadecimal.
pub open spec fn spec_history_text(identity: IdentityView) -> Seq<char> {
    spec_hex(spec_encode_list::<Change>(identity.history))
}

/// An identity as it is shown in full: its identifier on one line, its
/// history in hexadecimal on the next.
pub open spec fn spec_identity_text(identity: IdentityView) -> Seq<char> {
    "Identifier: "@ + spec_identifier_text(identity.identifier) + "\nChange history: "@
        + spec_history_text(identity)
}

/// The identifier as it is shown.
pub fn identifier_text(identity: &Identity) -> (text: String)
    ensures
        text@ == spec_identifier_text(identity@.identifier),
{
    let digits = hex_encode(identity.identifier().0.as_slice());
    let text = concat3("I", digits.as_str(), "");
    assert(text@ =~= spec_identifier_text(identity@.identifier)) by {
        reveal_strlit("");
    }
    text
}

/// The history in hexadecimal.
pub fn history_text(identity: &Identity) -> (text: String)
    ensures
        text@ == spec_history_text(identity@),
{
    let mut exported: Vec<u8> = Vec::new();
    encode_list(&identity.change_history().0, &mut exported);
    assert(exported@ =~= spec_encode_list::<Change>(identity@.history));
    hex_encode(exported.as_slice())
}

/// The identity as it is shown in full.
pub fn identity_text(identity: &Identity) -> (text: String)
    ensures
        text@ == spec_identity_text(identity@),
{
    let identifier = identifier_text(identity);
    let history = history_text(identity);
    let mut text = concat3("Identifier: ", identifier.as_str(), "\nChange history: ");
    text.append(history.as_str());
    text
}

impl ShowCommand {
    /// What this command shows of an identity.
    pub open spec fn shown(self, identity: IdentityView) -> Seq<char> {
        if self.full {
            if self.encoding == Some(EncodeFormat::Hex) {
                spec_history_text(identity)
            } else {
                spec_identity_text(identity)
            }
        } else {
            spec_identifier_text(identity.identifier)
        }
    }

    /// What running this command does. Where the name selects no identity
    /// the command fails and changes nothing. Otherwise it writes one line.
    pub open spec fn ran(
        self,
        before: CommandGlobalOpts,
        after: CommandGlobalOpts,
        result: Result<(), CommandError>,
    ) -> bool {
        match spec_position_by_optional_name(before.state.identities@, self.name) {
            None => after == before && (result matches Err(CommandError::State(error))
                && spec_is_not_found(error, spec_missing_identifier(self.name))),
            Some(i) => result is Ok && spec_wrote_line(
                before,
                after,
                LineKind::Plain,
                self.shown(before.state.identities@[i].identity@),
                None,
            ),
        }
    }

    pub fn run(self, options: &mut CommandGlobalOpts) -> (result: Result<(), CommandError>)
        ensures
            self.ran(*old(options), *final(options), result),
    {
        let identity = match options.state.get_identity_by_optional_name(&self.name) {
            Err(error) => {
                return Err(CommandError::State(error));
            },
            Ok(identity) => identity,
        };
        let text = if self.full {
            let in_hex = match self.encoding {
                Some(EncodeFormat::Hex) => true,
                _ => false,
            };
            if in_hex {
                history_text(&identity)
            } else {
                identity_text(&identity)
            }
        } else {
            identifier_text(&identity)
        };
        options.write_line(LineKind::Plain, text, None);
        Ok(())
    }
}

/// The commands on identities.
#[derive(Debug, PartialEq, Eq)]
pub enum IdentitySubcommand {
    Show(ShowCommand),
    Default(DefaultCommand),
}

/// Manages identities.
#[derive(Debug, PartialEq, Eq)]
pub struct IdentityCommand {
    pub subcommand: IdentitySubcommand,
}

impl IdentityCommand {
    /// Runs the subcommand.
    pub fn run(self, options: &mut CommandGlobalOpts) -> (result: Result<(), CommandError>)
        ensures
            match self.subcommand {
                IdentitySubcommand::Show(c) => c.ran(*old(options), *final(options), result),
                IdentitySubcommand::Default(c) => c.ran(*old(options), *final(options), result),
            },
    {
        match self.subcommand {
            IdentitySubcommand::Show(c) => c.run(options),
            IdentitySubcommand::Default(c) => c.run(options),
        }
    }
}

/// Whether an identity called `default` must be made before a command on the
/// identity that `name` selects can run: the name is `default`, given or
/// chosen for want of one, and no identity is the default yet.
pub open spec fn spec_needs_default_identity(state: CliState, name: Option<String>) -> bool {
    &&& spec_position_of_default(state.identities@, 0) is None
    &&& match name {
        Some(given) => given@ == "default"@,
        None => true,
    }
}

/// What is remarked when the default identity is made.
pub open spec fn spec_default_identity_remarks(identifier: Seq<u8>) -> Seq<Seq<char>> {
    seq![
        "There is no identity, on this machine, marked as your default."@,
        "Creating a new Ockam identity for you..."@,
        "Created: "@ + spec_identifier_text(identifier),
        "Marked this new identity as your default, on this machine.\n"@,
    ]
}

/// If the identity that `name` selects is the default one and there is none
/// yet, stores `fresh` as the default identity, and remarks on it. Returns
/// whether it did.
pub fn initialize_identity_if_default(
    options: &mut CommandGlobalOpts,
    name: &Option<String>,
    fresh: Identity,
) -> (made: bool)
    ensures
        made == spec_needs_default_identity(old(options).state, *name),
        !made ==> *final(options) == *old(options),
        made ==> {
            &&& final(options).global_args == old(options).global_args
            &&& final(options).terminal == old(options).terminal
            &&& final(options).effects == old(options).effects
            &&& final(options).state.dir == old(options).state.dir
            &&& final(options).state.nodes == old(options).state.nodes
            &&& final(options).state.enrollments == old(options).state.enrollments
            &&& final(options).state.unnamed_identities == old(options).state.unnamed_identities
            &&& final(options).state.identities@.len() == old(options).state.identities@.len()
                + 1
            &&& final(options).state.identities@.drop_last() == old(options).state.identities@
            &&& final(options).state.identities@.last().name@ == "default"@
            &&& final(options).state.identities@.last().identity@ == fresh@
            &&& final(options).state.identities@.last().is_default
            &&& views(final(options).parser_logs@) == views(old(options).parser_logs@)
                + spec_default_identity_remarks(fresh@.identifier)
        },
{
    let chosen = options.state.get_identity_name_or_default(name);
    let missing = options.state.get_default_identity_name().is_err();
    if !(same_text(chosen.as_str(), "default") && missing) {
        return false;
    }
    let identifier = identifier_text(&fresh);
    options.state.store_named_identity("default", fresh, true);
    assert(options.state.identities@.drop_last() =~= old(options).state.identities@);
    options.parser_logs.push(
        String::from_str("There is no identity, on this machine, marked as your default."),
    );
    options.parser_logs.push(String::from_str("Creating a new Ockam identity for you..."));
    let created = concat3("Created: ", identifier.as_str(), "");
    assert(created@ =~= "Created: "@ + identifier@) by {
        reveal_strlit("");
    }
    options.parser_logs.push(created);
    options.parser_logs.push(
        String::from_str("Marked this new identity as your default, on this machine.\n"),
    );
    assert(views(options.parser_logs@) =~= views(old(options).parser_logs@)
        + spec_default_identity_remarks(fresh@.identifier));
    true
}

} // verus!
