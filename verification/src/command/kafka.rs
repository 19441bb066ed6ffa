//! The command that configures the Apache Kafka addon of a project.

use vstd::prelude::*;
use crate::command::{spec_wrote_line, CommandError, CommandGlobalOpts, LineKind};

verus! {

/// Configures the Apache Kafka addon for a project.
#[derive(Debug, PartialEq, Eq)]
pub struct AddonConfigureKafkaSubcommand {
    /// Ockam project name.
    pub project_name: String,
    /// Bootstrap server address.
    pub bootstrap_server: String,
}

/// What the controller is asked to configure the addon.
#[derive(Debug, PartialEq, Eq)]
pub struct KafkaRequest {
    /// Where the request goes: the endpoint of the project's addons and the
    /// name of this addon.
    pub endpoint: String,
    pub bootstrap_server: String,
}

impl AddonConfigureKafkaSubcommand {
    /// The request that configures the addon, given the endpoint of the
    /// addons of the project.
    pub fn request(&self, addon_endpoint: &str) -> (request: KafkaRequest)
        ensures
            request.endpoint@ == addon_endpoint@ + "/confluent"@,
            request.bootstrap_server@ == self.bootstrap_server@,
    {
        let mut endpoint = String::from_str(addon_endpoint);
        endpoint.append("/confluent");
        KafkaRequest { endpoint, bootstrap_server: self.bootstrap_server.clone() }
    }

    /// What running this command does, given how configuring the addon
    /// went: the request, the wait for the operation and the wait for the
    /// project to be ready. Where it went well one line reports it; else
    /// the command fails with the error and changes nothing.
    pub open spec fn ran(
        self,
        before: CommandGlobalOpts,
        after: CommandGlobalOpts,
        result: Result<(), CommandError>,
        configured: Result<(), String>,
    ) -> bool {
        match configured {
            Ok(_) => result is Ok && spec_wrote_line(
                before,
                after,
                LineKind::Success,
                "Apache Kafka addon configured successfully"@,
                None,
            ),
            Err(error) => after == before && (result matches Err(CommandError::Message(message))
                && message@ == error@),
        }
    }

    pub fn run(self, options: &mut CommandGlobalOpts, configured: Result<(), String>) -> (result:
        Result<(), CommandError>)
        ensures
            self.ran(*old(options), *final(options), result, configured),
    {
        match configured {
            Ok(_) => {
                options.write_line(
                    LineKind::Success,
                    String::from_str("Apache Kafka addon configured successfully"),
                    None,
                );
                Ok(())
            },
            Err(error) => Err(CommandError::Message(error)),
        }
    }
}

} // verus!
