//! What the `connectors` commands print once Kafka Connect has done the work.
use vstd::prelude::*;
use crate::ops::cli::ConnectorCommands;
use crate::settings::{default_cluster_name, ConnectionSettings};
use crate::text::{concat2, concat4, decimal_nat, u64_to_string};

verus! {

broadcast use vstd::string::group_string_axioms;

/// The line a lifecycle command prints when it succeeds; `None` for the
/// commands that print a JSON reply or a YAML document instead.
pub open spec fn done_line(command: ConnectorCommands) -> Option<Seq<char>> {
    match command {
        ConnectorCommands::Pause { name } => Some("Paused connector: "@ + name@),
        ConnectorCommands::Resume { name } => Some("Resumed connector: "@ + name@),
        ConnectorCommands::Restart { name } => Some("Restarted connector: "@ + name@),
        ConnectorCommands::RestartTask { name, task_id } => Some(
            "Restarted task "@ + decimal_nat(task_id as nat) + " for connector: "@ + name@,
        ),
        ConnectorCommands::Delete { name } => Some("Deleted connector: "@ + name@),
        _ => None,
    }
}

/// The line a lifecycle command prints when it succeeds.
pub fn done_message(command: &ConnectorCommands) -> (r: Option<String>)
    ensures
        crate::text::opt_view(r) == done_line(*command),
{
    match command {
        ConnectorCommands::Pause { name } => Some(concat2("Paused connector: ", name.as_str())),
        ConnectorCommands::Resume { name } => Some(concat2("Resumed connector: ", name.as_str())),
        ConnectorCommands::Restart { name } => Some(concat2("Restarted connector: ", name.as_str())),
        ConnectorCommands::RestartTask { name, task_id } => {
            let id = u64_to_string(*task_id as u64);
            Some(concat4("Restarted task ", id.as_str(), " for connector: ", name.as_str()))
        },
        ConnectorCommands::Delete { name } => Some(concat2("Deleted connector: ", name.as_str())),
        _ => None,
    }
}

/// The cluster a YAML export names: the one given with `--cluster`, else the
/// settings' cluster name.
pub fn export_cluster<'a>(cluster: Option<&'a str>, settings: &'a ConnectionSettings) -> (r: &'a str)
    ensures
        r@ == match cluster {
            Some(c) => c@,
            None => match settings.connect_cluster_name {
                Some(n) => n@,
                None => default_cluster_name(),
            },
        },
{
    match cluster {
        Some(c) => c,
        None => settings.cluster_name(),
    }
}

} // verus!
