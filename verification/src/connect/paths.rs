//! Paths of the Kafka Connect REST API and the texts of its failures.
use vstd::prelude::*;
use crate::text::{concat2, concat3, concat4, decimal_nat, to_owned_string, u64_to_string};

verus! {

broadcast use vstd::string::group_string_axioms;

/// `connectors/<name>` followed by `suffix`.
pub open spec fn connector_path_spec(name: Seq<char>, suffix: Seq<char>) -> Seq<char> {
    "connectors/"@ + name + suffix
}

/// `connectors/<name><suffix>`; `suffix` is empty or starts with `/`.
pub fn connector_path(name: &str, suffix: &str) -> (r: String)
    ensures
        r@ == connector_path_spec(name@, suffix@),
{
    concat3("connectors/", name, suffix)
}

/// `connectors/<name>/tasks/<task>/restart`.
pub fn task_restart_path(name: &str, task_id: u32) -> (r: String)
    ensures
        r@ == connector_path_spec(name@, "/tasks/"@ + decimal_nat(task_id as nat) + "/restart"@),
{
    let id = u64_to_string(task_id as u64);
    let suffix = concat3("/tasks/", id.as_str(), "/restart");
    connector_path(name, suffix.as_str())
}

/// The path named in errors: `/` for the root.
pub fn shown_path(path: &str) -> (r: String)
    ensures
        r@ == if path@.len() == 0 { "/"@ } else { path@ },
{
    if crate::text::chars_of(path).len() == 0 {
        to_owned_string("/")
    } else {
        to_owned_string(path)
    }
}

/// Why a request could not be sent: a hint to start port-forwards when the
/// server could not be reached or did not answer in time.
pub open spec fn send_failure_spec(url: Seq<char>, cause: Seq<char>, unreachable: bool) -> Seq<char> {
    if unreachable {
        "cannot reach "@ + url + " ("@ + cause
            + "). Is Kafka Connect running and port-forwarded? Try `just port-forward-all` (or `just ui`, which starts forwards first)."@
    } else {
        "request to "@ + url + " failed: "@ + cause
    }
}

pub fn send_failure_reason(url: &str, cause: &str, unreachable: bool) -> (r: String)
    ensures
        r@ == send_failure_spec(url@, cause@, unreachable),
{
    if unreachable {
        let head = concat4("cannot reach ", url, " (", cause);
        concat2(head.as_str(),
            "). Is Kafka Connect running and port-forwarded? Try `just port-forward-all` (or `just ui`, which starts forwards first).")
    } else {
        concat4("request to ", url, " failed: ", cause)
    }
}

/// `HTTP <status>: <body>` for a reply that is not a success.
pub fn http_failure_reason(status: &str, body: &str) -> (r: String)
    ensures
        r@ == "HTTP "@ + status@ + ": "@ + body@,
{
    concat4("HTTP ", status, ": ", body)
}

} // verus!
