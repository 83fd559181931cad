//! Kafka Connect REST reply and request types.
use vstd::prelude::*;
use crate::json::{entries_get, entries_remove, JsonObject, JsonValue, JsonView};

verus! {

broadcast use vstd::string::group_string_axioms;

/// Kafka Connect cluster root response.
pub struct ClusterInfo {
    pub version: Option<String>,
    pub commit: Option<String>,
    pub kafka_cluster_id: Option<String>,
}

/// Connector plugin metadata from `/connector-plugins`.
pub struct ConnectorPlugin {
    pub class: String,
    pub plugin_type: Option<String>,
    pub version: Option<String>,
}

/// Request body for `POST /connectors`.
pub struct CreateConnectorRequest {
    pub name: String,
    pub config: JsonObject,
}

/// The name and configuration a creation payload gives: `{"name", "config"}`
/// when `config` is an object, otherwise a flat configuration that holds
/// `name` (which is then left out of it). `None` when `name` is not a string.
pub open spec fn create_parts(payload: Seq<(Seq<char>, JsonView)>) -> Option<
    (Seq<char>, Seq<(Seq<char>, JsonView)>),
> {
    match entries_get(payload, "name"@) {
        Some(JsonView::String(name)) => match entries_get(payload, "config"@) {
            Some(JsonView::Object(config)) => Some((name, config)),
            _ => Some((name, entries_remove(payload, "name"@))),
        },
        _ => None,
    }
}

/// The creation request a payload describes, if any.
pub fn create_request_parts(payload: &JsonObject) -> (r: Option<CreateConnectorRequest>)
    ensures
        match create_parts(payload@) {
            Some((name, config)) => r matches Some(q) && q.name@ == name && q.config@ == config,
            None => r is None,
        },
{
    let name = match payload.get("name") {
        Some(JsonValue::String(n)) => n.clone(),
        _ => {
            return None;
        },
    };
    match payload.get("config") {
        Some(JsonValue::Object(config)) => Some(CreateConnectorRequest { name, config: config.duplicate() }),
        _ => {
            let mut config = payload.duplicate();
            let _ = config.remove("name");
            Some(CreateConnectorRequest { name, config })
        },
    }
}

} // verus!
