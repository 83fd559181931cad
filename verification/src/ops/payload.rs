//! Connector configuration files given to `connectors create` and
//! `connectors update`.
use vstd::prelude::*;
use crate::connect::types::{create_parts, create_request_parts, CreateConnectorRequest};
use crate::error::Error as CoreError;
use crate::json::{entries_get, has_key, JsonObject, JsonValue, JsonView};
use crate::ops::error::Error;
use crate::ops::lint::{file_extension, path_extension};
use crate::parse::{config_document, format_from_extension, is_parse_error, parse_config_text, ConfigFormat};
use crate::text::to_owned_string;

verus! {

broadcast use vstd::string::group_string_axioms;

/// The configuration a payload gives: a nested `config` object unless the
/// payload also names the connector, in which case the payload itself.
pub open spec fn config_of_payload(map: Seq<(Seq<char>, JsonView)>) -> Seq<(Seq<char>, JsonView)> {
    match entries_get(map, "config"@) {
        Some(JsonView::Object(config)) => if has_key(map, "name"@) {
            map
        } else {
            config
        },
        _ => map,
    }
}

/// The configuration a payload gives (see [`config_of_payload`]).
pub fn config_map_from_payload(map: JsonObject) -> (r: JsonObject)
    ensures
        r@ == config_of_payload(map@),
{
    let nested = match map.get("config") {
        Some(JsonValue::Object(config)) => Some(config.duplicate()),
        _ => None,
    };
    match nested {
        Some(config) => if map.contains_key("name") {
            map
        } else {
            config
        },
        None => map,
    }
}

/// The configuration in a file's text, read in the format its path's
/// extension implies.
pub fn read_config_map(path: &str, text: &str) -> (r: Result<JsonObject, CoreError>)
    ensures
        match config_document(text@, format_from_extension(path_extension(path@))) {
            Err(f) => r matches Err(e) && is_parse_error(e, f),
            Ok(es) => r matches Ok(m) && m@ == config_of_payload(es),
        },
{
    let ext = file_extension(path);
    let format = match ext {
        Some(e) => ConfigFormat::from_extension(Some(e.as_str())),
        None => ConfigFormat::from_extension(None),
    };
    let map = parse_config_text(text, format)?;
    Ok(config_map_from_payload(map))
}

/// The creation request in a file's text.
pub fn load_create_request(path: &str, text: &str) -> (r: Result<CreateConnectorRequest, Error>)
    ensures
        match config_document(text@, format_from_extension(path_extension(path@))) {
            Err(f) => r matches Err(Error::Core(e)) && is_parse_error(e, f),
            Ok(es) => match create_parts(config_of_payload(es)) {
                Some((name, config)) => r matches Ok(q) && q.name@ == name && q.config@ == config,
                None => r matches Err(Error::JsonOutput { reason }) && reason@
                    == "create payload must include name and config"@,
            },
        },
{
    let map = match read_config_map(path, text) {
        Ok(m) => m,
        Err(e) => {
            return Err(Error::Core(e));
        },
    };
    match create_request_parts(&map) {
        Some(q) => Ok(q),
        None => Err(Error::JsonOutput { reason: to_owned_string("create payload must include name and config") }),
    }
}

} // verus!
