//! Parsing connector configuration text as JSON or YAML.
use vstd::prelude::*;
use crate::document::{YamlFailure, json_text_parse, parse_json_text, parse_yaml_text, yaml_text_as_json};
use crate::error::Error;
use crate::json::{JsonObject, JsonValue, JsonView, entries_insert, has_key, keys_sorted, objects_sorted};
use crate::text::{ascii_lower, concat2, str_eq, to_ascii_lowercase, to_owned_string};

verus! {

broadcast use vstd::string::group_string_axioms;

/// Supported connector configuration formats.
#[derive(Debug, Clone, Copy, PartialEq, Eq, Structural)]
pub enum ConfigFormat {
    /// Detect JSON first, then YAML.
    Auto,
    /// Strict JSON.
    Json,
    /// Strict YAML.
    Yaml,
}

/// The format a name selects, compared without ASCII case; `Err` holds the
/// lower-cased name when it selects none.
pub open spec fn format_from_name(value: Seq<char>) -> Result<ConfigFormat, Seq<char>> {
    let l = ascii_lower(value);
    if l == "auto"@ {
        Ok(ConfigFormat::Auto)
    } else if l == "json"@ {
        Ok(ConfigFormat::Json)
    } else if l == "yaml"@ || l == "yml"@ {
        Ok(ConfigFormat::Yaml)
    } else {
        Err(l)
    }
}

/// The format a file extension implies.
pub open spec fn format_from_extension(ext: Option<Seq<char>>) -> ConfigFormat {
    match ext {
        Some(e) => {
            let l = ascii_lower(e);
            if l == "json"@ {
                ConfigFormat::Json
            } else if l == "yaml"@ || l == "yml"@ {
                ConfigFormat::Yaml
            } else {
                ConfigFormat::Auto
            }
        },
        None => ConfigFormat::Auto,
    }
}

/// The format's name in error messages.
pub open spec fn format_name(format: ConfigFormat) -> Seq<char> {
    match format {
        ConfigFormat::Auto => "json or yaml"@,
        ConfigFormat::Json => "json"@,
        ConfigFormat::Yaml => "yaml"@,
    }
}

/// A parse failure: the format named in the message, and the reason.
pub struct ParseFailure {
    pub format: Seq<char>,
    pub reason: Seq<char>,
}

/// JSON text read as a value.
pub open spec fn json_document(text: Seq<char>) -> Result<JsonView, ParseFailure> {
    match json_text_parse(text) {
        Ok(t) => Ok(t),
        Err(e) => Err(ParseFailure { format: "json"@, reason: e }),
    }
}

/// YAML text read as a value in its JSON form.
pub open spec fn yaml_document(text: Seq<char>) -> Result<JsonView, ParseFailure> {
    match yaml_text_as_json(text) {
        Err((true, e)) => Err(ParseFailure { format: "yaml"@, reason: e }),
        Err((false, e)) => Err(ParseFailure { format: "yaml"@, reason: "cannot normalise YAML to JSON: "@ + e }),
        Ok(t) => Ok(t),
    }
}

/// Text read in a format: `Auto` tries JSON, then YAML, and reports YAML's
/// reason under the name `json or yaml`.
pub open spec fn document(text: Seq<char>, format: ConfigFormat) -> Result<JsonView, ParseFailure> {
    match format {
        ConfigFormat::Json => json_document(text),
        ConfigFormat::Yaml => yaml_document(text),
        ConfigFormat::Auto => match json_document(text) {
            Ok(t) => Ok(t),
            Err(_) => match yaml_document(text) {
                Ok(t) => Ok(t),
                Err(f) => Err(ParseFailure { format: "json or yaml"@, reason: f.reason }),
            },
        },
    }
}

/// The configuration a text holds: its top-level value must be an object.
pub open spec fn config_document(text: Seq<char>, format: ConfigFormat) -> Result<
    Seq<(Seq<char>, JsonView)>,
    ParseFailure,
> {
    match document(text, format) {
        Err(f) => Err(f),
        Ok(JsonView::Object(es)) => Ok(es),
        Ok(_) => Err(ParseFailure { format: format_name(format), reason: "top-level value must be a mapping/object"@ }),
    }
}

/// The exec error standing for a parse failure.
pub open spec fn is_parse_error(e: Error, f: ParseFailure) -> bool {
    e matches Error::Parse { format, reason } && format@ == f.format && reason@ == f.reason
}

/// `name` supplied when the configuration lacks it.
pub open spec fn named(cfg: Seq<(Seq<char>, JsonView)>, name: Option<Seq<char>>) -> Seq<(Seq<char>, JsonView)> {
    if has_key(cfg, "name"@) {
        cfg
    } else {
        match name {
            Some(n) => entries_insert(cfg, "name"@, JsonView::String(n)),
            None => cfg,
        }
    }
}

impl ConfigFormat {
    /// Parses a format name (`auto`, `json`, `yaml`, `yml`).
    pub fn parse(value: &str) -> (r: Result<ConfigFormat, Error>)
        ensures
            match format_from_name(value@) {
                Ok(f) => r == Ok::<ConfigFormat, Error>(f),
                Err(l) => r matches Err(Error::UnknownFormat { format }) && format@ == l,
            },
    {
        let l = to_ascii_lowercase(value);
        if str_eq(l.as_str(), "auto") {
            Ok(ConfigFormat::Auto)
        } else if str_eq(l.as_str(), "json") {
            Ok(ConfigFormat::Json)
        } else if str_eq(l.as_str(), "yaml") || str_eq(l.as_str(), "yml") {
            Ok(ConfigFormat::Yaml)
        } else {
            Err(Error::UnknownFormat { format: l })
        }
    }

    /// Infers the format from a file extension.
    pub fn from_extension(ext: Option<&str>) -> (r: ConfigFormat)
        ensures
            r == format_from_extension(match ext {
                Some(e) => Some(e@),
                None => None,
            }),
    {
        match ext {
            Some(e) => {
                let l = to_ascii_lowercase(e);
                if str_eq(l.as_str(), "json") {
                    ConfigFormat::Json
                } else if str_eq(l.as_str(), "yaml") || str_eq(l.as_str(), "yml") {
                    ConfigFormat::Yaml
                } else {
                    ConfigFormat::Auto
                }
            },
            None => ConfigFormat::Auto,
        }
    }
}

/// The format's name in error messages.
pub fn format_label(format: ConfigFormat) -> (r: String)
    ensures
        r@ == format_name(format),
{
    match format {
        ConfigFormat::Auto => to_owned_string("json or yaml"),
        ConfigFormat::Json => to_owned_string("json"),
        ConfigFormat::Yaml => to_owned_string("yaml"),
    }
}

fn parse_json(text: &str) -> (r: Result<JsonValue, Error>)
    ensures
        match json_document(text@) {
            Ok(t) => r matches Ok(v) && v@ == t && objects_sorted(t),
            Err(f) => r matches Err(e) && is_parse_error(e, f),
        },
{
    match parse_json_text(text) {
        Ok(v) => Ok(v),
        Err(reason) => Err(Error::Parse { format: to_owned_string("json"), reason }),
    }
}

fn parse_yaml(text: &str) -> (r: Result<JsonValue, Error>)
    ensures
        match yaml_document(text@) {
            Ok(t) => r matches Ok(v) && v@ == t && objects_sorted(t),
            Err(f) => r matches Err(e) && is_parse_error(e, f),
        },
{
    match parse_yaml_text(text) {
        Ok(v) => Ok(v),
        Err(YamlFailure::Syntax(reason)) => Err(Error::Parse { format: to_owned_string("yaml"), reason }),
        Err(YamlFailure::NotJson(e)) => Err(Error::Parse {
            format: to_owned_string("yaml"),
            reason: concat2("cannot normalise YAML to JSON: ", e.as_str()),
        }),
    }
}

/// Parses connector configuration text into an object.
pub fn parse_config_text(text: &str, format: ConfigFormat) -> (r: Result<JsonObject, Error>)
    ensures
        match config_document(text@, format) {
            Ok(es) => r matches Ok(o) && o@ == es && keys_sorted(es) && objects_sorted(JsonView::Object(es)),
            Err(f) => r matches Err(e) && is_parse_error(e, f),
        },
{
    let value = match format {
        ConfigFormat::Json => parse_json(text)?,
        ConfigFormat::Yaml => parse_yaml(text)?,
        ConfigFormat::Auto => match parse_json(text) {
            Ok(v) => v,
            Err(_) => match parse_yaml(text) {
                Ok(v) => v,
                Err(Error::Parse { format: _, reason }) => {
                    return Err(Error::Parse { format: to_owned_string("json or yaml"), reason });
                },
                Err(other) => {
                    return Err(other);
                },
            },
        },
    };
    match value {
        JsonValue::Object(map) => Ok(map),
        _ => Err(Error::Parse {
            format: format_label(format),
            reason: to_owned_string("top-level value must be a mapping/object"),
        }),
    }
}

/// Ensures `name` is present, supplying `connector_name` when the Connect
/// REST API left it out of a `/connectors/{name}/config` payload.
pub fn with_name(config: JsonObject, connector_name: Option<&str>) -> (r: JsonObject)
    ensures
        r@ == named(config@, match connector_name {
            Some(n) => Some(n@),
            None => None,
        }),
{
    let mut config = config;
    if config.contains_key("name") {
        return config;
    }
    if let Some(name) = connector_name {
        config.insert(to_owned_string("name"), JsonValue::String(to_owned_string(name)));
    }
    config
}

} // verus!
