//! Connection settings for Kafka Connect and Kafka: read from `secrets.toml`
//! and overridden on the command line.
use vstd::prelude::*;
use crate::document::{parse_toml_text, toml_text_parse};
use crate::error::Error;
use crate::json::{JsonValue, JsonView};
use crate::text::{clone_opt, opt_view, to_owned_string};

verus! {

broadcast use vstd::string::group_string_axioms;

/// Where to reach Kafka Connect and Kafka.
pub struct ConnectionSettings {
    pub connect_url: Option<String>,
    pub bootstrap_servers: Option<String>,
    pub connect_cluster_name: Option<String>,
}

pub struct SettingsView {
    pub connect_url: Option<Seq<char>>,
    pub bootstrap_servers: Option<Seq<char>>,
    pub connect_cluster_name: Option<Seq<char>>,
}

impl View for ConnectionSettings {
    type V = SettingsView;

    open spec fn view(&self) -> SettingsView {
        SettingsView {
            connect_url: opt_view(self.connect_url),
            bootstrap_servers: opt_view(self.bootstrap_servers),
            connect_cluster_name: opt_view(self.connect_cluster_name),
        }
    }
}

/// An option given on the command line replaces the file's.
pub open spec fn overridden(file: Option<Seq<char>>, cli: Option<Seq<char>>) -> Option<Seq<char>> {
    if cli is Some {
        cli
    } else {
        file
    }
}

/// The cluster name used when none is configured.
pub open spec fn default_cluster_name() -> Seq<char> {
    "my-connect-cluster"@
}

/// `kafka.<key>` of a secrets document, when it is a string.
pub open spec fn kafka_setting(doc: JsonView, key: Seq<char>) -> Option<Seq<char>> {
    match doc.member("kafka"@) {
        Some(section) => match section.member(key) {
            Some(v) => v.as_str(),
            None => None,
        },
        None => None,
    }
}

/// The settings a secrets file's text gives.
pub open spec fn settings_from_secrets(text: Seq<char>) -> Result<SettingsView, Seq<char>> {
    match toml_text_parse(text) {
        Err(e) => Err(e),
        Ok(doc) => Ok(SettingsView {
            connect_url: kafka_setting(doc, "connect_url"@),
            bootstrap_servers: kafka_setting(doc, "bootstrap_servers"@),
            connect_cluster_name: kafka_setting(doc, "connect_cluster_name"@),
        }),
    }
}

fn kafka_value(doc: &JsonValue, key: &str) -> (r: Option<String>)
    ensures
        opt_view(r) == kafka_setting(doc@, key@),
{
    match doc.member("kafka") {
        Some(section) => match section.member(key) {
            Some(v) => match v.as_str() {
                Some(s) => Some(s.clone()),
                None => None,
            },
            None => None,
        },
        None => None,
    }
}

impl ConnectionSettings {
    /// No option set.
    pub fn new() -> (r: ConnectionSettings)
        ensures
            r.connect_url is None,
            r.bootstrap_servers is None,
            r.connect_cluster_name is None,
    {
        ConnectionSettings { connect_url: None, bootstrap_servers: None, connect_cluster_name: None }
    }

    /// A copy of these settings.
    pub fn duplicate(&self) -> (r: ConnectionSettings)
        ensures
            r@ == self@,
    {
        ConnectionSettings {
            connect_url: clone_opt(&self.connect_url),
            bootstrap_servers: clone_opt(&self.bootstrap_servers),
            connect_cluster_name: clone_opt(&self.connect_cluster_name),
        }
    }

    /// Settings from the text of a secrets file (TOML, section `[kafka]`).
    pub fn from_secrets_text(path: &str, text: &str) -> (r: Result<ConnectionSettings, Error>)
        ensures
            match settings_from_secrets(text@) {
                Err(e) => r matches Err(Error::Secrets { path: p, reason }) && p@ == path@ && reason@ == e,
                Ok(v) => r matches Ok(s) && s@ == v,
            },
    {
        match parse_toml_text(text) {
            Err(reason) => Err(Error::Secrets { path: to_owned_string(path), reason }),
            Ok(doc) => Ok(ConnectionSettings {
                connect_url: kafka_value(&doc, "connect_url"),
                bootstrap_servers: kafka_value(&doc, "bootstrap_servers"),
                connect_cluster_name: kafka_value(&doc, "connect_cluster_name"),
            }),
        }
    }

    /// Command-line options replace the ones they give.
    pub fn merge_cli(
        self,
        connect_url: Option<String>,
        bootstrap_servers: Option<String>,
        cluster_name: Option<String>,
    ) -> (r: ConnectionSettings)
        ensures
            r@.connect_url == overridden(self@.connect_url, opt_view(connect_url)),
            r@.bootstrap_servers == overridden(self@.bootstrap_servers, opt_view(bootstrap_servers)),
            r@.connect_cluster_name == overridden(self@.connect_cluster_name, opt_view(cluster_name)),
    {
        let mut s = self;
        if connect_url.is_some() {
            s.connect_url = connect_url;
        }
        if bootstrap_servers.is_some() {
            s.bootstrap_servers = bootstrap_servers;
        }
        if cluster_name.is_some() {
            s.connect_cluster_name = cluster_name;
        }
        s
    }

    /// The Connect URL, required.
    pub fn require_connect_url(&self) -> (r: Result<&String, Error>)
        ensures
            match self.connect_url {
                Some(u) => r matches Ok(x) && x@ == u@,
                None => r matches Err(Error::MissingOption { option }) && option@
                    == "--connect-url (or kafka.connect_url in secrets.toml)"@,
            },
    {
        match &self.connect_url {
            Some(u) => Ok(u),
            None => Err(Error::MissingOption {
                option: to_owned_string("--connect-url (or kafka.connect_url in secrets.toml)"),
            }),
        }
    }

    /// The bootstrap servers, required.
    pub fn require_bootstrap_servers(&self) -> (r: Result<&String, Error>)
        ensures
            match self.bootstrap_servers {
                Some(u) => r matches Ok(x) && x@ == u@,
                None => r matches Err(Error::MissingOption { option }) && option@
                    == "--bootstrap-servers (or kafka.bootstrap_servers in secrets.toml)"@,
            },
    {
        match &self.bootstrap_servers {
            Some(u) => Ok(u),
            None => Err(Error::MissingOption {
                option: to_owned_string("--bootstrap-servers (or kafka.bootstrap_servers in secrets.toml)"),
            }),
        }
    }

    /// The Strimzi `KafkaConnect` cluster name, `my-connect-cluster` by default.
    pub fn cluster_name(&self) -> (r: &str)
        ensures
            r@ == match self.connect_cluster_name {
                Some(n) => n@,
                None => default_cluster_name(),
            },
    {
        match &self.connect_cluster_name {
            Some(n) => n.as_str(),
            None => "my-connect-cluster",
        }
    }
}

/// The settings in effect: those read from a secrets file (none when no file
/// was read), with the command-line options laid over them.
pub fn load_settings(
    from_file: Option<ConnectionSettings>,
    connect_url: Option<String>,
    bootstrap_servers: Option<String>,
    cluster_name: Option<String>,
) -> (r: ConnectionSettings)
    ensures
        r@.connect_url == overridden(
            match from_file { Some(f) => f@.connect_url, None => None },
            opt_view(connect_url),
        ),
        r@.bootstrap_servers == overridden(
            match from_file { Some(f) => f@.bootstrap_servers, None => None },
            opt_view(bootstrap_servers),
        ),
        r@.connect_cluster_name == overridden(
            match from_file { Some(f) => f@.connect_cluster_name, None => None },
            opt_view(cluster_name),
        ),
{
    let base = match from_file {
        Some(f) => f,
        None => ConnectionSettings::new(),
    };
    base.merge_cli(connect_url, bootstrap_servers, cluster_name)
}

} // verus!
