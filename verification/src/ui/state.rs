//! State shared by the web UI's handlers.
use vstd::prelude::*;
use crate::settings::{default_cluster_name, ConnectionSettings};
use crate::text::clone_opt;
use crate::ui::error::Error;

verus! {

broadcast use vstd::string::group_string_axioms;

/// The connection settings the handlers work with.
pub struct AppState {
    pub settings: ConnectionSettings,
}

impl AppState {
    pub fn new(settings: ConnectionSettings) -> (r: AppState)
        ensures
            r.settings == settings,
    {
        AppState { settings }
    }

    /// Whether a Kafka Connect URL is configured.
    pub fn has_connect_url(&self) -> (r: bool)
        ensures
            r == self.settings.connect_url is Some,
    {
        self.settings.connect_url.is_some()
    }

    /// The Kafka Connect URL, or the settings' error when none is configured.
    pub fn require_connect_url(&self) -> (r: Result<String, Error>)
        ensures
            match self.settings.connect_url {
                Some(u) => r matches Ok(x) && x@ == u@,
                None => r matches Err(Error::Core(crate::error::Error::MissingOption { option }))
                    && option@ == "--connect-url (or kafka.connect_url in secrets.toml)"@,
            },
    {
        match self.settings.require_connect_url() {
            Ok(u) => Ok(u.clone()),
            Err(e) => Err(Error::from(e)),
        }
    }

    /// The Strimzi `KafkaConnect` cluster name.
    pub fn cluster_name(&self) -> (r: &str)
        ensures
            r@ == match self.settings.connect_cluster_name {
                Some(n) => n@,
                None => default_cluster_name(),
            },
    {
        self.settings.cluster_name()
    }

    /// The Kafka bootstrap servers, when configured.
    pub fn bootstrap_servers(&self) -> (r: Option<String>)
        ensures
            crate::text::opt_view(r) == crate::text::opt_view(self.settings.bootstrap_servers),
    {
        clone_opt(&self.settings.bootstrap_servers)
    }
}

} // verus!
