//! The data shown by each page of the web UI.
use vstd::prelude::*;
use crate::ui::connectors::{NameRead, Named};

verus! {

/// Page shown when no Kafka Connect URL is configured.
pub struct MissingConfigPage {
    pub active: &'static str,
}

/// Page shown when no Kafka bootstrap servers are configured.
pub struct MissingBootstrapPage {
    pub active: &'static str,
}

/// The monitor form.
pub struct MonitorPage {
    pub active: &'static str,
    pub topic: String,
    pub duration: u64,
    pub error: Option<String>,
}

/// One connector's snapshot progress.
pub struct SnapshotCard {
    pub name: String,
    pub status: String,
    pub progress: u64,
}

/// Snapshot progress seen during a monitoring session.
pub struct MonitorResultsPage {
    pub active: &'static str,
    pub topic: String,
    pub duration: u64,
    pub snapshots: Vec<SnapshotCard>,
}

/// Cluster-wide counts.
pub struct DashboardMetrics {
    pub total_connectors: usize,
    pub running_connectors: usize,
    pub failed_connectors: usize,
    pub running_tasks: usize,
    pub total_tasks: usize,
}

/// Number of connectors in one state.
pub struct StatusCount {
    pub state: String,
    pub count: usize,
}

/// A failed connector or task.
pub struct FailedItem {
    pub name: String,
    pub kind: String,
    pub error: String,
}

/// One connector's line on the dashboard.
pub struct ConnectorSummary {
    pub name: String,
    pub connector_type: String,
    pub state: String,
    pub tasks_running: usize,
    pub tasks_total: usize,
}

/// The dashboard.
pub struct DashboardPage {
    pub active: &'static str,
    pub version: String,
    pub kafka_cluster_id: String,
    pub plugins: usize,
    pub metrics: DashboardMetrics,
    pub status_distribution: Vec<StatusCount>,
    pub failures: Vec<FailedItem>,
    pub connectors: Vec<ConnectorSummary>,
    pub flash: Option<String>,
}

/// One connector's line on the control page.
pub struct ControlRow {
    pub name: String,
    pub state: String,
    pub tasks_running: usize,
    pub tasks_total: usize,
    pub focused: bool,
}

/// The control page.
pub struct ControlPage {
    pub active: &'static str,
    pub connectors: Vec<ControlRow>,
    pub flash: Option<String>,
    pub focus: Option<String>,
}

/// The snapshot form.
pub struct SnapshotPage {
    pub active: &'static str,
    pub name: String,
    pub flash: Option<String>,
}

/// A connector's Strimzi YAML.
pub struct YamlPage {
    pub active: &'static str,
    pub name: String,
    pub yaml: String,
}

/// A connector's recent Connect pod logs.
pub struct LogsPage {
    pub active: &'static str,
    pub name: String,
    pub log_text: String,
}

/// The configuration editor.
pub struct EditPage {
    pub active: &'static str,
    pub name: String,
    pub config_json: String,
    pub validation_error: Option<String>,
    pub flash: Option<String>,
}

/// The connector creation form.
pub struct CreatePage {
    pub active: &'static str,
    pub config_json: String,
    pub flash: Option<String>,
    pub error: Option<String>,
}

/// Query of the dashboard.
pub struct FlashQuery {
    pub flash: Option<String>,
}

/// Query of the control page.
pub struct ControlQuery {
    pub flash: Option<String>,
    pub focus: Option<String>,
}

/// Snapshot form fields.
pub struct SnapshotForm {
    pub snapshot_type: String,
    pub tables: Option<String>,
}

/// Configuration editor fields.
pub struct EditForm {
    pub config_json: String,
    pub force: Option<String>,
}

/// Connector creation fields.
pub struct CreateForm {
    pub config_json: String,
}

/// The content of a [`StatusCount`].
pub struct StatusCountView {
    pub state: Seq<char>,
    pub count: nat,
}

impl View for StatusCount {
    type V = StatusCountView;

    open spec fn view(&self) -> StatusCountView {
        StatusCountView { state: self.state@, count: self.count as nat }
    }
}

/// The content of a [`FailedItem`].
pub struct FailedItemView {
    pub name: Seq<char>,
    pub kind: Seq<char>,
    pub error: Seq<char>,
}

impl View for FailedItem {
    type V = FailedItemView;

    open spec fn view(&self) -> FailedItemView {
        FailedItemView { name: self.name@, kind: self.kind@, error: self.error@ }
    }
}

/// The content of a [`ConnectorSummary`].
pub struct ConnectorSummaryView {
    pub name: Seq<char>,
    pub connector_type: Seq<char>,
    pub state: Seq<char>,
    pub tasks_running: nat,
    pub tasks_total: nat,
}

impl View for ConnectorSummary {
    type V = ConnectorSummaryView;

    open spec fn view(&self) -> ConnectorSummaryView {
        ConnectorSummaryView {
            name: self.name@,
            connector_type: self.connector_type@,
            state: self.state@,
            tasks_running: self.tasks_running as nat,
            tasks_total: self.tasks_total as nat,
        }
    }
}

/// The content of a [`ControlRow`].
pub struct ControlRowView {
    pub name: Seq<char>,
    pub state: Seq<char>,
    pub tasks_running: nat,
    pub tasks_total: nat,
    pub focused: bool,
}

impl View for ControlRow {
    type V = ControlRowView;

    open spec fn view(&self) -> ControlRowView {
        ControlRowView {
            name: self.name@,
            state: self.state@,
            tasks_running: self.tasks_running as nat,
            tasks_total: self.tasks_total as nat,
            focused: self.focused,
        }
    }
}

impl Named for ConnectorSummary {
    open spec fn name_view(&self) -> Seq<char> {
        self.name@
    }
}

impl NameRead for ConnectorSummary {
    fn name_str(&self) -> (r: &str) {
        self.name.as_str()
    }
}

impl Named for ConnectorSummaryView {
    open spec fn name_view(&self) -> Seq<char> {
        self.name
    }
}

impl Named for ControlRow {
    open spec fn name_view(&self) -> Seq<char> {
        self.name@
    }
}

impl NameRead for ControlRow {
    fn name_str(&self) -> (r: &str) {
        self.name.as_str()
    }
}

impl Named for ControlRowView {
    open spec fn name_view(&self) -> Seq<char> {
        self.name
    }
}

pub open spec fn status_count_views(v: Seq<StatusCount>) -> Seq<StatusCountView> {
    v.map_values(|x: StatusCount| x@)
}

pub open spec fn failed_item_views(v: Seq<FailedItem>) -> Seq<FailedItemView> {
    v.map_values(|x: FailedItem| x@)
}

pub open spec fn summary_views(v: Seq<ConnectorSummary>) -> Seq<ConnectorSummaryView> {
    v.map_values(|x: ConnectorSummary| x@)
}

pub open spec fn control_row_views(v: Seq<ControlRow>) -> Seq<ControlRowView> {
    v.map_values(|x: ControlRow| x@)
}

} // verus!
