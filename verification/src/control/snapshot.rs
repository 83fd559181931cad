//! Triggering a Debezium snapshot: a Kafka `execute-snapshot` signal, with a
//! restart of task 0 through Kafka Connect when the signal cannot be sent.
//!
//! The steps alternate with outside work (a REST call, a Kafka produce), so
//! they are a state machine: [`trigger_step`] takes the stage and what the
//! last piece of work gave, and says what to do next.
use vstd::prelude::*;
use crate::error::{Error, error_message};
use crate::json::{JsonObject, JsonValue, JsonView, items_view, lemma_items_view_index, lemma_members_view_index,
    members_view};
use crate::text::{concat2, concat3, opt_view, split_by_char, split_char, to_owned_string, trim,
    trim_str, views};

verus! {

broadcast use vstd::string::group_string_axioms;

/// The pieces trimmed, empty ones dropped.
pub open spec fn nonempty_trimmed(parts: Seq<Seq<char>>) -> Seq<Seq<char>>
    decreases parts.len(),
{
    if parts.len() == 0 {
        seq![]
    } else {
        let prev = nonempty_trimmed(parts.drop_last());
        let t = trim(parts.last());
        if t.len() == 0 {
            prev
        } else {
            prev.push(t)
        }
    }
}

/// The table names of a comma-separated list.
pub open spec fn table_names(raw: Seq<char>) -> Seq<Seq<char>> {
    nonempty_trimmed(split_char(raw, ','))
}

/// The table names of a comma-separated list: each trimmed, empty ones dropped.
pub fn table_list(raw: &str) -> (r: Vec<String>)
    ensures
        views(r@) == table_names(raw@),
{
    let parts = split_by_char(raw, ',');
    let ghost ps = views(parts@);
    let mut out: Vec<String> = Vec::new();
    let mut i: usize = 0;
    while i < parts.len()
        invariant
            i <= parts.len(),
            ps == views(parts@),
            ps == split_char(raw@, ','),
            views(out@) == nonempty_trimmed(ps.take(i as int)),
        decreases parts.len() - i,
    {
        let t = trim_str(parts[i].as_str());
        assert(ps.take(i + 1).drop_last() =~= ps.take(i as int));
        assert(ps.take(i + 1).last() == parts@[i as int]@);
        if !t.as_str().is_empty() {
            let ghost before = out@;
            out.push(t);
            assert(views(out@) =~= views(before).push(t@));
        }
        i = i + 1;
    }
    assert(ps.take(parts.len() as int) =~= ps);
    out
}

/// Outcome of attempting to trigger a Debezium snapshot.
pub struct SnapshotResult {
    pub status: String,
    pub message: String,
    pub signal_id: Option<String>,
}

pub struct SnapshotResultView {
    pub status: Seq<char>,
    pub message: Seq<char>,
    pub signal_id: Option<Seq<char>>,
}

impl View for SnapshotResult {
    type V = SnapshotResultView;

    open spec fn view(&self) -> SnapshotResultView {
        SnapshotResultView { status: self.status@, message: self.message@, signal_id: opt_view(self.signal_id) }
    }
}

/// The connector's signal topic: `signal.kafka.topic`, else `debezium.signals`.
pub open spec fn signal_topic(cfg: Seq<(Seq<char>, JsonView)>) -> Seq<char> {
    match crate::json::entries_get(cfg, "signal.kafka.topic"@) {
        Some(JsonView::String(t)) => t,
        _ => "debezium.signals"@,
    }
}

/// The data collections a signal names: the tables given, or `*` for all.
pub open spec fn signal_collections(tables: Option<Seq<Seq<char>>>) -> Seq<Seq<char>> {
    match tables {
        Some(t) => if t.len() > 0 {
            t
        } else {
            seq!["*"@]
        },
        None => seq!["*"@],
    }
}

pub open spec fn string_views(s: Seq<Seq<char>>) -> Seq<JsonView> {
    s.map_values(|x: Seq<char>| JsonView::String(x))
}

/// The `execute-snapshot` signal document (members in key order).
pub open spec fn signal_document(id: Seq<char>, tables: Option<Seq<Seq<char>>>, snapshot_type: Seq<char>) -> JsonView {
    JsonView::Object(seq![
        ("data"@, JsonView::Object(seq![
            ("data-collections"@, JsonView::Array(string_views(signal_collections(tables)))),
            ("type"@, JsonView::String(snapshot_type)),
        ])),
        ("id"@, JsonView::String(id)),
        ("type"@, JsonView::String("execute-snapshot"@)),
    ])
}

/// The result reported once the signal is delivered.
pub open spec fn signal_sent_result(topic: Seq<char>, id: Seq<char>) -> SnapshotResultView {
    SnapshotResultView { status: "success"@, message: "Signal sent to "@ + topic, signal_id: Some(id) }
}

/// The result reported after falling back to a task restart.
pub open spec fn fallback_result(signal_error: Seq<char>) -> SnapshotResultView {
    SnapshotResultView {
        status: "fallback"@,
        message: "Kafka signal failed ("@ + signal_error + "). Restarted Task 0 as fallback."@,
        signal_id: None,
    }
}

/// The connector's signal topic.
pub fn signal_topic_from_config(config: &JsonObject) -> (r: String)
    ensures
        r@ == signal_topic(config@),
{
    match config.get("signal.kafka.topic") {
        Some(JsonValue::String(t)) => t.clone(),
        _ => to_owned_string("debezium.signals"),
    }
}

/// The `execute-snapshot` signal for a set of tables (all when none).
pub fn signal_payload(signal_id: &str, tables: Option<&Vec<String>>, snapshot_type: &str) -> (r: JsonValue)
    ensures
        r@ == signal_document(
            signal_id@,
            match tables {
                Some(t) => Some(views(t@)),
                None => None,
            },
            snapshot_type@,
        ),
{
    let ghost wanted = signal_collections(match tables {
        Some(t) => Some(views(t@)),
        None => None,
    });
    let mut names: Vec<String> = Vec::new();
    match tables {
        Some(t) => {
            if t.len() > 0 {
                let mut i: usize = 0;
                while i < t.len()
                    invariant
                        i <= t@.len(),
                        views(names@) == views(t@).take(i as int),
                    decreases t.len() - i,
                {
                    let ghost prev = views(names@);
                    names.push(t[i].clone());
                    assert(views(names@) =~= prev.push(t@[i as int]@));
                    assert(views(t@).take(i + 1) =~= views(t@).take(i as int).push(t@[i as int]@));
                    i += 1;
                }
                assert(views(t@).take(t@.len() as int) =~= views(t@));
            } else {
                names.push(to_owned_string("*"));
                assert(views(names@) =~= seq!["*"@]);
            }
        },
        None => {
            names.push(to_owned_string("*"));
            assert(views(names@) =~= seq!["*"@]);
        },
    }
    assert(views(names@) == wanted);
    let mut items: Vec<JsonValue> = Vec::new();
    let mut k: usize = 0;
    while k < names.len()
        invariant
            k <= names@.len(),
            items_view(items@) == string_views(views(names@).take(k as int)),
        decreases names.len() - k,
    {
        let item = JsonValue::String(names[k].clone());
        let ghost prev = items_view(items@);
        proof {
            lemma_items_view_index(items@);
            lemma_items_view_index(items@.push(item));
        }
        items.push(item);
        assert(items_view(items@) =~= prev.push(JsonView::String(names@[k as int]@)));
        assert(views(names@).take(k + 1) =~= views(names@).take(k as int).push(names@[k as int]@));
        assert(string_views(views(names@).take(k + 1)) =~= string_views(views(names@).take(k as int)).push(
            JsonView::String(names@[k as int]@),
        ));
        k += 1;
    }
    assert(views(names@).take(names@.len() as int) =~= views(names@));
    let ghost coll = items_view(items@);
    let mut data: Vec<(String, JsonValue)> = Vec::new();
    data.push((to_owned_string("data-collections"), JsonValue::Array(items)));
    data.push((to_owned_string("type"), JsonValue::String(to_owned_string(snapshot_type))));
    proof {
        lemma_members_view_index(data@);
    }
    assert(members_view(data@) =~= seq![
        ("data-collections"@, JsonView::Array(coll)),
        ("type"@, JsonView::String(snapshot_type@)),
    ]);
    let mut top: Vec<(String, JsonValue)> = Vec::new();
    top.push((to_owned_string("data"), JsonValue::Object(JsonObject { entries: data })));
    top.push((to_owned_string("id"), JsonValue::String(to_owned_string(signal_id))));
    top.push((to_owned_string("type"), JsonValue::String(to_owned_string("execute-snapshot"))));
    proof {
        lemma_members_view_index(top@);
    }
    let ghost dv = JsonView::Object(members_view(data@));
    assert(members_view(top@) =~= seq![
        ("data"@, dv),
        ("id"@, JsonView::String(signal_id@)),
        ("type"@, JsonView::String("execute-snapshot"@)),
    ]);
    let r = JsonValue::Object(JsonObject { entries: top });
    assert(r@ == signal_document(signal_id@, match tables {
        Some(t) => Some(views(t@)),
        None => None,
    }, snapshot_type@));
    r
}

/// A lowercase hexadecimal digit.
pub open spec fn is_lower_hex(c: char) -> bool {
    ('0' <= c && c <= '9') || ('a' <= c && c <= 'f')
}

/// The text of a version-4 UUID as `Uuid`'s `Display` writes it: 36
/// characters, hyphens at 8, 13, 18 and 23, lowercase hexadecimal digits
/// elsewhere, version digit `4` at 14 and the variant digit (8, 9, a or b) at
/// 19.
pub open spec fn uuid_v4_text(s: Seq<char>) -> bool {
    &&& s.len() == 36
    &&& forall|i: int| 0 <= i < 36 ==> if i == 8 || i == 13 || i == 18 || i == 23 {
        #[trigger] s[i] == '-'
    } else {
        is_lower_hex(s[i])
    }
    &&& s[14] == '4'
    &&& (s[19] == '8' || s[19] == '9' || s[19] == 'a' || s[19] == 'b')
}

/// A fresh signal ID: `uuid::Uuid::new_v4`, as text. Its 122 random bits are
/// left unsaid; its form is stated: `new_v4` masks in version 4 and the
/// RFC 4122 variant, and `Display` writes the lowercase hyphenated form.
#[verifier::external_body]
fn fresh_signal_id() -> (r: String)
    ensures
        uuid_v4_text(r@),
{
    uuid::Uuid::new_v4().to_string()
}

/// What a snapshot trigger was asked for.
pub struct SnapshotRequest {
    pub connector_name: String,
    pub snapshot_type: String,
    pub tables: Option<Vec<String>>,
    pub bootstrap_servers: Option<String>,
}

/// Where a trigger stands.
pub enum TriggerStage {
    /// Nothing done yet.
    Start,
    /// The connector's configuration was asked for.
    FetchingConfig,
    /// A signal with this ID was handed to Kafka on this topic.
    Signalling { signal_id: String, topic: String },
    /// The signal failed with this message; task 0 is being restarted.
    Restarting { signal_error: String },
    /// The trigger has finished.
    Finished,
}

/// What the last piece of outside work gave.
pub enum TriggerEvent {
    /// Begin the trigger.
    Begin,
    /// The connector's configuration arrived.
    ConfigReceived(JsonObject),
    /// The signal was delivered, or the task restart succeeded.
    Succeeded,
    /// The last outside call failed.
    Failed(Error),
}

/// What to do next.
pub enum TriggerAction {
    /// `GET connectors/<name>/config`.
    FetchConfig { connector_name: String },
    /// Produce `payload` (its JSON text) to `topic`, keyed by the connector name.
    SendSignal { bootstrap_servers: String, topic: String, key: String, payload: JsonValue },
    /// `POST connectors/<name>/tasks/<task>/restart`.
    RestartTask { connector_name: String, task_id: u32 },
    /// The trigger's outcome.
    Finish(Result<SnapshotResult, Error>),
}

/// Which events a stage waits for.
pub open spec fn awaits(stage: TriggerStage, event: TriggerEvent) -> bool {
    match stage {
        TriggerStage::Start => event is Begin,
        TriggerStage::FetchingConfig => event is ConfigReceived || event is Failed,
        TriggerStage::Signalling { .. } => event is Succeeded || event is Failed,
        TriggerStage::Restarting { .. } => event is Succeeded || event is Failed,
        TriggerStage::Finished => false,
    }
}

/// Whether the trigger, at `stage`, expects `event`.
pub fn stage_awaits(stage: &TriggerStage, event: &TriggerEvent) -> (r: bool)
    ensures
        r == awaits(*stage, *event),
{
    match stage {
        TriggerStage::Start => matches!(event, TriggerEvent::Begin),
        TriggerStage::FetchingConfig => matches!(event, TriggerEvent::ConfigReceived(_) | TriggerEvent::Failed(_)),
        TriggerStage::Signalling { .. } | TriggerStage::Restarting { .. } => matches!(
            event,
            TriggerEvent::Succeeded | TriggerEvent::Failed(_)
        ),
        TriggerStage::Finished => false,
    }
}

/// One step of a snapshot trigger: the next stage and the action to take.
pub fn trigger_step(request: &SnapshotRequest, stage: TriggerStage, event: TriggerEvent) -> (r: (
    TriggerStage,
    TriggerAction,
))
    requires
        awaits(stage, event),
    ensures
        match (stage, event) {
            (TriggerStage::Start, _) => r.0 is FetchingConfig && (r.1 matches TriggerAction::FetchConfig {
                connector_name,
            } && connector_name@ == request.connector_name@),
            (TriggerStage::FetchingConfig, TriggerEvent::Failed(e)) => r.0 is Finished && r.1 == TriggerAction::Finish(
                Err(e),
            ),
            (TriggerStage::FetchingConfig, TriggerEvent::ConfigReceived(cfg)) => match request.bootstrap_servers {
                None => (r.0 matches TriggerStage::Restarting { signal_error } && signal_error@ == error_message(
                    Error::BootstrapServersRequired,
                )) && (r.1 matches TriggerAction::RestartTask { connector_name, task_id } && connector_name@
                    == request.connector_name@ && task_id == 0),
                Some(b) => r.1 matches TriggerAction::SendSignal { bootstrap_servers, topic, key, payload } && (
                r.0 matches TriggerStage::Signalling { signal_id, topic: t } && uuid_v4_text(signal_id@)
                    && bootstrap_servers@ == b@
                    && topic@ == signal_topic(cfg@) && t@ == topic@ && key@ == request.connector_name@
                    && payload@ == signal_document(
                    signal_id@,
                    match request.tables {
                        Some(ts) => Some(views(ts@)),
                        None => None,
                    },
                    request.snapshot_type@,
                )),
            },
            (TriggerStage::Signalling { signal_id, topic }, TriggerEvent::Succeeded) => r.0 is Finished
                && (r.1 matches TriggerAction::Finish(Ok(res)) && res@ == signal_sent_result(topic@, signal_id@)),
            (TriggerStage::Signalling { .. }, TriggerEvent::Failed(e)) => (r.0 matches TriggerStage::Restarting {
                signal_error,
            } && signal_error@ == error_message(e)) && (r.1 matches TriggerAction::RestartTask {
                connector_name,
                task_id,
            } && connector_name@ == request.connector_name@ && task_id == 0),
            (TriggerStage::Restarting { signal_error }, TriggerEvent::Succeeded) => r.0 is Finished && (r.1 matches TriggerAction::Finish(
                Ok(res),
            ) && res@ == fallback_result(signal_error@)),
            (TriggerStage::Restarting { .. }, TriggerEvent::Failed(e)) => r.0 is Finished && r.1
                == TriggerAction::Finish(Err(e)),
            _ => true,
        },
{
    match (stage, event) {
        (TriggerStage::Start, _) => (
            TriggerStage::FetchingConfig,
            TriggerAction::FetchConfig { connector_name: request.connector_name.clone() },
        ),
        (TriggerStage::FetchingConfig, TriggerEvent::ConfigReceived(cfg)) => {
            let topic = signal_topic_from_config(&cfg);
            match &request.bootstrap_servers {
                None => {
                    let e = Error::BootstrapServersRequired;
                    (
                        TriggerStage::Restarting { signal_error: e.message() },
                        TriggerAction::RestartTask { connector_name: request.connector_name.clone(), task_id: 0 },
                    )
                },
                Some(b) => {
                    let signal_id = fresh_signal_id();
                    let payload = signal_payload(
                        signal_id.as_str(),
                        match &request.tables {
                            Some(t) => Some(t),
                            None => None,
                        },
                        request.snapshot_type.as_str(),
                    );
                    (
                        TriggerStage::Signalling { signal_id, topic: topic.clone() },
                        TriggerAction::SendSignal {
                            bootstrap_servers: b.clone(),
                            topic,
                            key: request.connector_name.clone(),
                            payload,
                        },
                    )
                },
            }
        },
        (TriggerStage::FetchingConfig, TriggerEvent::Failed(e)) => (TriggerStage::Finished, TriggerAction::Finish(Err(e))),
        (TriggerStage::Signalling { signal_id, topic }, TriggerEvent::Succeeded) => {
            let res = SnapshotResult {
                status: to_owned_string("success"),
                message: concat2("Signal sent to ", topic.as_str()),
                signal_id: Some(signal_id),
            };
            (TriggerStage::Finished, TriggerAction::Finish(Ok(res)))
        },
        (TriggerStage::Signalling { .. }, TriggerEvent::Failed(e)) => (
            TriggerStage::Restarting { signal_error: e.message() },
            TriggerAction::RestartTask { connector_name: request.connector_name.clone(), task_id: 0 },
        ),
        (TriggerStage::Restarting { signal_error }, TriggerEvent::Succeeded) => {
            let res = SnapshotResult {
                status: to_owned_string("fallback"),
                message: concat3("Kafka signal failed (", signal_error.as_str(),
                    "). Restarted Task 0 as fallback."),
                signal_id: None,
            };
            (TriggerStage::Finished, TriggerAction::Finish(Ok(res)))
        },
        (TriggerStage::Restarting { .. }, TriggerEvent::Failed(e)) => (TriggerStage::Finished, TriggerAction::Finish(Err(e))),
        (stage, _) => (stage, TriggerAction::Finish(Err(Error::Kafka {
            reason: to_owned_string("unexpected trigger event"),
        }))),
    }
}

} // verus!
