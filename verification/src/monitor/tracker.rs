//! Snapshot progress tracked from Debezium notification messages.
use vstd::prelude::*;
use crate::assoc::{assoc_find, assoc_get, assoc_index, assoc_set, keyed, lemma_assoc_index_bound};
use crate::json::{JsonValue, JsonView};
use crate::text::{str_eq, to_owned_string};

verus! {

broadcast use vstd::string::group_string_axioms;

/// In-memory snapshot progress for one connector.
pub struct SnapshotState {
    pub status: String,
    pub progress: u64,
    pub start_time: Option<JsonValue>,
    pub end_time: Option<JsonValue>,
    pub notification: JsonValue,
}

pub struct SnapshotStateView {
    pub status: Seq<char>,
    pub progress: u64,
    pub start_time: Option<JsonView>,
    pub end_time: Option<JsonView>,
    pub notification: JsonView,
}

pub open spec fn opt_json_view(v: Option<JsonValue>) -> Option<JsonView> {
    match v {
        Some(x) => Some(x@),
        None => None,
    }
}

impl View for SnapshotState {
    type V = SnapshotStateView;

    open spec fn view(&self) -> SnapshotStateView {
        SnapshotStateView {
            status: self.status@,
            progress: self.progress,
            start_time: opt_json_view(self.start_time),
            end_time: opt_json_view(self.end_time),
            notification: self.notification@,
        }
    }
}

/// Snapshot lifecycle per connector, from Debezium notifications.
pub struct SnapshotTracker {
    /// Connector name and its state, in the order connectors were first seen.
    pub snapshots: Vec<(String, SnapshotState)>,
}

pub open spec fn state_views(es: Seq<(String, SnapshotState)>) -> Seq<(Seq<char>, SnapshotStateView)> {
    es.map_values(|e: (String, SnapshotState)| (e.0@, e.1@))
}

impl View for SnapshotTracker {
    type V = Seq<(Seq<char>, SnapshotStateView)>;

    open spec fn view(&self) -> Seq<(Seq<char>, SnapshotStateView)> {
        state_views(self.snapshots@)
    }
}

/// A notification's member as a string.
pub open spec fn member_str(n: JsonView, key: Seq<char>) -> Option<Seq<char>> {
    match n.member(key) {
        Some(v) => v.as_str(),
        None => None,
    }
}

/// `/data/progress` as an unsigned integer, `0` when absent.
pub open spec fn reported_progress(n: JsonView) -> u64 {
    match n.member("data"@) {
        Some(d) => match d.member("progress"@) {
            Some(p) => match p.as_u64() {
                Some(x) => x,
                None => 0,
            },
            None => 0,
        },
        None => 0,
    }
}

/// The tracker after one notification.
pub open spec fn after_notification(
    t: Seq<(Seq<char>, SnapshotStateView)>,
    n: JsonView,
) -> Seq<(Seq<char>, SnapshotStateView)> {
    match (member_str(n, "type"@), member_str(n, "aggregateType"@)) {
        (Some(ty), Some(c)) => if ty == "STARTED"@ {
            assoc_set(t, c, SnapshotStateView {
                status: "STARTED"@,
                progress: 0,
                start_time: n.member("timestamp"@),
                end_time: None,
                notification: n,
            })
        } else {
            match assoc_get(t, c) {
                None => t,
                Some(st) => if ty == "IN_PROGRESS"@ {
                    assoc_set(t, c, SnapshotStateView {
                        status: "IN_PROGRESS"@,
                        progress: reported_progress(n),
                        notification: n,
                        ..st
                    })
                } else if ty == "COMPLETED"@ {
                    assoc_set(t, c, SnapshotStateView {
                        status: "COMPLETED"@,
                        progress: 100,
                        end_time: n.member("timestamp"@),
                        notification: n,
                        ..st
                    })
                } else if ty == "ABORTED"@ {
                    assoc_set(t, c, SnapshotStateView {
                        status: "ABORTED"@,
                        end_time: n.member("timestamp"@),
                        notification: n,
                        ..st
                    })
                } else {
                    t
                },
            }
        },
        _ => t,
    }
}

proof fn lemma_state_views_keyed(es: Seq<(String, SnapshotState)>, key: Seq<char>)
    ensures
        assoc_index(keyed(es), key) == assoc_index(state_views(es), key),
    decreases es.len(),
{
    if es.len() > 0 {
        lemma_state_views_keyed(es.drop_first(), key);
        assert(keyed(es).drop_first() =~= keyed(es.drop_first()));
        assert(state_views(es).drop_first() =~= state_views(es.drop_first()));
    }
}


fn opt_dup(v: Option<&JsonValue>) -> (r: Option<JsonValue>)
    ensures
        opt_json_view(r) == match v {
            Some(x) => Some(x@),
            None => None::<JsonView>,
        },
{
    match v {
        Some(x) => Some(x.duplicate()),
        None => None,
    }
}

impl SnapshotTracker {
    pub fn new() -> (r: SnapshotTracker)
        ensures
            r@ == Seq::<(Seq<char>, SnapshotStateView)>::empty(),
    {
        let r = SnapshotTracker { snapshots: Vec::new() };
        assert(r@ =~= Seq::<(Seq<char>, SnapshotStateView)>::empty());
        r
    }

    /// The state of one connector's snapshot.
    pub fn get_snapshot_status(&self, connector: &str) -> (r: Option<&SnapshotState>)
        ensures
            r is Some == assoc_get(self@, connector@) is Some,
            r matches Some(s) ==> s@ == assoc_get(self@, connector@)->0,
    {
        let i = assoc_find(&self.snapshots, connector);
        proof {
            lemma_state_views_keyed(self.snapshots@, connector@);
            lemma_assoc_index_bound(keyed(self.snapshots@), connector@);
        }
        if i < self.snapshots.len() {
            Some(&self.snapshots[i].1)
        } else {
            None
        }
    }

    /// Every tracked connector and its state.
    pub fn get_all_snapshots(&self) -> (r: &Vec<(String, SnapshotState)>)
        ensures
            state_views(r@) == self@,
    {
        &self.snapshots
    }

    fn put(&mut self, connector: String, state: SnapshotState)
        ensures
            final(self)@ == assoc_set(old(self)@, connector@, state@),
    {
        let ghost before = self@;
        let ghost entry = (connector@, state@);
        let i = assoc_find(&self.snapshots, connector.as_str());
        proof {
            lemma_state_views_keyed(self.snapshots@, connector@);
            lemma_assoc_index_bound(keyed(self.snapshots@), connector@);
        }
        if i < self.snapshots.len() {
            self.snapshots.set(i, (connector, state));
            assert(self@ =~= before.update(i as int, entry));
        } else {
            self.snapshots.push((connector, state));
            assert(self@ =~= before.push(entry));
        }
    }

    /// Applies one Debezium notification.
    pub fn process_notification(&mut self, notification: &JsonValue)
        ensures
            final(self)@ == after_notification(old(self)@, notification@),
    {
        let ty = match notification.member("type") {
            Some(v) => match v.as_str() {
                Some(s) => s,
                None => {
                    return;
                },
            },
            None => {
                return;
            },
        };
        let connector = match notification.member("aggregateType") {
            Some(v) => match v.as_str() {
                Some(s) => s.clone(),
                None => {
                    return;
                },
            },
            None => {
                return;
            },
        };
        assert(member_str(notification@, "type"@) == Some(ty@));
        assert(member_str(notification@, "aggregateType"@) == Some(connector@));
        if str_eq(ty.as_str(), "STARTED") {
            let state = SnapshotState {
                status: to_owned_string("STARTED"),
                progress: 0,
                start_time: opt_dup(notification.member("timestamp")),
                end_time: None,
                notification: notification.duplicate(),
            };
            self.put(connector, state);
            return;
        }
        let current = match self.get_snapshot_status(connector.as_str()) {
            Some(s) => SnapshotState {
                status: s.status.clone(),
                progress: s.progress,
                start_time: opt_dup(s.start_time.as_ref()),
                end_time: opt_dup(s.end_time.as_ref()),
                notification: s.notification.duplicate(),
            },
            None => {
                return;
            },
        };
        if str_eq(ty.as_str(), "IN_PROGRESS") {
            let progress = match notification.member("data") {
                Some(d) => match d.member("progress") {
                    Some(p) => match p.as_u64() {
                        Some(x) => x,
                        None => 0,
                    },
                    None => 0,
                },
                None => 0,
            };
            let state = SnapshotState {
                status: to_owned_string("IN_PROGRESS"),
                progress,
                notification: notification.duplicate(),
                ..current
            };
            self.put(connector, state);
        } else if str_eq(ty.as_str(), "COMPLETED") {
            let state = SnapshotState {
                status: to_owned_string("COMPLETED"),
                progress: 100,
                end_time: opt_dup(notification.member("timestamp")),
                notification: notification.duplicate(),
                ..current
            };
            self.put(connector, state);
        } else if str_eq(ty.as_str(), "ABORTED") {
            let state = SnapshotState {
                status: to_owned_string("ABORTED"),
                end_time: opt_dup(notification.member("timestamp")),
                notification: notification.duplicate(),
                ..current
            };
            self.put(connector, state);
        }
    }
}

} // verus!
