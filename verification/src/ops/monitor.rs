//! What the `monitor` command prints for a notification.
use vstd::prelude::*;
use crate::assoc::assoc_get;
use crate::json::JsonValue;
use crate::monitor::tracker::{after_notification, member_str, SnapshotTracker};
use crate::text::{concat4, decimal_nat, u64_to_string};

verus! {

broadcast use vstd::string::group_string_axioms;

/// `<connector>: <status> (<progress>%)` for the connector a notification is
/// about, once the tracker has taken it in.
pub fn progress_line(tracker: &mut SnapshotTracker, notification: &JsonValue) -> (r: Option<String>)
    ensures
        final(tracker)@ == after_notification(old(tracker)@, notification@),
        match member_str(notification@, "aggregateType"@) {
            Some(c) => match assoc_get(final(tracker)@, c) {
                Some(st) => r matches Some(line) && line@ == c + ": "@ + st.status + " ("@ + decimal_nat(
                    st.progress as nat,
                ) + "%)"@,
                None => r is None,
            },
            None => r is None,
        },
{
    tracker.process_notification(notification);
    let connector = match notification.member("aggregateType") {
        Some(v) => match v.as_str() {
            Some(s) => s,
            None => {
                return None;
            },
        },
        None => {
            return None;
        },
    };
    match tracker.get_snapshot_status(connector.as_str()) {
        Some(state) => {
            let p = u64_to_string(state.progress);
            let head = concat4(connector.as_str(), ": ", state.status.as_str(), " (");
            let line = concat4(head.as_str(), p.as_str(), "%)", "");
            proof {
                reveal_strlit("");
            }
            assert(line@ =~= connector@ + ": "@ + state.status@ + " ("@ + decimal_nat(state.progress as nat)
                + "%)"@);
            Some(line)
        },
        None => None,
    }
}

} // verus!
