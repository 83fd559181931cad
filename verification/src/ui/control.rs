//! The control page and its actions: the connector list, redirects after an
//! action, and the payloads of the snapshot, edit and create forms.
use vstd::prelude::*;
use vstd::utf8::encode_utf8;
use crate::connect::types::{create_parts, create_request_parts, CreateConnectorRequest};
use crate::control::snapshot::SnapshotResult;
use crate::json::{lemma_items_view_index, lemma_members_view_index, JsonObject, JsonValue, JsonView};
use crate::linter::engine::{formatted_findings, ConnectorLinter};
use crate::linter::types::{count_severity, Severity};
use crate::parse::named;
use crate::text::{clone_opt, concat3, concat4, opt_str_view, opt_view, push_char, str_eq, to_owned_string};
use crate::validate::{validate_config, validation_findings};
use crate::ui::connectors::{
    connector_state, connector_state_of, count_running, lemma_count_running_bound,
    lemma_sort_by_name_map, running_count, sort_by_name, sorted_by_name, tasks_of, tasks_ref,
};
use crate::ui::views::{control_row_views, ControlPage, ControlQuery, ControlRow, ControlRowView};

verus! {

broadcast use vstd::string::group_string_axioms;

/// The control page's line for one connector.
pub open spec fn control_row(name: Seq<char>, info: JsonView, focus: Option<Seq<char>>) -> ControlRowView {
    ControlRowView {
        name,
        state: connector_state(info),
        tasks_running: count_running(tasks_of(info)),
        tasks_total: tasks_of(info).len(),
        focused: focus == Some(name),
    }
}

/// The lines of all connectors, in the reply's order.
pub open spec fn control_rows(
    es: Seq<(Seq<char>, JsonView)>,
    focus: Option<Seq<char>>,
) -> Seq<ControlRowView> {
    es.map_values(|e: (Seq<char>, JsonView)| control_row(e.0, e.1, focus))
}

/// The control page for the connectors of a `/connectors?expand=status`
/// reply: one line per connector, in name order.
pub fn build_control_page(all: &JsonObject, query: ControlQuery) -> (r: ControlPage)
    ensures
        r.active@ == "control"@,
        control_row_views(r.connectors@) == sort_by_name(control_rows(all@, opt_view(query.focus))),
        opt_view(r.flash) == opt_view(query.flash),
        opt_view(r.focus) == opt_view(query.focus),
{
    let ghost es = all@;
    let ghost focus = opt_view(query.focus);
    proof {
        lemma_members_view_index(all.entries@);
    }
    let mut rows: Vec<ControlRow> = Vec::new();
    let mut i: usize = 0;
    while i < all.entries.len()
        invariant
            i <= all.entries.len(),
            es == all@,
            es.len() == all.entries.len(),
            forall|k: int|
                0 <= k < all.entries.len() ==> #[trigger] es[k] == (
                    all.entries@[k].0@,
                    all.entries@[k].1@,
                ),
            focus == opt_view(query.focus),
            control_row_views(rows@) == control_rows(es.take(i as int), focus),
        decreases all.entries.len() - i,
    {
        let name = &all.entries[i].0;
        let info = &all.entries[i].1;
        let state = connector_state_of(info);
        let (running, total) = match tasks_ref(info) {
            Some(ts) => {
                proof {
                    lemma_items_view_index(ts@);
                    lemma_count_running_bound(tasks_of(info@));
                }
                (running_count(ts), ts.len())
            },
            None => (0, 0),
        };
        let focused = match &query.focus {
            Some(f) => str_eq(f.as_str(), name.as_str()),
            None => false,
        };
        let row = ControlRow {
            name: name.clone(),
            state,
            tasks_running: running,
            tasks_total: total,
            focused,
        };
        proof {
            assert(row@ == control_row(es[i as int].0, es[i as int].1, focus));
        }
        let ghost before = rows@;
        let ghost rv = row@;
        rows.push(row);
        assert(control_row_views(rows@) =~= control_row_views(before).push(rv));
        assert(control_rows(es.take(i + 1), focus) =~= control_rows(es.take(i as int), focus).push(
            control_row(es[i as int].0, es[i as int].1, focus),
        ));
        i = i + 1;
    }
    assert(es.take(all.entries.len() as int) =~= es);
    let ghost unsorted = rows@;
    let connectors = sorted_by_name(rows);
    proof {
        let f = |x: ControlRow| x@;
        lemma_sort_by_name_map(unsorted, f);
        assert(control_row_views(connectors@) =~= sort_by_name(unsorted).map_values(f));
        assert(unsorted.map_values(f) == control_row_views(unsorted));
    }
    ControlPage {
        active: "control",
        connectors,
        flash: clone_opt(&query.flash),
        focus: clone_opt(&query.focus),
    }
}

/// Where an action on connector `name` sends the browser: the control page,
/// with `<verb> <name>` shown and the connector's line in focus.
pub open spec fn action_redirect_path(verb: Seq<char>, name: Seq<char>) -> Seq<char> {
    "/control?flash="@ + verb + "%20"@ + name + "&focus="@ + name
}

/// The redirect after an action (`Paused`, `Resumed`, `Restarted`, `Updated`,
/// `Created`) on a connector.
pub fn action_redirect(verb: &str, name: &str) -> (r: String)
    ensures
        r@ == action_redirect_path(verb@, name@),
{
    let head = concat3("/control?flash=", verb, "%20");
    let r = concat4(head.as_str(), name, "&focus=", name);
    assert(r@ =~= action_redirect_path(verb@, name@));
    r
}

/// Unreserved bytes of a URL query: ASCII letters, digits, `-`, `_`, `.`, `~`.
pub open spec fn is_unreserved(b: u8) -> bool {
    ||| (65 <= b <= 90)
    ||| (97 <= b <= 122)
    ||| (48 <= b <= 57)
    ||| b == 45
    ||| b == 95
    ||| b == 46
    ||| b == 126
}

/// An upper-case hexadecimal digit.
pub open spec fn hex_upper(d: u8) -> char {
    if d < 10 {
        (d + 48) as char
    } else {
        (d + 55) as char
    }
}

/// How one byte is written in a query value.
pub open spec fn encode_byte(b: u8) -> Seq<char> {
    if is_unreserved(b) {
        seq![b as char]
    } else if b == 32 {
        seq!['+']
    } else {
        seq!['%', hex_upper(b / 16), hex_upper(b % 16)]
    }
}

/// Form encoding of bytes: unreserved bytes kept, a space as `+`, any other
/// byte as `%XX`.
pub open spec fn url_encode_bytes(bs: Seq<u8>) -> Seq<char>
    decreases bs.len(),
{
    if bs.len() == 0 {
        seq![]
    } else {
        url_encode_bytes(bs.drop_last()) + encode_byte(bs.last())
    }
}

fn hex_upper_exec(d: u8) -> (r: char)
    requires
        d < 16,
    ensures
        r == hex_upper(d),
{
    if d < 10 {
        (d + 48) as char
    } else {
        (d + 55) as char
    }
}

/// Form-encodes a text's UTF-8 bytes for a query string.
pub fn urlencoding_encode(input: &str) -> (r: String)
    ensures
        r@ == url_encode_bytes(encode_utf8(input@)),
{
    let bytes = input.as_bytes();
    let ghost bs = bytes@;
    let mut out = String::new();
    let mut i: usize = 0;
    while i < bytes.len()
        invariant
            i <= bytes@.len(),
            bs == bytes@,
            out@ == url_encode_bytes(bs.take(i as int)),
        decreases bytes.len() - i,
    {
        let b = bytes[i];
        assert(bs.take(i + 1).drop_last() =~= bs.take(i as int));
        assert(bs.take(i + 1).last() == b);
        let ghost before = out@;
        if (65 <= b && b <= 90) || (97 <= b && b <= 122) || (48 <= b && b <= 57) || b == 45 || b == 95 || b
            == 46 || b == 126 {
            push_char(&mut out, b as char);
        } else if b == 32 {
            push_char(&mut out, '+');
        } else {
            push_char(&mut out, '%');
            push_char(&mut out, hex_upper_exec(b / 16));
            push_char(&mut out, hex_upper_exec(b % 16));
        }
        assert(out@ =~= before + encode_byte(b));
        i = i + 1;
    }
    assert(bs.take(bytes@.len() as int) =~= bs);
    out
}

/// Where the browser goes after a snapshot request: the control page, with
/// the outcome shown and the connector in focus.
pub open spec fn snapshot_redirect_path(name: Seq<char>, status: Seq<char>, message: Seq<char>) -> Seq<char> {
    "/control?flash="@ + url_encode_bytes(encode_utf8("Snapshot "@ + status + ": "@ + message))
        + "&focus="@ + name
}

/// The redirect after a snapshot request on connector `name`.
pub fn snapshot_redirect(name: &str, result: &SnapshotResult) -> (r: String)
    ensures
        r@ == snapshot_redirect_path(name@, result.status@, result.message@),
{
    let text = concat4("Snapshot ", result.status.as_str(), ": ", result.message.as_str());
    let msg = urlencoding_encode(text.as_str());
    assert(text@ =~= "Snapshot "@ + result.status@ + ": "@ + result.message@);
    let r = concat4("/control?flash=", msg.as_str(), "&focus=", name);
    assert(r@ =~= snapshot_redirect_path(name@, result.status@, result.message@));
    r
}

/// The creation request of a payload that must be a JSON object.
pub fn create_request_from_value(value: &JsonValue) -> (r: Result<CreateConnectorRequest, String>)
    ensures
        match value@ {
            JsonView::Object(es) => match create_parts(es) {
                Some((name, config)) => r matches Ok(q) && q.name@ == name && q.config@ == config,
                None => r matches Err(m) && m@ == "create payload must include name and config"@,
            },
            _ => r matches Err(m) && m@ == "create payload must be a JSON object"@,
        },
{
    match value.as_object() {
        None => Err(to_owned_string("create payload must be a JSON object")),
        Some(obj) => match create_request_parts(obj) {
            Some(q) => Ok(q),
            None => Err(to_owned_string("create payload must include name and config")),
        },
    }
}

/// Whether an edit goes through: the edited configuration is validated
/// (with `name` supplied), and an invalid one is refused unless `force` is
/// `"1"`. `None` lets the update through; `Some` holds the report shown
/// instead.
pub fn edit_refusal(linter: &ConnectorLinter, config: JsonObject, name: &str, force: Option<&str>) -> (r: Option<
    String,
>)
    ensures
        ({
            let rs = validation_findings(*linter, named(config@, Some(name@)), Set::empty());
            if count_severity(rs, Severity::Error) == 0 || opt_str_view(force) == Some("1"@) {
                r is None
            } else {
                r matches Some(t) && t@ == formatted_findings(rs)
            }
        }),
{
    let report = validate_config(linter, config, Some(name));
    let forced = match force {
        Some(f) => str_eq(f, "1"),
        None => false,
    };
    if report.valid || forced {
        None
    } else {
        Some(report.formatted)
    }
}

} // verus!
