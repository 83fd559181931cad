//! What the `lint` command computes: the format of the file, the report it
//! prints (as text or as a JSON document), and whether the run fails.
use vstd::prelude::*;
use crate::json::{JsonNumber, JsonObject, JsonValue, JsonView, NumberView, items_view, lemma_items_view_index,
    members_view};
use crate::linter::types::{result_views, severity_name, LintView};
use crate::ops::cli::{format_of_arg, FormatArg};
use crate::parse::{format_from_extension, ConfigFormat};
use crate::text::{chars_of, concat4, decimal_nat, split_by_char, split_char, string_from_range, to_owned_string,
    usize_to_string, views};
use crate::validate::ValidationReport;

verus! {

broadcast use vstd::string::group_string_axioms;

/// The pieces of a path between `/`, without empty and `.` pieces.
pub open spec fn path_pieces(parts: Seq<Seq<char>>) -> Seq<Seq<char>>
    decreases parts.len(),
{
    if parts.len() == 0 {
        seq![]
    } else {
        let prev = path_pieces(parts.drop_last());
        let p = parts.last();
        if p.len() == 0 || p == "."@ {
            prev
        } else {
            prev.push(p)
        }
    }
}

/// `Path::file_name` on Unix: the last component, unless it is `..` or the
/// path has no normal component.
pub open spec fn file_name(path: Seq<char>) -> Option<Seq<char>> {
    let ps = path_pieces(split_char(path, '/'));
    if ps.len() == 0 || ps.last() == ".."@ {
        None
    } else {
        Some(ps.last())
    }
}

/// Position of the last `c` in `s`, `-1` when there is none.
pub open spec fn last_index_of(s: Seq<char>, c: char) -> int
    decreases s.len(),
{
    if s.len() == 0 {
        -1
    } else if s.last() == c {
        s.len() - 1
    } else {
        last_index_of(s.drop_last(), c)
    }
}

/// `Path::extension`: what follows the last `.` of the file name, unless the
/// name has no `.` or its only `.` is its first character.
pub open spec fn path_extension(path: Seq<char>) -> Option<Seq<char>> {
    match file_name(path) {
        None => None,
        Some(name) => {
            let i = last_index_of(name, '.');
            if i <= 0 {
                None
            } else {
                Some(name.skip(i + 1))
            }
        },
    }
}

/// The extension of a file path (see [`path_extension`]).
pub fn file_extension(path: &str) -> (r: Option<String>)
    ensures
        crate::text::opt_view(r) == path_extension(path@),
{
    let parts = split_by_char(path, '/');
    let ghost ps = views(parts@);
    let mut last: Option<usize> = None;
    let mut i: usize = 0;
    while i < parts.len()
        invariant
            i <= parts.len(),
            ps == views(parts@),
            ps == split_char(path@, '/'),
            match last {
                None => path_pieces(ps.take(i as int)).len() == 0,
                Some(k) => k < i && path_pieces(ps.take(i as int)).len() > 0 && path_pieces(
                    ps.take(i as int),
                ).last() == ps[k as int],
            },
        decreases parts.len() - i,
    {
        assert(ps.take(i + 1).drop_last() =~= ps.take(i as int));
        assert(ps.take(i + 1).last() == parts@[i as int]@);
        let p = parts[i].as_str();
        if !p.is_empty() && !crate::text::str_eq(p, ".") {
            last = Some(i);
        }
        i = i + 1;
    }
    assert(ps.take(parts.len() as int) =~= ps);
    let name = match last {
        None => {
            return None;
        },
        Some(k) => parts[k].as_str(),
    };
    if crate::text::str_eq(name, "..") {
        return None;
    }
    let v = chars_of(name);
    let mut j: usize = v.len();
    assert(v@.take(v.len() as int) =~= v@);
    while j > 0 && v[j - 1] != '.'
        invariant
            j <= v.len(),
            v@ == name@,
            last_index_of(v@, '.') == last_index_of(v@.take(j as int), '.'),
        decreases j,
    {
        assert(v@.take(j as int).drop_last() =~= v@.take(j - 1));
        j = j - 1;
    }
    if j == 0 {
        assert(v@.take(0) =~= Seq::<char>::empty());
        return None;
    }
    assert(v@.take(j as int).last() == '.');
    if j == 1 {
        return None;
    }
    let ext = string_from_range(&v, j, v.len());
    assert(ext@ =~= name@.skip(j as int));
    Some(ext)
}

/// The format the `lint` command reads a file in: the one asked for, or the
/// one the file's extension implies.
pub fn lint_format(format: FormatArg, file: &str) -> (r: ConfigFormat)
    ensures
        r == if format_of_arg(format) == ConfigFormat::Auto {
            format_from_extension(path_extension(file@))
        } else {
            format_of_arg(format)
        },
{
    let chosen = ConfigFormat::from(format);
    match chosen {
        ConfigFormat::Auto => {
            let ext = file_extension(file);
            match ext {
                Some(e) => ConfigFormat::from_extension(Some(e.as_str())),
                None => ConfigFormat::from_extension(None),
            }
        },
        _ => chosen,
    }
}

/// Whether a lint run fails: the report is not valid, or `strict` is set
/// and there are warnings.
pub fn lint_failed(report: &ValidationReport, strict: bool) -> (r: bool)
    ensures
        r == (!report.valid || (strict && report.summary.warnings > 0)),
{
    !report.valid || (strict && report.summary.warnings > 0)
}

/// A count as a JSON number.
pub open spec fn count_json(n: nat) -> JsonView {
    JsonView::Number(
        NumberView {
            text: decimal_nat(n),
            int: if n <= i64::MAX {
                Some(n as i64)
            } else {
                None
            },
            uint: if n <= u64::MAX {
                Some(n as u64)
            } else {
                None
            },
        },
    )
}

/// One finding in the JSON report; members in key order.
pub open spec fn finding_json(r: LintView) -> JsonView {
    JsonView::Object(
        seq![
            ("message"@, JsonView::String(r.message)),
            ("path"@, match r.path {
                Some(p) => JsonView::String(p),
                None => JsonView::Null,
            }),
            ("rule_id"@, JsonView::String(r.rule_id)),
            ("severity"@, JsonView::String(severity_name(r.severity))),
        ],
    )
}

/// The JSON report of a validation: `results`, `summary`, `valid`.
pub open spec fn report_json(rs: Seq<LintView>, valid: bool, errors: nat, warnings: nat, info: nat) -> JsonView {
    JsonView::Object(
        seq![
            ("results"@, JsonView::Array(rs.map_values(|r: LintView| finding_json(r)))),
            ("summary"@, JsonView::Object(
                seq![
                    ("errors"@, count_json(errors)),
                    ("info"@, count_json(info)),
                    ("warnings"@, count_json(warnings)),
                ],
            )),
            ("valid"@, JsonView::Bool(valid)),
        ],
    )
}

fn count_value(n: usize) -> (r: JsonValue)
    ensures
        r@ == count_json(n as nat),
{
    let wide = n as u64;
    let signed = if wide <= 9223372036854775807u64 {
        Some(wide as i64)
    } else {
        None
    };
    JsonValue::Number(JsonNumber { text: usize_to_string(n), int: signed, uint: Some(wide) })
}

fn string_value(s: &str) -> (r: JsonValue)
    ensures
        r@ == JsonView::String(s@),
{
    JsonValue::String(to_owned_string(s))
}

fn entry(key: &str, value: JsonValue) -> (r: (String, JsonValue))
    ensures
        r.0@ == key@,
        r.1 == value,
{
    (to_owned_string(key), value)
}

proof fn lemma_members_view_4(es: Seq<(String, JsonValue)>)
    requires
        es.len() == 4,
    ensures
        members_view(es) == seq![
            (es[0].0@, es[0].1@),
            (es[1].0@, es[1].1@),
            (es[2].0@, es[2].1@),
            (es[3].0@, es[3].1@),
        ],
{
    crate::json::lemma_members_view_index(es);
    assert(members_view(es) =~= seq![
        (es[0].0@, es[0].1@),
        (es[1].0@, es[1].1@),
        (es[2].0@, es[2].1@),
        (es[3].0@, es[3].1@),
    ]);
}

proof fn lemma_members_view_3(es: Seq<(String, JsonValue)>)
    requires
        es.len() == 3,
    ensures
        members_view(es) == seq![(es[0].0@, es[0].1@), (es[1].0@, es[1].1@), (es[2].0@, es[2].1@)],
{
    crate::json::lemma_members_view_index(es);
    assert(members_view(es) =~= seq![(es[0].0@, es[0].1@), (es[1].0@, es[1].1@), (es[2].0@, es[2].1@)]);
}

/// The JSON report of a validation, as `--json` prints it.
pub fn report_document(report: &ValidationReport) -> (r: JsonValue)
    ensures
        r@ == report_json(
            result_views(report.results@),
            report.valid,
            report.summary.errors as nat,
            report.summary.warnings as nat,
            report.summary.info as nat,
        ),
{
    let ghost rs = result_views(report.results@);
    let mut items: Vec<JsonValue> = Vec::new();
    let mut i: usize = 0;
    while i < report.results.len()
        invariant
            i <= report.results.len(),
            rs == result_views(report.results@),
            items_view(items@) == rs.take(i as int).map_values(|r: LintView| finding_json(r)),
        decreases report.results.len() - i,
    {
        let r = &report.results[i];
        let path = match &r.path {
            Some(p) => string_value(p.as_str()),
            None => JsonValue::Null,
        };
        let mut es: Vec<(String, JsonValue)> = Vec::new();
        es.push(entry("message", string_value(r.message.as_str())));
        es.push(entry("path", path));
        es.push(entry("rule_id", string_value(r.rule_id.as_str())));
        es.push(entry("severity", string_value(r.severity.as_str())));
        proof {
            lemma_members_view_4(es@);
        }
        let obj = JsonValue::Object(JsonObject { entries: es });
        proof {
            let m = members_view(es@);
            assert(m[0] == ("message"@, JsonView::String(r.message@)));
            assert(m[1].1 == match r@.path {
                Some(p) => JsonView::String(p),
                None => JsonView::Null,
            });
            assert(m[2] == ("rule_id"@, JsonView::String(r.rule_id@)));
            assert(m[3] == ("severity"@, JsonView::String(severity_name(r.severity))));
            assert(m =~= finding_json(r@)->Object_0);
        }
        assert(obj@ == finding_json(r@));
        let ghost before = items@;
        items.push(obj);
        proof {
            lemma_items_view_index(before);
            lemma_items_view_index(items@);
            assert(items_view(items@) =~= items_view(before).push(obj@));
            assert(rs.take(i + 1).map_values(|r: LintView| finding_json(r)) =~= rs.take(i as int).map_values(
                |r: LintView| finding_json(r),
            ).push(finding_json(rs[i as int])));
        }
        i = i + 1;
    }
    assert(rs.take(report.results.len() as int) =~= rs);
    let mut summary: Vec<(String, JsonValue)> = Vec::new();
    summary.push(entry("errors", count_value(report.summary.errors)));
    summary.push(entry("info", count_value(report.summary.info)));
    summary.push(entry("warnings", count_value(report.summary.warnings)));
    proof {
        lemma_members_view_3(summary@);
    }
    let mut top: Vec<(String, JsonValue)> = Vec::new();
    top.push(entry("results", JsonValue::Array(items)));
    top.push(entry("summary", JsonValue::Object(JsonObject { entries: summary })));
    top.push(entry("valid", JsonValue::Bool(report.valid)));
    proof {
        lemma_members_view_3(top@);
    }
    JsonValue::Object(JsonObject { entries: top })
}

/// `Summary: E errors, W warnings, I info`.
pub open spec fn summary_text(errors: nat, warnings: nat, info: nat) -> Seq<char> {
    "Summary: "@ + decimal_nat(errors) + " errors, "@ + decimal_nat(warnings) + " warnings, "@ + decimal_nat(info)
        + " info"@
}

/// The report as the `lint` command prints it without `--json`: the
/// findings (or that there are none), an empty line, and the summary.
pub open spec fn report_text(report: ValidationReport) -> Seq<char> {
    let head = if report.results@.len() == 0 {
        "\u{2705} No issues found"@
    } else {
        report.formatted@
    };
    head + "\n\n"@ + summary_text(
        report.summary.errors as nat,
        report.summary.warnings as nat,
        report.summary.info as nat,
    ) + "\n"@
}

/// The printed text report of a validation.
pub fn report_output(report: &ValidationReport) -> (r: String)
    ensures
        r@ == report_text(*report),
{
    let head = if report.results.len() == 0 {
        to_owned_string("\u{2705} No issues found")
    } else {
        report.formatted.clone()
    };
    let e = usize_to_string(report.summary.errors);
    let w = usize_to_string(report.summary.warnings);
    let n = usize_to_string(report.summary.info);
    let line1 = concat4("Summary: ", e.as_str(), " errors, ", w.as_str());
    let line2 = concat4(line1.as_str(), " warnings, ", n.as_str(), " info");
    let r = concat4(head.as_str(), "\n\n", line2.as_str(), "\n");
    assert(r@ =~= report_text(*report));
    r
}

} // verus!
