//! Kafka Connect pod logs through `kubectl`: the label selector, the command's
//! arguments, and what is shown of its outcome.
use vstd::prelude::*;
use crate::text::{concat2, concat3, contains, ends_with, join, join_strings, lines, lines_of,
    str_contains, str_ends_with, to_owned_string, trim, trim_str, u64_to_string, decimal_nat, views};

verus! {

broadcast use vstd::string::group_string_axioms;

/// `strimzi.io/name=<cluster>-connect`; a name that already ends in
/// `-connect` is kept as it is.
pub open spec fn label_selector(cluster_name: Seq<char>) -> Seq<char> {
    let name = if ends_with(cluster_name, "-connect"@) {
        cluster_name
    } else {
        cluster_name + "-connect"@
    };
    "strimzi.io/name="@ + name
}

/// The lines that contain `filter`, in order.
pub open spec fn matching_lines(ls: Seq<Seq<char>>, filter: Seq<char>) -> Seq<Seq<char>>
    decreases ls.len(),
{
    if ls.len() == 0 {
        seq![]
    } else if contains(ls.last(), filter) {
        matching_lines(ls.drop_last(), filter).push(ls.last())
    } else {
        matching_lines(ls.drop_last(), filter)
    }
}

/// The filtered log text, or a message when no line matches.
pub open spec fn filtered_logs(output: Seq<char>, filter: Seq<char>) -> Seq<char> {
    let kept = matching_lines(lines(output), filter);
    if kept.len() == 0 {
        "No log lines matched filter '"@ + filter + "'"@
    } else {
        join(kept, "\n"@)
    }
}

/// What is shown of a `kubectl logs` run.
pub open spec fn logs_text(
    success: bool,
    stdout: Seq<char>,
    stderr: Seq<char>,
    status: Seq<char>,
    filter: Option<Seq<char>>,
) -> Seq<char> {
    if !success {
        let err = trim(stderr);
        let detail = if err.len() > 0 {
            err
        } else if trim(stdout).len() > 0 {
            trim(stdout)
        } else {
            "kubectl exited with "@ + status
        };
        "Failed to fetch logs: "@ + detail
    } else {
        match filter {
            Some(f) => filtered_logs(stdout, f),
            None => if stdout.len() == 0 {
                "No logs returned"@
            } else {
                stdout
            },
        }
    }
}

/// Builds the Strimzi label selector for Kafka Connect pods.
pub fn connect_label_selector(cluster_name: &str) -> (r: String)
    ensures
        r@ == label_selector(cluster_name@),
{
    if str_ends_with(cluster_name, "-connect") {
        concat2("strimzi.io/name=", cluster_name)
    } else {
        concat3("strimzi.io/name=", cluster_name, "-connect")
    }
}

/// Keeps the log lines that contain `filter_text`.
pub fn filter_log_lines(output: &str, filter_text: &str) -> (r: String)
    ensures
        r@ == filtered_logs(output@, filter_text@),
{
    let all = lines_of(output);
    let ghost ls = views(all@);
    let mut kept: Vec<String> = Vec::new();
    let mut i: usize = 0;
    assert(ls.take(0) =~= Seq::<Seq<char>>::empty());
    assert(views(kept@) =~= Seq::<Seq<char>>::empty());
    while i < all.len()
        invariant
            i <= all@.len(),
            ls == views(all@),
            views(kept@) == matching_lines(ls.take(i as int), filter_text@),
        decreases all.len() - i,
    {
        assert(ls.take(i + 1).drop_last() =~= ls.take(i as int));
        assert(ls.take(i + 1).last() == all@[i as int]@);
        if str_contains(all[i].as_str(), filter_text) {
            let ghost prev = views(kept@);
            let line = all[i].clone();
            kept.push(line);
            assert(views(kept@) =~= prev.push(all@[i as int]@));
        }
        i += 1;
    }
    assert(ls.take(ls.len() as int) =~= ls);
    if kept.len() == 0 {
        concat3("No log lines matched filter '", filter_text, "'")
    } else {
        join_strings(&kept, "\n")
    }
}

/// The arguments of `kubectl logs -l <selector> --tail <lines> --prefix=true`.
pub fn kubectl_log_args(cluster_name: &str, lines: u32) -> (r: Vec<String>)
    ensures
        views(r@) == seq!["logs"@, "-l"@, label_selector(cluster_name@), "--tail"@, decimal_nat(lines as nat),
            "--prefix=true"@],
{
    let mut args: Vec<String> = Vec::new();
    args.push(to_owned_string("logs"));
    args.push(to_owned_string("-l"));
    args.push(connect_label_selector(cluster_name));
    args.push(to_owned_string("--tail"));
    args.push(u64_to_string(lines as u64));
    args.push(to_owned_string("--prefix=true"));
    assert(views(args@) =~= seq!["logs"@, "-l"@, label_selector(cluster_name@), "--tail"@, decimal_nat(
        lines as nat,
    ), "--prefix=true"@]);
    args
}

/// What is shown of a `kubectl logs` run: its failure with the first
/// non-blank of stderr, stdout and exit status; else the output, filtered
/// when asked, or a note that nothing came back.
pub fn logs_outcome(
    success: bool,
    stdout: &str,
    stderr: &str,
    status: &str,
    filter_text: Option<&str>,
) -> (r: String)
    ensures
        r@ == logs_text(success, stdout@, stderr@, status@, match filter_text {
            Some(f) => Some(f@),
            None => None,
        }),
{
    if !success {
        let err = trim_str(stderr);
        let detail = if crate::text::chars_of(err.as_str()).len() > 0 {
            err
        } else {
            let out = trim_str(stdout);
            if crate::text::chars_of(out.as_str()).len() > 0 {
                out
            } else {
                concat2("kubectl exited with ", status)
            }
        };
        return concat2("Failed to fetch logs: ", detail.as_str());
    }
    match filter_text {
        Some(f) => filter_log_lines(stdout, f),
        None => {
            if crate::text::chars_of(stdout).len() == 0 {
                to_owned_string("No logs returned")
            } else {
                to_owned_string(stdout)
            }
        },
    }
}

} // verus!
