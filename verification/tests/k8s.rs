use strimzi_ops::k8s::{connect_label_selector, filter_log_lines, kubectl_log_args, logs_outcome};

#[test]
fn label_selector_appends_connect_suffix() {
    assert_eq!(connect_label_selector("my-cluster"), "strimzi.io/name=my-cluster-connect");
}

#[test]
fn label_selector_keeps_existing_connect_suffix() {
    assert_eq!(connect_label_selector("my-cluster-connect"), "strimzi.io/name=my-cluster-connect");
}

#[test]
fn filters_matching_lines() {
    let output = "pod/a: hello connector-x\npod/b: unrelated\npod/c: connector-x done";
    assert_eq!(
        filter_log_lines(output, "connector-x"),
        "pod/a: hello connector-x\npod/c: connector-x done"
    );
}

#[test]
fn filter_with_no_matches_returns_message() {
    assert_eq!(
        filter_log_lines("nope\nstill nope", "connector-x"),
        "No log lines matched filter 'connector-x'"
    );
}

#[test]
fn label_selector_suffix_law_on_values() {
    assert_eq!(connect_label_selector("demo-connect"), connect_label_selector("demo"));
    assert!(connect_label_selector("x").ends_with("-connect"));
}

#[test]
fn filtered_lines_all_contain_filter() {
    let out = filter_log_lines("a x\nb\nc x\r\nd", "x");
    assert_eq!(out, "a x\nc x");
    for line in out.lines() {
        assert!(line.contains('x'));
    }
}

#[test]
fn kubectl_arguments_name_the_selector_and_tail() {
    let args = kubectl_log_args("my-cluster", 100);
    assert_eq!(
        args,
        vec!["logs", "-l", "strimzi.io/name=my-cluster-connect", "--tail", "100", "--prefix=true"]
    );
}

#[test]
fn failed_kubectl_reports_stderr_then_stdout_then_status() {
    assert_eq!(
        logs_outcome(false, "out", "  boom  ", "exit status: 1", None),
        "Failed to fetch logs: boom"
    );
    assert_eq!(
        logs_outcome(false, " out ", "  ", "exit status: 1", None),
        "Failed to fetch logs: out"
    );
    assert_eq!(
        logs_outcome(false, "", "", "exit status: 1", None),
        "Failed to fetch logs: kubectl exited with exit status: 1"
    );
}

#[test]
fn successful_kubectl_output_is_shown_or_filtered() {
    assert_eq!(logs_outcome(true, "", "", "exit status: 0", None), "No logs returned");
    assert_eq!(logs_outcome(true, "line\n", "", "exit status: 0", None), "line\n");
    assert_eq!(
        logs_outcome(true, "a demo\nb\n", "", "exit status: 0", Some("demo")),
        "a demo"
    );
}
