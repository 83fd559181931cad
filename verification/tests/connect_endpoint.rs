use strimzi_ops::connect::endpoint::{connect_base_url, decode_error, request_url, send_error, status_error};
use strimzi_ops::error::Error;

#[test]
fn base_url_is_parsed_without_trailing_slashes() {
    assert_eq!(connect_base_url("http://localhost:8083//").unwrap(), "http://localhost:8083/");
    assert_eq!(connect_base_url("http://h:8083/api/").unwrap(), "http://h:8083/api");
    match connect_base_url("not a url/") {
        Err(Error::InvalidConnectUrl { url, reason }) => {
            assert_eq!(url, "not a url");
            assert_eq!(reason, "relative URL without a base");
        }
        _ => panic!("expected an invalid URL"),
    }
}

#[test]
fn request_urls_resolve_against_base() {
    assert_eq!(request_url("http://h:8083/", "connectors").unwrap(), "http://h:8083/connectors");
    assert_eq!(
        request_url("http://h:8083/", "/connectors/demo/status").unwrap(),
        "http://h:8083/connectors/demo/status"
    );
    assert_eq!(request_url("http://h:8083/", "").unwrap(), "http://h:8083/");
    assert_eq!(request_url("http://h/api", "/").unwrap(), "http://h/api/");
    assert_eq!(request_url("http://h/api", "connectors").unwrap(), "http://h/connectors");
}

#[test]
fn request_errors_name_method_and_path() {
    match send_error("GET", "", "http://h/", "refused", true) {
        Error::ConnectHttp { method, path, reason } => {
            assert_eq!(method, "GET");
            assert_eq!(path, "/");
            assert!(reason.starts_with("cannot reach http://h/ (refused)"));
        }
        _ => panic!(),
    }
    assert_eq!(
        status_error("GET", "connectors/missing", "404 Not Found", "not found").message(),
        "Kafka Connect request GET connectors/missing failed: HTTP 404 Not Found: not found"
    );
    assert_eq!(
        decode_error("GET", "connectors", "eof").message(),
        "Kafka Connect request GET connectors failed: cannot decode JSON response: eof"
    );
}
