use subtitle_pipeline::api_error::{http_error, parse_api_error};

#[test]
fn structured_error_field_is_preferred() {
    let msg = parse_api_error("{\"error\":\"bad audio url\"}", "Upload failed");
    assert_eq!(msg, "Upload failed: bad audio url");
}

#[test]
fn structured_message_field_is_second_choice() {
    let msg = parse_api_error(
        "{\"message\":\"quota exhausted\",\"code\":42}",
        "Upload failed",
    );
    assert_eq!(msg, "Upload failed: quota exhausted");
}

#[test]
fn structured_error_wins_over_message() {
    let msg = parse_api_error(
        "{\"message\":\"secondary\",\"error\":\"primary\"}",
        "Poll failed",
    );
    assert_eq!(msg, "Poll failed: primary");
}

#[test]
fn empty_object_reports_unknown_error() {
    let msg = parse_api_error("{}", "Upload failed");
    assert_eq!(msg, "Upload failed: Unknown error");
}

#[test]
fn unauthorized_substrings_select_a_friendlier_message() {
    let msg = parse_api_error("401 Unauthorized", "Upload failed");
    assert_eq!(
        msg,
        "Upload failed: Unauthorized: the service rejected the credential."
    );
    let msg = parse_api_error("plain Unauthorized text", "Upload failed");
    assert_eq!(
        msg,
        "Upload failed: Unauthorized: the service rejected the credential."
    );
}

#[test]
fn forbidden_and_rate_limit_substrings() {
    assert_eq!(
        parse_api_error("403 Forbidden", "Poll failed"),
        "Poll failed: Access denied."
    );
    assert_eq!(
        parse_api_error("429 Too Many Requests", "Poll failed"),
        "Poll failed: Rate limit exceeded. Please try again later."
    );
}

#[test]
fn anything_else_is_surfaced_verbatim() {
    assert_eq!(
        parse_api_error("gateway melted", "Download failed"),
        "Download failed: gateway melted"
    );
    // A JSON array is not a structured error object.
    assert_eq!(
        parse_api_error("[1,2,3]", "Download failed"),
        "Download failed: [1,2,3]"
    );
}

#[test]
fn http_error_prefix() {
    assert_eq!(http_error(502, "Upload failed: x"), "[HTTP 502] Upload failed: x");
}
