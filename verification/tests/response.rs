use webhook_runners::response::{Route, Status};
use webhook_runners::{build_response, function_handler};

#[test]
fn every_status_is_answered_with_its_reason_phrase() {
    let cases = [
        (Status::Success, 200, "{\"status\":\"OK\"}"),
        (Status::Unauthorized, 401, "{\"status\":\"Unauthorized\"}"),
        (Status::NotFound, 404, "{\"status\":\"Not Found\"}"),
        (Status::MethodNotAllowed, 405, "{\"status\":\"Method Not Allowed\"}"),
        (Status::InternalServerError, 500, "{\"status\":\"Internal Server Error\"}"),
    ];
    for (status, code, body) in cases.iter() {
        let response = build_response(*status);
        assert_eq!(response.status, *status);
        assert_eq!(response.status.code(), *code);
        assert_eq!(response.content_type, "application/json");
        assert_eq!(response.body, *body);
    }
}

#[test]
fn body_is_the_json_that_names_the_status() {
    let response = build_response(Status::Unauthorized);
    let parsed: serde_json::Value = serde_json::from_str(&response.body).unwrap();
    let object = parsed.as_object().unwrap();
    assert_eq!(object.len(), 1);
    assert_eq!(object.get("status").and_then(|v| v.as_str()), Some("Unauthorized"));
}

#[test]
fn reason_phrases_are_those_of_the_http_crate() {
    for status in [
        Status::Success,
        Status::Unauthorized,
        Status::NotFound,
        Status::MethodNotAllowed,
        Status::InternalServerError,
    ] {
        let reason = http::StatusCode::from_u16(status.code()).unwrap().canonical_reason().unwrap();
        assert_eq!(build_response(status).body, format!("{{\"status\":\"{}\"}}", reason));
    }
}

#[test]
fn post_to_the_webhook_path_is_routed_to_the_handler() {
    assert_eq!(function_handler("POST", "/v1/webhook"), Route::Webhook);
}

#[test]
fn other_methods_are_not_allowed() {
    assert_eq!(function_handler("GET", "/v1/webhook"), Route::Refused(Status::MethodNotAllowed));
    assert_eq!(function_handler("post", "/v1/webhook"), Route::Refused(Status::MethodNotAllowed));
    assert_eq!(function_handler("", "/v1/webhook"), Route::Refused(Status::MethodNotAllowed));
    assert_eq!(function_handler("PUT", "/elsewhere"), Route::Refused(Status::MethodNotAllowed));
}

#[test]
fn other_paths_are_not_found() {
    assert_eq!(function_handler("POST", "/"), Route::Refused(Status::NotFound));
    assert_eq!(function_handler("POST", "/v1/webhook/"), Route::Refused(Status::NotFound));
    assert_eq!(function_handler("POST", "/v1/Webhook"), Route::Refused(Status::NotFound));
    assert_eq!(function_handler("POST", ""), Route::Refused(Status::NotFound));
}
