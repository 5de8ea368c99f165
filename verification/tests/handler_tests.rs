use fastcgi_server::config::{CommandInfo, ServerType};
use fastcgi_server::connection::{FastCGIConnectionID, FastCGIConnectionIDFactory};
use fastcgi_server::handlers::commands::{AllCommandsHandler, CommandOutput, RunCommandHandler};
use fastcgi_server::handlers::request_info::RequestInfoHandler;
use fastcgi_server::request::{FastCGIRequest, FastCGIRequestID};
use fastcgi_server::response::HttpResponse;

fn body_text(response: &HttpResponse) -> String {
    match response.body() {
        Some(body) => String::from_utf8(body.as_bytes().to_vec()).unwrap(),
        None => panic!("expected a response body"),
    }
}

fn plain_request(params: Vec<(&str, Option<&str>)>) -> FastCGIRequest {
    FastCGIRequest::new(
        FastCGIConnectionID { id: 42, server_type: ServerType::UNIX },
        "Responder".to_owned(),
        FastCGIRequestID(7),
        Some("/cgi-bin/request_info".to_owned()),
        params
            .into_iter()
            .map(|(k, v)| (k.to_owned(), v.map(|s| s.to_owned())))
            .collect(),
    )
}

#[test]
fn connection_ids_start_at_one_and_increase() {
    let mut factory = FastCGIConnectionIDFactory::new(ServerType::TCP);
    let first = factory.new_connection_id();
    let second = factory.new_connection_id();
    let third = factory.new_connection_id();
    assert_eq!(first.id, 1);
    assert_eq!(second.id, 2);
    assert_eq!(third.id, 3);
    assert!(matches!(first.server_type, ServerType::TCP));
}

#[test]
fn command_list_payload_is_serialized_once_and_exact() {
    let commands = vec![
        CommandInfo::new("ls".to_owned(), "list files".to_owned(), "ls".to_owned(), vec![
            "-la".to_owned(),
        ]),
        CommandInfo::new("up".to_owned(), "uptime".to_owned(), "uptime".to_owned(), Vec::new()),
    ];
    let handler = AllCommandsHandler::new(&commands);
    let response = handler.handle(plain_request(Vec::new()));
    assert_eq!(response.status(), 200);
    assert_eq!(
        body_text(&response).as_str(),
        "[{\"id\":\"ls\",\"description\":\"list files\",\"command\":\"ls\",\"args\":[\"-la\"]},\
         {\"id\":\"up\",\"description\":\"uptime\",\"command\":\"uptime\",\"args\":[]}]"
    );
}

#[test]
fn command_list_is_idempotent_across_calls() {
    let commands = vec![CommandInfo::new(
        "ls".to_owned(),
        "list".to_owned(),
        "ls".to_owned(),
        Vec::new(),
    )];
    let handler = AllCommandsHandler::new(&commands);
    let first = handler.handle(plain_request(Vec::new()));
    let second = handler.handle(plain_request(vec![("http_host", Some("x"))]));
    assert_eq!(
        body_text(&first).as_bytes(),
        body_text(&second).as_bytes()
    );
}

#[test]
fn empty_command_list_payload() {
    let handler = AllCommandsHandler::new(&Vec::new());
    let response = handler.handle(plain_request(Vec::new()));
    assert_eq!(body_text(&response).as_str(), "[]");
}

#[test]
fn run_command_output_is_stderr_then_stdout() {
    let handler = RunCommandHandler::new(CommandInfo::new(
        "x".to_owned(),
        "emits".to_owned(),
        "x".to_owned(),
        Vec::new(),
    ));
    let output = CommandOutput { stdout: b"A".to_vec(), stderr: b"B".to_vec() };
    let response = handler.build_run_command_response(
        &"2024-01-01T00:00:00.000000000Z".to_owned(),
        12,
        &Ok(output),
    );
    assert_eq!(response.status(), 200);
    assert_eq!(
        body_text(&response).as_str(),
        "{\"now\":\"2024-01-01T00:00:00.000000000Z\",\"command_duration_ms\":12,\
         \"command_info\":{\"id\":\"x\",\"description\":\"emits\",\"command\":\"x\",\"args\":[]},\
         \"command_output\":\"BA\"}"
    );
}

#[test]
fn run_command_spawn_failure_is_a_200_with_embedded_error() {
    let handler = RunCommandHandler::new(CommandInfo::new(
        "x".to_owned(),
        "d".to_owned(),
        "/no/such/binary".to_owned(),
        Vec::new(),
    ));
    let response = handler.build_run_command_response(
        &"2024-01-01T00:00:00.000000000Z".to_owned(),
        0,
        &Err("No such file or directory (os error 2)".to_owned()),
    );
    assert_eq!(response.status(), 200);
    let body = body_text(&response);
    assert!(body.contains(
        "\"command_output\":\"error running command No such file or directory (os error 2)\""
    ));
}

#[test]
fn admission_denied_is_429_without_body() {
    let handler = RunCommandHandler::new(CommandInfo::new(
        "x".to_owned(),
        "d".to_owned(),
        "x".to_owned(),
        Vec::new(),
    ));
    let response = handler.admission_denied_response();
    assert_eq!(response.status(), 429);
    assert!(response.body().is_none());
}

#[test]
fn handle_command_result_stamps_a_timestamp() {
    let handler = RunCommandHandler::new(CommandInfo::new(
        "x".to_owned(),
        "d".to_owned(),
        "x".to_owned(),
        Vec::new(),
    ));
    let output = CommandOutput { stdout: b"out".to_vec(), stderr: Vec::new() };
    let response = handler.handle_command_result(Ok(output), 5);
    assert_eq!(response.status(), 200);
    let body = body_text(&response);
    assert!(body.starts_with("{\"now\":\""));
    assert!(body.contains("\"command_duration_ms\":5"));
    assert!(body.contains("\"command_output\":\"out\""));
}

#[test]
fn request_info_partitions_and_orders_params() {
    let request = plain_request(vec![
        ("http_user_agent", Some("curl")),
        ("remote_addr", Some("127.0.0.1")),
        ("HTTP_accept", Some("*/*")),
        ("server_name", Some("localhost")),
        ("auth_type", None),
    ]);
    let response = RequestInfoHandler::new().handle(request);
    assert_eq!(response.status(), 200);
    assert_eq!(
        body_text(&response).as_str(),
        "{\"fastcgi_role\":\"Responder\",\
         \"fastcgi_connection_id\":{\"id\":42,\"server_type\":\"UNIX\"},\
         \"fastcgi_request_id\":7,\
         \"request_uri\":\"/cgi-bin/request_info\",\
         \"http_headers\":{\"accept\":\"*/*\",\"user_agent\":\"curl\"},\
         \"other_params\":{\"auth_type\":\"[Invalid UTF8]\",\"remote_addr\":\"127.0.0.1\",\"server_name\":\"localhost\"}}"
    );
}

#[test]
fn request_info_without_uri_reports_unknown() {
    let request = FastCGIRequest::new(
        FastCGIConnectionID { id: 1, server_type: ServerType::TCP },
        "Authorizer".to_owned(),
        FastCGIRequestID(2),
        None,
        Vec::new(),
    );
    let response = RequestInfoHandler::new().handle(request);
    let body = body_text(&response);
    assert!(body.contains("\"request_uri\":\"[Unknown URI]\""));
    assert!(body.contains("\"fastcgi_role\":\"Authorizer\""));
}

#[test]
fn request_view_drops_the_uri_pseudo_parameter() {
    let request = plain_request(vec![
        ("request_uri", Some("/cgi-bin/request_info")),
        ("remote_addr", Some("127.0.0.1")),
    ]);
    assert_eq!(request.params().len(), 1);
    assert_eq!(request.params()[0].0.as_str(), "remote_addr");
}

#[test]
fn later_duplicate_parameter_replaces_earlier() {
    let request = plain_request(vec![
        ("http_host", Some("first")),
        ("http_host", Some("second")),
    ]);
    let response = RequestInfoHandler::new().handle(request);
    let body = body_text(&response);
    assert!(body.contains("\"http_headers\":{\"host\":\"second\"}"));
}
