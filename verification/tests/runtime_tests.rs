//! Scenarios that exercise the library the way the server binary does:
//! with a tokio runtime, a real admission semaphore, and real
//! subprocesses.

use std::sync::Arc;
use std::time::Duration;

use fastcgi_server::config::{
    CommandConfiguration, CommandInfo, Configuration, ContextConfiguration,
    FastCGIConnectionConfiguration, ServerConfiguration, ServerType,
};
use fastcgi_server::connection::FastCGIConnectionID;
use fastcgi_server::handlers::commands::{CommandOutput, RunCommandHandler};
use fastcgi_server::handlers::create_handlers;
use fastcgi_server::handlers::route::HandlerAction;
use fastcgi_server::request::{FastCGIRequest, FastCGIRequestID};
use fastcgi_server::response::HttpResponse;

fn body_text(response: &HttpResponse) -> String {
    match response.body() {
        Some(body) => String::from_utf8(body.as_bytes().to_vec()).unwrap(),
        None => panic!("expected a response body"),
    }
}

fn runtime() -> tokio::runtime::Runtime {
    tokio::runtime::Builder::new_multi_thread().enable_all().build().unwrap()
}

async fn run_command(handler: &RunCommandHandler) -> HttpResponse {
    let start = tokio::time::Instant::now();
    let result = tokio::process::Command::new(handler.command_info().command())
        .args(handler.command_info().args())
        .output()
        .await;
    let duration_ms = start.elapsed().as_millis();
    let converted = match result {
        Ok(output) => Ok(CommandOutput { stdout: output.stdout, stderr: output.stderr }),
        Err(err) => Err(err.to_string()),
    };
    handler.handle_command_result(converted, duration_ms)
}

#[test]
fn command_process_round_trip_stderr_then_stdout() {
    let handler = RunCommandHandler::new(CommandInfo::new(
        "emit".to_owned(),
        "emits A and B".to_owned(),
        "sh".to_owned(),
        vec!["-c".to_owned(), "printf B 1>&2; printf A".to_owned()],
    ));
    let response = runtime().block_on(run_command(&handler));
    assert_eq!(response.status(), 200);
    let body = body_text(&response);
    assert!(body.contains("\"command_output\":\"BA\""));
    assert!(body.contains("\"command_duration_ms\":"));
}

#[test]
fn configured_ls_command_returns_its_info_and_output() {
    let configuration = Configuration::new(
        ContextConfiguration::new("/cgi-bin".to_owned()),
        ServerConfiguration::new(
            ServerType::UNIX,
            "/tmp/test.sock".to_owned(),
            FastCGIConnectionConfiguration::new(8, 8),
        ),
        CommandConfiguration::new(
            1,
            500,
            vec![CommandInfo::new(
                "ls".to_owned(),
                "list".to_owned(),
                "ls".to_owned(),
                vec!["-la".to_owned()],
            )],
        ),
    );
    let router = create_handlers(&configuration).ok().unwrap();
    let request = FastCGIRequest::new(
        FastCGIConnectionID { id: 1, server_type: ServerType::UNIX },
        "Responder".to_owned(),
        FastCGIRequestID(1),
        Some("/cgi-bin/commands/ls".to_owned()),
        Vec::new(),
    );
    match router.handle(request) {
        HandlerAction::RunCommand(handler) => {
            assert_eq!(handler.command_info().id().as_str(), "ls");
            let response = runtime().block_on(run_command(handler));
            assert_eq!(response.status(), 200);
            let body = body_text(&response);
            assert!(body.contains("\"command_info\":{\"id\":\"ls\""));
            assert!(!body.contains("\"command_output\":\"\""));
        }
        HandlerAction::Respond(_) => panic!("expected the command execution action"),
    }
}

#[test]
fn saturated_gate_gives_429_and_freed_gate_admits() {
    let handler = RunCommandHandler::new(CommandInfo::new(
        "emit".to_owned(),
        "emits ok".to_owned(),
        "sh".to_owned(),
        vec!["-c".to_owned(), "printf ok".to_owned()],
    ));
    let acquire_timeout = Duration::from_millis(100);
    runtime().block_on(async {
        let gate = Arc::new(tokio::sync::Semaphore::new(1));

        // Request A holds the one permit for longer than the timeout.
        let held = gate.acquire().await.unwrap();

        // Request B times out waiting and is turned away with 429.
        let denied = tokio::time::timeout(acquire_timeout, gate.acquire()).await;
        assert!(denied.is_err());
        let response = handler.admission_denied_response();
        assert_eq!(response.status(), 429);
        assert!(response.body().is_none());

        // A releases before B's next wait elapses: B is admitted and
        // the command runs to a 200 response.
        drop(held);
        let admitted = tokio::time::timeout(acquire_timeout, gate.acquire()).await;
        let permit = admitted.ok().unwrap().unwrap();
        let response = run_command(&handler).await;
        drop(permit);
        assert_eq!(response.status(), 200);
        assert!(body_text(&response).contains("\"command_output\":\"ok\""));
    });
}
