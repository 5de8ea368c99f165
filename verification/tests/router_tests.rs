use fastcgi_server::config::{
    CommandConfiguration, CommandInfo, Configuration, ContextConfiguration,
    FastCGIConnectionConfiguration, ServerConfiguration, ServerType,
};
use fastcgi_server::connection::FastCGIConnectionID;
use fastcgi_server::handlers::create_handlers;
use fastcgi_server::handlers::route::{HandlerAction, Router, RouterError};
use fastcgi_server::handlers::RequestHandler;
use fastcgi_server::request::{FastCGIRequest, FastCGIRequestID};

fn test_configuration(context: &str, commands: Vec<CommandInfo>) -> Configuration {
    Configuration::new(
        ContextConfiguration::new(context.to_owned()),
        ServerConfiguration::new(
            ServerType::TCP,
            "127.0.0.1:9000".to_owned(),
            FastCGIConnectionConfiguration::new(8, 8),
        ),
        CommandConfiguration::new(4, 500, commands),
    )
}

fn command(id: &str, command: &str, args: Vec<&str>) -> CommandInfo {
    CommandInfo::new(
        id.to_owned(),
        format!("runs {}", id),
        command.to_owned(),
        args.into_iter().map(|a| a.to_owned()).collect(),
    )
}

fn request_with_uri(uri: Option<&str>) -> FastCGIRequest {
    FastCGIRequest::new(
        FastCGIConnectionID { id: 1, server_type: ServerType::TCP },
        "Responder".to_owned(),
        FastCGIRequestID(1),
        uri.map(|u| u.to_owned()),
        Vec::new(),
    )
}

#[test]
fn router_construction_fails_on_uri_collision() {
    let configuration = test_configuration(
        "/cgi-bin",
        vec![command("ls", "ls", vec!["-la"]), command("ls", "echo", vec!["twin"])],
    );
    let result = create_handlers(&configuration);
    assert!(result.is_err());
    let error = result.err().unwrap();
    let RouterError::UriCollision(_) = &error;
    assert_eq!(
        error.message().as_str(),
        "collision in router uri '/cgi-bin/commands/ls'"
    );
}

#[test]
fn router_construction_succeeds_without_collision() {
    let configuration = test_configuration(
        "/cgi-bin",
        vec![command("ls", "ls", vec!["-la"]), command("echo", "echo", vec!["hello"])],
    );
    let result = create_handlers(&configuration);
    assert!(result.is_ok());
}

#[test]
fn direct_router_collision_is_reported() {
    let routes = vec![
        (
            "a".to_owned(),
            RequestHandler::RequestInfo(
                fastcgi_server::handlers::request_info::RequestInfoHandler::new(),
            ),
        ),
        (
            "a".to_owned(),
            RequestHandler::RequestInfo(
                fastcgi_server::handlers::request_info::RequestInfoHandler::new(),
            ),
        ),
    ];
    let result = Router::new("/ctx", routes);
    assert!(result.is_err());
    assert_eq!(result.err().unwrap().message().as_str(), "collision in router uri '/ctx/a'");
}

#[test]
fn missing_uri_gives_400_and_no_handler_runs() {
    let configuration = test_configuration("/cgi-bin", vec![command("ls", "ls", vec![])]);
    let router = create_handlers(&configuration).ok().unwrap();
    let action = router.handle(request_with_uri(None));
    match action {
        HandlerAction::Respond(response) => {
            assert_eq!(response.status(), 400);
            assert!(response.body().is_none());
        }
        HandlerAction::RunCommand(_) => panic!("a handler ran for a request without a URI"),
    }
}

#[test]
fn unknown_uri_gives_404() {
    let configuration = test_configuration("/cgi-bin", vec![command("ls", "ls", vec![])]);
    let router = create_handlers(&configuration).ok().unwrap();
    let action = router.handle(request_with_uri(Some("/cgi-bin/missing")));
    match action {
        HandlerAction::Respond(response) => {
            assert_eq!(response.status(), 404);
            assert!(response.body().is_none());
        }
        HandlerAction::RunCommand(_) => panic!("a handler ran for an unregistered URI"),
    }
}

#[test]
fn matching_is_exact_not_prefix() {
    let configuration = test_configuration("/cgi-bin", vec![command("ls", "ls", vec![])]);
    let router = create_handlers(&configuration).ok().unwrap();
    let action = router.handle(request_with_uri(Some("/cgi-bin/commands/ls/extra")));
    match action {
        HandlerAction::Respond(response) => assert_eq!(response.status(), 404),
        HandlerAction::RunCommand(_) => panic!("prefix matching is not allowed"),
    }
}

#[test]
fn command_uri_routes_to_its_command() {
    let configuration = test_configuration(
        "/cgi-bin",
        vec![command("ls", "ls", vec!["-la"]), command("echo", "echo", vec!["hello"])],
    );
    let router = create_handlers(&configuration).ok().unwrap();
    let action = router.handle(request_with_uri(Some("/cgi-bin/commands/echo")));
    match action {
        HandlerAction::RunCommand(handler) => {
            assert_eq!(handler.command_info().id().as_str(), "echo");
            assert_eq!(handler.command_info().command().as_str(), "echo");
        }
        HandlerAction::Respond(_) => panic!("expected the command execution action"),
    }
}

#[test]
fn empty_context_joins_without_separator() {
    let configuration = test_configuration("", vec![]);
    let router = create_handlers(&configuration).ok().unwrap();
    let action = router.handle(request_with_uri(Some("commands")));
    match action {
        HandlerAction::Respond(response) => assert_eq!(response.status(), 200),
        HandlerAction::RunCommand(_) => panic!("the command list does not execute commands"),
    }
}

#[test]
fn context_with_trailing_slash_joins_once() {
    let configuration = test_configuration("/cgi-bin/", vec![]);
    let router = create_handlers(&configuration).ok().unwrap();
    let action = router.handle(request_with_uri(Some("/cgi-bin/request_info")));
    match action {
        HandlerAction::Respond(response) => assert_eq!(response.status(), 200),
        HandlerAction::RunCommand(_) => panic!("diagnostics do not execute commands"),
    }
}
