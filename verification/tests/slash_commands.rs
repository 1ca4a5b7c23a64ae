use oben_gateway::slash_commands::{
    parse_command, str_le, HelpHandler, PauseHandler, ResetHandler, ResumeHandler,
    SlashCommandHandler, SlashCommandRouter, StatusHandler,
};

struct TestHandler;

impl SlashCommandHandler for TestHandler {
    fn handle(&self, _command: &str, _args: Option<String>) -> Result<String, String> {
        Ok("test command handled".to_string())
    }
}

type Router = SlashCommandRouter<Box<dyn SlashCommandHandler>>;

#[test]
fn test_router_register_and_route() {
    let mut router = Router::new();
    router.register("test", Box::new(TestHandler));
    let result = router.route("/test");
    assert_eq!(result, Ok("test command handled".to_string()));
}

#[test]
fn test_router_route_with_args() {
    let mut router = Router::new();
    router.register("pause", Box::new(PauseHandler::new(60)));
    assert_eq!(router.route("/pause 30"), Ok("Session paused for 30 seconds".to_string()));
    assert_eq!(router.route("/pause"), Ok("Session paused for 60 seconds".to_string()));
}

#[test]
fn test_router_unknown_command() {
    let router = Router::new();
    let result = router.route("/unknown");
    assert!(result.is_err());
    assert!(result.unwrap_err().contains("Unknown slash command"));
}

#[test]
fn test_router_list_commands() {
    let mut router = Router::new();
    router.register("pause", Box::new(PauseHandler::new(60)));
    router.register("resume", Box::new(ResumeHandler));
    router.register("status", Box::new(StatusHandler));
    assert_eq!(router.list_commands(), vec!["pause", "resume", "status"]);
}

#[test]
fn test_router_register_all() {
    let mut router = Router::new();
    let handlers: Vec<(String, Box<dyn SlashCommandHandler>)> = vec![
        ("status".to_string(), Box::new(StatusHandler)),
        ("pause".to_string(), Box::new(PauseHandler::new(60))),
        ("resume".to_string(), Box::new(ResumeHandler)),
    ];
    router.register_all(handlers);
    assert_eq!(router.list_commands(), vec!["pause", "resume", "status"]);
}

#[test]
fn test_help_handler() {
    let commands = vec![
        "pause".to_string(),
        "resume".to_string(),
        "status".to_string(),
        "reset".to_string(),
    ];
    let handler = HelpHandler::new(commands);
    let result = handler.handle("help", None).unwrap();
    assert!(result.contains("/pause"));
    assert!(result.contains("/resume"));
    assert!(result.contains("/status"));
    assert!(result.contains("/reset"));
    assert_eq!(result, "Available commands: /pause, /resume, /status, /reset");
}

#[test]
fn command_lines_split_at_first_space() {
    assert_eq!(parse_command("//pause 30 more"), ("pause".to_string(), Some("30 more".to_string())));
    assert_eq!(parse_command("status"), ("status".to_string(), None));
    assert_eq!(parse_command("/"), (String::new(), None));
    assert_eq!(parse_command("/x "), ("x".to_string(), Some(String::new())));
}

#[test]
fn pause_falls_back_on_bad_numbers() {
    let h = PauseHandler::new(45);
    assert_eq!(h.handle("pause", Some("abc".to_string())).unwrap(), "Session paused for 45 seconds");
    assert_eq!(h.handle("pause", Some("+7".to_string())).unwrap(), "Session paused for 7 seconds");
    assert_eq!(h.handle("pause", Some("-7".to_string())).unwrap(), "Session paused for 45 seconds");
    assert_eq!(
        h.handle("pause", Some("18446744073709551616".to_string())).unwrap(),
        "Session paused for 45 seconds"
    );
    assert_eq!(
        h.handle("pause", Some("18446744073709551615".to_string())).unwrap(),
        "Session paused for 18446744073709551615 seconds"
    );
    assert_eq!(ResetHandler.handle("reset", None).unwrap(), "Session reset");
}

#[test]
fn later_registration_replaces_handler() {
    let mut router = Router::new();
    router.register("x", Box::new(StatusHandler));
    router.register("x", Box::new(ResetHandler));
    assert_eq!(router.route("/x"), Ok("Session reset".to_string()));
    assert_eq!(router.list_commands(), vec!["x"]);
}

#[test]
fn string_order_is_lexicographic() {
    assert!(str_le("abc", "abd"));
    assert!(str_le("ab", "abc"));
    assert!(!str_le("b", "abc"));
    assert!(str_le("", ""));
}
