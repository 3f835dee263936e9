use admin_client::config::Config;
use admin_client::errors::{error_line, ClientError};
use admin_client::request::AdminOp;
use admin_client::session::{
    op_of, parse_command, session_step, set_token, unknown_command_message, validated_token,
    Command, ReadEvent, SessionStep,
};

#[test]
fn commands_parse_by_name() {
    assert_eq!(parse_command("exit"), Command::Exit);
    assert_eq!(parse_command("clear"), Command::Clear);
    assert_eq!(parse_command("set_token"), Command::SetToken);
    assert_eq!(parse_command("admin"), Command::Admin);
    assert_eq!(parse_command("clear_uploads"), Command::ClearUploads);
    assert_eq!(parse_command("list_uploads"), Command::ListUploads);
    assert_eq!(parse_command("log"), Command::Log);
}

#[test]
fn unrecognized_input_is_unknown() {
    assert_eq!(parse_command("wat"), Command::Unknown);
    assert_eq!(parse_command("EXIT"), Command::Unknown);
    assert_eq!(parse_command("exit now"), Command::Unknown);
    assert_eq!(unknown_command_message("wat"), "Unknown command wat");
}

#[test]
fn commands_map_to_operations() {
    assert_eq!(op_of(Command::Admin), Some(AdminOp::Admin));
    assert_eq!(op_of(Command::ClearUploads), Some(AdminOp::ClearUploads));
    assert_eq!(op_of(Command::ListUploads), Some(AdminOp::ListUploads));
    assert_eq!(op_of(Command::Log), Some(AdminOp::Log));
    assert_eq!(op_of(Command::Exit), None);
    assert_eq!(op_of(Command::Clear), None);
    assert_eq!(op_of(Command::SetToken), None);
    assert_eq!(op_of(Command::Unknown), None);
}

#[test]
fn empty_lines_are_ignored() {
    assert!(matches!(
        session_step(ReadEvent::Line(String::from(""))),
        SessionStep::Ignore
    ));
    assert!(matches!(
        session_step(ReadEvent::Line(String::from("  \t "))),
        SessionStep::Ignore
    ));
}

#[test]
fn lines_are_trimmed_and_dispatched() {
    match session_step(ReadEvent::Line(String::from("  admin  "))) {
        SessionStep::Execute(c, entry) => {
            assert_eq!(c, Command::Admin);
            assert_eq!(entry, "admin");
        }
        _ => panic!("expected a command"),
    }
    match session_step(ReadEvent::Line(String::from("wat"))) {
        SessionStep::Execute(c, entry) => {
            assert_eq!(c, Command::Unknown);
            assert_eq!(entry, "wat");
        }
        _ => panic!("expected a command"),
    }
}

#[test]
fn interrupt_and_eof_quit_cleanly() {
    match session_step(ReadEvent::Interrupted) {
        SessionStep::Quit(m) => assert_eq!(m, "Ctrl-C - exit"),
        _ => panic!("expected a clean exit"),
    }
    match session_step(ReadEvent::Eof) {
        SessionStep::Quit(m) => assert_eq!(m, "Ctrl-D - exit"),
        _ => panic!("expected a clean exit"),
    }
    assert!(matches!(session_step(ReadEvent::Failed), SessionStep::Abort));
}

#[test]
fn set_token_rejects_blank_input() {
    let mut c = Config {
        url: String::from("http://server/admin"),
        token: String::from("old"),
    };
    assert_eq!(set_token(&mut c, String::from("")), Err(ClientError::EmptyToken));
    assert_eq!(set_token(&mut c, String::from("   \t\n")), Err(ClientError::EmptyToken));
    assert_eq!(c.token, "old");
    assert_eq!(c.url, "http://server/admin");
}

#[test]
fn set_token_stores_trimmed_input() {
    let mut c = Config {
        url: String::from("http://server/admin"),
        token: String::from(""),
    };
    assert_eq!(set_token(&mut c, String::from("  abc \n")), Ok(()));
    assert_eq!(c.token, "abc");
    assert_eq!(c.url, "http://server/admin");
}

#[test]
fn entered_tokens_are_validated() {
    assert_eq!(validated_token(""), Err(ClientError::EmptyToken));
    assert_eq!(validated_token(" \t"), Err(ClientError::EmptyToken));
    assert_eq!(validated_token(" xyz \n"), Ok(String::from("xyz")));
}

#[test]
fn error_lines_carry_context() {
    assert_eq!(
        error_line("in admin", "request could not be sent"),
        "Error in admin: request could not be sent"
    );
    assert_eq!(
        error_line("setting token", &ClientError::EmptyToken.message()),
        "Error setting token: token can't be empty"
    );
}
