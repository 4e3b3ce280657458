use taskmaster::actions::Action;
use taskmaster::actions::ParseActionError;

#[test]
fn quit() -> Result<(), ParseActionError> {
    let action: Action = Action::try_from(String::from("quit"))?;
    assert_eq!(action, Action::Quit);
    let action: Action = Action::try_from(String::from("qUit"))?;
    assert_eq!(action, Action::Quit);
    let action: Action = Action::try_from(String::from("QUit"))?;
    assert_eq!(action, Action::Quit);
    let action: Action = Action::try_from(String::from("qUit "))?;
    assert_eq!(action, Action::Quit);
    Ok(())
}

#[test]
fn quit_with_args() -> Result<(), ParseActionError> {
    let action = String::from("quit bonjour");
    match Action::try_from(action) {
        Err(ParseActionError::ToManyArguments(_)) => assert!(true),
        _ => assert!(false),
    }
    Ok(())
}

#[test]
fn convert_string_1() -> Result<(), ParseActionError> {
    let action = Action::Reload;
    assert_eq!(action.to_string(), String::from("reload"));
    Ok(())
}

#[test]
fn convert_string_2() -> Result<(), ParseActionError> {
    let action = Action::Start(vec![String::from("bonjour"), String::from("Hello")]);
    let cpy: Action = Action::try_from(action.clone().to_string())?;
    assert_eq!(cpy, action);
    Ok(())
}

#[test]
fn reload() -> Result<(), ParseActionError> {
    let action: Action = Action::try_from(String::from("reload"))?;
    assert_eq!(action, Action::Reload);
    let action: Action = Action::try_from(String::from("Reload"))?;
    assert_eq!(action, Action::Reload);
    let action: Action = Action::try_from(String::from("RELOAD"))?;
    assert_eq!(action, Action::Reload);
    let action: Action = Action::try_from(String::from("reLoad"))?;
    assert_eq!(action, Action::Reload);
    Ok(())
}

#[test]
fn reload_with_args() -> Result<(), ParseActionError> {
    let action = String::from("reload bonjour");
    match Action::try_from(action) {
        Err(ParseActionError::ToManyArguments(_)) => assert!(true),
        _ => assert!(false),
    }
    Ok(())
}

#[test]
fn restart() -> Result<(), ParseActionError> {
    let action: Action = Action::try_from(String::from("restart blabla"))?;
    assert_eq!(action, Action::Restart(vec!["blabla".to_string()]));
    let action: Action = Action::try_from(String::from("Restart blabla"))?;
    assert_eq!(action, Action::Restart(vec!["blabla".to_string()]));
    let action: Action = Action::try_from(String::from("restArt blabla"))?;
    assert_eq!(action, Action::Restart(vec!["blabla".to_string()]));
    let action: Action = Action::try_from(String::from("RESTART blabla"))?;
    assert_eq!(action, Action::Restart(vec!["blabla".to_string()]));
    Ok(())
}

#[test]
fn restart_without_args() -> Result<(), ParseActionError> {
    let action = String::from("restart");
    match Action::try_from(action) {
        Err(ParseActionError::NoProgramsProvided(_)) => assert!(true),
        _ => assert!(false),
    }
    Ok(())
}

#[test]
fn unknown_command() -> Result<(), ParseActionError> {
    let cmd = String::from("Bonjour");
    match Action::try_from(cmd) {
        Err(ParseActionError::UnrecognizedAction(_)) => assert!(true),
        _ => assert!(false),
    }
    Ok(())
}

#[test]
fn status_and_stop_round_trip() -> Result<(), ParseActionError> {
    let action: Action = Action::try_from(String::from("STATUS"))?;
    assert_eq!(action, Action::Status);
    let stop = Action::Stop(vec![String::from("web"), String::from("db")]);
    assert_eq!(stop.to_string(), String::from("stop web db"));
    let back: Action = Action::try_from(stop.to_string())?;
    assert_eq!(back, stop);
    Ok(())
}

#[test]
fn parse_tolerates_extra_whitespace() -> Result<(), ParseActionError> {
    let action: Action = Action::try_from(String::from("  sToP\tweb  db \n"))?;
    assert_eq!(
        action,
        Action::Stop(vec![String::from("web"), String::from("db")])
    );
    Ok(())
}

#[test]
fn unicode_whitespace_separates_tokens() -> Result<(), ParseActionError> {
    let action: Action = Action::try_from(String::from("stop\u{a0}web\u{2003}db"))?;
    assert_eq!(
        action,
        Action::Stop(vec![String::from("web"), String::from("db")])
    );
    Ok(())
}

#[test]
fn parse_error_messages() {
    match Action::try_from(String::from("")) {
        Err(e @ ParseActionError::NoCommandFound) => {
            assert_eq!(e.message(), "No command found\n");
        }
        _ => panic!("empty line must yield NoCommandFound"),
    }
    match Action::try_from(String::from("start")) {
        Err(e @ ParseActionError::NoProgramsProvided(_)) => {
            assert_eq!(e.message(), "The command start needs programs to run\n");
        }
        _ => panic!("bare start must need programs"),
    }
    match Action::try_from(String::from("Status now")) {
        Err(e @ ParseActionError::ToManyArguments(_)) => {
            assert_eq!(e.message(), "The command status doesn't take programs\n");
        }
        _ => panic!("status takes no arguments"),
    }
    match Action::try_from(String::from("frobnicate x")) {
        Err(e @ ParseActionError::UnrecognizedAction(_)) => {
            assert_eq!(e.message(), "The command frobnicate is not recognized\n");
        }
        _ => panic!("unknown command must be rejected"),
    }
}
