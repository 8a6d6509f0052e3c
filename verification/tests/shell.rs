use zero_shell::commands::{dispatch_command, finish, Builtin};
use zero_shell::parser::parse_input;
use zero_shell::shell::state::ShellState;
use zero_shell::shell::{get_prompt, on_input, on_result, InputEvent, Step};
use zero_shell::types::errors::ShellError;

#[test]
fn new_state_is_running_with_status_zero() {
    let s = ShellState::new();
    assert!(!s.exit_requested);
    assert_eq!(s.exit_code, 0);
}

#[test]
fn input_events() {
    assert!(matches!(on_input(InputEvent::EndOfInput), Step::Stop { newline: true }));
    assert!(matches!(on_input(InputEvent::ReadFailed), Step::Stop { newline: false }));
    assert!(matches!(on_input(InputEvent::Line("  \n".into())), Step::Skip));
    match on_input(InputEvent::Line("  pwd  \n".into())) {
        Step::Run(c) => {
            assert_eq!(c.name, "pwd");
            assert!(c.args.is_empty());
        }
        _ => panic!("expected a command"),
    }
}

#[test]
fn unknown_command_is_reported_and_the_loop_goes_on() {
    let mut st = ShellState::new();
    let cmd = parse_input("frobnicate x").unwrap();
    let r = dispatch_command(&cmd, &mut st);
    assert!(matches!(&r, Err(ShellError::CommandNotFound(n)) if n == "frobnicate"));
    let reaction = on_result(&mut st, r.map(|_| ()));
    assert_eq!(reaction.message.as_deref(), Some("Command 'frobnicate' not found"));
    assert!(!reaction.stop);
}

#[test]
fn builtins_are_routed() {
    let mut st = ShellState::new();
    for (name, b) in [("echo", Builtin::Echo), ("cd", Builtin::Cd), ("ls", Builtin::Ls), ("pwd", Builtin::Pwd), ("cat", Builtin::Cat), ("cp", Builtin::Cp), ("rm", Builtin::Rm), ("mv", Builtin::Mv), ("mkdir", Builtin::Mkdir)] {
        let cmd = parse_input(name).unwrap();
        match dispatch_command(&cmd, &mut st) {
            Ok(got) => assert!(std::mem::discriminant(&got) == std::mem::discriminant(&b)),
            Err(_) => panic!("{} not routed", name),
        }
    }
    assert!(!st.exit_requested);
}

#[test]
fn exit_with_status_stops_the_shell() {
    let mut st = ShellState::new();
    let cmd = parse_input("exit 3").unwrap();
    let r = dispatch_command(&cmd, &mut st);
    assert!(matches!(r, Err(ShellError::Exit(3))));
    assert!(st.exit_requested);
    let reaction = on_result(&mut st, Err(ShellError::Exit(3)));
    assert!(reaction.stop);
    assert!(reaction.message.is_none());
    assert_eq!(st.exit_code, 3);
}

#[test]
fn exit_status_rules() {
    for (line, code) in [("exit", 0), ("exit -1", -1), ("exit abc", 0), ("exit 2147483648", 0), ("exit +9 x", 9)] {
        let mut st = ShellState::new();
        let cmd = parse_input(line).unwrap();
        match dispatch_command(&cmd, &mut st) {
            Err(ShellError::Exit(c)) => assert_eq!(c, code, "{}", line),
            _ => panic!("{}", line),
        }
    }
}

#[test]
fn generic_failures_print_only_when_not_empty() {
    let mut st = ShellState::new();
    let r = on_result(&mut st, Err(ShellError::Generic("boom".into())));
    assert_eq!(r.message.as_deref(), Some("boom"));
    let r = on_result(&mut st, finish(true));
    assert!(r.message.is_none());
    assert!(!r.stop);
    assert!(finish(false).is_ok());
    let r = on_result(&mut st, Ok(()));
    assert!(r.message.is_none() && !r.stop);
}

#[test]
fn prompt_abbreviates_home() {
    assert_eq!(get_prompt(Some("/home/u"), Some("/home/u")), "~ $ ");
    assert_eq!(get_prompt(Some("/home/u/src/x"), Some("/home/u")), "~/src/x $ ");
    assert_eq!(get_prompt(Some("/home/user2"), Some("/home/u")), "/home/user2 $ ");
    assert_eq!(get_prompt(None, Some("/home/u")), "/ $ ");
    assert_eq!(get_prompt(Some("/tmp"), None), "/tmp $ ");
    assert_eq!(get_prompt(Some("/tmp"), Some("")), "~/tmp $ ");
}
