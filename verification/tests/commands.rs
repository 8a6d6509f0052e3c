use zero_shell::commands::{cat, cd, check_operands, cp, echo, mkdir, mv, pwd, rm, transfer_mode, TransferMode};
use zero_shell::types::command::ParsedCommand;
use zero_shell::types::errors::ShellError;
use zero_shell::types::fs::{IoErrorKind, IoFailure, Probe};

fn cmd(name: &str, args: &[&str]) -> ParsedCommand {
    ParsedCommand { name: name.to_string(), args: args.iter().map(|s| s.to_string()).collect() }
}

fn generic(r: Result<(), ShellError>) -> String {
    match r {
        Err(ShellError::Generic(m)) => m,
        _ => panic!("expected a failure"),
    }
}

fn failure(kind: IoErrorKind, text: &str) -> Probe {
    Probe::Failed(IoFailure { kind, text: text.to_string() })
}

#[test]
fn echo_joins_with_spaces() {
    assert_eq!(echo::run(&cmd("echo", &["a b", "", "c"])), "a b  c");
    assert_eq!(echo::run(&cmd("echo", &[])), "");
}

#[test]
fn cd_targets() {
    assert_eq!(cd::target(&cmd("cd", &["/tmp"]), Some("/h")).ok(), Some("/tmp".to_string()));
    assert_eq!(cd::target(&cmd("cd", &[]), Some("/h")).ok(), Some("/h".to_string()));
    assert_eq!(generic(cd::target(&cmd("cd", &[]), None).map(|_| ())), "cd: HOME not set");
    assert_eq!(generic(cd::target(&cmd("cd", &["a", "b"]), Some("/h")).map(|_| ())), "cd: too many arguments");
    assert_eq!(generic(Err(cd::chdir_failed("nowhere"))), "cd: nowhere: No such file or directory");
}

#[test]
fn pwd_failure() {
    assert_eq!(generic(Err(pwd::failed("gone"))), "pwd: gone");
}

#[test]
fn cat_messages() {
    assert_eq!(cat::check_path("f", &Probe::NotDirectory), None);
    assert_eq!(cat::check_path("d", &Probe::Directory).as_deref(), Some("cat: d: Is a directory"));
    assert_eq!(cat::check_path("m", &failure(IoErrorKind::NotFound, "x")).as_deref(), Some("cat: m: No such file or directory"));
    assert_eq!(cat::check_path("p", &failure(IoErrorKind::Other, "Permission denied")).as_deref(), Some("cat: p: Permission denied"));
    assert_eq!(cat::read_failed("p", "I/O error"), "cat: p: I/O error");
}

#[test]
fn cp_and_mv_operands() {
    assert_eq!(generic(check_operands(&cmd("cp", &[]), "cp")), "cp: missing operand");
    assert_eq!(generic(check_operands(&cmd("mv", &["a"]), "mv")), "mv: missing destination file operand after 'a'");
    assert!(check_operands(&cmd("cp", &["a", "b"]), "cp").is_ok());
    assert!(matches!(transfer_mode(&cmd("cp", &["a", "b", "d"]), "cp", true), Ok(TransferMode::IntoDirectory)));
    assert!(matches!(transfer_mode(&cmd("cp", &["a", "b"]), "cp", false), Ok(TransferMode::Single)));
    assert_eq!(generic(transfer_mode(&cmd("cp", &["a", "b", "f"]), "cp", false).map(|_| ())), "cp: target 'f' is not a directory");
}

#[test]
fn cp_sources() {
    assert_eq!(cp::check_source("a", &Probe::NotDirectory), None);
    assert_eq!(cp::check_source("d", &Probe::Directory).as_deref(), Some("cp: -r not specified; omitting directory 'd'"));
    assert_eq!(cp::check_source("m", &failure(IoErrorKind::Other, "x")).as_deref(), Some("cp: m: No such file or directory"));
    assert_eq!(cp::copy_failed("a", "Disk full"), "cp: a: Disk full");
}

#[test]
fn mv_sources() {
    assert_eq!(mv::check_source("d", &Probe::Directory), None);
    assert_eq!(mv::check_source("m", &failure(IoErrorKind::NotFound, "x")).as_deref(), Some("mv: m: No such file or directory"));
    assert_eq!(mv::move_failed("a", "Busy"), "mv: a: Busy");
}

#[test]
fn rm_options_and_targets() {
    let a = rm::options(&cmd("rm", &["-f", "x", "-", "--recursive", "y"]).args);
    assert!(a.recursive);
    assert_eq!(a.targets, vec!["x", "-", "y"]);
    let b = rm::options(&cmd("rm", &["-f", "x"]).args);
    assert!(!b.recursive);
    assert!(rm::options(&cmd("rm", &["-R"]).args).recursive);
    assert!(rm::options(&cmd("rm", &["--force"]).args).recursive);
    assert_eq!(generic(rm::check(&cmd("rm", &["-r"])).map(|_| ())), "rm: missing operand");
}

#[test]
fn rm_decisions() {
    assert!(matches!(rm::decide("d", &Probe::Directory, true), rm::RmAction::RemoveTree));
    assert!(matches!(rm::decide("f", &Probe::NotDirectory, false), rm::RmAction::RemoveFile));
    match rm::decide("d", &Probe::Directory, false) {
        rm::RmAction::Report(m) => assert_eq!(m, "rm: d: Is a directory"),
        _ => panic!(),
    }
    match rm::decide("m", &failure(IoErrorKind::NotFound, "x"), true) {
        rm::RmAction::Report(m) => assert_eq!(m, "rm: m: No such file or directory"),
        _ => panic!(),
    }
    assert_eq!(rm::removal_failed("f", "Denied"), "rm: f: Denied");
}

#[test]
fn mkdir_messages() {
    assert_eq!(generic(mkdir::check(&cmd("mkdir", &[]))), "mkdir: missing operand");
    assert!(mkdir::check(&cmd("mkdir", &["d"])).is_ok());
    let exists = IoFailure { kind: IoErrorKind::AlreadyExists, text: "File exists (os error 17)".into() };
    assert_eq!(mkdir::create_failed("d", &exists), "mkdir: cannot create directory 'd': File exists");
    let other = IoFailure { kind: IoErrorKind::Other, text: "Denied".into() };
    assert_eq!(mkdir::create_failed("d", &other), "mkdir: d: Denied");
}

#[test]
fn echo_prints_quoted_words_back() {
    let c = zero_shell::parser::parse_input("echo \"a  b\" 'c d' e").unwrap();
    assert_eq!(echo::run(&c), "a  b c d e");
}

#[test]
fn rm_directory_needs_recursion() {
    let plain = rm::check(&cmd("rm", &["d"])).ok().unwrap();
    assert!(!plain.recursive);
    assert!(matches!(rm::decide("d", &Probe::Directory, plain.recursive), rm::RmAction::Report(_)));
    let flagged = rm::check(&cmd("rm", &["-fr", "d"])).ok().unwrap();
    assert!(flagged.recursive);
    assert_eq!(flagged.targets, vec!["d"]);
    assert!(matches!(rm::decide("d", &Probe::Directory, flagged.recursive), rm::RmAction::RemoveTree));
}
