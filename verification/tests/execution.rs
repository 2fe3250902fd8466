use nix::unistd::Pid;
use shell_engine::brace::{BraceStep, CommandBrace};
use shell_engine::command::CommandNode;
use shell_engine::elem_command::{Command, SimpleAction};
use shell_engine::elem_compound_while::{CompoundWhile, WhileStep};
use shell_engine::elem_pipeline::Pipeline;
use shell_engine::feeder::Feeder;
use shell_engine::file_descs::FileDescs;
use shell_engine::if_command::{CommandIf, IfStep};
use shell_engine::operators::ControlOperator;
use shell_engine::process::{needs_report, ExecMode, WaitOutcome, EXEC_FAILED};
use shell_engine::script::Script;
use shell_engine::redirect::{OpenMode, Redirect, RedirectAction};
use shell_engine::decimal::{decimal_of, parse_number};
use shell_engine::shell_core::ShellCore;

fn text(v: &Vec<char>) -> String {
    v.iter().collect()
}

fn core_with_status(status: &str) -> ShellCore {
    let mut core = ShellCore::new();
    core.set("?", status);
    core
}

#[test]
fn new_core_holds_status_zero() {
    let core = ShellCore::new();
    assert_eq!(core.get("?"), Some("0".to_string()));
    assert_eq!(core.get("HOME"), None);
    assert!(core.status_is_zero());
}

#[test]
fn set_replaces_and_keeps_other_variables() {
    let mut core = ShellCore::new();
    core.set("A", "1");
    core.set("B", "2");
    core.set("A", "3");
    assert_eq!(core.get("A"), Some("3".to_string()));
    assert_eq!(core.get("B"), Some("2".to_string()));
    assert_eq!(core.get("?"), Some("0".to_string()));
    assert_eq!(core.vars.len(), 3);
}

#[test]
fn decimal_of_writes_numbers() {
    assert_eq!(text(&decimal_of(0)), "0");
    assert_eq!(text(&decimal_of(7)), "7");
    assert_eq!(text(&decimal_of(127)), "127");
    assert_eq!(text(&decimal_of(1000)), "1000");
    assert_eq!(text(&decimal_of(-15)), "-15");
    assert_eq!(text(&decimal_of(2147483775)), "2147483775");
}

#[test]
fn exit_code_becomes_status() {
    let mut core = ShellCore::new();
    core.record_wait(WaitOutcome::Exited(3));
    assert_eq!(core.get("?"), Some("3".to_string()));
    assert!(!core.status_is_zero());
    core.record_wait(WaitOutcome::Exited(0));
    assert_eq!(core.get("?"), Some("0".to_string()));
    assert!(core.status_is_zero());
    core.record_wait(WaitOutcome::Exited(127));
    assert_eq!(core.get("?"), Some("127".to_string()));
}

#[test]
fn signal_becomes_status_above_128() {
    let mut core = ShellCore::new();
    core.record_wait(WaitOutcome::Signaled(9));
    assert_eq!(core.get("?"), Some("137".to_string()));
    core.record_wait(WaitOutcome::Signaled(15));
    assert_eq!(core.get("?"), Some("143".to_string()));
    core.record_wait(WaitOutcome::Signaled(2));
    assert_eq!(core.get("?"), Some("130".to_string()));
}

#[test]
fn other_wait_outcome_leaves_status() {
    let mut core = core_with_status("42");
    core.record_wait(WaitOutcome::Other);
    assert_eq!(core.get("?"), Some("42".to_string()));
}

#[test]
fn abnormal_ends_are_reported() {
    assert!(!needs_report(WaitOutcome::Exited(0)));
    assert!(needs_report(WaitOutcome::Exited(1)));
    assert!(needs_report(WaitOutcome::Signaled(9)));
    assert!(needs_report(WaitOutcome::Other));
    assert_eq!(EXEC_FAILED, 127);
}

#[test]
fn wait_command_strips_one_newline() {
    let p = Pipeline::new();
    let mut core = ShellCore::new();
    assert_eq!(p.wait_command("hello\n", WaitOutcome::Exited(0), &mut core), "hello");
    assert_eq!(p.wait_command("hello\n\n", WaitOutcome::Exited(0), &mut core), "hello\n");
    assert_eq!(p.wait_command("hello", WaitOutcome::Exited(0), &mut core), "hello");
    assert_eq!(p.wait_command("", WaitOutcome::Exited(2), &mut core), "");
    assert_eq!(core.get("?"), Some("2".to_string()));
    assert_eq!(p.wait_command("x\n", WaitOutcome::Signaled(11), &mut core), "x");
    assert_eq!(core.get("?"), Some("139".to_string()));
}

#[test]
fn pipeline_of_three_opens_two_pipes() {
    let mut f = Feeder::new("a | b | c\n");
    let p = Pipeline::parse(&mut f).unwrap();
    let plan = p.exec();
    assert_eq!(plan.len(), 3);
    assert_eq!(plan.iter().filter(|s| s.pipe_to_next).count(), 2);
    assert_eq!(plan.iter().filter(|s| s.wait).count(), 1);
    assert!(plan[0].pipe_to_next && plan[1].pipe_to_next && !plan[2].pipe_to_next);
    assert!(plan[2].wait);
    assert!(plan.iter().all(|s| !s.capture));
}

#[test]
fn pipeline_of_one_opens_no_pipe() {
    let mut f = Feeder::new("ls -l\n");
    let mut p = Pipeline::parse(&mut f).unwrap();
    p.expansion = true;
    let plan = p.exec();
    assert_eq!(plan.len(), 1);
    assert!(!plan[0].pipe_to_next);
    assert!(plan[0].wait);
    assert!(plan[0].capture);
}

#[test]
fn empty_pipeline_plans_nothing() {
    let p = Pipeline::new();
    assert!(p.exec().is_empty());
    assert_eq!(p.last_eoc(), ControlOperator::NoChar);
    assert!(p.commands.is_empty());
    assert!(!p.expansion);
}

#[test]
fn exit_ends_the_interpreter() {
    let mut f = Feeder::new("exit\n");
    let c = Command::parse(&mut f).unwrap();
    assert!(matches!(c.exec(), SimpleAction::Exit(0)));
}

#[test]
fn cd_changes_directory_without_a_process() {
    let mut f = Feeder::new("cd /valid/dir\n");
    let c = Command::parse(&mut f).unwrap();
    match c.exec() {
        SimpleAction::ChangeDir(path) => assert_eq!(path, "/valid/dir"),
        _ => panic!("cd must not start a process"),
    }
}

#[test]
fn other_commands_are_spawned() {
    let mut f = Feeder::new("grep -n cd file > out\n");
    let c = Command::parse(&mut f).unwrap();
    match c.exec() {
        SimpleAction::Spawn(argv) => assert_eq!(argv, vec!["grep", "-n", "cd", "file"]),
        _ => panic!("a process was expected"),
    }
    let mut g = Feeder::new("cd\n");
    let bare = Command::parse(&mut g).unwrap();
    assert!(matches!(bare.exec(), SimpleAction::Spawn(_)));
}

#[test]
fn if_false_selects_else_branch() {
    let mut f = Feeder::new("if false; then echo a; else echo b; fi");
    let c = CommandIf::parse(&mut f).unwrap();
    let failed = core_with_status("1");
    assert_eq!(c.exec_elems(IfStep::Start, &failed), IfStep::Condition(0));
    assert_eq!(c.exec_elems(IfStep::Condition(0), &failed), IfStep::Else);
    assert_eq!(c.exec_elems(IfStep::Else, &failed), IfStep::Done);
    assert_eq!(text(&c.else_do.as_ref().unwrap().text), " echo b;");
}

#[test]
fn if_true_selects_first_branch() {
    let mut f = Feeder::new("if true; then echo a; else echo b; fi");
    let c = CommandIf::parse(&mut f).unwrap();
    let ok = ShellCore::new();
    assert_eq!(c.exec_elems(IfStep::Condition(0), &ok), IfStep::Branch(0));
    assert_eq!(c.exec_elems(IfStep::Branch(0), &ok), IfStep::Done);
    assert_eq!(c.exec_elems(IfStep::Done, &ok), IfStep::Done);
}

#[test]
fn if_without_match_and_else_does_nothing() {
    let mut f = Feeder::new("if a; then b; elif c; then d; fi");
    let c = CommandIf::parse(&mut f).unwrap();
    let failed = core_with_status("2");
    let ok = ShellCore::new();
    assert_eq!(c.exec_elems(IfStep::Condition(0), &failed), IfStep::Condition(1));
    assert_eq!(c.exec_elems(IfStep::Condition(1), &ok), IfStep::Branch(1));
    assert_eq!(c.exec_elems(IfStep::Condition(1), &failed), IfStep::Done);
    assert_eq!(c.exec_elems(IfStep::Condition(5), &ok), IfStep::Done);
    assert_eq!(CommandIf::new().exec_elems(IfStep::Start, &ok), IfStep::Done);
}

#[test]
fn while_runs_body_until_condition_fails() {
    let mut f = Feeder::new("while c; do b; done");
    let w = CompoundWhile::parse(&mut f).unwrap();
    let results = ["0", "0", "0", "1"];
    let mut core = ShellCore::new();
    let mut step = w.exec_do_compound(WhileStep::Start, &core);
    let mut bodies = 0;
    let mut conditions = 0;
    while step != WhileStep::Done {
        match step {
            WhileStep::Condition => {
                core.set("?", results[conditions]);
                conditions += 1;
            }
            WhileStep::Body => bodies += 1,
            _ => unreachable!(),
        }
        step = w.exec_do_compound(step, &core);
    }
    assert_eq!(bodies, 3);
    assert_eq!(conditions, 4);
}

#[test]
fn while_without_parts_ends_at_once() {
    let w = CompoundWhile::new();
    let core = ShellCore::new();
    assert_eq!(w.exec_do_compound(WhileStep::Start, &core), WhileStep::Done);
    assert!(w.conddo.is_none());
    assert_eq!(w.get_text(), "");
    assert!(w.get_pid().is_none());
}

#[test]
fn while_forks_only_with_connections() {
    let mut f = Feeder::new("while c; do b; done");
    let mut w = CompoundWhile::parse(&mut f).unwrap();
    assert_eq!(w.exec(), ExecMode::InProcess);
    w.set_pipe(3, 4, -1);
    assert_eq!(w.exec(), ExecMode::Forked);
    assert_eq!(w.get_pipe_end(), 3);
    assert_eq!(w.get_pipe_out(), 4);
    let mut g = Feeder::new("while c; do b; done > f\n");
    let r = CompoundWhile::parse(&mut g).unwrap();
    assert_eq!(r.exec(), ExecMode::Forked);
    assert_eq!(r.get_eoc_string(), "\n");
}

#[test]
fn brace_group_without_redirect_runs_in_process() {
    let mut f = Feeder::new("{ cd /tmp; ls; }");
    let c = CommandBrace::parse(&mut f).unwrap();
    assert!(c.no_connection());
    assert_eq!(c.exec_mode(), ExecMode::InProcess);
    assert_eq!(c.exec_elems(BraceStep::Start), BraceStep::Script);
    assert_eq!(c.exec_elems(BraceStep::Script), BraceStep::Done);
    assert_eq!(c.script.list.len(), 2);
}

#[test]
fn brace_group_with_redirect_runs_in_a_child() {
    let mut f = Feeder::new("{ cd /tmp; ls; } > out");
    let c = CommandBrace::parse(&mut f).unwrap();
    assert!(!c.no_connection());
    assert_eq!(c.exec_mode(), ExecMode::Forked);
    assert_eq!(c.exec_elems(BraceStep::Script), BraceStep::Exit);
    assert_eq!(c.exec_elems(BraceStep::Exit), BraceStep::Done);
}

#[test]
fn new_brace_group_is_unconnected() {
    let mut f = Feeder::new("ls;");
    let sc = Script::parse(&mut f).unwrap();
    let c = CommandBrace::new(sc);
    assert_eq!(c.get_text(), "");
    assert!(c.get_pid().is_none());
    assert!(c.no_connection());
    assert!(!c.set_group());
    assert_eq!(text(&c.script.text), "ls;");
}

#[test]
fn new_if_command_is_empty() {
    let c = CommandIf::new();
    assert!(c.ifthen.is_empty());
    assert!(c.else_do.is_none());
    assert!(c.no_connection());
    assert_eq!(c.get_text(), "");
    assert_eq!(c.get_eoc_string(), "");
}

#[test]
fn pid_and_group_are_recorded() {
    let mut f = Feeder::new("if a; then b; fi | cat");
    let mut node = CommandNode::parse(&mut f).unwrap();
    assert!(node.get_pid().is_none());
    assert!(!node.set_group());
    node.set_pid(Pid::from_raw(4242));
    node.set_group_leader();
    assert_eq!(node.get_pid(), Some(Pid::from_raw(4242)));
    assert!(node.set_group());
    assert_eq!(node.get_eoc(), ControlOperator::Pipe);
    assert_eq!(node.get_text(), "if a; then b; fi |");
}

#[test]
fn pipes_connect_a_node() {
    let mut f = Feeder::new("ls");
    let mut node = CommandNode::parse(&mut f).unwrap();
    assert!(node.no_connection());
    assert_eq!(node.exec_mode(), ExecMode::InProcess);
    node.set_pipe(5, 6, 7);
    assert!(!node.no_connection());
    assert_eq!(node.get_pipe_end(), 5);
    assert_eq!(node.get_pipe_out(), 6);
    assert_eq!(node.exec_mode(), ExecMode::Forked);
}

#[test]
fn file_descs_start_unconnected() {
    let mut fds = FileDescs::new();
    assert!(fds.no_connection());
    assert_eq!((fds.pipein, fds.pipeout, fds.prevpipein), (-1, -1, -1));
    fds.set_pipe(-1, -1, 3);
    assert!(!fds.no_connection());
}

#[test]
fn control_operators_have_their_text() {
    assert_eq!(ControlOperator::Or.text(), "||");
    assert_eq!(ControlOperator::SemiSemiAnd.text(), ";;&");
    assert_eq!(ControlOperator::NewLine.text(), "\n");
    assert_eq!(ControlOperator::NoChar.text(), "");
    let mut f = Feeder::new("ls && pwd");
    let c = Command::parse(&mut f).unwrap();
    assert_eq!(c.get_eoc_string(), "&&");
}

#[test]
fn status_code_reads_the_status_back() {
    let mut core = ShellCore::new();
    assert_eq!(core.status_code(), Some(0));
    core.record_wait(WaitOutcome::Exited(42));
    assert_eq!(core.status_code(), Some(42));
    core.record_wait(WaitOutcome::Signaled(9));
    assert_eq!(core.status_code(), Some(137));
    core.record_wait(WaitOutcome::Exited(-3));
    assert_eq!(core.status_code(), Some(-3));
    core.set("?", "abc");
    assert_eq!(core.status_code(), None);
}

#[test]
fn parse_number_reads_decimals() {
    let n = |t: &str| parse_number(&t.chars().collect());
    assert_eq!(n("0"), Some(0));
    assert_eq!(n("007"), Some(7));
    assert_eq!(n("2147483647"), Some(2147483647));
    assert_eq!(n("2147483648"), None);
    assert_eq!(n("-2147483648"), Some(-2147483648));
    assert_eq!(n("-2147483649"), None);
    assert_eq!(n("9999999999"), None);
    assert_eq!(n("00000000001"), Some(1));
    assert_eq!(n("-000000000000"), Some(0));
    assert_eq!(n("+2147483647"), Some(2147483647));
    assert_eq!(n("+"), None);
    assert_eq!(n("99999999999999999999999"), None);
    assert_eq!(n(""), None);
    assert_eq!(n("-"), None);
    assert_eq!(n("12a"), None);
    assert_eq!(n("+1"), Some(1));
    assert_eq!(n("--1"), None);
    assert_eq!(n(" 1"), None);
    assert_eq!(n("1-"), None);
}

#[test]
fn redirections_ask_for_their_descriptors() {
    let act = |t: &str| {
        let mut f = Feeder::new(t);
        Redirect::parse(&mut f).unwrap().action()
    };
    let open = |mode, stdin, stdout, stderr| RedirectAction::Open { mode, stdin, stdout, stderr };
    assert_eq!(act("> f"), open(OpenMode::Truncate, false, true, false));
    assert_eq!(act(">> f"), open(OpenMode::Append, false, true, false));
    assert_eq!(act("&> f"), open(OpenMode::Truncate, false, true, true));
    assert_eq!(act("&>> f"), open(OpenMode::Append, false, true, true));
    assert_eq!(act("< f"), open(OpenMode::Read, true, false, false));
    assert_eq!(act("<> f"), open(OpenMode::ReadWrite, true, false, false));
    assert_eq!(act(">&2"), RedirectAction::Duplicate { from: 2 });
    assert_eq!(act(">& f"), open(OpenMode::Truncate, false, true, true));
    assert_eq!(act(">& -1"), open(OpenMode::Truncate, false, true, true));
    assert_eq!(act("<< EOF"), RedirectAction::Nothing);
    assert_eq!(act("<<< word"), RedirectAction::Nothing);
}

#[test]
fn parse_number_agrees_with_std() {
    for t in ["0", "+0", "-0", "12", "-12", "+12", "0012", "2147483648", "-2147483648", "", "-", "+", "1 ", "a", "1e3"] {
        assert_eq!(parse_number(&t.chars().collect()), t.parse::<i32>().ok());
    }
}

#[test]
fn child_status_of_each_kind() {
    let core = {
        let mut c = ShellCore::new();
        c.record_wait(WaitOutcome::Exited(5));
        c
    };
    let node = |t: &str| CommandNode::parse(&mut Feeder::new(t)).unwrap();
    assert_eq!(node("while a; do b; done").child_status(&core), Some(0));
    assert_eq!(node("if a; then b; fi").child_status(&core), Some(5));
    assert_eq!(node("{ a; }").child_status(&core), Some(5));
}
